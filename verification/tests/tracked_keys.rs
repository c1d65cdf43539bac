use std::collections::HashSet;
use ssh_key_picker::key_type::KeyType;
use ssh_key_picker::tracked_key::{FilePresence, FileMove, TrackedKey};
use ssh_key_picker::tracked_keys::{confirms_deletion, KeyError, KeyRequest, KeySelection, TrackedKeys};

fn key(name: &str, key_type: KeyType) -> TrackedKey {
    TrackedKey { name: name.to_string(), key_type }
}

fn registry() -> TrackedKeys {
    let mut tk = TrackedKeys::new("/h/.ssh".to_string(), "/h/.ssh/disabled".to_string());
    assert!(tk.track_key(key("Personal", KeyType::Ed25519(false))));
    assert!(tk.track_key(key("Professional", KeyType::Rsa(false))));
    assert!(tk.track_key(key("Backup", KeyType::Ecdsa256(true))));
    tk
}

fn moves(v: &[FileMove]) -> Vec<(String, String)> {
    v.iter().map(|m| (m.from.clone(), m.to.clone())).collect()
}

fn pair(a: &str, b: &str) -> (String, String) {
    (a.to_string(), b.to_string())
}

#[test]
fn enabled_and_disabled_paths() {
    let k = key("Personal", KeyType::Ed25519(false));
    let e = k.get_enabled_paths("/h/.ssh");
    assert_eq!(e.private, "/h/.ssh/id_ed25519");
    assert_eq!(e.public, "/h/.ssh/id_ed25519.pub");
    let d = k.get_disabled_paths("/h/.ssh/disabled");
    assert_eq!(d.private, "/h/.ssh/disabled/Personal");
    assert_eq!(d.public, "/h/.ssh/disabled/Personal.pub");
}

#[test]
fn disabled_public_path_replaces_an_extension_in_the_name() {
    let k = key("my.key", KeyType::Rsa(true));
    let d = k.get_disabled_paths("/h/.ssh/disabled");
    assert_eq!(d.private, "/h/.ssh/disabled/my.key");
    assert_eq!(d.public, "/h/.ssh/disabled/my.pub");
    assert_eq!(k.get_enabled_paths("/h/.ssh").private, "/h/.ssh/id_rsa_sk");
}

#[test]
fn find_key_exact() {
    let tk = registry();
    assert_eq!(tk.find_key("Professional").unwrap().key_type, KeyType::Rsa(false));
    assert!(tk.find_key("professional").is_none());
    assert!(tk.find_key("Pro").is_none());
}

#[test]
fn find_key_by_partial_prefers_exact_name() {
    let mut tk = registry();
    assert!(tk.track_key(key("Per", KeyType::Dss(false))));
    assert_eq!(tk.find_key_by_partial("Per").unwrap().name, "Per");
}

#[test]
fn find_key_by_partial_ignores_case() {
    let tk = registry();
    assert_eq!(tk.find_key_by_partial("pers").unwrap().name, "Personal");
    assert_eq!(tk.find_key_by_partial("PRO").unwrap().name, "Professional");
    assert_eq!(tk.find_key_by_partial("p").unwrap().name, "Personal");
    assert!(tk.find_key_by_partial("work").is_none());
}

#[test]
fn get_active_key_follows_active_name() {
    let mut tk = registry();
    assert!(tk.get_active_key().is_none());
    tk.activate_key(&key("Backup", KeyType::Ecdsa256(true)));
    assert_eq!(tk.active, Some("Backup".to_string()));
    assert_eq!(tk.get_active_key().unwrap().name, "Backup");
    tk.active = Some("Gone".to_string());
    assert!(tk.get_active_key().is_none());
}

#[test]
fn activation_moves_bring_files_in() {
    let tk = registry();
    let k = key("Personal", KeyType::Ed25519(false));
    assert_eq!(
        moves(&tk.activation_moves(&k)),
        vec![
            pair("/h/.ssh/disabled/Personal", "/h/.ssh/id_ed25519"),
            pair("/h/.ssh/disabled/Personal.pub", "/h/.ssh/id_ed25519.pub"),
        ]
    );
}

#[test]
fn deactivation_undoes_activation() {
    let mut tk = registry();
    let k = key("Backup", KeyType::Ecdsa256(true));
    let inward = moves(&tk.activation_moves(&k));
    tk.activate_key(&k);
    let outward = moves(&tk.deactivation_moves());
    assert_eq!(outward.len(), 2);
    for (a, b) in inward.iter().zip(outward.iter()) {
        assert_eq!((a.1.clone(), a.0.clone()), *b);
    }
    tk.deactivate_key();
    assert_eq!(tk.active, None);
    assert!(tk.get_active_key().is_none());
}

#[test]
fn deactivation_without_tracked_active_key() {
    let mut tk = registry();
    assert!(tk.deactivation_moves().is_empty());
    tk.active = Some("Gone".to_string());
    assert!(tk.deactivation_moves().is_empty());
    tk.deactivate_key();
    assert_eq!(tk.active, Some("Gone".to_string()));
}

#[test]
fn active_state_check() {
    let mut tk = registry();
    tk.activate_key(&key("Personal", KeyType::Ed25519(false)));
    let both = FilePresence { private: true, public: true };
    let only_private = FilePresence { private: true, public: false };
    let none = FilePresence { private: false, public: false };
    assert!(tk.active_state_moves(both, none).is_empty());
    assert_eq!(
        moves(&tk.active_state_moves(only_private, none)),
        vec![pair("/h/.ssh/id_ed25519", "/h/.ssh/disabled/Personal")]
    );
    assert!(tk.active_state_moves(only_private, only_private).is_empty());
    assert!(!tk.update_active_state(both));
    assert_eq!(tk.active, Some("Personal".to_string()));
    assert!(tk.update_active_state(only_private));
    assert_eq!(tk.active, None);
    assert!(!tk.update_active_state(none));
}

#[test]
fn lost_keys() {
    let mut tk = registry();
    tk.activate_key(&key("Personal", KeyType::Ed25519(false)));
    assert!(tk.key_is_active(0));
    assert!(!tk.key_is_active(1));
    let lost = tk.lost_and_found_dir().unwrap();
    assert_eq!(lost, "/h/.ssh/lost-and-found");
    let public_only = FilePresence { private: false, public: true };
    assert_eq!(
        moves(&tk.lost_key_moves(1, public_only, &lost)),
        vec![pair("/h/.ssh/disabled/Professional.pub", "/h/.ssh/lost-and-found/Professional.pub")]
    );
    let private_only = FilePresence { private: true, public: false };
    assert_eq!(
        moves(&tk.lost_key_moves(2, private_only, &lost)),
        vec![pair("/h/.ssh/disabled/Backup", "/h/.ssh/lost-and-found/Backup")]
    );
    assert!(tk.lost_key_moves(2, FilePresence { private: true, public: true }, &lost).is_empty());
}

#[test]
fn lost_and_found_needs_a_parent() {
    let tk = TrackedKeys::new("/h/.ssh".to_string(), "/".to_string());
    assert_eq!(tk.lost_and_found_dir(), None);
}

fn names(tk: &TrackedKeys) -> Vec<String> {
    tk.keys.iter().map(|k| k.name.clone()).collect()
}

const BOTH: FilePresence = FilePresence { private: true, public: true };
const NONE: FilePresence = FilePresence { private: false, public: false };
const PRIVATE_ONLY: FilePresence = FilePresence { private: true, public: false };

#[test]
fn single_lost_key_dropped() {
    let mut tk = registry();
    assert!(tk.update_tracked_keys(&vec![BOTH, PRIVATE_ONLY, BOTH]));
    assert_eq!(names(&tk), vec!["Personal", "Backup"]);
}

#[test]
fn several_lost_keys_dropped() {
    let mut tk = registry();
    assert!(tk.update_tracked_keys(&vec![NONE, PRIVATE_ONLY, BOTH]));
    assert_eq!(names(&tk), vec!["Backup"]);
    let mut tk = registry();
    assert!(tk.update_tracked_keys(&vec![BOTH, NONE, NONE]));
    assert_eq!(names(&tk), vec!["Personal"]);
}

#[test]
fn active_key_is_never_dropped() {
    let mut tk = registry();
    tk.activate_key(&key("Professional", KeyType::Rsa(false)));
    assert!(!tk.update_tracked_keys(&vec![BOTH, NONE, BOTH]));
    assert_eq!(names(&tk), vec!["Personal", "Professional", "Backup"]);
}

#[test]
fn update_state_combines_flags() {
    let mut tk = registry();
    assert!(!tk.update_state(false, &vec![BOTH, BOTH, BOTH]));
    assert!(tk.update_state(true, &vec![BOTH, BOTH, BOTH]));
    assert_eq!(tk.keys.len(), 3);
    assert!(tk.update_state(false, &vec![BOTH, BOTH, NONE]));
    assert_eq!(names(&tk), vec!["Personal", "Professional"]);
}

#[test]
fn second_check_changes_nothing() {
    let mut tk = registry();
    tk.activate_key(&key("Personal", KeyType::Ed25519(false)));
    let enabled = PRIVATE_ONLY;
    let active_changed = tk.update_active_state(enabled);
    assert!(active_changed);
    assert!(tk.update_state(active_changed, &vec![BOTH, NONE, BOTH]));
    assert_eq!(names(&tk), vec!["Personal", "Backup"]);
    let again = tk.update_active_state(enabled);
    assert!(!again);
    assert!(tk.active_state_moves(enabled, NONE).is_empty());
    assert!(!tk.update_state(again, &vec![BOTH, BOTH]));
    assert_eq!(names(&tk), vec!["Personal", "Backup"]);
}

#[test]
fn activation_brings_in_one_key() {
    let tk = registry();
    let mut files: HashSet<String> = HashSet::new();
    for k in &tk.keys {
        let d = k.get_disabled_paths(tk.disabled_dir());
        files.insert(d.private);
        files.insert(d.public);
    }
    let chosen = key("Professional", KeyType::Rsa(false));
    for m in tk.activation_moves(&chosen) {
        assert!(files.remove(&m.from));
        files.insert(m.to);
    }
    assert!(files.contains("/h/.ssh/id_rsa") && files.contains("/h/.ssh/id_rsa.pub"));
    assert!(!files.contains("/h/.ssh/disabled/Professional"));
    assert!(files.contains("/h/.ssh/disabled/Personal") && files.contains("/h/.ssh/disabled/Backup.pub"));
    assert_eq!(files.len(), 6);
}

#[test]
fn free_name_trims_and_checks() {
    let tk = registry();
    assert_eq!(tk.free_name("  Laptop \n"), Some("Laptop".to_string()));
    assert_eq!(tk.free_name("Personal\n"), None);
    assert_eq!(tk.free_name("\n"), Some(String::new()));
    assert_eq!(tk.free_name("personal\n"), Some("personal".to_string()));
}

#[test]
fn get_key_request() {
    let tk = registry();
    assert_eq!(tk.get_key(Some("pro"), true), KeyRequest::Found(1));
    assert_eq!(tk.get_key(Some("Backup"), false), KeyRequest::Found(2));
    assert_eq!(tk.get_key(Some("work"), true), KeyRequest::NoPrompt);
    assert_eq!(tk.get_key(Some("work"), false), KeyRequest::Prompt);
    assert_eq!(tk.get_key(None, true), KeyRequest::NoPrompt);
    assert_eq!(tk.get_key(None, false), KeyRequest::Prompt);
}

#[test]
fn active_key_files_are_recognised() {
    let mut tk = registry();
    assert!(!tk.is_active_key_file("/h/.ssh/id_ed25519"));
    tk.activate_key(&key("Personal", KeyType::Ed25519(false)));
    assert!(tk.is_active_key_file("/h/.ssh/id_ed25519"));
    assert!(tk.is_active_key_file("/h/.ssh//id_ed25519.pub"));
    assert!(!tk.is_active_key_file("/h/.ssh/id_rsa.pub"));
}

#[test]
fn untracked_key_moves_and_tracking() {
    let mut tk = registry();
    let k = key("Laptop", KeyType::Rsa(false));
    assert_eq!(
        moves(&tk.untracked_key_moves("/h/.ssh/id_rsa.pub", &k)),
        vec![
            pair("/h/.ssh/id_rsa", "/h/.ssh/disabled/Laptop"),
            pair("/h/.ssh/id_rsa.pub", "/h/.ssh/disabled/Laptop.pub"),
        ]
    );
    assert!(tk.track_key(k));
    assert_eq!(tk.keys.len(), 4);
    assert_eq!(tk.find_key("Laptop").unwrap().key_type, KeyType::Rsa(false));
}

#[test]
fn skipped_untracked_key_is_not_brought_in() {
    let mut tk = registry();
    let k = key("", KeyType::Rsa(false));
    assert!(tk.untracked_key_moves("/h/.ssh/id_rsa.pub", &k).is_empty());
    assert!(!tk.track_key(k));
    assert_eq!(tk.keys.len(), 3);
}

#[test]
fn rename_disabled_key() {
    let mut tk = registry();
    let k = key("Professional", KeyType::Rsa(false));
    assert_eq!(
        moves(&tk.rename_moves(&k, "Work")),
        vec![
            pair("/h/.ssh/disabled/Professional", "/h/.ssh/disabled/Work"),
            pair("/h/.ssh/disabled/Professional.pub", "/h/.ssh/disabled/Work.pub"),
        ]
    );
    assert_eq!(tk.rename(&k, "Work".to_string()), Ok(()));
    assert_eq!(tk.keys[1].name, "Work");
    assert_eq!(tk.keys[1].key_type, KeyType::Rsa(false));
    assert!(tk.find_key("Professional").is_none());
}

#[test]
fn rename_active_key_moves_nothing() {
    let mut tk = registry();
    let k = key("Personal", KeyType::Ed25519(false));
    tk.activate_key(&k);
    assert!(tk.rename_moves(&k, "Home").is_empty());
    assert_eq!(tk.rename(&k, "Home".to_string()), Ok(()));
    assert_eq!(tk.active, Some("Home".to_string()));
    assert_eq!(tk.get_active_key().unwrap().name, "Home");
}

#[test]
fn rename_refusals() {
    let mut tk = registry();
    let k = key("Personal", KeyType::Ed25519(false));
    assert!(tk.rename_moves(&k, "Backup").is_empty());
    assert_eq!(tk.rename(&k, "Backup".to_string()), Err(KeyError::NameTaken));
    assert_eq!(tk.rename(&k, "Personal".to_string()), Err(KeyError::NameTaken));
    let stranger = key("Stranger", KeyType::Rsa(false));
    assert!(tk.rename_moves(&stranger, "Other").is_empty());
    assert_eq!(tk.rename(&stranger, "Other".to_string()), Err(KeyError::NotTracked));
    assert_eq!(tk.keys[0].name, "Personal");
    assert_eq!(KeyError::NameTaken.message(), "This name has already been taken!");
    assert_eq!(KeyError::NotTracked.message(), "Provided key is not tracked!");
}

#[test]
fn rename_round_trip() {
    let mut tk = registry();
    let k = key("Personal", KeyType::Ed25519(false));
    tk.rename(&k, "Home".to_string()).unwrap();
    tk.rename(&key("Home", KeyType::Ed25519(false)), "Personal".to_string()).unwrap();
    let names: Vec<String> = tk.keys.iter().map(|k| k.name.clone()).collect();
    assert_eq!(names, vec!["Personal", "Professional", "Backup"]);
}

#[test]
fn delete_disabled_key() {
    let mut tk = registry();
    let k = key("Professional", KeyType::Rsa(false));
    assert_eq!(
        tk.start_delete(&k),
        Ok(vec!["/h/.ssh/disabled/Professional".to_string(), "/h/.ssh/disabled/Professional.pub".to_string()])
    );
    assert_eq!(tk.delete(&k), Ok(()));
    let names: Vec<String> = tk.keys.iter().map(|k| k.name.clone()).collect();
    assert_eq!(names, vec!["Personal", "Backup"]);
}

#[test]
fn delete_active_key() {
    let mut tk = registry();
    let k = key("Backup", KeyType::Ecdsa256(true));
    tk.activate_key(&k);
    assert_eq!(
        tk.start_delete(&k),
        Ok(vec!["/h/.ssh/id_ecdsa_sk".to_string(), "/h/.ssh/id_ecdsa_sk.pub".to_string()])
    );
    assert_eq!(tk.active, None);
    assert_eq!(tk.delete(&k), Ok(()));
    assert_eq!(tk.active, None);
    assert_eq!(tk.keys.len(), 2);
}

#[test]
fn delete_untracked_key() {
    let mut tk = registry();
    let k = key("Stranger", KeyType::Rsa(false));
    assert_eq!(tk.start_delete(&k), Err(KeyError::NotTracked));
    assert_eq!(tk.delete(&k), Err(KeyError::NotTracked));
    assert_eq!(tk.keys.len(), 3);
}

#[test]
fn deletion_confirmation() {
    assert!(confirms_deletion("y\n"));
    assert!(confirms_deletion("Yes"));
    assert!(!confirms_deletion("n"));
    assert!(!confirms_deletion(""));
    assert!(!confirms_deletion(" y"));
}

#[test]
fn select_by_number_or_name() {
    let tk = registry();
    assert_eq!(tk.select_key("1"), KeySelection::Chosen(0));
    assert_eq!(tk.select_key("3"), KeySelection::Chosen(2));
    assert_eq!(tk.select_key("+2"), KeySelection::Chosen(1));
    assert_eq!(tk.select_key("0"), KeySelection::OutOfRange);
    assert_eq!(tk.select_key("4"), KeySelection::OutOfRange);
    assert_eq!(tk.select_key("pro"), KeySelection::Chosen(1));
    assert_eq!(tk.select_key("Backup"), KeySelection::Chosen(2));
    assert_eq!(tk.select_key("-1"), KeySelection::NoMatch);
    assert_eq!(tk.select_key("work"), KeySelection::NoMatch);
    assert_eq!(tk.select_key("+"), KeySelection::NoMatch);
    assert_eq!(tk.select_key("0003"), KeySelection::Chosen(2));
    assert_eq!(tk.select_key("18446744073709551617"), KeySelection::NoMatch);
    assert_eq!(tk.select_key("99999999999999999999999"), KeySelection::NoMatch);
}

#[test]
fn from_saved_keeps_contents() {
    let tk = TrackedKeys::from_saved(
        Some("Work".to_string()),
        vec![key("Work", KeyType::Rsa(false))],
        "/k".to_string(),
        "/d".to_string(),
    );
    assert_eq!(tk.keys_dir(), "/k");
    assert_eq!(tk.disabled_dir(), "/d");
    assert_eq!(tk.get_active_key().unwrap().name, "Work");
}
