//! Properties of the registry that hold across its operations.
use vstd::prelude::*;
use crate::text::{starts_with, lowercase, parsed_index};
use crate::tracked_key::{KeyEntry, Move, FilePresence, PathPair, enabled_paths, disabled_paths};
use crate::tracked_keys::{is_active_file, 
    KeysState, KeyError, KeySelection, is_first, first_index, named, partially_named, find_by_name,
    find_by_partial, active_index, with_active, activation_plan, deactivation_plan, deactivated,
    active_key_incomplete, after_active_check, active_repair_plan, lost_key_plan, rename_result, delete_result, selection_of,
    keeps, kept_prefix, kept_keys, is_active_at, with_keys, lemma_first_index_is, lemma_first_index_exists,
    KeyRequest, key_request, deletion_plan, rename_plan, untracked_plan,
};
use crate::key_type::{KeyType, file_name, type_string, parse_type, lemma_type_string_round_trip};
use crate::key_file::key_file_type;
use crate::text::words;
use crate::paths::{path_join, path_with_extension, path_with_file_name, same_path};

verus! {

/// No two keys share a name.
pub open spec fn distinct_names(keys: Seq<KeyEntry>) -> bool {
    forall|i: int, j: int| 0 <= i < keys.len() && 0 <= j < keys.len() && i != j ==> keys[i].name != keys[j].name
}

/// Where names are distinct, the key with a name is the one at its position.
proof fn lemma_find_distinct(keys: Seq<KeyEntry>, i: int)
    requires
        distinct_names(keys),
        0 <= i < keys.len(),
    ensures
        find_by_name(keys, keys[i].name) == Some(i),
{
    lemma_first_index_is(keys, named(keys[i].name), i);
}

/// A key with exactly the name asked for is found before any key whose name
/// merely starts with it.
pub proof fn law_exact_name_wins(keys: Seq<KeyEntry>, name: Seq<char>, i: int)
    requires
        0 <= i < keys.len(),
        keys[i].name == name,
    ensures
        find_by_partial(keys, name) matches Some(f) && keys[f].name == name && f <= i,
{
    lemma_first_index_exists(keys, named(name), i);
}

/// A partial name finds a key whenever some key's name equals it or starts
/// with it, letter case aside; and the key found is such a key.
pub proof fn law_partial_name_finds_match(keys: Seq<KeyEntry>, partial: Seq<char>, j: int)
    requires
        0 <= j < keys.len(),
        keys[j].name == partial || starts_with(lowercase(keys[j].name), lowercase(partial)),
    ensures
        find_by_partial(keys, partial) matches Some(f) && (keys[f].name == partial || starts_with(
            lowercase(keys[f].name),
            lowercase(partial),
        )),
{
    if keys[j].name == partial {
        lemma_first_index_exists(keys, named(partial), j);
    } else if find_by_name(keys, partial) is None {
        lemma_first_index_exists(keys, partially_named(partial), j);
    } else {
        let f = find_by_name(keys, partial)->0;
        assert(is_first(keys, named(partial), f));
    }
}

/// After a tracked key is activated, the active key is the first key with
/// its name.
pub proof fn law_activated_key_is_active(st: KeysState, name: Seq<char>)
    requires
        find_by_name(st.keys, name) is Some,
    ensures
        active_index(with_active(st, Some(name))) == find_by_name(st.keys, name),
{
}

/// After deactivation no key is active.
pub proof fn law_deactivated_has_no_active_key(st: KeysState)
    ensures
        active_index(deactivated(st)) is None,
{
}

/// Deactivating a key right after activating it moves back exactly the files
/// that the activation moved in, in the same order.
pub proof fn law_deactivation_undoes_activation(st: KeysState, k: KeyEntry)
    requires
        find_by_name(st.keys, k.name) matches Some(i) && st.keys[i] == k,
    ensures
        deactivation_plan(with_active(st, Some(k.name))).len() == 2,
        forall|j: int|
            0 <= j < 2 ==> #[trigger] deactivation_plan(with_active(st, Some(k.name)))[j] == (Move {
                from: activation_plan(st, k)[j].to,
                to: activation_plan(st, k)[j].from,
            }),
{
}

/// Where one of the active key's files is missing, the check leaves no key
/// active; otherwise it changes nothing.
pub proof fn law_incomplete_active_key_is_dropped(st: KeysState, enabled: FilePresence)
    ensures
        active_key_incomplete(st, enabled) ==> active_index(after_active_check(st, enabled)) is None,
        !active_key_incomplete(st, enabled) ==> after_active_check(st, enabled) == st,
{
}

/// A rename to a name that some key has is refused, and so is a rename of a
/// key that is not tracked; a refused rename changes nothing.
pub proof fn law_rename_refusals(st: KeysState, old_name: Seq<char>, new_name: Seq<char>)
    ensures
        find_by_name(st.keys, new_name) is Some ==> rename_result(st, old_name, new_name) == Err::<KeysState, KeyError>(KeyError::NameTaken),
        find_by_name(st.keys, new_name) is None && find_by_name(st.keys, old_name) is None
            ==> rename_result(st, old_name, new_name) == Err::<KeysState, KeyError>(KeyError::NotTracked),
{
}

/// A rename keeps names distinct, keeps the key's position and type, makes
/// the new name find the key, and carries the active mark along.
pub proof fn law_rename_moves_name(st: KeysState, old_name: Seq<char>, new_name: Seq<char>)
    requires
        distinct_names(st.keys),
        rename_result(st, old_name, new_name) is Ok,
    ensures
        ({
            let st2 = rename_result(st, old_name, new_name)->Ok_0;
            let i = find_by_name(st.keys, old_name)->0;
            &&& distinct_names(st2.keys)
            &&& st2.keys.len() == st.keys.len()
            &&& find_by_name(st2.keys, new_name) == Some(i)
            &&& find_by_name(st2.keys, old_name) is None
            &&& st2.keys[i].key_type == st.keys[i].key_type
            &&& (st.active == Some(old_name) ==> st2.active == Some(new_name))
            &&& (st.active != Some(old_name) ==> st2.active == st.active)
        }),
{
    let st2 = rename_result(st, old_name, new_name)->Ok_0;
    let i = find_by_name(st.keys, old_name)->0;
    assert(is_first(st.keys, named(old_name), i));
    assert forall|a: int, b: int|
        0 <= a < st2.keys.len() && 0 <= b < st2.keys.len() && a != b implies st2.keys[a].name != st2.keys[b].name by {
        if a == i {
            assert(st2.keys[b] == st.keys[b]);
            if st.keys[b].name == new_name {
                lemma_first_index_exists(st.keys, named(new_name), b);
            }
        } else if b == i {
            assert(st2.keys[a] == st.keys[a]);
            if st.keys[a].name == new_name {
                lemma_first_index_exists(st.keys, named(new_name), a);
            }
        }
    }
    lemma_find_distinct(st2.keys, i);
    assert forall|j: int| 0 <= j < st2.keys.len() implies !named(old_name)(#[trigger] st2.keys[j]) by {
        if j != i {
            assert(st2.keys[j] == st.keys[j]);
        } else if old_name == new_name {
            lemma_first_index_exists(st.keys, named(new_name), i);
        }
    }
}

/// Renaming a key and then renaming it back restores the registry, where
/// names are distinct and the active name, if any, is a tracked key's.
pub proof fn law_rename_round_trip(st: KeysState, old_name: Seq<char>, new_name: Seq<char>)
    requires
        distinct_names(st.keys),
        st.active matches Some(a) ==> find_by_name(st.keys, a) is Some,
        rename_result(st, old_name, new_name) is Ok,
    ensures
        rename_result(rename_result(st, old_name, new_name)->Ok_0, new_name, old_name) == Ok::<
            KeysState,
            KeyError,
        >(st),
{
    law_rename_moves_name(st, old_name, new_name);
    let st2 = rename_result(st, old_name, new_name)->Ok_0;
    let st3 = rename_result(st2, new_name, old_name)->Ok_0;
    let i = find_by_name(st.keys, old_name)->0;
    assert(is_first(st.keys, named(old_name), i));
    assert(rename_result(st2, new_name, old_name) is Ok);
    assert(st.keys[i] == (KeyEntry { name: old_name, key_type: st.keys[i].key_type }));
    assert(st3.keys =~= st.keys);
}

/// Deleting a key removes exactly that key, keeps the others in order, and
/// leaves no key active where it was the active one; where names are
/// distinct, the name no longer finds a key.
pub proof fn law_delete_removes_key(st: KeysState, name: Seq<char>)
    requires
        delete_result(st, name) is Ok,
    ensures
        ({
            let st2 = delete_result(st, name)->Ok_0;
            let i = find_by_name(st.keys, name)->0;
            &&& st2.keys == st.keys.remove(i)
            &&& (st.active == Some(name) ==> st2.active is None)
            &&& (distinct_names(st.keys) ==> find_by_name(st2.keys, name) is None)
        }),
{
    let st2 = delete_result(st, name)->Ok_0;
    let i = find_by_name(st.keys, name)->0;
    assert(is_first(st.keys, named(name), i));
    if distinct_names(st.keys) {
        assert forall|j: int| 0 <= j < st2.keys.len() implies !named(name)(#[trigger] st2.keys[j]) by {
            if j < i {
                assert(st2.keys[j] == st.keys[j]);
            } else {
                assert(st2.keys[j] == st.keys[j + 1]);
            }
        }
    }
}

/// An answer that is a number from 1 to the number of keys picks the key at
/// that place in the list.
pub proof fn law_select_by_number(st: KeysState, selection: Seq<char>)
    requires
        parsed_index(selection) matches Some(n) && 1 <= n <= st.keys.len(),
    ensures
        selection_of(st, selection) == KeySelection::Chosen((parsed_index(selection)->0 - 1) as usize),
{
}

/// An answer that is not a number picks a key whenever some key's name is
/// the answer or starts with it, letter case aside, and the key picked is
/// such a key.
pub proof fn law_select_by_name(st: KeysState, selection: Seq<char>, j: int)
    requires
        parsed_index(selection) is None,
        st.keys.len() <= usize::MAX,
        0 <= j < st.keys.len(),
        st.keys[j].name == selection || starts_with(lowercase(st.keys[j].name), lowercase(selection)),
    ensures
        selection_of(st, selection) matches KeySelection::Chosen(i) && (st.keys[i as int].name == selection
            || starts_with(lowercase(st.keys[i as int].name), lowercase(selection))),
{
    law_partial_name_finds_match(st.keys, selection, j);
}

/// `e` is a key at a position among the first `n` that stays tracked.
pub open spec fn kept_from(st: KeysState, presence: Seq<FilePresence>, n: int, e: KeyEntry) -> bool {
    exists|i: int|
        0 <= i < n && (st.active == Some(st.keys[i].name) || (presence[i].private && presence[i].public)) && e
            == st.keys[i]
}

proof fn lemma_kept_prefix(st: KeysState, presence: Seq<FilePresence>, n: nat)
    requires
        n <= st.keys.len(),
        presence.len() == st.keys.len(),
    ensures
        forall|x: int|
            0 <= x < kept_prefix(st, presence, n).len() ==> kept_from(
                st,
                presence,
                n as int,
                #[trigger] kept_prefix(st, presence, n)[x],
            ),
        forall|i: int|
            0 <= i < n && keeps(st, presence, i) ==> kept_prefix(st, presence, n).contains(
                #[trigger] st.keys[i],
            ),
        kept_prefix(st, presence, n).len() <= n,
        (forall|i: int| 0 <= i < n ==> keeps(st, presence, i)) ==> kept_prefix(st, presence, n)
            =~= st.keys.take(n as int),
    decreases n,
{
    if n > 0 {
        let m = (n - 1) as nat;
        lemma_kept_prefix(st, presence, m);
        let prev = kept_prefix(st, presence, m);
        let cur = kept_prefix(st, presence, n);
        assert forall|x: int| 0 <= x < cur.len() implies kept_from(st, presence, n as int, #[trigger] cur[x]) by {
            if x < prev.len() {
                assert(cur[x] == prev[x]);
                assert(kept_from(st, presence, m as int, prev[x]));
                let i = choose|i: int| 0 <= i < m && keeps(st, presence, i) && prev[x] == st.keys[i];
                assert(0 <= i < n && keeps(st, presence, i) && cur[x] == st.keys[i]);
            } else {
                assert(cur[x] == st.keys[m as int]);
                assert(keeps(st, presence, m as int));
            }
        }
        assert forall|i: int| 0 <= i < n && keeps(st, presence, i) implies cur.contains(
            #[trigger] st.keys[i],
        ) by {
            if i < m {
                let x = choose|x: int| 0 <= x < prev.len() && prev[x] == st.keys[i];
                assert(cur[x] == st.keys[i]);
            } else {
                assert(cur[cur.len() - 1] == st.keys[i]);
            }
        }
        if forall|i: int| 0 <= i < n ==> keeps(st, presence, i) {
            assert(keeps(st, presence, m as int));
            assert(st.keys.take(n as int) =~= st.keys.take(m as int).push(st.keys[m as int]));
        }
    }
}

/// Checking the key files drops exactly the lost keys: every key that stays
/// is the active key or has both its files, every such key stays, and where
/// no key is lost the list is unchanged.
pub proof fn law_lost_keys_dropped(st: KeysState, presence: Seq<FilePresence>)
    requires
        presence.len() == st.keys.len(),
    ensures
        forall|x: int|
            0 <= x < kept_keys(st, presence).len() ==> kept_from(
                st,
                presence,
                st.keys.len() as int,
                #[trigger] kept_keys(st, presence)[x],
            ),
        forall|i: int|
            0 <= i < st.keys.len() && (is_active_at(st, i) || (presence[i].private && presence[i].public))
                ==> kept_keys(st, presence).contains(#[trigger] st.keys[i]),
        (forall|i: int| 0 <= i < st.keys.len() ==> keeps(st, presence, i)) ==> kept_keys(st, presence)
            == st.keys,
{
    lemma_kept_prefix(st, presence, st.keys.len());
    assert(st.keys.take(st.keys.len() as int) =~= st.keys);
    let kept = kept_keys(st, presence);
    assert(kept == kept_prefix(st, presence, st.keys.len()));

    assert forall|i: int|
        0 <= i < st.keys.len() && (is_active_at(st, i) || (presence[i].private && presence[i].public))
        implies kept_keys(st, presence).contains(#[trigger] st.keys[i]) by {
        assert(keeps(st, presence, i));
    }
}

/// The presences of the keys among the first `n` that stay tracked, in order.
pub open spec fn kept_presence_prefix(st: KeysState, presence: Seq<FilePresence>, n: nat) -> Seq<FilePresence>
    decreases n,
{
    if n == 0 {
        seq![]
    } else {
        let prev = kept_presence_prefix(st, presence, (n - 1) as nat);
        if keeps(st, presence, n - 1) {
            prev.push(presence[n - 1])
        } else {
            prev
        }
    }
}

/// The presences of the keys that stay tracked, in the order of `kept_keys`.
pub open spec fn kept_presence(st: KeysState, presence: Seq<FilePresence>) -> Seq<FilePresence> {
    kept_presence_prefix(st, presence, st.keys.len())
}

/// A kept key and its presence come from one position among the first `n`
/// that stays tracked.
pub open spec fn kept_pair(st: KeysState, presence: Seq<FilePresence>, n: int, e: KeyEntry, p: FilePresence) -> bool {
    exists|i: int| 0 <= i < n && keeps(st, presence, i) && e == st.keys[i] && p == presence[i]
}

proof fn lemma_kept_pairs(st: KeysState, presence: Seq<FilePresence>, n: nat)
    requires
        n <= st.keys.len(),
        presence.len() == st.keys.len(),
    ensures
        kept_presence_prefix(st, presence, n).len() == kept_prefix(st, presence, n).len(),
        forall|x: int|
            0 <= x < kept_prefix(st, presence, n).len() ==> kept_pair(
                st,
                presence,
                n as int,
                #[trigger] kept_prefix(st, presence, n)[x],
                kept_presence_prefix(st, presence, n)[x],
            ),
    decreases n,
{
    if n > 0 {
        let m = (n - 1) as nat;
        lemma_kept_pairs(st, presence, m);
        let prev = kept_prefix(st, presence, m);
        let cur = kept_prefix(st, presence, n);
        let pprev = kept_presence_prefix(st, presence, m);
        let pcur = kept_presence_prefix(st, presence, n);
        assert forall|x: int| 0 <= x < cur.len() implies kept_pair(st, presence, n as int, #[trigger] cur[x], pcur[x]) by {
            if x < prev.len() {
                assert(cur[x] == prev[x] && pcur[x] == pprev[x]);
                assert(kept_pair(st, presence, m as int, prev[x], pprev[x]));
                let i = choose|i: int|
                    0 <= i < m && keeps(st, presence, i) && prev[x] == st.keys[i] && pprev[x] == presence[i];
                assert(0 <= i < n && keeps(st, presence, i) && cur[x] == st.keys[i] && pcur[x] == presence[i]);
            } else {
                assert(keeps(st, presence, m as int));
                assert(cur[x] == st.keys[m as int] && pcur[x] == presence[m as int]);
            }
        }
    }
}

/// Dropping keys never makes a name appear: a name that no key had, no kept
/// key has.
proof fn lemma_kept_name_absent(st: KeysState, presence: Seq<FilePresence>, name: Seq<char>)
    requires
        presence.len() == st.keys.len(),
        find_by_name(st.keys, name) is None,
    ensures
        find_by_name(kept_keys(st, presence), name) is None,
{
    lemma_kept_prefix(st, presence, st.keys.len());
    let kept = kept_keys(st, presence);
    if find_by_name(kept, name) is Some {
        let x = find_by_name(kept, name)->0;
        assert(is_first(kept, named(name), x));
        assert(kept_from(st, presence, st.keys.len() as int, kept[x]));
        let i = choose|i: int| 0 <= i < st.keys.len() && keeps(st, presence, i) && kept[x] == st.keys[i];
        lemma_first_index_exists(st.keys, named(name), i);
    }
}

/// Checking the key files a second time, with the files of the keys that
/// stayed as the first check found them, changes nothing: no key is dropped,
/// the active key stays, and no file is moved.
pub proof fn law_update_state_idempotent(st: KeysState, enabled: FilePresence, presence: Seq<FilePresence>)
    requires
        presence.len() == st.keys.len(),
    ensures
        ({
            let st_a = after_active_check(st, enabled);
            let st1 = with_keys(st_a, kept_keys(st_a, presence));
            let p2 = kept_presence(st_a, presence);
            &&& !active_key_incomplete(st1, enabled)
            &&& after_active_check(st1, enabled) == st1
            &&& (forall|d: FilePresence| #[trigger] active_repair_plan(st1, enabled, d) == Seq::<Move>::empty())
            &&& p2.len() == st1.keys.len()
            &&& kept_keys(st1, p2) == st1.keys
            &&& forall|j: int, lost: Seq<char>|
                0 <= j < st1.keys.len() && !is_active_at(st1, j) ==> #[trigger] lost_key_plan(st1, j, p2[j], lost)
                    == Seq::<Move>::empty()
        }),
{
    let st_a = after_active_check(st, enabled);
    let st1 = with_keys(st_a, kept_keys(st_a, presence));
    let p2 = kept_presence(st_a, presence);
    let n = st_a.keys.len();
    lemma_kept_pairs(st_a, presence, n);
    lemma_kept_prefix(st_a, presence, n);
    if !active_key_incomplete(st, enabled) && st.active is Some && active_index(st) is None {
        lemma_kept_name_absent(st_a, presence, st.active->0);
    }
    assert(!active_key_incomplete(st1, enabled));
    assert forall|j: int| 0 <= j < st1.keys.len() implies keeps(st1, p2, j) by {
        assert(kept_pair(st_a, presence, n as int, st1.keys[j], p2[j]));
        let i = choose|i: int|
            0 <= i < n && keeps(st_a, presence, i) && st1.keys[j] == st_a.keys[i] && p2[j] == presence[i];
    }
    lemma_kept_prefix(st1, p2, st1.keys.len());
    assert(st1.keys.take(st1.keys.len() as int) =~= st1.keys);
    assert forall|d: FilePresence| #[trigger] active_repair_plan(st1, enabled, d) == Seq::<Move>::empty() by {
    }
    assert forall|j: int, lost: Seq<char>|
        0 <= j < st1.keys.len() && !is_active_at(st1, j) implies #[trigger] lost_key_plan(st1, j, p2[j], lost)
            == Seq::<Move>::empty() by {
        assert(keeps(st1, p2, j));
    }
}

/// The files that exist after a list of moves, each of which succeeds, in
/// a file system modelled as the set of the paths that hold a file.
pub open spec fn after_moves(files: Set<Seq<char>>, moves: Seq<Move>) -> Set<Seq<char>>
    decreases moves.len(),
{
    if moves.len() == 0 {
        files
    } else {
        after_moves(files.remove(moves[0].from).insert(moves[0].to), moves.drop_first())
    }
}

/// The path `p` is none of the four paths of a key's two places.
pub open spec fn apart_from(p: Seq<char>, d: PathPair, e: PathPair) -> bool {
    p != d.private && p != d.public && p != e.private && p != e.public
}

/// Activating a key from the state that deactivation leaves, where every
/// tracked key's files are in the disabled directory, brings exactly that
/// key's files into the keys directory, takes them out of the disabled
/// directory, leaves every other key's disabled files in place, and makes it
/// the active key. Paths are texts here: the law holds where the chosen key's
/// four paths are four different texts and no other key's disabled path is
/// one of them.
pub proof fn law_activation_brings_in_one_key(st: KeysState, i: int, files: Set<Seq<char>>)
    requires
        0 <= i < st.keys.len(),
        forall|j: int|
            0 <= j < st.keys.len() ==> files.contains(#[trigger] disabled_paths(st.keys[j], st.disabled_dir).private)
                && files.contains(disabled_paths(st.keys[j], st.disabled_dir).public),
        ({
            let d = disabled_paths(st.keys[i], st.disabled_dir);
            let e = enabled_paths(st.keys[i], st.keys_dir);
            &&& d.private != d.public
            &&& e.private != e.public
            &&& d.private != e.private && d.private != e.public
            &&& d.public != e.private && d.public != e.public
            &&& forall|j: int|
                0 <= j < st.keys.len() && j != i ==> apart_from(
                    #[trigger] disabled_paths(st.keys[j], st.disabled_dir).private,
                    d,
                    e,
                ) && apart_from(disabled_paths(st.keys[j], st.disabled_dir).public, d, e)
        }),
    ensures
        ({
            let k = st.keys[i];
            let d = disabled_paths(k, st.disabled_dir);
            let e = enabled_paths(k, st.keys_dir);
            let after = after_moves(files, activation_plan(st, k));
            &&& after.contains(e.private) && after.contains(e.public)
            &&& !after.contains(d.private) && !after.contains(d.public)
            &&& forall|j: int|
                0 <= j < st.keys.len() && j != i ==> after.contains(
                    #[trigger] disabled_paths(st.keys[j], st.disabled_dir).private,
                ) && after.contains(disabled_paths(st.keys[j], st.disabled_dir).public)
            &&& active_index(with_active(st, Some(k.name))) == find_by_name(st.keys, k.name)
            &&& find_by_name(st.keys, k.name) is Some
        }),
{
    let k = st.keys[i];
    let plan = activation_plan(st, k);
    reveal_with_fuel(after_moves, 3);
    assert(plan.drop_first().drop_first() =~= Seq::<Move>::empty());
    lemma_first_index_exists(st.keys, named(k.name), i);
}

/// A key named on the command line is looked up by its exact name first:
/// where some key has exactly that name, the first such key is the one
/// taken, whatever keys merely start with the name. Where no key's name is
/// the given name or starts with it (letter case aside), or no name is given,
/// the user is asked, or refused where asking is forbidden.
pub proof fn law_get_key_exact_name_first(st: KeysState, name: Seq<char>, no_prompt: bool, i: int)
    requires
        st.keys.len() <= usize::MAX,
    ensures
        (0 <= i < st.keys.len() && st.keys[i].name == name && (forall|j: int|
            0 <= j < i ==> st.keys[j].name != name)) ==> key_request(st, Some(name), no_prompt)
            == KeyRequest::Found(i as usize),
        (forall|j: int|
            0 <= j < st.keys.len() ==> st.keys[j].name != name && !starts_with(
                lowercase(st.keys[j].name),
                lowercase(name),
            )) ==> key_request(st, Some(name), no_prompt) == (if no_prompt {
            KeyRequest::NoPrompt
        } else {
            KeyRequest::Prompt
        }),
        key_request(st, None, no_prompt) == (if no_prompt {
            KeyRequest::NoPrompt
        } else {
            KeyRequest::Prompt
        }),
        key_request(st, Some(name), no_prompt) matches KeyRequest::Found(f) ==> 0 <= f < st.keys.len() && (
        st.keys[f as int].name == name || starts_with(lowercase(st.keys[f as int].name), lowercase(name))),
{
    if 0 <= i < st.keys.len() && st.keys[i].name == name && (forall|j: int|
        0 <= j < i ==> st.keys[j].name != name) {
        assert(is_first(st.keys, named(name), i));
        lemma_first_index_is(st.keys, named(name), i);
    }
    if forall|j: int|
        0 <= j < st.keys.len() ==> st.keys[j].name != name && !starts_with(
            lowercase(st.keys[j].name),
            lowercase(name),
        ) {
        if find_by_name(st.keys, name) is Some {
            let f = find_by_name(st.keys, name)->0;
            assert(is_first(st.keys, named(name), f));
        } else if first_index(st.keys, partially_named(name)) is Some {
            let f = first_index(st.keys, partially_named(name))->0;
            assert(is_first(st.keys, partially_named(name), f));
        }
    }
    if find_by_name(st.keys, name) is Some {
        let f = find_by_name(st.keys, name)->0;
        assert(is_first(st.keys, named(name), f));
    } else if first_index(st.keys, partially_named(name)) is Some {
        let f = first_index(st.keys, partially_named(name))->0;
        assert(is_first(st.keys, partially_named(name), f));
    }
}

/// Deleting a tracked key removes two files: where the key is not the
/// active one, its own files in the disabled directory (the directory
/// joined with its name, and the `pub` file beside it); where it is the
/// active one, the files in the keys directory under its type's file name.
/// An untracked key removes nothing.
pub proof fn law_deletion_removes_the_keys_own_files(st: KeysState, name: Seq<char>, i: int)
    ensures
        (0 <= i < st.keys.len() && st.keys[i].name == name && st.active != Some(name)) ==> deletion_plan(st, name)
            == seq![
            path_join(st.disabled_dir, name),
            path_with_extension(path_join(st.disabled_dir, name), "pub"@),
        ],
        (0 <= i < st.keys.len() && st.keys[i].name == name && (forall|j: int| 0 <= j < i ==> st.keys[j].name != name)
            && st.active == Some(name)) ==> deletion_plan(st, name) == seq![
            path_join(st.keys_dir, file_name(st.keys[i].key_type)),
            path_with_extension(path_join(st.keys_dir, file_name(st.keys[i].key_type)), "pub"@),
        ],
        (forall|j: int| 0 <= j < st.keys.len() ==> st.keys[j].name != name) ==> deletion_plan(st, name)
            == Seq::<Seq<char>>::empty(),
{
    if 0 <= i < st.keys.len() && st.keys[i].name == name {
        lemma_first_index_exists(st.keys, named(name), i);
        let f = find_by_name(st.keys, name)->0;
        assert(st.keys[f].name == name);
        if forall|j: int| 0 <= j < i ==> st.keys[j].name != name {
            assert(is_first(st.keys, named(name), i));
            lemma_first_index_is(st.keys, named(name), i);
        }
    }
    if forall|j: int| 0 <= j < st.keys.len() ==> st.keys[j].name != name {
        if find_by_name(st.keys, name) is Some {
            let f = find_by_name(st.keys, name)->0;
            assert(is_first(st.keys, named(name), f));
        }
    }
}

/// An accepted rename of a key that is not the active one moves its files in
/// the disabled directory to the new name (the directory joined with the old
/// name goes to that path with the new file name, and the `pub` files beside
/// them likewise), whichever other key is active. The active key's files, and
/// a refused rename, move nothing.
pub proof fn law_rename_moves_disabled_files(st: KeysState, old_name: Seq<char>, new_name: Seq<char>, i: int)
    ensures
        (0 <= i < st.keys.len() && st.keys[i].name == old_name && (forall|j: int|
            0 <= j < st.keys.len() ==> st.keys[j].name != new_name) && st.active != Some(old_name))
            ==> rename_plan(st, old_name, new_name) == seq![
            Move {
                from: path_join(st.disabled_dir, old_name),
                to: path_with_file_name(path_join(st.disabled_dir, old_name), new_name),
            },
            Move {
                from: path_with_extension(path_join(st.disabled_dir, old_name), "pub"@),
                to: path_with_extension(
                    path_with_file_name(path_join(st.disabled_dir, old_name), new_name),
                    "pub"@,
                ),
            },
        ],
        st.active == Some(old_name) ==> rename_plan(st, old_name, new_name) == Seq::<Move>::empty(),
        (0 <= i < st.keys.len() && st.keys[i].name == new_name) ==> rename_plan(st, old_name, new_name)
            == Seq::<Move>::empty(),
        (forall|j: int| 0 <= j < st.keys.len() ==> st.keys[j].name != old_name) ==> rename_plan(
            st,
            old_name,
            new_name,
        ) == Seq::<Move>::empty(),
{
    if 0 <= i < st.keys.len() && st.keys[i].name == old_name {
        lemma_first_index_exists(st.keys, named(old_name), i);
    }
    if 0 <= i < st.keys.len() && st.keys[i].name == new_name {
        lemma_first_index_exists(st.keys, named(new_name), i);
    }
    if find_by_name(st.keys, new_name) is Some {
        let f = find_by_name(st.keys, new_name)->0;
        assert(is_first(st.keys, named(new_name), f));
    }
    if find_by_name(st.keys, old_name) is Some {
        let f = find_by_name(st.keys, old_name)->0;
        assert(is_first(st.keys, named(old_name), f));
    }
}

/// A file is read as a key exactly when its first whitespace-separated word
/// is the key-type text of a key type, and then it is read as that key type.
pub proof fn law_key_file_type_is_first_word(contents: Seq<char>, k: KeyType)
    ensures
        key_file_type(contents) == Some(k) <==> (words(contents).len() > 0 && type_string(k) == words(
            contents,
        )[0]),
        key_file_type(contents) is None <==> (words(contents).len() == 0 || forall|t: KeyType|
            type_string(t) != words(contents)[0]),
{
    let w = words(contents);
    if w.len() > 0 {
        lemma_type_string_round_trip(k, w[0]);
        if parse_type(w[0]) is Some {
            let t = parse_type(w[0])->0;
            lemma_type_string_round_trip(t, w[0]);
        }
    }
}

/// The key-type texts are OpenSSH's, and a security-key type is marked by the
/// `sk-` prefix and the `@openssh.com` suffix.
pub proof fn law_key_type_texts(sk: bool)
    ensures
        type_string(KeyType::Ed25519(sk)) == if sk {
            "sk-ssh-ed25519@openssh.com"@
        } else {
            "ssh-ed25519"@
        },
        type_string(KeyType::Rsa(sk)) == if sk {
            "sk-ssh-rsa@openssh.com"@
        } else {
            "ssh-rsa"@
        },
        type_string(KeyType::Dss(sk)) == if sk {
            "sk-ssh-dss@openssh.com"@
        } else {
            "ssh-dss"@
        },
        type_string(KeyType::Ecdsa256(sk)) == if sk {
            "sk-ecdsa-sha2-nistp256@openssh.com"@
        } else {
            "ecdsa-sha2-nistp256"@
        },
        type_string(KeyType::Ecdsa384(sk)) == if sk {
            "sk-ecdsa-sha2-nistp384@openssh.com"@
        } else {
            "ecdsa-sha2-nistp384"@
        },
        type_string(KeyType::Ecdsa521(sk)) == if sk {
            "sk-ecdsa-sha2-nistp521@openssh.com"@
        } else {
            "ecdsa-sha2-nistp521"@
        },
{
    reveal_strlit("sk-");
    reveal_strlit("@openssh.com");
    reveal_strlit("ssh-ed25519");
    reveal_strlit("ssh-rsa");
    reveal_strlit("ssh-dss");
    reveal_strlit("ecdsa-sha2-nistp256");
    reveal_strlit("ecdsa-sha2-nistp384");
    reveal_strlit("ecdsa-sha2-nistp521");
    reveal_strlit("sk-ssh-ed25519@openssh.com");
    reveal_strlit("sk-ssh-rsa@openssh.com");
    reveal_strlit("sk-ssh-dss@openssh.com");
    reveal_strlit("sk-ecdsa-sha2-nistp256@openssh.com");
    reveal_strlit("sk-ecdsa-sha2-nistp384@openssh.com");
    reveal_strlit("sk-ecdsa-sha2-nistp521@openssh.com");
    if sk {
        assert(type_string(KeyType::Ed25519(sk)) =~= "sk-ssh-ed25519@openssh.com"@);
        assert(type_string(KeyType::Rsa(sk)) =~= "sk-ssh-rsa@openssh.com"@);
        assert(type_string(KeyType::Dss(sk)) =~= "sk-ssh-dss@openssh.com"@);
        assert(type_string(KeyType::Ecdsa256(sk)) =~= "sk-ecdsa-sha2-nistp256@openssh.com"@);
        assert(type_string(KeyType::Ecdsa384(sk)) =~= "sk-ecdsa-sha2-nistp384@openssh.com"@);
        assert(type_string(KeyType::Ecdsa521(sk)) =~= "sk-ecdsa-sha2-nistp521@openssh.com"@);
    }
}

/// The file name under which a key is installed is OpenSSH's for its
/// algorithm, with `_sk` added exactly for a security-key type; all three
/// ECDSA sizes share one name.
pub proof fn law_file_names(sk: bool)
    ensures
        file_name(KeyType::Ed25519(sk)) == if sk {
            "id_ed25519_sk"@
        } else {
            "id_ed25519"@
        },
        file_name(KeyType::Rsa(sk)) == if sk {
            "id_rsa_sk"@
        } else {
            "id_rsa"@
        },
        file_name(KeyType::Dss(sk)) == if sk {
            "id_dsa_sk"@
        } else {
            "id_dsa"@
        },
        file_name(KeyType::Ecdsa256(sk)) == if sk {
            "id_ecdsa_sk"@
        } else {
            "id_ecdsa"@
        },
        file_name(KeyType::Ecdsa384(sk)) == file_name(KeyType::Ecdsa256(sk)),
        file_name(KeyType::Ecdsa521(sk)) == file_name(KeyType::Ecdsa256(sk)),
{
    reveal_strlit("_sk");
    reveal_strlit("id_ed25519");
    reveal_strlit("id_rsa");
    reveal_strlit("id_dsa");
    reveal_strlit("id_ecdsa");
    reveal_strlit("id_ed25519_sk");
    reveal_strlit("id_rsa_sk");
    reveal_strlit("id_dsa_sk");
    reveal_strlit("id_ecdsa_sk");
    if sk {
        assert(file_name(KeyType::Ed25519(sk)) =~= "id_ed25519_sk"@);
        assert(file_name(KeyType::Rsa(sk)) =~= "id_rsa_sk"@);
        assert(file_name(KeyType::Dss(sk)) =~= "id_dsa_sk"@);
        assert(file_name(KeyType::Ecdsa256(sk)) =~= "id_ecdsa_sk"@);
    }
}

/// A found key that the user named goes to the disabled directory under its
/// name: the found file with its extension removed becomes the private key,
/// the found file with the extension `pub` the public key. A key left without
/// a name moves nothing.
pub proof fn law_untracked_key_goes_to_disabled_dir(st: KeysState, found: Seq<char>, k: KeyEntry)
    ensures
        k.name.len() > 0 ==> untracked_plan(st, found, k) == seq![
            Move { from: path_with_extension(found, ""@), to: path_join(st.disabled_dir, k.name) },
            Move {
                from: path_with_extension(found, "pub"@),
                to: path_with_extension(path_join(st.disabled_dir, k.name), "pub"@),
            },
        ],
        k.name.len() == 0 ==> untracked_plan(st, found, k) == Seq::<Move>::empty(),
{
}

/// The moves for a lost key take only the files it still has, each to the
/// lost-and-found directory under the key's name; a key with both files
/// moves nothing.
pub proof fn law_lost_key_remnants_go_to_lost_and_found(
    st: KeysState,
    i: int,
    presence: FilePresence,
    lost_dir: Seq<char>,
)
    requires
        0 <= i < st.keys.len(),
    ensures
        ({
            let plan = lost_key_plan(st, i, presence, lost_dir);
            let name = st.keys[i].name;
            let private_move = Move {
                from: path_join(st.disabled_dir, name),
                to: path_join(lost_dir, name),
            };
            let public_move = Move {
                from: path_with_extension(path_join(st.disabled_dir, name), "pub"@),
                to: path_with_extension(path_join(lost_dir, name), "pub"@),
            };
            &&& (presence.private && presence.public) ==> plan.len() == 0
            &&& !(presence.private && presence.public) ==> {
                &&& plan.len() == (if presence.private { 1int } else { 0int }) + (if presence.public { 1int } else { 0int })
                &&& presence.private ==> plan[0] == private_move
                &&& presence.public ==> plan[plan.len() - 1] == public_move
            }
        }),
{
}

/// An answer that is not a number and is exactly some key's name picks the
/// first key with that name, whatever keys merely start with it.
pub proof fn law_select_exact_name_first(st: KeysState, selection: Seq<char>, i: int)
    requires
        parsed_index(selection) is None,
        st.keys.len() <= usize::MAX,
        0 <= i < st.keys.len(),
        st.keys[i].name == selection,
        forall|j: int| 0 <= j < i ==> st.keys[j].name != selection,
    ensures
        selection_of(st, selection) == KeySelection::Chosen(i as usize),
{
    assert(is_first(st.keys, named(selection), i));
    lemma_first_index_is(st.keys, named(selection), i);
}

/// Activating a key moves its private file from the disabled directory
/// (joined with its name) to the keys directory under its type's file name,
/// and then its public file, the `pub` file beside each.
pub proof fn law_activation_moves_named_files(st: KeysState, k: KeyEntry)
    ensures
        activation_plan(st, k) == seq![
            Move {
                from: path_join(st.disabled_dir, k.name),
                to: path_join(st.keys_dir, file_name(k.key_type)),
            },
            Move {
                from: path_with_extension(path_join(st.disabled_dir, k.name), "pub"@),
                to: path_with_extension(path_join(st.keys_dir, file_name(k.key_type)), "pub"@),
            },
        ],
{
}

/// Checking the active key: where the first key with the active name lacks
/// a file in the keys directory, each of its files still there goes back to
/// the disabled directory unless a file is already in its place, and no key
/// is active afterwards; where both files are there, or no key has the
/// active name, nothing moves and nothing changes.
pub proof fn law_active_check(st: KeysState, enabled: FilePresence, disabled: FilePresence, i: int)
    ensures
        (st.active is None || (forall|j: int| 0 <= j < st.keys.len() ==> Some(st.keys[j].name) != st.active) || (
        enabled.private && enabled.public)) ==> (active_repair_plan(st, enabled, disabled) == Seq::<Move>::empty()
            && after_active_check(st, enabled) == st),
        (0 <= i < st.keys.len() && st.active == Some(st.keys[i].name) && (forall|j: int|
            0 <= j < i ==> st.keys[j].name != st.keys[i].name) && !(enabled.private && enabled.public)) ==> ({
            let e = path_join(st.keys_dir, file_name(st.keys[i].key_type));
            let d = path_join(st.disabled_dir, st.keys[i].name);
            &&& active_repair_plan(st, enabled, disabled) == (if enabled.private && !disabled.private {
                seq![Move { from: e, to: d }]
            } else {
                Seq::<Move>::empty()
            }) + (if enabled.public && !disabled.public {
                seq![Move { from: path_with_extension(e, "pub"@), to: path_with_extension(d, "pub"@) }]
            } else {
                Seq::<Move>::empty()
            })
            &&& after_active_check(st, enabled).active is None
            &&& after_active_check(st, enabled).keys == st.keys
        }),
{
    if st.active is Some && find_by_name(st.keys, st.active->0) is Some {
        let f = find_by_name(st.keys, st.active->0)->0;
        assert(is_first(st.keys, named(st.active->0), f));
    }
    if 0 <= i < st.keys.len() && st.active == Some(st.keys[i].name) && (forall|j: int|
        0 <= j < i ==> st.keys[j].name != st.keys[i].name) {
        assert(is_first(st.keys, named(st.keys[i].name), i));
        lemma_first_index_is(st.keys, named(st.keys[i].name), i);
    }
}

/// A file in the keys directory is taken for the active key's exactly when
/// it is, as a path, the keys directory joined with the active key's file
/// name, or the `pub` file beside it.
pub proof fn law_active_file_recognition(st: KeysState, path: Seq<char>, i: int)
    ensures
        (0 <= i < st.keys.len() && st.active == Some(st.keys[i].name) && (forall|j: int|
            0 <= j < i ==> st.keys[j].name != st.keys[i].name)) ==> (is_active_file(st, path) <==> (same_path(
            path,
            path_join(st.keys_dir, file_name(st.keys[i].key_type)),
        ) || same_path(path, path_with_extension(path_join(st.keys_dir, file_name(st.keys[i].key_type)), "pub"@)))),
        (st.active is None || (forall|j: int| 0 <= j < st.keys.len() ==> Some(st.keys[j].name) != st.active))
            ==> !is_active_file(st, path),
{
    if st.active is Some && find_by_name(st.keys, st.active->0) is Some {
        let f = find_by_name(st.keys, st.active->0)->0;
        assert(is_first(st.keys, named(st.active->0), f));
    }
    if 0 <= i < st.keys.len() && st.active == Some(st.keys[i].name) && (forall|j: int|
        0 <= j < i ==> st.keys[j].name != st.keys[i].name) {
        assert(is_first(st.keys, named(st.keys[i].name), i));
        lemma_first_index_is(st.keys, named(st.keys[i].name), i);
    }
}

/// Deactivation clears the active name only where a tracked key has it, and
/// then moves that key's files from the keys directory back to the disabled
/// directory; where no tracked key has the active name, nothing changes and
/// nothing moves.
pub proof fn law_deactivation(st: KeysState, i: int)
    ensures
        (st.active is None || (forall|j: int| 0 <= j < st.keys.len() ==> Some(st.keys[j].name) != st.active)) ==> (
        deactivated(st) == st && deactivation_plan(st) == Seq::<Move>::empty()),
        (0 <= i < st.keys.len() && st.active == Some(st.keys[i].name) && (forall|j: int|
            0 <= j < i ==> st.keys[j].name != st.keys[i].name)) ==> ({
            let e = path_join(st.keys_dir, file_name(st.keys[i].key_type));
            let d = path_join(st.disabled_dir, st.keys[i].name);
            &&& deactivated(st).active is None
            &&& deactivated(st).keys == st.keys
            &&& deactivation_plan(st) == seq![
                Move { from: e, to: d },
                Move { from: path_with_extension(e, "pub"@), to: path_with_extension(d, "pub"@) },
            ]
        }),
{
    if st.active is Some && find_by_name(st.keys, st.active->0) is Some {
        let f = find_by_name(st.keys, st.active->0)->0;
        assert(is_first(st.keys, named(st.active->0), f));
    }
    if 0 <= i < st.keys.len() && st.active == Some(st.keys[i].name) && (forall|j: int|
        0 <= j < i ==> st.keys[j].name != st.keys[i].name) {
        assert(is_first(st.keys, named(st.keys[i].name), i));
        lemma_first_index_is(st.keys, named(st.keys[i].name), i);
    }
}

} // verus!
