//! The registry of tracked keys: which keys exist, which one is active, and
//! the file moves that each change of state needs.
//!
//! Every change that touches the disk comes in two parts: a function that
//! says which files to move or remove, and a function that records the new
//! state once that has been done.
use vstd::prelude::*;
use crate::key_type::KeyType;
use crate::paths::{path_join, path_with_extension, path_with_file_name, path_parent, same_path, join, with_pub_extension, without_extension, with_file_name, parent, paths_equal};
use crate::text::{trimmed, trim, opt_text, lowercase, starts_with, to_lowercase, has_prefix, parsed_index, parse_index};
use crate::tracked_key::{TrackedKey, KeyEntry, KeyPaths, FileMove, Move, FilePresence, moves_view, enabled_paths, disabled_paths, public_beside};

verus! {

/// Why a change to the registry was refused.
#[derive(Clone, Copy, Debug, PartialEq, Eq, Structural)]
pub enum KeyError {
    /// Another tracked key already has the requested name.
    NameTaken,
    /// No tracked key has the given key's name.
    NotTracked,
}

/// The text that the tool shows for an error.
pub open spec fn error_message(e: KeyError) -> Seq<char> {
    match e {
        KeyError::NameTaken => "This name has already been taken!"@,
        KeyError::NotTracked => "Provided key is not tracked!"@,
    }
}

impl KeyError {
    /// The text that the tool shows for this error.
    pub fn message(&self) -> (r: String)
        ensures
            r@ == error_message(*self),
    {
        match self {
            KeyError::NameTaken => String::from_str("This name has already been taken!"),
            KeyError::NotTracked => String::from_str("Provided key is not tracked!"),
        }
    }
}

/// The registry: the name of the active key, if any, the tracked keys in
/// order, the directory where the active key lives and the directory where
/// the other keys wait.
pub struct TrackedKeys {
    pub active: Option<String>,
    pub keys: Vec<TrackedKey>,
    pub keys_dir: String,
    pub disabled_dir: String,
}

/// The model of the registry.
pub struct KeysState {
    pub active: Option<Seq<char>>,
    pub keys: Seq<KeyEntry>,
    pub keys_dir: Seq<char>,
    pub disabled_dir: Seq<char>,
}

/// The models of a list of keys.
pub open spec fn entries(v: Seq<TrackedKey>) -> Seq<KeyEntry> {
    v.map_values(|k: TrackedKey| k@)
}

impl View for TrackedKeys {
    type V = KeysState;

    open spec fn view(&self) -> KeysState {
        KeysState {
            active: opt_text(self.active),
            keys: entries(self.keys@),
            keys_dir: self.keys_dir@,
            disabled_dir: self.disabled_dir@,
        }
    }
}

/// `i` is the first position in `keys` whose key satisfies `p`.
pub open spec fn is_first(keys: Seq<KeyEntry>, p: spec_fn(KeyEntry) -> bool, i: int) -> bool {
    &&& 0 <= i < keys.len()
    &&& p(keys[i])
    &&& forall|j: int| 0 <= j < i ==> !p(#[trigger] keys[j])
}

/// The first position in `keys` whose key satisfies `p`, if any.
pub open spec fn first_index(keys: Seq<KeyEntry>, p: spec_fn(KeyEntry) -> bool) -> Option<int> {
    if exists|i: int| is_first(keys, p, i) {
        Some(choose|i: int| is_first(keys, p, i))
    } else {
        None
    }
}

/// The key has exactly this name.
pub open spec fn named(name: Seq<char>) -> spec_fn(KeyEntry) -> bool {
    |e: KeyEntry| e.name == name
}

/// The key's name, lowercased, starts with the lowercased partial name.
pub open spec fn partially_named(partial: Seq<char>) -> spec_fn(KeyEntry) -> bool {
    |e: KeyEntry| starts_with(lowercase(e.name), lowercase(partial))
}

/// The first key with exactly this name.
pub open spec fn find_by_name(keys: Seq<KeyEntry>, name: Seq<char>) -> Option<int> {
    first_index(keys, named(name))
}

/// The first key with exactly this name; failing that, the first key whose
/// name starts with it, letter case aside.
pub open spec fn find_by_partial(keys: Seq<KeyEntry>, partial: Seq<char>) -> Option<int> {
    match find_by_name(keys, partial) {
        Some(i) => Some(i),
        None => first_index(keys, partially_named(partial)),
    }
}

/// The position of the active key: the first key that has the active name.
pub open spec fn active_index(st: KeysState) -> Option<int> {
    match st.active {
        Some(n) => find_by_name(st.keys, n),
        None => None,
    }
}

/// The state with another active name.
pub open spec fn with_active(st: KeysState, active: Option<Seq<char>>) -> KeysState {
    KeysState { active, keys: st.keys, keys_dir: st.keys_dir, disabled_dir: st.disabled_dir }
}

/// The state with another list of keys.
pub open spec fn with_keys(st: KeysState, keys: Seq<KeyEntry>) -> KeysState {
    KeysState { active: st.active, keys, keys_dir: st.keys_dir, disabled_dir: st.disabled_dir }
}

/// The moves that activate a key: both its files go from the disabled
/// directory to the keys directory.
pub open spec fn activation_plan(st: KeysState, k: KeyEntry) -> Seq<Move> {
    let d = disabled_paths(k, st.disabled_dir);
    let e = enabled_paths(k, st.keys_dir);
    seq![Move { from: d.private, to: e.private }, Move { from: d.public, to: e.public }]
}

/// The moves that deactivate the active key: both its files go back to the
/// disabled directory. None where no tracked key has the active name.
pub open spec fn deactivation_plan(st: KeysState) -> Seq<Move> {
    match active_index(st) {
        Some(i) => {
            let k = st.keys[i];
            let e = enabled_paths(k, st.keys_dir);
            let d = disabled_paths(k, st.disabled_dir);
            seq![Move { from: e.private, to: d.private }, Move { from: e.public, to: d.public }]
        },
        None => seq![],
    }
}

/// The state after deactivation: no active key, where one was found.
pub open spec fn deactivated(st: KeysState) -> KeysState {
    if active_index(st) is Some {
        with_active(st, None)
    } else {
        st
    }
}

/// The active key is tracked, and one of its files is missing from the keys
/// directory.
pub open spec fn active_key_incomplete(st: KeysState, enabled: FilePresence) -> bool {
    active_index(st) is Some && !(enabled.private && enabled.public)
}

/// The moves that put back what is left of an incomplete active key: each of
/// its files still in the keys directory goes to the disabled directory,
/// unless a file is already there.
pub open spec fn active_repair_plan(
    st: KeysState,
    enabled: FilePresence,
    disabled: FilePresence,
) -> Seq<Move> {
    if active_key_incomplete(st, enabled) {
        let k = st.keys[active_index(st)->0];
        let e = enabled_paths(k, st.keys_dir);
        let d = disabled_paths(k, st.disabled_dir);
        (if enabled.private && !disabled.private {
            seq![Move { from: e.private, to: d.private }]
        } else {
            seq![]
        }) + (if enabled.public && !disabled.public {
            seq![Move { from: e.public, to: d.public }]
        } else {
            seq![]
        })
    } else {
        seq![]
    }
}

/// The state after checking the active key: no active key where it was
/// incomplete.
pub open spec fn after_active_check(st: KeysState, enabled: FilePresence) -> KeysState {
    if active_key_incomplete(st, enabled) {
        with_active(st, None)
    } else {
        st
    }
}

/// The key at `i` is the active one: its name is the active name.
pub open spec fn is_active_at(st: KeysState, i: int) -> bool {
    st.active == Some(st.keys[i].name)
}

/// The directory where remnants of lost keys go: `lost-and-found` beside the
/// disabled directory. None where the disabled directory has no parent.
pub open spec fn lost_and_found(st: KeysState) -> Option<Seq<char>> {
    match path_parent(st.disabled_dir) {
        Some(p) => Some(path_join(p, "lost-and-found"@)),
        None => None,
    }
}

/// The moves for a disabled key one of whose files is missing: what is left
/// of it goes to the lost-and-found directory, under the key's name.
pub open spec fn lost_key_plan(st: KeysState, i: int, presence: FilePresence, lost_dir: Seq<char>) -> Seq<Move> {
    if presence.private && presence.public {
        seq![]
    } else {
        let k = st.keys[i];
        let d = disabled_paths(k, st.disabled_dir);
        let dest = path_join(lost_dir, k.name);
        (if presence.private {
            seq![Move { from: d.private, to: dest }]
        } else {
            seq![]
        }) + (if presence.public {
            seq![Move { from: d.public, to: public_beside(dest) }]
        } else {
            seq![]
        })
    }
}

/// The key at `i` stays tracked: it is the active key, or both its files
/// are in the disabled directory.
pub open spec fn keeps(st: KeysState, presence: Seq<FilePresence>, i: int) -> bool {
    is_active_at(st, i) || (presence[i].private && presence[i].public)
}

/// The keys among the first `n` that stay tracked, in order.
pub open spec fn kept_prefix(st: KeysState, presence: Seq<FilePresence>, n: nat) -> Seq<KeyEntry>
    decreases n,
{
    if n == 0 {
        seq![]
    } else {
        let prev = kept_prefix(st, presence, (n - 1) as nat);
        if keeps(st, presence, n - 1) {
            prev.push(st.keys[n - 1])
        } else {
            prev
        }
    }
}

/// The keys that stay tracked once the lost ones are dropped, in order;
/// `presence` tells, for each key, which of its disabled files exist.
pub open spec fn kept_keys(st: KeysState, presence: Seq<FilePresence>) -> Seq<KeyEntry> {
    kept_prefix(st, presence, st.keys.len())
}

/// A file in the keys directory is one of the active key's files.
pub open spec fn is_active_file(st: KeysState, path: Seq<char>) -> bool {
    match active_index(st) {
        Some(i) => {
            let e = enabled_paths(st.keys[i], st.keys_dir);
            same_path(path, e.private) || same_path(path, e.public)
        },
        None => false,
    }
}

/// The moves that bring a newly found key under tracking: the file found and
/// its partner (the same path with the extension removed, and with the
/// extension `pub`) go to the disabled directory. A key left without a
/// name (the user skipped it) is not brought in.
pub open spec fn untracked_plan(st: KeysState, found: Seq<char>, k: KeyEntry) -> Seq<Move> {
    let d = disabled_paths(k, st.disabled_dir);
    if k.name.len() == 0 {
        seq![]
    } else {
        seq![
            Move { from: path_with_extension(found, ""@), to: d.private },
            Move { from: public_beside(found), to: d.public },
        ]
    }
}

/// The outcome of renaming the key named `old_name` to `new_name`.
pub open spec fn rename_result(st: KeysState, old_name: Seq<char>, new_name: Seq<char>) -> Result<KeysState, KeyError> {
    if find_by_name(st.keys, new_name) is Some {
        Err(KeyError::NameTaken)
    } else {
        match find_by_name(st.keys, old_name) {
            None => Err(KeyError::NotTracked),
            Some(i) => Ok(
                KeysState {
                    active: if st.active == Some(old_name) {
                        Some(new_name)
                    } else {
                        st.active
                    },
                    keys: st.keys.update(i, KeyEntry { name: new_name, key_type: st.keys[i].key_type }),
                    keys_dir: st.keys_dir,
                    disabled_dir: st.disabled_dir,
                },
            ),
        }
    }
}

/// The moves that a rename needs: a disabled key's files take the new name;
/// an active key's files keep theirs. None where the rename is refused.
pub open spec fn rename_plan(st: KeysState, old_name: Seq<char>, new_name: Seq<char>) -> Seq<Move> {
    if rename_result(st, old_name, new_name) is Ok && st.active != Some(old_name) {
        let from = path_join(st.disabled_dir, old_name);
        let to = path_with_file_name(from, new_name);
        seq![Move { from, to }, Move { from: public_beside(from), to: public_beside(to) }]
    } else {
        seq![]
    }
}

/// The outcome of deleting the key named `name`.
pub open spec fn delete_result(st: KeysState, name: Seq<char>) -> Result<KeysState, KeyError> {
    match find_by_name(st.keys, name) {
        None => Err(KeyError::NotTracked),
        Some(i) => Ok(
            KeysState {
                active: if st.active == Some(name) {
                    None
                } else {
                    st.active
                },
                keys: st.keys.remove(i),
                keys_dir: st.keys_dir,
                disabled_dir: st.disabled_dir,
            },
        ),
    }
}

/// The files that deleting the key named `name` removes: where the key is
/// active, its files in the keys directory, otherwise its disabled files.
pub open spec fn deletion_plan(st: KeysState, name: Seq<char>) -> Seq<Seq<char>> {
    match find_by_name(st.keys, name) {
        None => seq![],
        Some(i) => {
            let p = if st.active == Some(name) {
                enabled_paths(st.keys[i], st.keys_dir)
            } else {
                disabled_paths(st.keys[i], st.disabled_dir)
            };
            seq![p.private, p.public]
        },
    }
}

/// How the key to work on is obtained.
#[derive(Clone, Copy, Debug, PartialEq, Eq, Structural)]
pub enum KeyRequest {
    /// The key at this position matches the name given.
    Found(usize),
    /// No key matches, and the user may not be asked.
    NoPrompt,
    /// No key matches; the user is to be asked.
    Prompt,
}

/// How the key is obtained: a name given on the command line finds a key as
/// `find_by_partial` does; otherwise the user is asked, unless asking is
/// forbidden.
pub open spec fn key_request(st: KeysState, key_name: Option<Seq<char>>, no_prompt: bool) -> KeyRequest {
    if key_name is Some && find_by_partial(st.keys, key_name->0) is Some {
        KeyRequest::Found(find_by_partial(st.keys, key_name->0)->0 as usize)
    } else if no_prompt {
        KeyRequest::NoPrompt
    } else {
        KeyRequest::Prompt
    }
}

/// What the user's answer to "Select key (number/name)" picks.
#[derive(Clone, Copy, Debug, PartialEq, Eq, Structural)]
pub enum KeySelection {
    /// The key at this position.
    Chosen(usize),
    /// A number that names no key (keys are numbered from 1).
    OutOfRange,
    /// A text that names no key.
    NoMatch,
}

/// The pick for an answer: a number counts the keys from 1; any other text
/// is a name or the start of one.
pub open spec fn selection_of(st: KeysState, selection: Seq<char>) -> KeySelection {
    match parsed_index(selection) {
        Some(n) => if n > 0 && n - 1 < st.keys.len() {
            KeySelection::Chosen((n - 1) as usize)
        } else {
            KeySelection::OutOfRange
        },
        None => match find_by_partial(st.keys, selection) {
            Some(i) => KeySelection::Chosen(i as usize),
            None => KeySelection::NoMatch,
        },
    }
}

/// Whether an answer to "Are you sure ...? (y/N)" confirms: it starts with
/// `y`, letter case aside.
pub open spec fn is_confirmation(response: Seq<char>) -> bool {
    starts_with(lowercase(response), "y"@)
}

/// Whether an answer to "Are you sure you want to delete key ...? (y/N)"
/// confirms the deletion.
pub fn confirms_deletion(response: &str) -> (r: bool)
    ensures
        r == is_confirmation(response@),
{
    let lower = to_lowercase(response);
    has_prefix(lower.as_str(), "y")
}

/// The first position satisfying a predicate is the position `first_index` names.
pub proof fn lemma_first_index_is(keys: Seq<KeyEntry>, p: spec_fn(KeyEntry) -> bool, i: int)
    requires
        is_first(keys, p, i),
    ensures
        first_index(keys, p) == Some(i),
{
    let c = choose|c: int| is_first(keys, p, c);
    assert(is_first(keys, p, c));
    if c < i {
        assert(!p(keys[c]));
    } else if c > i {
        assert(!p(keys[i]));
    }
}

/// Where no key satisfies a predicate, `first_index` names no position.
pub proof fn lemma_first_index_none(keys: Seq<KeyEntry>, p: spec_fn(KeyEntry) -> bool)
    requires
        forall|j: int| 0 <= j < keys.len() ==> !p(#[trigger] keys[j]),
    ensures
        first_index(keys, p) is None,
{
}

/// Where some key satisfies a predicate, `first_index` names a position, and
/// it is the first one.
pub proof fn lemma_first_index_exists(keys: Seq<KeyEntry>, p: spec_fn(KeyEntry) -> bool, i: int)
    requires
        0 <= i < keys.len(),
        p(keys[i]),
    ensures
        first_index(keys, p) matches Some(f) && is_first(keys, p, f) && f <= i,
    decreases i,
{
    if exists|j: int| 0 <= j < i && p(#[trigger] keys[j]) {
        let j = choose|j: int| 0 <= j < i && p(#[trigger] keys[j]);
        lemma_first_index_exists(keys, p, j);
    } else {
        lemma_first_index_is(keys, p, i);
    }
}

/// The position of the first key with exactly this name.
fn position_of_name(keys: &Vec<TrackedKey>, name: &String) -> (r: Option<usize>)
    ensures
        match r {
            Some(i) => find_by_name(entries(keys@), name@) == Some(i as int),
            None => find_by_name(entries(keys@), name@) is None,
        },
{
    let ghost es = entries(keys@);
    let mut i: usize = 0;
    while i < keys.len()
        invariant
            i <= keys@.len(),
            es == entries(keys@),
            forall|j: int| 0 <= j < i ==> !named(name@)(#[trigger] es[j]),
        decreases keys.len() - i,
    {
        if keys[i].name == *name {
            proof {
                lemma_first_index_is(es, named(name@), i as int);
            }
            return Some(i);
        }
        i = i + 1;
    }
    proof {
        lemma_first_index_none(es, named(name@));
    }
    None
}

/// The position of the first key whose lowercased name starts with `lower_partial`,
/// the lowercased partial name.
fn position_of_partial(keys: &Vec<TrackedKey>, partial: &str, lower_partial: &String) -> (r: Option<usize>)
    requires
        lower_partial@ == lowercase(partial@),
    ensures
        match r {
            Some(i) => first_index(entries(keys@), partially_named(partial@)) == Some(i as int),
            None => first_index(entries(keys@), partially_named(partial@)) is None,
        },
{
    let ghost es = entries(keys@);
    let mut i: usize = 0;
    while i < keys.len()
        invariant
            i <= keys@.len(),
            es == entries(keys@),
            lower_partial@ == lowercase(partial@),
            forall|j: int| 0 <= j < i ==> !partially_named(partial@)(#[trigger] es[j]),
        decreases keys.len() - i,
    {
        let lower_name = to_lowercase(keys[i].name.as_str());
        if has_prefix(lower_name.as_str(), lower_partial.as_str()) {
            proof {
                lemma_first_index_is(es, partially_named(partial@), i as int);
            }
            return Some(i);
        }
        i = i + 1;
    }
    proof {
        lemma_first_index_none(es, partially_named(partial@));
    }
    None
}

/// The position of the first key with exactly this name; failing that, of
/// the first whose name starts with it, letter case aside.
fn position_by_partial(keys: &Vec<TrackedKey>, partial_name: &str) -> (r: Option<usize>)
    ensures
        match r {
            Some(i) => find_by_partial(entries(keys@), partial_name@) == Some(i as int),
            None => find_by_partial(entries(keys@), partial_name@) is None,
        },
{
    let target = String::from_str(partial_name);
    if let Some(i) = position_of_name(keys, &target) {
        return Some(i);
    }
    let lower_partial = to_lowercase(partial_name);
    position_of_partial(keys, partial_name, &lower_partial)
}

impl TrackedKeys {
    /// An empty registry over the given directories.
    pub fn new(keys_dir: String, disabled_dir: String) -> (r: TrackedKeys)
        ensures
            r@.active is None,
            r@.keys.len() == 0,
            r@.keys_dir == keys_dir@,
            r@.disabled_dir == disabled_dir@,
    {
        TrackedKeys { active: None, keys: Vec::new(), keys_dir, disabled_dir }
    }

    /// A registry as it was saved, over the given directories.
    pub fn from_saved(
        active: Option<String>,
        keys: Vec<TrackedKey>,
        keys_dir: String,
        disabled_dir: String,
    ) -> (r: TrackedKeys)
        ensures
            r@.active == opt_text(active),
            r@.keys == entries(keys@),
            r@.keys_dir == keys_dir@,
            r@.disabled_dir == disabled_dir@,
    {
        TrackedKeys { active, keys, keys_dir, disabled_dir }
    }

    /// The directory where the active key's files live.
    pub fn keys_dir(&self) -> (r: &str)
        ensures
            r@ == self@.keys_dir,
    {
        self.keys_dir.as_str()
    }

    /// The directory where the other keys' files wait.
    pub fn disabled_dir(&self) -> (r: &str)
        ensures
            r@ == self@.disabled_dir,
    {
        self.disabled_dir.as_str()
    }

    /// The first tracked key with exactly this name.
    pub fn find_key(&self, name: &str) -> (r: Option<&TrackedKey>)
        ensures
            r is Some <==> find_by_name(self@.keys, name@) is Some,
            r matches Some(k) ==> k@ == self@.keys[find_by_name(self@.keys, name@)->0],
    {
        let target = String::from_str(name);
        match position_of_name(&self.keys, &target) {
            Some(i) => Some(&self.keys[i]),
            None => None,
        }
    }

    /// The first tracked key with exactly this name; failing that, the first
    /// whose name starts with it, letter case aside.
    pub fn find_key_by_partial(&self, partial_name: &str) -> (r: Option<&TrackedKey>)
        ensures
            r is Some <==> find_by_partial(self@.keys, partial_name@) is Some,
            r matches Some(k) ==> k@ == self@.keys[find_by_partial(self@.keys, partial_name@)->0],
    {
        match position_by_partial(&self.keys, partial_name) {
            Some(i) => Some(&self.keys[i]),
            None => None,
        }
    }

    /// How the key to work on is obtained from the name given on the command
    /// line, if any, and whether the user may be asked.
    pub fn get_key(&self, key_name: Option<&str>, no_prompt: bool) -> (r: KeyRequest)
        ensures
            r == key_request(
                self@,
                match key_name {
                    Some(n) => Some(n@),
                    None => None,
                },
                no_prompt,
            ),
    {
        if let Some(name) = key_name {
            if let Some(i) = position_by_partial(&self.keys, name) {
                return KeyRequest::Found(i);
            }
        }
        if no_prompt {
            KeyRequest::NoPrompt
        } else {
            KeyRequest::Prompt
        }
    }

    /// The position of the active key: the first key with the active name.
    fn active_position(&self) -> (r: Option<usize>)
        ensures
            match r {
                Some(i) => active_index(self@) == Some(i as int),
                None => active_index(self@) is None,
            },
    {
        match &self.active {
            Some(name) => position_of_name(&self.keys, name),
            None => None,
        }
    }

    /// The active key: the first tracked key with the active name.
    pub fn get_active_key(&self) -> (r: Option<&TrackedKey>)
        ensures
            r is Some <==> active_index(self@) is Some,
            r matches Some(k) ==> k@ == self@.keys[active_index(self@)->0],
    {
        match self.active_position() {
            Some(i) => Some(&self.keys[i]),
            None => None,
        }
    }

    /// The moves that activate `key`: its files come from the disabled
    /// directory to the keys directory.
    pub fn activation_moves(&self, key: &TrackedKey) -> (r: Vec<FileMove>)
        ensures
            moves_view(r@) == activation_plan(self@, key@),
    {
        let disabled_paths = key.get_disabled_paths(self.disabled_dir.as_str());
        let enabled_paths = key.get_enabled_paths(self.keys_dir.as_str());
        let r = vec![
            FileMove { from: disabled_paths.private, to: enabled_paths.private },
            FileMove { from: disabled_paths.public, to: enabled_paths.public },
        ];
        assert(moves_view(r@) =~= activation_plan(self@, key@));
        r
    }

    /// Records `key` as the active key, once its files have been moved in.
    pub fn activate_key(&mut self, key: &TrackedKey)
        ensures
            final(self)@ == with_active(old(self)@, Some(key.name@)),
    {
        self.active = Some(key.name.clone());
    }

    /// The moves that deactivate the active key: its files go back to the
    /// disabled directory. None where no tracked key has the active name.
    pub fn deactivation_moves(&self) -> (r: Vec<FileMove>)
        ensures
            moves_view(r@) == deactivation_plan(self@),
    {
        match self.active_position() {
            Some(i) => {
                let active_key = &self.keys[i];
                let disabled_paths = active_key.get_disabled_paths(self.disabled_dir.as_str());
                let enabled_paths = active_key.get_enabled_paths(self.keys_dir.as_str());
                let r = vec![
                    FileMove { from: enabled_paths.private, to: disabled_paths.private },
                    FileMove { from: enabled_paths.public, to: disabled_paths.public },
                ];
                assert(moves_view(r@) =~= deactivation_plan(self@));
                r
            },
            None => {
                let r: Vec<FileMove> = Vec::new();
                assert(moves_view(r@) =~= deactivation_plan(self@));
                r
            },
        }
    }

    /// Records that no key is active, once the active key's files have been
    /// moved out. Where no tracked key has the active name, nothing changes.
    pub fn deactivate_key(&mut self)
        ensures
            final(self)@ == deactivated(old(self)@),
    {
        if self.active_position().is_some() {
            self.active = None;
        }
    }

    /// The moves that put back what is left of the active key where one of
    /// its files is missing from the keys directory; `enabled` tells which
    /// of its files are in the keys directory, `disabled` which are in the
    /// disabled directory.
    pub fn active_state_moves(&self, enabled: FilePresence, disabled: FilePresence) -> (r: Vec<FileMove>)
        ensures
            moves_view(r@) == active_repair_plan(self@, enabled, disabled),
    {
        let mut r: Vec<FileMove> = Vec::new();
        if let Some(i) = self.active_position() {
            if !enabled.is_complete() {
                let active_key = &self.keys[i];
                let enabled_paths = active_key.get_enabled_paths(self.keys_dir.as_str());
                let disabled_paths = active_key.get_disabled_paths(self.disabled_dir.as_str());
                if enabled.private && !disabled.private {
                    r.push(FileMove { from: enabled_paths.private, to: disabled_paths.private });
                }
                if enabled.public && !disabled.public {
                    r.push(FileMove { from: enabled_paths.public, to: disabled_paths.public });
                }
            }
        }
        assert(moves_view(r@) =~= active_repair_plan(self@, enabled, disabled));
        r
    }

    /// Records the check of the active key: where it is tracked and one of
    /// its files is missing from the keys directory, no key is active any
    /// more. Returns whether the state changed.
    pub fn update_active_state(&mut self, enabled: FilePresence) -> (dirty: bool)
        ensures
            dirty == active_key_incomplete(old(self)@, enabled),
            final(self)@ == after_active_check(old(self)@, enabled),
    {
        if self.active_position().is_some() && !enabled.is_complete() {
            self.active = None;
            true
        } else {
            false
        }
    }

    /// Whether the key at `index` is the active one (its name is the active name).
    pub fn key_is_active(&self, index: usize) -> (r: bool)
        requires
            index < self@.keys.len(),
        ensures
            r == is_active_at(self@, index as int),
    {
        match &self.active {
            Some(name) => self.keys[index].name == *name,
            None => false,
        }
    }

    /// The directory for remnants of lost keys: `lost-and-found` beside the
    /// disabled directory. None where the disabled directory has no parent.
    pub fn lost_and_found_dir(&self) -> (r: Option<String>)
        ensures
            r matches Some(d) ==> lost_and_found(self@) == Some(d@),
            r is None <==> lost_and_found(self@) is None,
    {
        match parent(self.disabled_dir.as_str()) {
            Some(p) => Some(join(p.as_str(), "lost-and-found")),
            None => None,
        }
    }

    /// The moves for the disabled key at `index`, given which of its files
    /// exist: where one is missing, what is left of it goes to `lost_dir`.
    pub fn lost_key_moves(&self, index: usize, presence: FilePresence, lost_dir: &str) -> (r: Vec<FileMove>)
        requires
            index < self@.keys.len(),
        ensures
            moves_view(r@) == lost_key_plan(self@, index as int, presence, lost_dir@),
    {
        let mut r: Vec<FileMove> = Vec::new();
        if !presence.is_complete() {
            let key = &self.keys[index];
            let disabled_paths = key.get_disabled_paths(self.disabled_dir.as_str());
            let dest = join(lost_dir, key.name.as_str());
            let dest_pub = with_pub_extension(dest.as_str());
            if presence.private {
                r.push(FileMove { from: disabled_paths.private, to: dest });
            }
            if presence.public {
                r.push(FileMove { from: disabled_paths.public, to: dest_pub });
            }
        }
        assert(moves_view(r@) =~= lost_key_plan(self@, index as int, presence, lost_dir@));
        r
    }

    /// Drops the lost keys, once their remnants have been moved away:
    /// `presence` tells, for each key, which of its disabled files exist.
    /// The active key and every key with both files stay, in order. Returns
    /// whether a key was dropped.
    pub fn update_tracked_keys(&mut self, presence: &Vec<FilePresence>) -> (dirty: bool)
        requires
            presence@.len() == old(self)@.keys.len(),
        ensures
            final(self)@ == with_keys(old(self)@, kept_keys(old(self)@, presence@)),
            dirty == (kept_keys(old(self)@, presence@).len() < old(self)@.keys.len()),
    {
        let ghost st0 = self@;
        let n = self.keys.len();
        let mut i: usize = 0;
        let mut j: usize = 0;
        assert(st0.keys.skip(0) =~= st0.keys);
        while i < n
            invariant
                n == st0.keys.len(),
                presence@.len() == n,
                j <= i <= n,
                self@.active == st0.active,
                self@.keys_dir == st0.keys_dir,
                self@.disabled_dir == st0.disabled_dir,
                kept_prefix(st0, presence@, i as nat).len() == j,
                self@.keys == kept_prefix(st0, presence@, i as nat) + st0.keys.skip(i as int),
            decreases n - i,
        {
            let ghost before = self.keys@;
            let ghost kept = kept_prefix(st0, presence@, i as nat);
            assert(self@.keys.len() == self.keys@.len());
            assert(self@.keys[j as int] == st0.keys[i as int]);
            assert(self.keys@[j as int]@ == st0.keys[i as int]);
            let is_active = match &self.active {
                Some(a) => *a == self.keys[j].name,
                None => false,
            };
            let complete = presence[i].is_complete();
            assert(is_active == is_active_at(st0, i as int));
            assert((is_active || complete) == keeps(st0, presence@, i as int));
            if is_active || complete {
                assert(kept_prefix(st0, presence@, (i + 1) as nat) == kept.push(st0.keys[i as int]));
                assert(kept.push(st0.keys[i as int]) + st0.keys.skip(i + 1) =~= kept + st0.keys.skip(
                    i as int,
                ));
                j = j + 1;
            } else {
                self.keys.remove(j);
                assert(entries(self.keys@) =~= entries(before).remove(j as int));
                assert(kept + st0.keys.skip(i + 1) =~= (kept + st0.keys.skip(i as int)).remove(
                    j as int,
                ));
            }
            i = i + 1;
        }
        assert(st0.keys.skip(n as int) =~= Seq::<KeyEntry>::empty());
        assert(self@.keys =~= kept_prefix(st0, presence@, n as nat));
        j < n
    }

    /// Records a check of the key files: `active_changed` is what
    /// `update_active_state` returned, `presence` tells, for each key, which
    /// of its disabled files exist. Drops the lost keys and returns whether
    /// anything changed.
    pub fn update_state(&mut self, active_changed: bool, presence: &Vec<FilePresence>) -> (changes_made: bool)
        requires
            presence@.len() == old(self)@.keys.len(),
        ensures
            final(self)@ == with_keys(old(self)@, kept_keys(old(self)@, presence@)),
            changes_made == (active_changed || kept_keys(old(self)@, presence@).len() < old(self)@.keys.len()),
    {
        let dirty = self.update_tracked_keys(presence);
        dirty || active_changed
    }

    /// Whether a file found in the keys directory is one of the active key's
    /// files.
    pub fn is_active_key_file(&self, path: &str) -> (r: bool)
        ensures
            r == is_active_file(self@, path@),
    {
        match self.active_position() {
            Some(i) => {
                let active_paths = self.keys[i].get_enabled_paths(self.keys_dir.as_str());
                paths_equal(path, active_paths.private.as_str()) || paths_equal(
                    path,
                    active_paths.public.as_str(),
                )
            },
            None => false,
        }
    }

    /// The moves that bring a key found at `found` under tracking as `key`:
    /// its private and public files go to the disabled directory.
    pub fn untracked_key_moves(&self, found: &str, key: &TrackedKey) -> (r: Vec<FileMove>)
        ensures
            moves_view(r@) == untracked_plan(self@, found@, key@),
    {
        if key.name.unicode_len() == 0 {
            let r: Vec<FileMove> = Vec::new();
            assert(moves_view(r@) =~= untracked_plan(self@, found@, key@));
            return r;
        }
        let public_path = with_pub_extension(found);
        let private_path = without_extension(found);
        let disabled_paths = key.get_disabled_paths(self.disabled_dir.as_str());
        let r = vec![
            FileMove { from: private_path, to: disabled_paths.private },
            FileMove { from: public_path, to: disabled_paths.public },
        ];
        assert(moves_view(r@) =~= untracked_plan(self@, found@, key@));
        r
    }

    /// Adds a key at the end of the list, once its files have been moved to
    /// the disabled directory. A key without a name (the user skipped it) is
    /// not added. Returns whether the key was added.
    pub fn track_key(&mut self, key: TrackedKey) -> (added: bool)
        ensures
            added == (key.name@.len() > 0),
            final(self)@ == if added {
                with_keys(old(self)@, old(self)@.keys.push(key@))
            } else {
                old(self)@
            },
    {
        if key.name.unicode_len() == 0 {
            return false;
        }
        let ghost before = self.keys@;
        self.keys.push(key);
        assert(entries(self.keys@) =~= entries(before).push(key@));
        true
    }

    /// The moves that renaming `key` to `new_name` needs: where the key is
    /// disabled, its files take the new name. None where the rename is
    /// refused or the key is active.
    pub fn rename_moves(&self, key: &TrackedKey, new_name: &str) -> (r: Vec<FileMove>)
        ensures
            moves_view(r@) == rename_plan(self@, key.name@, new_name@),
    {
        let new_name_owned = String::from_str(new_name);
        let mut r: Vec<FileMove> = Vec::new();
        if position_of_name(&self.keys, &new_name_owned).is_none() {
            if position_of_name(&self.keys, &key.name).is_some() {
                let is_active = match &self.active {
                    Some(a) => *a == key.name,
                    None => false,
                };
                if !is_active {
                    let disabled_path = join(self.disabled_dir.as_str(), key.name.as_str());
                    let disabled_pub_path = with_pub_extension(disabled_path.as_str());
                    let new_path = with_file_name(disabled_path.as_str(), new_name);
                    let new_pub_path = with_pub_extension(new_path.as_str());
                    r.push(FileMove { from: disabled_path, to: new_path });
                    r.push(FileMove { from: disabled_pub_path, to: new_pub_path });
                }
            }
        }
        assert(moves_view(r@) =~= rename_plan(self@, key.name@, new_name@));
        r
    }

    /// Gives the tracked key named like `key` the name `new_name`, once its
    /// files have been moved; the active name follows. Refused where the new
    /// name is taken or the key is not tracked, with nothing changed.
    pub fn rename(&mut self, key: &TrackedKey, new_name: String) -> (r: Result<(), KeyError>)
        ensures
            match r {
                Ok(()) => rename_result(old(self)@, key.name@, new_name@) == Ok::<KeysState, KeyError>(final(self)@),
                Err(e) => {
                    &&& rename_result(old(self)@, key.name@, new_name@) == Err::<KeysState, KeyError>(e)
                    &&& final(self)@ == old(self)@
                },
            },
    {
        let old_name = key.name.clone();
        if position_of_name(&self.keys, &new_name).is_some() {
            return Err(KeyError::NameTaken);
        }
        match position_of_name(&self.keys, &old_name) {
            Some(i) => {
                let ghost before = self.keys@;
                let is_active = match &self.active {
                    Some(a) => *a == self.keys[i].name,
                    None => false,
                };
                if is_active {
                    self.active = Some(new_name.clone());
                }
                let key_type = self.keys[i].key_type;
                let ghost renamed = TrackedKey { name: new_name, key_type };
                self.keys.set(i, TrackedKey { name: new_name, key_type });
                assert(entries(self.keys@) =~= entries(before).update(i as int, renamed@));
                Ok(())
            },
            None => Err(KeyError::NotTracked),
        }
    }

    /// Begins deleting `key`: where it is the active key, no key is active
    /// any more. Returns the files to remove: where the key was active, its
    /// files in the keys directory, otherwise its disabled files. Refused
    /// where the key is not tracked, with nothing changed.
    pub fn start_delete(&mut self, key: &TrackedKey) -> (r: Result<Vec<String>, KeyError>)
        ensures
            match r {
                Ok(files) => {
                    &&& find_by_name(old(self)@.keys, key.name@) is Some
                    &&& crate::text::texts(files@) == deletion_plan(old(self)@, key.name@)
                    &&& final(self)@ == if old(self)@.active == Some(key.name@) {
                        with_active(old(self)@, None)
                    } else {
                        old(self)@
                    }
                },
                Err(e) => {
                    &&& e == KeyError::NotTracked
                    &&& find_by_name(old(self)@.keys, key.name@) is None
                    &&& final(self)@ == old(self)@
                },
            },
    {
        match position_of_name(&self.keys, &key.name) {
            Some(i) => {
                let internal_key = &self.keys[i];
                let is_active = match &self.active {
                    Some(a) => *a == internal_key.name,
                    None => false,
                };
                let paths = if is_active {
                    internal_key.get_enabled_paths(self.keys_dir.as_str())
                } else {
                    internal_key.get_disabled_paths(self.disabled_dir.as_str())
                };
                let mut r: Vec<String> = Vec::new();
                r.push(paths.private);
                r.push(paths.public);
                assert(crate::text::texts(r@) =~= deletion_plan(self@, key.name@));
                if is_active {
                    self.active = None;
                }
                Ok(r)
            },
            None => Err(KeyError::NotTracked),
        }
    }

    /// Stops tracking the key named like `key`, once its files have been
    /// removed; where it was active, no key is active any more. Refused where
    /// the key is not tracked, with nothing changed.
    pub fn delete(&mut self, key: &TrackedKey) -> (r: Result<(), KeyError>)
        ensures
            match r {
                Ok(()) => delete_result(old(self)@, key.name@) == Ok::<KeysState, KeyError>(final(self)@),
                Err(e) => {
                    &&& delete_result(old(self)@, key.name@) == Err::<KeysState, KeyError>(e)
                    &&& final(self)@ == old(self)@
                },
            },
    {
        match position_of_name(&self.keys, &key.name) {
            Some(key_index) => {
                let ghost before = self.keys@;
                let is_active = match &self.active {
                    Some(a) => *a == self.keys[key_index].name,
                    None => false,
                };
                if is_active {
                    self.active = None;
                }
                self.keys.remove(key_index);
                assert(entries(self.keys@) =~= entries(before).remove(key_index as int));
                Ok(())
            },
            None => Err(KeyError::NotTracked),
        }
    }

    /// What the user's answer picks; `selection` is the answer with the
    /// surrounding whitespace removed.
    pub fn select_key(&self, selection: &str) -> (r: KeySelection)
        ensures
            r == selection_of(self@, selection@),
    {
        match parse_index(selection) {
            Some(index) => {
                if index > 0 && index - 1 < self.keys.len() {
                    KeySelection::Chosen(index - 1)
                } else {
                    KeySelection::OutOfRange
                }
            },
            None => match position_by_partial(&self.keys, selection) {
                Some(i) => KeySelection::Chosen(i),
                None => KeySelection::NoMatch,
            },
        }
    }

    /// The name that an answer to "Enter a name for this key" gives, with the
    /// surrounding whitespace removed, where no tracked key has it yet; `None`
    /// where the name is taken. A blank answer gives the empty name, which
    /// skips the key.
    pub fn free_name(&self, answer: &str) -> (r: Option<String>)
        ensures
            match r {
                Some(name) => name@ == trimmed(answer@) && find_by_name(self@.keys, name@) is None,
                None => find_by_name(self@.keys, trimmed(answer@)) is Some,
            },
    {
        let name = trim(answer);
        if position_of_name(&self.keys, &name).is_none() {
            Some(name)
        } else {
            None
        }
    }
}

} // verus!
