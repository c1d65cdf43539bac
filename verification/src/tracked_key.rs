//! A tracked key and the places where its files live.
use vstd::prelude::*;
use crate::key_type::{KeyType, file_name};
use crate::paths::{path_join, path_with_extension, join, with_pub_extension};

verus! {

/// A key the tool knows of: the name the user gave it and its type.
#[derive(Clone, Debug)]
pub struct TrackedKey {
    pub name: String,
    pub key_type: KeyType,
}

/// The model of a tracked key.
pub struct KeyEntry {
    pub name: Seq<char>,
    pub key_type: KeyType,
}

impl View for TrackedKey {
    type V = KeyEntry;

    open spec fn view(&self) -> KeyEntry {
        KeyEntry { name: self.name@, key_type: self.key_type }
    }
}

/// Where the private key and the public key of a key live.
#[derive(Debug)]
pub struct KeyPaths {
    pub private: String,
    pub public: String,
}

/// The model of a pair of key file paths.
pub struct PathPair {
    pub private: Seq<char>,
    pub public: Seq<char>,
}

impl View for KeyPaths {
    type V = PathPair;

    open spec fn view(&self) -> PathPair {
        PathPair { private: self.private@, public: self.public@ }
    }
}

/// The public key's path beside a private key's path.
pub open spec fn public_beside(private: Seq<char>) -> Seq<char> {
    path_with_extension(private, "pub"@)
}

/// The paths of a key's files while it is active: in the keys directory,
/// under the file name that OpenSSH expects for its type.
pub open spec fn enabled_paths(k: KeyEntry, keys_dir: Seq<char>) -> PathPair {
    let private = path_join(keys_dir, file_name(k.key_type));
    PathPair { private, public: public_beside(private) }
}

/// The paths of a key's files while it is disabled: in the disabled
/// directory, under the key's own name.
pub open spec fn disabled_paths(k: KeyEntry, disabled_dir: Seq<char>) -> PathPair {
    let private = path_join(disabled_dir, k.name);
    PathPair { private, public: public_beside(private) }
}

impl TrackedKey {
    /// Where this key's files are while it is the active key.
    pub fn get_enabled_paths(&self, keys_dir: &str) -> (r: KeyPaths)
        ensures
            r@ == enabled_paths(self@, keys_dir@),
    {
        let private_name = self.key_type.to_file_name();
        let private_path = join(keys_dir, private_name.as_str());
        let public_path = with_pub_extension(private_path.as_str());
        KeyPaths { private: private_path, public: public_path }
    }

    /// Where this key's files are while it is disabled.
    pub fn get_disabled_paths(&self, disabled_dir: &str) -> (r: KeyPaths)
        ensures
            r@ == disabled_paths(self@, disabled_dir@),
    {
        let disabled_path = join(disabled_dir, self.name.as_str());
        let disabled_pub_path = with_pub_extension(disabled_path.as_str());
        KeyPaths { private: disabled_path, public: disabled_pub_path }
    }
}

/// A file to be moved from one path to another.
#[derive(Debug)]
pub struct FileMove {
    pub from: String,
    pub to: String,
}

/// The model of a file move.
pub struct Move {
    pub from: Seq<char>,
    pub to: Seq<char>,
}

impl View for FileMove {
    type V = Move;

    open spec fn view(&self) -> Move {
        Move { from: self.from@, to: self.to@ }
    }
}

/// The models of a list of file moves.
pub open spec fn moves_view(v: Seq<FileMove>) -> Seq<Move> {
    v.map_values(|m: FileMove| m@)
}

/// Which of a key's two files exist.
#[derive(Clone, Copy, Debug, PartialEq, Eq, Structural)]
pub struct FilePresence {
    pub private: bool,
    pub public: bool,
}

impl FilePresence {
    /// Both files exist.
    pub fn is_complete(&self) -> (r: bool)
        ensures
            r == (self.private && self.public),
    {
        self.private && self.public
    }

    /// At least one of the files exists.
    pub fn any(&self) -> (r: bool)
        ensures
            r == (self.private || self.public),
    {
        self.private || self.public
    }
}

} // verus!
