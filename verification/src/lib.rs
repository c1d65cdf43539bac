//! Keep exactly one SSH key active at a time: the other tracked keys wait in a
//! "disabled" directory and are swapped in on request.
//!
//! The library holds the registry of tracked keys and the decisions about it:
//! which key a name or an answer picks, which files to move or remove for each
//! change, and which keys are lost. The program around it reads the disk and
//! the user, and performs the file operations that the library plans.

pub mod key_type;
pub mod text;
pub mod paths;
pub mod tracked_key;
pub mod tracked_keys;
pub mod key_file;
pub mod laws;
