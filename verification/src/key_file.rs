//! Reading the key-type text and the comment out of a public key file.
use vstd::prelude::*;
use crate::key_type::{KeyType, parse_type};
use crate::text::{words, join_spaced, texts, opt_text, split_whitespace, join_words_from};

verus! {

/// What a public key file says of its key: the type and the comment.
#[derive(Debug)]
pub struct KeyFileInfo {
    pub key_type: KeyType,
    pub comment: Option<String>,
}

/// The key type that a key file names in its first word, if it names one.
pub open spec fn key_file_type(contents: Seq<char>) -> Option<KeyType> {
    let w = words(contents);
    if w.len() == 0 {
        None
    } else {
        parse_type(w[0])
    }
}

/// The comment of a key file: its words from the third on, joined by single
/// spaces; none where there are fewer than three words.
pub open spec fn key_file_comment(contents: Seq<char>) -> Option<Seq<char>> {
    let w = words(contents);
    if w.len() >= 3 {
        Some(join_spaced(w.skip(2)))
    } else {
        None
    }
}

/// Reads a file found in the SSH directory as a public key: its first word
/// must be a known key-type text. Other files give `None`.
pub fn parse_key_file(contents: &str) -> (r: Option<KeyFileInfo>)
    ensures
        match r {
            Some(info) => {
                &&& key_file_type(contents@) == Some(info.key_type)
                &&& opt_text(info.comment) == key_file_comment(contents@)
            },
            None => key_file_type(contents@) is None,
        },
{
    let contents_split = split_whitespace(contents);
    if contents_split.len() == 0 {
        return None;
    }
    let key_type = match KeyType::from_type(contents_split[0].as_str()) {
        Ok(k) => k,
        Err(_) => {
            return None;
        },
    };
    let comment = if contents_split.len() >= 3 {
        Some(join_words_from(&contents_split, 2))
    } else {
        None
    };
    Some(KeyFileInfo { key_type, comment })
}

} // verus!
