use vstd::prelude::*;

verus! {

/// The algorithm of an SSH key; the flag tells whether it is a security-key
/// (FIDO, `sk-`) variant.
#[derive(Clone, Copy, Debug, PartialEq, Eq, Structural)]
pub enum KeyType {
    Ed25519(bool),
    Rsa(bool),
    Dss(bool),
    Ecdsa256(bool),
    Ecdsa384(bool),
    Ecdsa521(bool),
}

/// The key-type text written for the plain variant of an algorithm.
pub open spec fn type_stem(k: KeyType) -> Seq<char> {
    match k {
        KeyType::Ed25519(_) => "ssh-ed25519"@,
        KeyType::Rsa(_) => "ssh-rsa"@,
        KeyType::Dss(_) => "ssh-dss"@,
        KeyType::Ecdsa256(_) => "ecdsa-sha2-nistp256"@,
        KeyType::Ecdsa384(_) => "ecdsa-sha2-nistp384"@,
        KeyType::Ecdsa521(_) => "ecdsa-sha2-nistp521"@,
    }
}

/// The base file name that OpenSSH uses for an algorithm.
pub open spec fn file_stem(k: KeyType) -> Seq<char> {
    match k {
        KeyType::Ed25519(_) => "id_ed25519"@,
        KeyType::Rsa(_) => "id_rsa"@,
        KeyType::Dss(_) => "id_dsa"@,
        KeyType::Ecdsa256(_) | KeyType::Ecdsa384(_) | KeyType::Ecdsa521(_) => "id_ecdsa"@,
    }
}

/// Whether the key lives on a security key.
pub open spec fn is_sk(k: KeyType) -> bool {
    match k {
        KeyType::Ed25519(sk) => sk,
        KeyType::Rsa(sk) => sk,
        KeyType::Dss(sk) => sk,
        KeyType::Ecdsa256(sk) => sk,
        KeyType::Ecdsa384(sk) => sk,
        KeyType::Ecdsa521(sk) => sk,
    }
}

/// `sk-<stem>@openssh.com` for a security-key variant, the stem itself otherwise.
pub open spec fn spec_full_key_type(stem: Seq<char>, sk: bool) -> Seq<char> {
    if sk {
        "sk-"@ + stem + "@openssh.com"@
    } else {
        stem
    }
}

/// `<stem>_sk` for a security-key variant, the stem itself otherwise.
pub open spec fn spec_full_file_name(stem: Seq<char>, sk: bool) -> Seq<char> {
    if sk {
        stem + "_sk"@
    } else {
        stem
    }
}

/// The key-type text that a public key file starts with.
pub open spec fn type_string(k: KeyType) -> Seq<char> {
    spec_full_key_type(type_stem(k), is_sk(k))
}

/// The file name of the private key in `~/.ssh` while the key is active.
pub open spec fn file_name(k: KeyType) -> Seq<char> {
    spec_full_file_name(file_stem(k), is_sk(k))
}

/// Builds the key-type text of an algorithm from its stem.
pub fn full_key_type(stem: &str, sk: bool) -> (r: String)
    ensures
        r@ == spec_full_key_type(stem@, sk),
{
    if sk {
        String::from_str("sk-").concat(stem).concat("@openssh.com")
    } else {
        String::from_str(stem)
    }
}

/// Builds the private key file name of an algorithm from its stem.
pub fn full_file_name(stem: &str, sk: bool) -> (r: String)
    ensures
        r@ == spec_full_file_name(stem@, sk),
{
    if sk {
        String::from_str(stem).concat("_sk")
    } else {
        String::from_str(stem)
    }
}

/// The message of the error that `from_type` gives for unknown text.
pub open spec fn unknown_type_message(key_type: Seq<char>) -> Seq<char> {
    "Unknown type "@ + key_type
}

/// The key type whose key-type text is `s`, if there is one.
pub open spec fn parse_type(s: Seq<char>) -> Option<KeyType> {
    if exists|k: KeyType| type_string(k) == s {
        Some(choose|k: KeyType| type_string(k) == s)
    } else {
        None
    }
}

impl KeyType {
    /// Reads the key-type text at the start of a public key file.
    pub fn from_type(key_type: &str) -> (r: Result<KeyType, String>)
        ensures
            match r {
                Ok(k) => parse_type(key_type@) == Some(k) && type_string(k) == key_type@,
                Err(msg) => {
                    &&& parse_type(key_type@) is None
                    &&& msg@ == unknown_type_message(key_type@)
                },
            },
    {
        let s = String::from_str(key_type);
        let candidates: Vec<KeyType> = vec![
            KeyType::Ed25519(false),
            KeyType::Rsa(false),
            KeyType::Dss(false),
            KeyType::Ecdsa256(false),
            KeyType::Ecdsa384(false),
            KeyType::Ecdsa521(false),
            KeyType::Ed25519(true),
            KeyType::Rsa(true),
            KeyType::Dss(true),
            KeyType::Ecdsa256(true),
            KeyType::Ecdsa384(true),
            KeyType::Ecdsa521(true),
        ];
        let mut i: usize = 0;
        while i < candidates.len()
            invariant
                0 <= i <= candidates@.len(),
                candidates@.len() == 12,
                s@ == key_type@,
                forall|k: KeyType| #![trigger type_string(k)] candidates@.contains(k),
                forall|j: int| 0 <= j < i ==> type_string(#[trigger] candidates@[j]) != key_type@,
            decreases candidates.len() - i,
        {
            let k = candidates[i];
            if k.to_string_type() == s {
                proof {
                    let c = choose|c: KeyType| type_string(c) == key_type@;
                    lemma_type_string_injective(c, k);
                }
                return Ok(k);
            }
            i = i + 1;
        }
        assert forall|k: KeyType| type_string(k) != key_type@ by {
            assert(candidates@.contains(k));
        }
        Err(String::from_str("Unknown type ").concat(key_type))
    }

    /// The key-type text of this key, as a public key file starts with it.
    pub fn to_string_type(&self) -> (r: String)
        ensures
            r@ == type_string(*self),
    {
        match self {
            KeyType::Ed25519(sk) => full_key_type("ssh-ed25519", *sk),
            KeyType::Rsa(sk) => full_key_type("ssh-rsa", *sk),
            KeyType::Dss(sk) => full_key_type("ssh-dss", *sk),
            KeyType::Ecdsa256(sk) => full_key_type("ecdsa-sha2-nistp256", *sk),
            KeyType::Ecdsa384(sk) => full_key_type("ecdsa-sha2-nistp384", *sk),
            KeyType::Ecdsa521(sk) => full_key_type("ecdsa-sha2-nistp521", *sk),
        }
    }

    /// The file name of the private key while the key is active; the public
    /// key sits beside it with the extension `pub`.
    pub fn to_file_name(&self) -> (r: String)
        ensures
            r@ == file_name(*self),
    {
        match self {
            KeyType::Ed25519(sk) => full_file_name("id_ed25519", *sk),
            KeyType::Rsa(sk) => full_file_name("id_rsa", *sk),
            KeyType::Dss(sk) => full_file_name("id_dsa", *sk),
            KeyType::Ecdsa256(sk) | KeyType::Ecdsa384(sk) | KeyType::Ecdsa521(sk) => full_file_name(
                "id_ecdsa",
                *sk,
            ),
        }
    }
}

/// Different key types have different key-type texts, so the text that a
/// public key file starts with names its key type unambiguously.
pub proof fn lemma_type_string_injective(a: KeyType, b: KeyType)
    requires
        type_string(a) == type_string(b),
    ensures
        a == b,
{
    reveal_strlit("ssh-ed25519");
    reveal_strlit("ssh-rsa");
    reveal_strlit("ssh-dss");
    reveal_strlit("ecdsa-sha2-nistp256");
    reveal_strlit("ecdsa-sha2-nistp384");
    reveal_strlit("ecdsa-sha2-nistp521");
    reveal_strlit("sk-");
    reveal_strlit("@openssh.com");
    let sa = type_string(a);
    let sb = type_string(b);
    if is_sk(a) != is_sk(b) {
        assert(sa.len() != sb.len() || sa[0] != sb[0] || sa[1] != sb[1]);
    } else if is_sk(a) {
        assert(sa.len() != sb.len() || sa[7] != sb[7] || sa[22] != sb[22] || sa[20] != sb[20] || a == b);
    } else {
        assert(sa.len() != sb.len() || sa[4] != sb[4] || sa[16] != sb[16] || sa[17] != sb[17] || a == b);
    }
}

/// Reading back the key-type text of a key type gives that key type, and a
/// text that is read as a key type is that key type's text.
pub proof fn lemma_type_string_round_trip(k: KeyType, s: Seq<char>)
    ensures
        parse_type(type_string(k)) == Some(k),
        parse_type(s) matches Some(t) ==> type_string(t) == s,
{
    let c = choose|c: KeyType| type_string(c) == type_string(k);
    lemma_type_string_injective(c, k);
}

} // verus!
