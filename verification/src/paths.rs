//! File-system paths, held as text. The operations are those of
//! `std::path::Path` on the platform the crate is built for.
use vstd::prelude::*;

verus! {

/// What `Path::join` gives for a base path and a path to adjoin.
pub uninterp spec fn path_join(base: Seq<char>, part: Seq<char>) -> Seq<char>;

/// What `Path::with_extension` gives for a path and an extension.
pub uninterp spec fn path_with_extension(path: Seq<char>, ext: Seq<char>) -> Seq<char>;

/// What `Path::with_file_name` gives for a path and a file name.
pub uninterp spec fn path_with_file_name(path: Seq<char>, name: Seq<char>) -> Seq<char>;

/// What `Path::parent` gives for a path: `None` for a root or empty path.
pub uninterp spec fn path_parent(path: Seq<char>) -> Option<Seq<char>>;

/// Whether two paths are equal as `Path`s (component by component).
pub uninterp spec fn same_path(a: Seq<char>, b: Seq<char>) -> bool;

/// Calls `Path::join`. The result is named by `path_join`, a function of the
/// two texts alone; the inputs are UTF-8, so the text conversion loses nothing.
/// Nothing is stated of separators or of how an absolute `part` replaces `base`.
#[verifier::external_body]
pub(crate) fn join(base: &str, part: &str) -> (r: String)
    ensures
        r@ == path_join(base@, part@),
{
    std::path::Path::new(base).join(part).to_string_lossy().into_owned()
}

/// Calls `Path::with_extension` with the extension `pub`. The result is
/// named by `path_with_extension`; nothing is stated of how an existing
/// extension is replaced. The extension holds no path separator, so the call
/// does not panic.
#[verifier::external_body]
pub(crate) fn with_pub_extension(path: &str) -> (r: String)
    ensures
        r@ == path_with_extension(path@, "pub"@),
{
    std::path::Path::new(path).with_extension("pub").to_string_lossy().into_owned()
}

/// Calls `Path::with_extension` with the empty extension, which removes the
/// extension. The result is named by `path_with_extension`.
#[verifier::external_body]
pub(crate) fn without_extension(path: &str) -> (r: String)
    ensures
        r@ == path_with_extension(path@, ""@),
{
    std::path::Path::new(path).with_extension("").to_string_lossy().into_owned()
}

/// Calls `Path::with_file_name`. The result is named by `path_with_file_name`.
#[verifier::external_body]
pub(crate) fn with_file_name(path: &str, name: &str) -> (r: String)
    ensures
        r@ == path_with_file_name(path@, name@),
{
    std::path::Path::new(path).with_file_name(name).to_string_lossy().into_owned()
}

/// Calls `Path::parent`. The result is named by `path_parent`.
#[verifier::external_body]
pub(crate) fn parent(path: &str) -> (r: Option<String>)
    ensures
        r matches Some(p) ==> path_parent(path@) == Some(p@),
        r is None <==> path_parent(path@) is None,
{
    match std::path::Path::new(path).parent() {
        Some(p) => Some(p.to_string_lossy().into_owned()),
        None => None,
    }
}

/// Compares two paths with `Path`'s `==`. The result is named by `same_path`.
#[verifier::external_body]
pub(crate) fn paths_equal(a: &str, b: &str) -> (r: bool)
    ensures
        r == same_path(a@, b@),
{
    std::path::Path::new(a) == std::path::Path::new(b)
}

} // verus!
