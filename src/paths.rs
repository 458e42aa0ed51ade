//! Filesystem paths, held as text.
//!
//! The pure path computations that the rest of the library needs are
//! delegated to `std::path` and to the `pathdiff` crate; what they return
//! is named here so that contracts can speak of it.

use vstd::prelude::*;

verus! {

/// Whether `p` is an absolute path on this platform.
pub uninterp spec fn path_is_absolute(p: Seq<char>) -> bool;

/// The path `p` appended to `base`.
pub uninterp spec fn path_joined(base: Seq<char>, p: Seq<char>) -> Seq<char>;

/// The path that leads from directory `base` to `p`, when one exists.
pub uninterp spec fn path_relative(p: Seq<char>, base: Seq<char>) -> Option<Seq<char>>;

/// The last component of path `p`, where it has one.
pub uninterp spec fn path_file_name(p: Seq<char>) -> Option<Seq<char>>;

/// Relies on `std::path::Path::file_name`, a function of the text alone.
#[verifier::external_body]
pub(crate) fn file_name(p: &str) -> (r: Option<String>)
    ensures
        match r {
            Some(n) => path_file_name(p@) == Some(n@),
            None => path_file_name(p@) is None,
        },
{
    std::path::Path::new(p).file_name().map(|n| n.to_string_lossy().into_owned())
}

/// Relies on `std::path::Path::is_absolute`, a function of the text alone.
#[verifier::external_body]
pub(crate) fn is_absolute(p: &str) -> (r: bool)
    ensures
        r == path_is_absolute(p@),
{
    std::path::Path::new(p).is_absolute()
}

/// Relies on `std::path::Path::join`, whose documentation states that an
/// absolute `p` replaces `base`.
#[verifier::external_body]
pub(crate) fn join_path(base: &str, p: &str) -> (r: String)
    ensures
        r@ == path_joined(base@, p@),
        path_is_absolute(p@) ==> r@ == p@,
{
    std::path::Path::new(base).join(p).to_string_lossy().into_owned()
}

/// Relies on `pathdiff::diff_paths(p, base)`: a lexical computation on the
/// two paths, `None` where no relative path leads from `base` to `p`.
#[verifier::external_body]
pub(crate) fn diff_path(base: &str, p: &str) -> (r: Option<String>)
    ensures
        match r {
            Some(s) => path_relative(p@, base@) == Some(s@),
            None => path_relative(p@, base@) is None,
        },
{
    pathdiff::diff_paths(p, base).map(|d| d.to_string_lossy().into_owned())
}

/// `p` read relative to `root`: an absolute `p` stands as it is.
pub open spec fn path_or_joined(root: Seq<char>, p: Seq<char>) -> Seq<char> {
    if path_is_absolute(p) { p } else { path_joined(root, p) }
}

/// `path` read relative to `root`: an absolute `path` stands as it is.
pub fn maybe_join(root: &str, path: &str) -> (r: String)
    ensures
        r@ == path_or_joined(root@, path@),
{
    if is_absolute(path) {
        path.to_string()
    } else {
        join_path(root, path)
    }
}

} // verus!
