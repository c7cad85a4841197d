//! File path operations of the standard library.
use vstd::prelude::*;

verus! {

/// The path that `std::path::Path::join` makes of `base` and `p` on Unix: an
/// absolute `p` replaces `base`; otherwise `p` follows `base`, after a `/`
/// unless `base` is empty or already ends with one.
pub open spec fn joined_path(base: Seq<char>, p: Seq<char>) -> Seq<char> {
    if p.len() > 0 && p[0] == '/' {
        p
    } else if base.len() == 0 || base.last() == '/' {
        base + p
    } else {
        base + seq!['/'] + p
    }
}

/// The directory part that `std::path::Path::parent` gives of a path.
pub uninterp spec fn parent_of(p: Seq<char>) -> Seq<char>;

/// The path that `std::path::PathBuf::set_extension` makes of `p` and `ext`.
pub uninterp spec fn with_extension(p: Seq<char>, ext: Seq<char>) -> Seq<char>;

/// The text has no path separator.
pub open spec fn no_separator(s: Seq<char>) -> bool {
    forall|i: int| 0 <= i < s.len() ==> s[i] != '/'
}

/// The path has a component that `Path::parent` keeps: it is relative and not
/// empty, or it holds a character other than `/` and `.`.
pub open spec fn has_component(p: Seq<char>) -> bool {
    (p.len() > 0 && p[0] != '/') || exists|i: int| 0 <= i < p.len() && p[i] != '/' && p[i] != '.'
}

/// Relies on `Path::join`, as `joined_path` states it for Unix.
#[verifier::external_body]
pub(crate) fn join_path(base: &str, p: &str) -> (r: String)
    ensures
        r@ == joined_path(base@, p@),
{
    std::path::Path::new(base).join(p).to_string_lossy().into_owned()
}

/// Relies on `Path::parent`: it depends on the path alone; the empty path has
/// none, and on Unix a non-empty relative path, or one with a character other
/// than `/` and `.` (a named component), has one.
#[verifier::external_body]
pub(crate) fn path_parent(p: &str) -> (r: Option<String>)
    ensures
        r matches Some(d) ==> d@ == parent_of(p@),
        p@.len() == 0 ==> r is None,
        has_component(p@) ==> r is Some,
{
    match std::path::Path::new(p).parent() {
        Some(d) => Some(d.to_string_lossy().into_owned()),
        None => None,
    }
}

/// Relies on `PathBuf::set_extension`: the result depends on the path and the
/// extension alone; it panics on an extension with a path separator.
#[verifier::external_body]
pub(crate) fn set_extension(p: &str, ext: &str) -> (r: String)
    requires
        no_separator(ext@),
    ensures
        r@ == with_extension(p@, ext@),
{
    let mut path = std::path::PathBuf::from(p);
    path.set_extension(ext);
    path.to_string_lossy().into_owned()
}

} // verus!
