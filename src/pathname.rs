//! The parts of a path, as std's `Path` splits it.
use vstd::prelude::*;

verus! {

/// The final component of a path, where it has one.
pub uninterp spec fn file_name_of(p: Seq<char>) -> Option<Seq<char>>;

/// The path without its final component, where it has one.
pub uninterp spec fn parent_of(p: Seq<char>) -> Option<Seq<char>>;

/// Relies on `Path::file_name`: the final component of `path`, or `None`
/// where the path ends in `..` or is a root or empty. A component of a
/// `&str` path is always valid text.
#[verifier::external_body]
pub(crate) fn path_file_name(path: &str) -> (r: Option<String>)
    ensures
        r is Some <==> file_name_of(path@) is Some,
        r matches Some(s) ==> file_name_of(path@) == Some(s@),
{
    std::path::Path::new(path).file_name().and_then(|n| n.to_str()).map(|n| n.to_string())
}

/// Relies on `Path::parent`: `path` without its final component, or `None`
/// where the path is a root or empty.
#[verifier::external_body]
pub(crate) fn path_parent(path: &str) -> (r: Option<String>)
    ensures
        r is Some <==> parent_of(path@) is Some,
        r matches Some(s) ==> parent_of(path@) == Some(s@),
{
    std::path::Path::new(path).parent().and_then(|n| n.to_str()).map(|n| n.to_string())
}

} // verus!
