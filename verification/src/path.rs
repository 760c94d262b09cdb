//! Resolving a file name against a directory.

use vstd::prelude::*;

verus! {

/// The text of the path that `std::path::Path::join` makes of `base` and
/// `name`. Joining reads nothing but the two paths, so on one build target
/// the same two always give the same path; which separator stands between
/// them, and when an absolute `name` replaces `base`, is the platform's
/// rule and is not stated here.
pub uninterp spec fn joined_path(base: Seq<char>, name: Seq<char>) -> Seq<char>;

/// Joins `name` onto `base` with `std::path::Path::join` and returns the
/// joined path as text. Both arguments are text, so is their join, and
/// nothing is lost in turning it back into a string.
#[verifier::external_body]
pub(crate) fn join_path(base: &str, name: &str) -> (full: String)
    ensures
        full@ == joined_path(base@, name@),
{
    std::path::Path::new(base).join(name).to_string_lossy().into_owned()
}

} // verus!
