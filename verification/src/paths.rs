//! File-system paths as text, in the syntax of Unix-like platforms. The
//! launcher never touches the disk itself; it only forms and compares path
//! names. Comparing the components of paths and finding a parent are left
//! to `std::path`, whose results are named here and not spelled out.

use vstd::prelude::*;
use vstd::string::StringExecFns;
use crate::text::chars_of;

verus! {

/// Whether `std::path::Path::ends_with` holds of `path` and `tail`, that
/// is, whether the last components of `path` are those of `tail`.
pub uninterp spec fn path_ends_with(path: Seq<char>, tail: Seq<char>) -> bool;

/// What `std::path::Path::parent` gives for `path`: the path without its
/// last component, if it has one.
pub uninterp spec fn path_parent(path: Seq<char>) -> Option<Seq<char>>;

/// `Path::ends_with`, which looks at whole components only.
#[verifier::external_body]
pub(crate) fn ends_with_path(path: &str, tail: &str) -> (out: bool)
    ensures
        out == path_ends_with(path@, tail@),
{
    std::path::Path::new(path).ends_with(tail)
}

/// Whether `path` is relative, that is, does not start at the root `/`.
pub open spec fn path_is_relative(path: Seq<char>) -> bool {
    !(path.len() > 0 && path[0] == '/')
}

/// `rel` adjoined to `base`: `rel` itself if it starts at the root; else
/// `base`, then one `/` unless `base` is empty or already ends with one,
/// then `rel`.
pub open spec fn joined_path(base: Seq<char>, rel: Seq<char>) -> Seq<char> {
    if !path_is_relative(rel) {
        rel
    } else if base.len() == 0 || base.last() == '/' {
        base + rel
    } else {
        base.push('/') + rel
    }
}

/// Whether `path` is relative.
pub fn is_relative_path(path: &str) -> (out: bool)
    ensures
        out == path_is_relative(path@),
{
    let chars = chars_of(path);
    !(chars.len() > 0 && chars[0] == '/')
}

/// Adjoins `rel` to `base`.
pub fn join_path(base: &str, rel: &str) -> (out: String)
    ensures
        out@ == joined_path(base@, rel@),
{
    if !is_relative_path(rel) {
        return String::from_str(rel);
    }
    let start = chars_of(base);
    let mut out = String::from_str(base);
    if start.len() > 0 && start[start.len() - 1] != '/' {
        out.push('/');
    }
    out.append(rel);
    out
}

/// `Path::parent`. The parent of a Unicode path is Unicode, so its text is
/// what the result holds.
#[verifier::external_body]
pub(crate) fn parent_path(path: &str) -> (out: Option<String>)
    ensures
        match out {
            Some(p) => path_parent(path@) == Some(p@),
            None => path_parent(path@) is None,
        },
{
    std::path::Path::new(path).parent().map(|p| p.to_string_lossy().into_owned())
}

} // verus!
