//! Path components of `std::path::Path`, for paths held as text.

use vstd::prelude::*;

verus! {

/// The parent of path `p` as `std::path::Path::parent` computes it, or
/// `None` for a root or empty path.
pub uninterp spec fn parent_path(p: Seq<char>) -> Option<Seq<char>>;

/// The last component of path `p` as `std::path::Path::file_name` computes
/// it, or `None` when the path ends in `..` or has no component.
pub uninterp spec fn file_name_of(p: Seq<char>) -> Option<Seq<char>>;

/// The text of an optional string.
pub open spec fn opt_text(o: Option<String>) -> Option<Seq<char>> {
    match o {
        Some(s) => Some(s@),
        None => None,
    }
}

/// Calls `std::path::Path::parent` on `p`; the result is the parent's text.
/// The contract says only that it equals `parent_path` of the input.
#[verifier::external_body]
fn path_parent(p: &str) -> (res: Option<String>)
    ensures
        opt_text(res) == parent_path(p@),
{
    match std::path::Path::new(p).parent() {
        Some(q) => Some(q.to_string_lossy().into_owned()),
        None => None,
    }
}

/// Calls `std::path::Path::file_name` on `p`; the result is that
/// component's text. The contract says only that it equals `file_name_of`
/// of the input.
#[verifier::external_body]
fn path_file_name(p: &str) -> (res: Option<String>)
    ensures
        opt_text(res) == file_name_of(p@),
{
    match std::path::Path::new(p).file_name() {
        Some(n) => Some(n.to_string_lossy().into_owned()),
        None => None,
    }
}

/// The parent directory of `p`, or `p` itself when it has none.
pub open spec fn parent_or_spec(p: Seq<char>) -> Seq<char> {
    match parent_path(p) {
        Some(q) => q,
        None => p,
    }
}

/// The display name of a directory: its last component, or the whole path
/// when it has none.
pub open spec fn dir_label_spec(p: Seq<char>) -> Seq<char> {
    match file_name_of(p) {
        Some(n) => n,
        None => p,
    }
}

/// The parent directory of `path`, or `path` itself at a root.
pub fn parent_or(path: &str) -> (res: String)
    ensures
        res@ == parent_or_spec(path@),
{
    match path_parent(path) {
        Some(q) => q,
        None => String::from_str(path),
    }
}

/// The display name of a directory.
pub fn dir_label(path: &str) -> (res: String)
    ensures
        res@ == dir_label_spec(path@),
{
    match path_file_name(path) {
        Some(n) => n,
        None => String::from_str(path),
    }
}

} // verus!
