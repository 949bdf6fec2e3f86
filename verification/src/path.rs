//! File paths as text. What a path is made of is what the platform says that the
//! library is built for, so the names below stand for one platform at a time.

use vstd::prelude::*;
use vstd::string::*;

use crate::text;

verus! {

/// A single name: not empty, neither `.` nor `..`, and without the characters
/// that part a path or name a drive.
pub open spec fn is_plain_name(s: Seq<char>) -> bool {
    &&& s.len() > 0
    &&& s != seq!['.']
    &&& s != seq!['.', '.']
    &&& forall|i: int|
        0 <= i < s.len() ==> #[trigger] s[i] != '/' && s[i] != '\\' && s[i] != ':'
}

/// What `Path::parent` gives for a path.
pub uninterp spec fn path_parent(path: Seq<char>) -> Option<Seq<char>>;

/// What `Path::file_name` gives for a path.
pub uninterp spec fn path_file_name(path: Seq<char>) -> Option<Seq<char>>;

/// What `Path::join` gives for a path and a relative or absolute path.
pub uninterp spec fn path_join(path: Seq<char>, tail: Seq<char>) -> Seq<char>;

/// What `Path::with_file_name` gives for a path and a name.
pub uninterp spec fn path_with_file_name(path: Seq<char>, name: Seq<char>) -> Seq<char>;

/// Whether `Path` considers two paths equal.
pub uninterp spec fn same_path(a: Seq<char>, b: Seq<char>) -> bool;

pub open spec fn opt_text(r: Option<String>) -> Option<Seq<char>> {
    match r {
        Some(s) => Some(s@),
        None => None,
    }
}

/// `Path::parent` of std. The contract names its result; a UTF-8 path has a
/// UTF-8 parent. A relative path of one component has the empty parent.
#[verifier::external_body]
pub(crate) fn parent(path: &str) -> (r: Option<String>)
    ensures
        opt_text(r) == path_parent(path@),
        forall|name: Seq<char>|
            is_plain_name(name) && #[trigger] same_path(name, path@) ==> opt_text(r) == Some(
                Seq::<char>::empty(),
            ),
{
    std::path::Path::new(path).parent().map(|p| p.to_string_lossy().into_owned())
}

/// `Path::file_name` of std. The contract names its result: the last component,
/// which is part of the path, and all of it for a path that is equal to a single
/// name.
#[verifier::external_body]
pub(crate) fn file_name(path: &str) -> (r: Option<String>)
    ensures
        opt_text(r) == path_file_name(path@),
        r matches Some(name) ==> text::utf8_len(name@) <= text::utf8_len(path@),
        forall|name: Seq<char>|
            is_plain_name(name) && #[trigger] same_path(name, path@) ==> opt_text(r) == Some(name),
{
    std::path::Path::new(path).file_name().map(|p| p.to_string_lossy().into_owned())
}

/// `Path::join` of std. The contract names its result. What is joined to the empty
/// path stands alone.
#[verifier::external_body]
pub(crate) fn join(path: &str, tail: &str) -> (r: String)
    ensures
        r@ == path_join(path@, tail@),
        path@.len() == 0 && is_plain_name(tail@) ==> r@ == tail@,
{
    std::path::Path::new(path).join(tail).to_string_lossy().into_owned()
}

/// `Path::with_file_name` of std. The contract names its result.
#[verifier::external_body]
pub(crate) fn with_file_name(path: &str, name: &str) -> (r: String)
    ensures
        r@ == path_with_file_name(path@, name@),
{
    std::path::Path::new(path).with_file_name(name).to_string_lossy().into_owned()
}

/// `==` of std's `Path`, which compares component by component. The contract
/// names its result.
#[verifier::external_body]
pub(crate) fn equal(a: &str, b: &str) -> (r: bool)
    ensures
        r == same_path(a@, b@),
{
    std::path::Path::new(a) == std::path::Path::new(b)
}

} // verus!
