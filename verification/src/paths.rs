//! File paths held as text, and the few operations of `std::path::Path`
//! that the library uses on them. Each operation is named by its result;
//! what `std` documents plainly about it is stated beside the name.
use std::collections::hash_map::DefaultHasher;
use std::hash::Hash;
use vstd::prelude::*;

verus! {

/// `Path::strip_prefix`: what remains of `path` after the components of
/// `base`, when `base` is a prefix of it.
pub uninterp spec fn path_strip_prefix(path: Seq<char>, base: Seq<char>) -> Option<Seq<char>>;

/// Calls `std::path::Path::strip_prefix`; the result is named
/// `path_strip_prefix` of the two texts and nothing more is claimed.
#[verifier::external_body]
pub(crate) fn strip_path_prefix(path: &str, base: &str) -> (r: Option<String>)
    ensures
        match path_strip_prefix(path@, base@) {
            Some(rest) => r is Some && r.unwrap()@ == rest,
            None => r is None,
        },
{
    std::path::Path::new(path).strip_prefix(base).ok().map(|p| p.to_string_lossy().into_owned())
}

/// `Path::parent`: the path without its final component, if it has one.
pub uninterp spec fn path_parent(path: Seq<char>) -> Option<Seq<char>>;

/// Calls `std::path::Path::parent`. The result is named `path_parent`;
/// as `std` documents it, a parent is the path without its final
/// component, so its text is shorter than the path's.
#[verifier::external_body]
pub(crate) fn parent_of(path: &str) -> (r: Option<String>)
    ensures
        match path_parent(path@) {
            Some(p) => r is Some && r.unwrap()@ == p,
            None => r is None,
        },
        r is Some ==> r.unwrap()@.len() < path@.len(),
{
    std::path::Path::new(path).parent().map(|p| p.to_string_lossy().into_owned())
}

/// `Path::file_name` read as UTF-8 (`OsStr::to_str`): the final component
/// of the path, when it is a normal one.
pub uninterp spec fn path_file_name(path: Seq<char>) -> Option<Seq<char>>;

/// Calls `std::path::Path::file_name` and reads the name as a `&str`;
/// the result is named `path_file_name` and nothing more is claimed.
#[verifier::external_body]
pub(crate) fn file_name_of(path: &str) -> (r: Option<String>)
    ensures
        match path_file_name(path@) {
            Some(n) => r is Some && r.unwrap()@ == n,
            None => r is None,
        },
{
    std::path::Path::new(path).file_name().and_then(|n| n.to_str()).map(|n| n.to_owned())
}

/// `Path::join`: `rel` appended to `base` as a further component (or
/// `rel` itself when it is absolute).
pub uninterp spec fn path_join(base: Seq<char>, rel: Seq<char>) -> Seq<char>;

/// Calls `std::path::Path::join`; the result is named `path_join` of the
/// two texts and nothing more is claimed.
#[verifier::external_body]
pub(crate) fn join_path(base: &str, rel: &str) -> (r: String)
    ensures
        r@ == path_join(base@, rel@),
{
    std::path::Path::new(base).join(rel).to_string_lossy().into_owned()
}

/// Position of the last `c` in `s`, or -1.
pub open spec fn last_index_of(s: Seq<char>, c: char) -> int
    decreases s.len(),
{
    if s.len() == 0 {
        -1
    } else if s.last() == c {
        s.len() - 1
    } else {
        last_index_of(s.drop_last(), c)
    }
}

/// The extension of a file name, as `Path::extension` documents it: none
/// without an embedded `.`, none for a name whose only `.` leads it,
/// otherwise the part after the final `.`.
pub open spec fn extension_of_name(name: Seq<char>) -> Option<Seq<char>> {
    let i = last_index_of(name, '.');
    if i <= 0 {
        None
    } else {
        Some(name.skip(i + 1))
    }
}

/// `Path::extension` read as UTF-8: the extension of the path's file name,
/// none without a file name.
pub open spec fn path_extension(path: Seq<char>) -> Option<Seq<char>> {
    match path_file_name(path) {
        Some(n) => extension_of_name(n),
        None => None,
    }
}

/// Calls `std::path::Path::extension` and reads it as a `&str`. As `std`
/// documents it, the extension is that of `Path::file_name` (named
/// `path_file_name`): none without an embedded `.`, none for a name that
/// begins with its only `.`, otherwise the part after the final `.`.
#[verifier::external_body]
pub(crate) fn extension_of(path: &str) -> (r: Option<String>)
    ensures
        match path_extension(path@) {
            Some(e) => r is Some && r.unwrap()@ == e,
            None => r is None,
        },
{
    std::path::Path::new(path).extension().and_then(|e| e.to_str()).map(|e| e.to_owned())
}

/// `Path == Path`: the two paths have the same components.
pub uninterp spec fn path_eq(a: Seq<char>, b: Seq<char>) -> bool;

/// Compares two paths with `Path`'s `==`, which compares components. The
/// result is named `path_eq`; as `Path` is `Eq`, the same text is the
/// same path.
#[verifier::external_body]
pub(crate) fn paths_equal(a: &str, b: &str) -> (r: bool)
    ensures
        r == path_eq(a@, b@),
        a@ == b@ ==> r,
{
    std::path::Path::new(a) == std::path::Path::new(b)
}

/// The bytes that hashing a path writes into a hasher, write by write.
pub uninterp spec fn path_hash_writes(path: Seq<char>) -> Seq<Seq<u8>>;

/// Feeds a path to a `DefaultHasher` with `Path`'s `Hash` impl. What it
/// writes is named `path_hash_writes` of the path's text and appended to
/// the hasher's record of writes; nothing more is claimed.
#[verifier::external_body]
pub(crate) fn hash_path_into(hasher: &mut DefaultHasher, path: &str)
    ensures
        final(hasher)@ == old(hasher)@ + path_hash_writes(path@),
{
    std::path::Path::new(path).hash(hasher)
}

} // verus!
