//! File paths: what the standard library says of a [`PathBuf`], over the bytes
//! that the path holds. How a path falls into parts is the rule of the platform
//! that the library is built for.
use std::path::PathBuf;
use vstd::prelude::*;
use vstd::utf8::*;

verus! {

/// The standard library's owned path: a buffer of bytes in the platform's
/// encoding, which is a superset of UTF-8.
#[verifier::external_type_specification]
#[verifier::external_body]
pub struct ExPathBuf(PathBuf);

/// The bytes that a path holds, as `OsStr::as_encoded_bytes` shows them.
pub uninterp spec fn path_bytes(path: PathBuf) -> Seq<u8>;

/// The bytes of what `Path::parent` returns for a path that holds these bytes.
pub uninterp spec fn parent_bytes(path: Seq<u8>) -> Option<Seq<u8>>;

/// The bytes of what `Path::file_name` returns for a path that holds these bytes.
pub uninterp spec fn name_bytes(path: Seq<u8>) -> Option<Seq<u8>>;

/// The bytes of what `Path::join` makes of a path that holds these bytes and a text.
pub uninterp spec fn joined_bytes(path: Seq<u8>, name: Seq<char>) -> Seq<u8>;

/// Whether `PathBuf`'s `==` holds of paths that hold these bytes: whether they
/// have the same parts.
pub uninterp spec fn equivalent(a: Seq<u8>, b: Seq<u8>) -> bool;

/// The number of what `Path::components` walks through for a path that holds these bytes:
/// how many parts the path has.
pub uninterp spec fn part_count(path: Seq<u8>) -> nat;

/// Whether `Path::starts_with` holds of paths that hold these bytes: whether the parts of
/// the outer path are the first parts of the inner one.
pub uninterp spec fn within(inner: Seq<u8>, outer: Seq<u8>) -> bool;

/// What `Path::display` displays for a path that holds these bytes.
pub uninterp spec fn display_text(path: Seq<u8>) -> Seq<char>;

/// Whether paths that hold these bytes are the same path: whether they have the same
/// parts, as paths of the same bytes do.
pub open spec fn same_path(a: Seq<u8>, b: Seq<u8>) -> bool {
    equivalent(a, b) || a == b
}

/// Whether a path lies in another one, however the two are spelled: it begins with the
/// other one's parts and is not the same path.
pub open spec fn lies_in(inner: Seq<u8>, outer: Seq<u8>) -> bool {
    within(inner, outer) && !same_path(inner, outer)
}

/// Whether a text is a single file name on every platform: it is neither empty nor one of
/// the names for a directory itself and its parent, it has no separator, and it does not
/// begin with a drive, which is a letter and a colon.
pub open spec fn lone_name(name: Seq<char>) -> bool {
    &&& name.len() > 0
    &&& name != seq!['.']
    &&& name != seq!['.', '.']
    &&& !name.contains('/')
    &&& !name.contains('\\')
    &&& !(name.len() > 1 && name[1] == ':' && ('a' <= name[0] <= 'z' || 'A' <= name[0] <= 'Z'))
}

/// Whether a byte is a separator on some platform.
pub open spec fn separator(b: u8) -> bool {
    b == 0x2f || b == 0x5c
}

/// Whether a path does not begin with two separators, as paths to shares and devices do on
/// Windows.
pub open spec fn plain_start(path: Seq<u8>) -> bool {
    path.len() > 1 ==> !(separator(path[0]) && separator(path[1]))
}

/// The bytes of a path that may be missing.
pub open spec fn optional_bytes(path: Option<PathBuf>) -> Option<Seq<u8>> {
    match path {
        Some(path) => Some(path_bytes(path)),
        None => None,
    }
}

/// `PathBuf`'s `Clone`: the copy is the same path.
pub assume_specification[ <PathBuf as Clone>::clone ](path: &PathBuf) -> (r: PathBuf)
    ensures
        r == *path,
;

/// `Path::parent`: the path without its final part. It depends on the bytes of the
/// path alone, and goes by the name `parent_bytes`.
#[verifier::external_body]
pub(crate) fn parent(path: &PathBuf) -> (r: Option<PathBuf>)
    ensures
        r matches Some(p) ==> parent_bytes(path_bytes(*path)) == Some(path_bytes(p)),
        r is None ==> parent_bytes(path_bytes(*path)) is None,
{
    path.parent().map(PathBuf::from)
}

/// `Path::file_name`: the final part of the path. It depends on the bytes of the
/// path alone, and goes by the name `name_bytes`. Where it is a single file name, the
/// path's parent joined with it is the path again, of paths that do not begin with two
/// separators.
#[verifier::external_body]
pub(crate) fn file_name(path: &PathBuf) -> (r: Option<PathBuf>)
    ensures
        r matches Some(p) ==> name_bytes(path_bytes(*path)) == Some(path_bytes(p)),
        r is None ==> name_bytes(path_bytes(*path)) is None,
        r matches Some(p) ==> (valid_utf8(path_bytes(p)) && lone_name(decode_utf8(path_bytes(p)))
            && plain_start(path_bytes(*path)) && parent_bytes(path_bytes(*path)) is Some
            ==> equivalent(
            path_bytes(*path),
            joined_bytes(parent_bytes(path_bytes(*path))->0, decode_utf8(path_bytes(p))),
        )),
{
    path.file_name().map(PathBuf::from)
}

/// `Path::to_str`: the path as text, where its bytes are UTF-8.
#[verifier::external_body]
pub(crate) fn to_str(path: &PathBuf) -> (r: Option<&str>)
    ensures
        r is Some <==> valid_utf8(path_bytes(*path)),
        r matches Some(s) ==> encode_utf8(s@) == path_bytes(*path),
{
    path.to_str()
}

/// `Path::join`: the path with a name adjoined. It depends on the bytes of the path
/// and the characters of the name alone, and goes by the name `joined_bytes`.
///
/// Of paths that do not begin with two separators: a single file name is the final part of
/// the new path. And where the name is the final part, the new path without it has the same
/// parts as the path that was given, so that the name joined to the new path's parent makes
/// a path of the same parts again.
#[verifier::external_body]
pub(crate) fn join(path: &PathBuf, name: &str) -> (r: PathBuf)
    ensures
        path_bytes(r) == joined_bytes(path_bytes(*path), name@),
        plain_start(path_bytes(*path)) && lone_name(name@) ==> name_bytes(path_bytes(r)) == Some(
            encode_utf8(name@),
        ),
        plain_start(path_bytes(*path)) && name_bytes(path_bytes(r)) == Some(encode_utf8(name@))
            ==> parent_bytes(path_bytes(r)) is Some,
        plain_start(path_bytes(*path)) && name_bytes(path_bytes(r)) == Some(encode_utf8(name@))
            ==> equivalent(parent_bytes(path_bytes(r))->0, path_bytes(*path)),
        plain_start(path_bytes(*path)) && name_bytes(path_bytes(r)) == Some(encode_utf8(name@))
            ==> equivalent(
            path_bytes(r),
            joined_bytes(parent_bytes(path_bytes(r))->0, name@),
        ),
{
    path.join(name)
}

/// `PathBuf`'s `==`, which goes by the name `equivalent`. It is an equivalence: the
/// order of the two paths does not matter, and paths of the same bytes are equal.
#[verifier::external_body]
pub(crate) fn same(a: &PathBuf, b: &PathBuf) -> (r: bool)
    ensures
        r == equivalent(path_bytes(*a), path_bytes(*b)),
        r == equivalent(path_bytes(*b), path_bytes(*a)),
        path_bytes(*a) == path_bytes(*b) ==> r,
{
    a == b
}

/// `Path::components`, counted: the number of the path's parts. It depends on the bytes of
/// the path alone, and goes by the name `part_count`.
#[verifier::external_body]
pub(crate) fn parts(path: &PathBuf) -> (r: usize)
    ensures
        r == part_count(path_bytes(*path)),
{
    path.components().count()
}

/// `Path::starts_with`, which goes by the name `within`. It goes by whole parts, so that a
/// path that begins with another one's parts and is not equal to it has more parts.
#[verifier::external_body]
pub(crate) fn starts_with(inner: &PathBuf, outer: &PathBuf) -> (r: bool)
    ensures
        r == within(path_bytes(*inner), path_bytes(*outer)),
        r && !equivalent(path_bytes(*inner), path_bytes(*outer)) ==> part_count(
            path_bytes(*inner),
        ) > part_count(path_bytes(*outer)),
{
    inner.starts_with(outer)
}

/// `OsStr::len`, of the path's own storage: the number of its bytes.
#[verifier::external_body]
pub(crate) fn len(path: &PathBuf) -> (r: usize)
    ensures
        r == path_bytes(*path).len(),
{
    path.as_os_str().len()
}

/// What `Path::display` displays. It depends on the bytes of the path alone, and
/// goes by the name `display_text`.
#[verifier::external_body]
pub(crate) fn display(path: &PathBuf) -> (r: String)
    ensures
        r@ == display_text(path_bytes(*path)),
{
    path.display().to_string()
}

} // verus!
