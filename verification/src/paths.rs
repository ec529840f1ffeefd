//! File system paths, as far as the configuration speaks of them.

use std::path::PathBuf;

use vstd::prelude::*;

verus! {

/// A path of the file system.
#[verifier::external_type_specification]
#[verifier::external_body]
pub struct ExPathBuf(PathBuf);

/// What a path holds: the bytes of `Path::as_os_str().as_encoded_bytes()`, which are UTF-8 where
/// the path is text.
pub uninterp spec fn path_bytes(path: PathBuf) -> Seq<u8>;

/// Calls `PathBuf::from` on a text.
///
/// Taken on trust: the path holds the text as it is.
#[verifier::external_body]
pub(crate) fn path_from(text: &str) -> (path: PathBuf)
    ensures
        path_bytes(path) == vstd::utf8::encode_utf8(text@),
{
    PathBuf::from(text)
}

/// `PathBuf::clone`.
///
/// Taken on trust: the copy holds what the path holds.
pub assume_specification[ <PathBuf as Clone>::clone ](path: &PathBuf) -> (copy: PathBuf)
    ensures
        path_bytes(copy) == path_bytes(*path),
;

/// The text can only be the name of one file: it is not empty, it stands for no directory, and it
/// holds nothing that any platform gives a meaning in a path.
pub open spec fn is_file_name(name: Seq<char>) -> bool {
    &&& name.len() > 0
    &&& name != seq!['.']
    &&& name != seq!['.', '.']
    &&& forall|i: int|
        0 <= i < name.len() ==> (#[trigger] name[i]) != '/' && name[i] != '\\' && name[i] != ':'
}

/// The byte separates the components of a path, on some platform.
pub open spec fn is_separator(byte: u8) -> bool {
    byte == '/' as u8 || byte == '\\' as u8
}

/// The number of bytes that a verbatim directory starts with.
pub const VERBATIM_PREFIX_LEN: usize = 4;

/// The directory starts with `\\?\`, as one that Windows takes verbatim does; some platforms read a
/// slash as a backslash there.
pub open spec fn is_verbatim(dir: Seq<u8>) -> bool {
    &&& dir.len() >= VERBATIM_PREFIX_LEN
    &&& is_separator(dir[0])
    &&& is_separator(dir[1])
    &&& dir[2] == '?' as u8
    &&& is_separator(dir[3])
}

/// A component of the directory can start at `i`: a separator stands in front of it.
pub open spec fn starts_component(dir: Seq<u8>, i: int) -> bool {
    1 <= i <= dir.len() && is_separator(dir[i - 1])
}

/// A component of the directory ends in front of `i`.
pub open spec fn ends_component(dir: Seq<u8>, i: int) -> bool {
    i >= dir.len() || is_separator(dir[i])
}

/// There is nothing to normalize in the verbatim directory `dir`: behind its prefix no component is
/// empty, `.` or `..`, so no separator is repeated and none comes last.
pub open spec fn is_normal(dir: Seq<u8>) -> bool {
    forall|i: int|
        VERBATIM_PREFIX_LEN <= i && #[trigger] starts_component(dir, i) ==> {
            &&& !ends_component(dir, i)
            &&& !(dir[i] == '.' as u8 && ends_component(dir, i + 1))
            &&& !(dir[i] == '.' as u8 && dir[i + 1] == '.' as u8 && ends_component(dir, i + 2))
        }
}

/// The bytes, with every separator written as a slash.
pub open spec fn with_slashes(bytes: Seq<u8>) -> Seq<u8> {
    bytes.map_values(
        |byte: u8|
            if is_separator(byte) {
                '/' as u8
            } else {
                byte
            },
    )
}

/// The path `path` ends in the file name `name`.
pub open spec fn ends_in(path: Seq<u8>, name: Seq<u8>) -> bool {
    path.len() >= name.len() && path.skip(path.len() - name.len()) == name
}

/// The path `path` starts as the verbatim directory `dir` does and ends in the file name `name`.
/// Where there is nothing to normalize, it is the directory, a separator and the file name; how the
/// separators are written, the platform decides.
pub open spec fn is_file_in_verbatim(path: Seq<u8>, dir: Seq<u8>, name: Seq<u8>) -> bool {
    &&& path.len() >= VERBATIM_PREFIX_LEN + name.len()
    &&& path.take(VERBATIM_PREFIX_LEN as int) == dir.take(VERBATIM_PREFIX_LEN as int)
    &&& ends_in(path, name)
    &&& is_normal(dir) ==> with_slashes(path) == with_slashes(dir).push('/' as u8) + name
}

/// The path `path` is the directory `dir` and, behind it, the file name `name`.
///
/// A separator stands between them, unless `dir` is empty or ends in one. Which separator it is,
/// and whether `dir` ends in one where its last byte is a backslash or a colon, the platform
/// decides.
pub open spec fn is_file_in(path: Seq<u8>, dir: Seq<u8>, name: Seq<u8>) -> bool {
    if dir.len() == 0 || dir.last() == '/' as u8 {
        path == dir + name
    } else {
        ||| path == dir.push('/' as u8) + name
        ||| path == dir.push('\\' as u8) + name
        ||| (dir.last() == '\\' as u8 || dir.last() == ':' as u8) && path == dir + name
    }
}

/// The path `path` is the file `name` in the directory `dir`, as the platform writes it.
///
/// Windows normalizes a verbatim directory.
pub open spec fn is_joined(path: Seq<u8>, dir: Seq<u8>, name: Seq<u8>) -> bool {
    if is_verbatim(dir) {
        is_file_in_verbatim(path, dir, name)
    } else {
        is_file_in(path, dir, name)
    }
}

/// Calls `Path::join`.
///
/// Taken on trust: a file name is put behind the directory, after a separator where one is needed.
/// Of a directory that Windows takes verbatim, less is claimed, because Windows normalizes it and
/// may write its separators anew: the path starts with the same prefix and ends in the file name,
/// and where there is nothing to normalize, the directory stands in front of the name up to how its
/// separators are written. What normalizing a directory gives is left unsaid.
#[verifier::external_body]
pub(crate) fn path_join(dir: &PathBuf, name: &str) -> (path: PathBuf)
    requires
        is_file_name(name@),
    ensures
        is_joined(path_bytes(path), path_bytes(*dir), vstd::utf8::encode_utf8(name@)),
{
    dir.join(name)
}

/// A path to a file ends in the name of the file, in whichever directory it lies.
pub proof fn law_path_ends_in_the_file_name(path: Seq<u8>, dir: Seq<u8>, name: Seq<u8>)
    requires
        is_joined(path, dir, name),
    ensures
        ends_in(path, name),
{
    if !is_verbatim(dir) {
        assert((dir + name).skip(dir.len() as int) =~= name);
        assert((dir.push('/' as u8) + name).skip(dir.len() as int + 1) =~= name);
        assert((dir.push('\\' as u8) + name).skip(dir.len() as int + 1) =~= name);
    }
}

/// A path to a file is its directory, at most one separator, and the name of the file, in every
/// directory that does not start with two separators, a question mark and a separator. The separator
/// is there unless the directory is empty or ends in a byte that may do without one.
pub proof fn law_file_lies_in_its_directory(path: Seq<u8>, dir: Seq<u8>, name: Seq<u8>)
    requires
        is_joined(path, dir, name),
        !(dir.len() >= 4 && (dir[0] == 47 || dir[0] == 92) && (dir[1] == 47 || dir[1] == 92)
            && dir[2] == 63 && (dir[3] == 47 || dir[3] == 92)),
    ensures
        ({
            let between = path.len() - dir.len() - name.len();
            &&& between == 0 || between == 1
            &&& path.take(dir.len() as int) == dir
            &&& path.skip(dir.len() + between) == name
            &&& between == 1 ==> path[dir.len() as int] == 47 || path[dir.len() as int] == 92
            &&& between == 0 ==> dir.len() == 0 || dir.last() == 47 || dir.last() == 92
                || dir.last() == 58
            &&& dir.len() == 0 || dir.last() == 47 ==> between == 0
        }),
{
    assert(!is_verbatim(dir));
    assert((dir + name).take(dir.len() as int) =~= dir);
    assert((dir + name).skip(dir.len() as int) =~= name);
    assert((dir.push('/' as u8) + name).take(dir.len() as int) =~= dir);
    assert((dir.push('/' as u8) + name).skip(dir.len() as int + 1) =~= name);
    assert((dir.push('\\' as u8) + name).take(dir.len() as int) =~= dir);
    assert((dir.push('\\' as u8) + name).skip(dir.len() as int + 1) =~= name);
}

/// A path to a file in a verbatim directory in which there is nothing to normalize is the directory,
/// one separator and the name of the file; only how a separator is written may differ.
pub proof fn law_file_lies_in_its_verbatim_directory(
    path: Seq<u8>,
    dir: Seq<u8>,
    name: Seq<u8>,
    i: int,
)
    requires
        is_joined(path, dir, name),
        is_verbatim(dir),
        is_normal(dir),
        0 <= i < dir.len(),
    ensures
        path.len() == dir.len() + 1 + name.len(),
        path[i] == dir[i] || ((path[i] == 47 || path[i] == 92) && (dir[i] == 47 || dir[i] == 92)),
        path[dir.len() as int] == 47 || path[dir.len() as int] == 92,
        path.skip(dir.len() as int + 1) == name,
{
    let size = dir.len() as int;
    let folded = with_slashes(dir).push('/' as u8) + name;
    assert(with_slashes(path).len() == path.len());
    assert(folded.len() == size + 1 + name.len());
    assert(with_slashes(path)[i] == folded[i]);
    assert(folded[i] == with_slashes(dir)[i]);
    assert(with_slashes(path)[size] == folded[size]);
}

} // verus!
