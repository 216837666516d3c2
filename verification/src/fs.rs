//! Names of files: what stands behind the last dot and what in front of
//! it, and where the files of a build go.

use vstd::prelude::*;
use vstd::string::*;
use vstd::utf8::*;

verus! {

/// The byte of a dot.
pub const DOT: u8 = 46;

/// The index of the last dot among the first `end` bytes.
pub open spec fn last_dot(bytes: Seq<u8>, end: int) -> Option<int>
    decreases end,
{
    if end <= 0 || end > bytes.len() {
        None
    } else if bytes[end - 1] == DOT {
        Some(end - 1)
    } else {
        last_dot(bytes, end - 1)
    }
}

/// The extension of a path: what stands from its last dot on, and nothing
/// where it has no dot.
pub open spec fn extension(bytes: Seq<u8>) -> Seq<u8> {
    match last_dot(bytes, bytes.len() as int) {
        Some(i) => bytes.subrange(i, bytes.len() as int),
        None => Seq::empty(),
    }
}

/// A path without its extension.
pub open spec fn stem(bytes: Seq<u8>) -> Seq<u8> {
    bytes.subrange(0, bytes.len() - extension(bytes).len())
}

/// Where the last dot stands: inside the text, at a dot.
pub proof fn lemma_last_dot(bytes: Seq<u8>, end: int)
    ensures
        match last_dot(bytes, end) {
            Some(i) => 0 <= i < end <= bytes.len() && bytes[i] == DOT,
            None => true,
        },
    decreases end,
{
    if 0 < end <= bytes.len() && bytes[end - 1] != DOT {
        lemma_last_dot(bytes, end - 1);
    }
}

/// The index of the last dot of `file_path`.
fn find_last_dot(file_path: &str) -> (r: Option<usize>)
    ensures
        match r {
            Some(i) => last_dot(file_path.spec_bytes(), file_path.spec_bytes().len() as int) == Some(
                i as int,
            ) && i < file_path.spec_bytes().len(),
            None => last_dot(file_path.spec_bytes(), file_path.spec_bytes().len() as int) is None,
        },
{
    let bytes = file_path.as_bytes();
    let mut end: usize = bytes.len();
    while end > 0
        invariant
            end <= bytes@.len(),
            bytes@ == file_path.spec_bytes(),
            last_dot(bytes@, bytes@.len() as int) == last_dot(bytes@, end as int),
        decreases end,
    {
        if bytes[end - 1] == DOT {
            return Some(end - 1);
        }
        end -= 1;
    }
    None
}

/// The extension of a path, with its dot.
pub fn get_file_extension(file_path: &str) -> (ext: &str)
    ensures
        ext.spec_bytes() == extension(file_path.spec_bytes()),
{
    proof {
        encode_utf8_valid_utf8(file_path@);
        lemma_last_dot(file_path.spec_bytes(), file_path.spec_bytes().len() as int);
    }
    match find_last_dot(file_path) {
        Some(last_dot) => {
            proof {
                // a dot is no continuation byte: a character starts at it
                is_char_boundary_iff_not_is_continuation_byte(
                    file_path.spec_bytes(),
                    last_dot as int,
                );
            }
            let (_, ext) = file_path.split_at(last_dot);
            ext
        },
        None => {
            proof {
                is_char_boundary_start_end_of_seq(file_path.spec_bytes());
            }
            let end = file_path.as_bytes().len();
            let (_, ext) = file_path.split_at(end);
            assert(ext.spec_bytes() =~= Seq::<u8>::empty());
            ext
        },
    }
}

/// A path without its extension.
pub fn strip_extension(file_path: &str) -> (path: &str)
    ensures
        path.spec_bytes() == stem(file_path.spec_bytes()),
{
    proof {
        encode_utf8_valid_utf8(file_path@);
        lemma_last_dot(file_path.spec_bytes(), file_path.spec_bytes().len() as int);
    }
    match find_last_dot(file_path) {
        Some(last_dot) => {
            proof {
                is_char_boundary_iff_not_is_continuation_byte(
                    file_path.spec_bytes(),
                    last_dot as int,
                );
            }
            let (path, _) = file_path.split_at(last_dot);
            path
        },
        None => {
            proof {
                is_char_boundary_start_end_of_seq(file_path.spec_bytes());
            }
            let end = file_path.as_bytes().len();
            let (path, _) = file_path.split_at(end);
            assert(path.spec_bytes() =~= file_path.spec_bytes());
            path
        },
    }
}


/// The name of the directory that takes the files of a build.
pub const GARBAGE_PATH_NAME: &'static str = ".build";

/// The name of the file of a path without its extension, as
/// `std::path::Path::file_stem` gives it by the rules of the host for
/// paths. Nothing is claimed of the result.
#[verifier::external_body]
pub fn get_file_stem(file_path: &str) -> (stem: Option<&str>) {
    std::path::Path::new(file_path).file_stem().and_then(|f| f.to_str())
}

/// The directory of a path, as `std::path::Path::parent` gives it by the
/// rules of the host for paths. Of the result this is claimed: the empty
/// path has no directory.
#[verifier::external_body]
fn parent_of(file_path: &str) -> (parent: Option<&str>)
    ensures
        file_path@.len() == 0 ==> parent is None,
{
    std::path::Path::new(file_path).parent().and_then(|p| p.to_str())
}

/// The path of `name` in the directory `base`, as `std::path::Path::join`
/// gives it by the rules of the host for paths. Nothing is claimed of the
/// result.
#[verifier::external_body]
fn join_path(base: &str, name: &str) -> (path: Option<String>) {
    std::path::Path::new(base).join(name).into_os_string().into_string().ok()
}

/// The directory for the files of the build of `file_path`: the directory
/// `.build` beside the file. A path without a directory, such as the empty
/// path, has none.
pub fn get_garbage_base(file_path: &str) -> (base: Option<String>)
    ensures
        file_path@.len() == 0 ==> base is None,
{
    match parent_of(file_path) {
        Some(parent) => join_path(parent, GARBAGE_PATH_NAME),
        None => None,
    }
}

} // verus!
