//! File paths. A path is opaque; what contracts say of it they say of its
//! bytes and of its components.

use std::path::PathBuf;

use vstd::prelude::*;
use vstd::utf8::*;

verus! {

/// The owned path of the standard library.
#[verifier::external_type_specification]
#[verifier::external_body]
pub struct ExPathBuf(PathBuf);

/// The bytes that a path holds.
pub uninterp spec fn path_bytes(path: PathBuf) -> Seq<u8>;

/// The components that `Path::components` finds in a path of these bytes.
pub uninterp spec fn path_components(bytes: Seq<u8>) -> Seq<Seq<u8>>;

/// The bytes of what `Path::file_stem` finds in a path of these bytes.
pub uninterp spec fn stem_bytes(bytes: Seq<u8>) -> Option<Seq<u8>>;

/// The bytes of what `Path::extension` finds in a path of these bytes.
pub uninterp spec fn extension_bytes(bytes: Seq<u8>) -> Option<Seq<u8>>;

/// The text that a path of these bytes holds: none unless they are UTF-8.
pub open spec fn path_text(bytes: Seq<u8>) -> Option<Seq<char>> {
    if valid_utf8(bytes) {
        Some(decode_utf8(bytes))
    } else {
        None
    }
}

/// The bytes of a path that may be missing.
pub open spec fn bytes_view(path: Option<PathBuf>) -> Option<Seq<u8>> {
    match path {
        Some(path) => Some(path_bytes(path)),
        None => None,
    }
}

/// The components of a path that may be missing.
pub open spec fn components(path: Option<PathBuf>) -> Option<Seq<Seq<u8>>> {
    match path {
        Some(path) => Some(path_components(path_bytes(path))),
        None => None,
    }
}

/// The stem of a path's file name as text: none without a file name, nor when
/// the stem is not text.
pub open spec fn file_stem(bytes: Seq<u8>) -> Option<Seq<char>> {
    match stem_bytes(bytes) {
        Some(stem) => path_text(stem),
        None => None,
    }
}

/// The extension of a path's file name as text.
pub open spec fn file_extension(bytes: Seq<u8>) -> Option<Seq<char>> {
    match extension_bytes(bytes) {
        Some(extension) => path_text(extension),
        None => None,
    }
}

/// A clone of a path holds the same bytes.
pub assume_specification[ <PathBuf as Clone>::clone ](path: &PathBuf) -> (copy: PathBuf)
    ensures
        path_bytes(copy) == path_bytes(*path),
;

/// Calls `PathBuf::eq`: two paths are equal when their components are.
#[verifier::external_body]
pub(crate) fn same_path(left: &PathBuf, right: &PathBuf) -> (same: bool)
    ensures
        same == (path_components(path_bytes(*left)) == path_components(path_bytes(*right))),
{
    left == right
}

/// Calls `Path::file_stem`, which depends, on a given platform, on the
/// path's bytes alone.
#[verifier::external_body]
fn stem_of_path(path: &PathBuf) -> (stem: Option<PathBuf>)
    ensures
        bytes_view(stem) == stem_bytes(path_bytes(*path)),
{
    path.file_stem().map(PathBuf::from)
}

/// Calls `Path::extension`, which depends, on a given platform, on the
/// path's bytes alone.
#[verifier::external_body]
fn extension_of_path(path: &PathBuf) -> (extension: Option<PathBuf>)
    ensures
        bytes_view(extension) == extension_bytes(path_bytes(*path)),
{
    path.extension().map(PathBuf::from)
}

/// Calls `Path::to_str`: the text of a path whose bytes are UTF-8, and none of
/// another path.
#[verifier::external_body]
fn text_of_path(path: &PathBuf) -> (text: Option<String>)
    ensures
        text.deep_view() == path_text(path_bytes(*path)),
{
    path.to_str().map(|text| text.to_owned())
}

/// The stem of a path's file name as text.
pub fn file_stem_text(path: &PathBuf) -> (stem: Option<String>)
    ensures
        stem.deep_view() == file_stem(path_bytes(*path)),
{
    match stem_of_path(path) {
        Some(stem) => text_of_path(&stem),
        None => None,
    }
}

/// The extension of a path's file name as text.
pub fn file_extension_text(path: &PathBuf) -> (extension: Option<String>)
    ensures
        extension.deep_view() == file_extension(path_bytes(*path)),
{
    match extension_of_path(path) {
        Some(extension) => text_of_path(&extension),
        None => None,
    }
}

/// Calls `OsStr::as_encoded_bytes`: the bytes of the path.
#[verifier::external_body]
pub(crate) fn bytes_of_path(path: &PathBuf) -> (bytes: Vec<u8>)
    ensures
        bytes@ == path_bytes(*path),
{
    path.as_os_str().as_encoded_bytes().to_vec()
}

} // verus!
