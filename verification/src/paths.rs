//! The suffix convention of compressed files and the eligibility filter.

use crate::request::Operation;
use vstd::prelude::*;
use vstd::string::*;

verus! {

/// The extension of `path` as `std::path::Path::extension` reports it.
pub uninterp spec fn path_extension(path: Seq<char>) -> Option<Seq<char>>;

/// `path` as `std::path::Path::with_extension` returns it for an empty extension.
pub uninterp spec fn path_without_extension(path: Seq<char>) -> Seq<char>;

/// Calls `std::path::Path::extension` on `path`. Trusted: the result is the
/// extension that std finds in the path, which is valid UTF-8 because the
/// path is, or `None` where std finds none.
#[verifier::external_body]
fn extension_of(path: &str) -> (ext: Option<String>)
    ensures
        match ext {
            Some(e) => path_extension(path@) == Some(e@),
            None => path_extension(path@) is None,
        },
{
    match std::path::Path::new(path).extension() {
        Some(e) => Some(e.to_string_lossy().into_owned()),
        None => None,
    }
}

/// Calls `std::path::Path::with_extension` on `path` with an empty
/// extension. Trusted: the result is the path that std builds, which is
/// valid UTF-8 because `path` is.
#[verifier::external_body]
fn without_extension(path: &str) -> (stripped: String)
    ensures
        stripped@ == path_without_extension(path@),
{
    std::path::Path::new(path).with_extension("").to_string_lossy().into_owned()
}

/// A path carries the compressed suffix when its extension is `gz`.
pub open spec fn carries_compressed_suffix(path: Seq<char>) -> bool {
    path_extension(path) == Some("gz"@)
}

/// Where the transform of `path` writes its output: beside the source, with
/// `.gz` appended when compressing and the extension taken off when
/// decompressing.
pub open spec fn target_path(path: Seq<char>, operation: Operation) -> Seq<char> {
    match operation {
        Operation::Compress => path + ".gz"@,
        Operation::Decompress => path_without_extension(path),
    }
}

/// What the filter makes of a candidate.
#[derive(Clone, Copy, Debug, PartialEq, Eq, Structural)]
pub enum Eligibility {
    /// A regular file whose name fits the operation.
    Eligible,
    /// A regular file whose name does not fit the operation.
    WrongSuffix,
    /// A directory, a socket, or nothing at all.
    NotAFile,
}

/// The filter as a function: regular files only; to compress, those without
/// the compressed suffix; to decompress, those with it.
pub open spec fn classify_spec(path: Seq<char>, is_regular_file: bool, operation: Operation) -> Eligibility {
    if !is_regular_file {
        Eligibility::NotAFile
    } else if carries_compressed_suffix(path) == (operation == Operation::Compress) {
        Eligibility::WrongSuffix
    } else {
        Eligibility::Eligible
    }
}

/// Says whether `path` carries the compressed suffix.
pub fn has_compressed_suffix(path: &str) -> (carries: bool)
    ensures
        carries == carries_compressed_suffix(path@),
{
    match extension_of(path) {
        Some(ext) => ext == String::from_str("gz"),
        None => false,
    }
}

/// Classifies a candidate. `is_regular_file` is what the file system said of
/// `path` when it was asked.
pub fn classify(path: &str, is_regular_file: bool, operation: Operation) -> (verdict: Eligibility)
    ensures
        verdict == classify_spec(path@, is_regular_file, operation),
{
    if !is_regular_file {
        return Eligibility::NotAFile;
    }
    let carries = has_compressed_suffix(path);
    let compressing = match operation {
        Operation::Compress => true,
        Operation::Decompress => false,
    };
    if carries == compressing {
        Eligibility::WrongSuffix
    } else {
        Eligibility::Eligible
    }
}

/// The eligibility filter proper.
pub fn is_eligible(path: &str, is_regular_file: bool, operation: Operation) -> (eligible: bool)
    ensures
        eligible == (classify_spec(path@, is_regular_file, operation) == Eligibility::Eligible),
        eligible ==> is_regular_file,
        eligible && operation == Operation::Compress ==> !carries_compressed_suffix(path@),
        eligible && operation == Operation::Decompress ==> carries_compressed_suffix(path@),
{
    match classify(path, is_regular_file, operation) {
        Eligibility::Eligible => true,
        _ => false,
    }
}

/// Computes the path that the transform of `path` writes to.
pub fn output_path(path: &str, operation: Operation) -> (target: String)
    ensures
        target@ == target_path(path@, operation),
{
    match operation {
        Operation::Compress => String::from_str(path).concat(".gz"),
        Operation::Decompress => without_extension(path),
    }
}

} // verus!
