//! Pattern resolution: the one step of a batch that can abort it.

use vstd::prelude::*;
use vstd::string::*;

verus! {

/// The lazy sequence of candidate paths that `glob` hands out. Walking it
/// reads directories, so the library only carries it to the driver.
#[verifier::external_type_specification]
#[verifier::external_body]
pub struct ExPaths(glob::Paths);

/// What the walker yields for an entry that it cannot read.
#[verifier::external_type_specification]
#[verifier::external_body]
pub struct ExGlobError(glob::GlobError);

/// What the walker yields for an entry that it can read.
#[verifier::external_type_specification]
#[verifier::external_body]
pub struct ExPathBuf(std::path::PathBuf);

/// The error of `glob` for a malformed pattern.
#[verifier::external_type_specification]
pub struct ExPatternError(glob::PatternError);

/// The syntax error that `glob::glob` finds in `pattern`: its position and
/// its message, or `None` for a pattern that it accepts.
pub uninterp spec fn glob_fault(pattern: Seq<char>) -> Option<(usize, Seq<char>)>;

/// `glob::glob` parses the pattern and touches no file: it returns the
/// walker for a pattern that it accepts and the syntax error for any other.
/// Trusted: which of the two, and which error, depends on the pattern alone.
pub assume_specification[ glob::glob ](pattern: &str) -> (result: Result<glob::Paths, glob::PatternError>)
    ensures
        match result {
            Ok(_) => glob_fault(pattern@) is None,
            Err(fault) => glob_fault(pattern@) == Some((fault.pos, fault.msg@)),
        },
;

/// A malformed pattern: fatal to the batch, which dispatches nothing.
#[derive(Debug)]
pub struct InvalidPattern {
    /// The approximate index of the character at which parsing gave up.
    pub pos: usize,
    /// What is wrong with the pattern.
    pub msg: String,
}

impl InvalidPattern {
    /// The library's account of a syntax error of `glob`.
    pub fn from_glob(fault: glob::PatternError) -> (error: InvalidPattern)
        ensures
            error.pos == fault.pos,
            error.msg@ == fault.msg@,
    {
        InvalidPattern { pos: fault.pos, msg: String::from_str(fault.msg) }
    }
}

/// Resolves `pattern` into the walker over its candidates, or fails with the
/// syntax error before any file is looked at.
pub fn resolve(pattern: &str) -> (resolved: Result<glob::Paths, InvalidPattern>)
    ensures
        resolved is Ok <==> glob_fault(pattern@) is None,
        resolved matches Err(error) ==> glob_fault(pattern@) == Some((error.pos, error.msg@)),
{
    match glob::glob(pattern) {
        Ok(paths) => Ok(paths),
        Err(fault) => Err(InvalidPattern::from_glob(fault)),
    }
}

} // verus!
