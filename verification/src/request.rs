//! The immutable description of one batch.

use vstd::prelude::*;

verus! {

/// The transform that a batch applies to every eligible file.
#[derive(Clone, Copy, Debug, PartialEq, Eq, Structural)]
pub enum Operation {
    Compress,
    Decompress,
}

/// The number of permits that a requested concurrency stands for: an absent
/// request, or a request for none, means one at a time.
pub open spec fn effective_concurrency(requested: Option<usize>) -> usize {
    match requested {
        Some(n) => if n == 0 { 1 } else { n },
        None => 1,
    }
}

/// What one invocation was asked to do. It does not change while the batch runs.
#[derive(Debug)]
pub struct BatchRequest {
    pub pattern: String,
    pub operation: Operation,
    pub keep_original: bool,
    pub max_concurrency: usize,
    pub verbose: bool,
}

impl BatchRequest {
    /// Builds a request from the values of the command line.
    pub fn new(
        pattern: String,
        operation: Operation,
        keep_original: bool,
        num_threads: Option<usize>,
        verbose: bool,
    ) -> (request: BatchRequest)
        ensures
            request.pattern == pattern,
            request.operation == operation,
            request.keep_original == keep_original,
            request.max_concurrency == effective_concurrency(num_threads),
            request.max_concurrency >= 1,
            request.verbose == verbose,
    {
        let max_concurrency: usize = match num_threads {
            Some(n) => if n == 0 { 1 } else { n },
            None => 1,
        };
        BatchRequest { pattern, operation, keep_original, max_concurrency, verbose }
    }
}

} // verus!
