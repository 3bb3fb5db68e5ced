//! What the coordinator hands to the transform of one file.

use crate::paths::{output_path, target_path};
use crate::request::Operation;
use vstd::prelude::*;

verus! {

/// The work order for one eligible file.
#[derive(Debug)]
pub struct TransformPlan {
    /// The file to read.
    pub source: String,
    /// The file to write, beside the source.
    pub target: String,
    pub operation: Operation,
    pub keep_original: bool,
}

/// A `TransformPlan` as plain values.
pub struct TransformPlanView {
    pub source: Seq<char>,
    pub target: Seq<char>,
    pub operation: Operation,
    pub keep_original: bool,
}

/// The plan for `path` under a batch's operation and retention policy.
pub open spec fn plan_for(path: Seq<char>, operation: Operation, keep_original: bool) -> TransformPlanView {
    TransformPlanView { source: path, target: target_path(path, operation), operation, keep_original }
}

impl View for TransformPlan {
    type V = TransformPlanView;

    open spec fn view(&self) -> TransformPlanView {
        TransformPlanView {
            source: self.source@,
            target: self.target@,
            operation: self.operation,
            keep_original: self.keep_original,
        }
    }
}

impl TransformPlan {
    /// Plans the transform of `path`.
    pub fn new(path: &str, operation: Operation, keep_original: bool) -> (plan: TransformPlan)
        ensures
            plan@ == plan_for(path@, operation, keep_original),
    {
        let target = output_path(path, operation);
        TransformPlan { source: path.to_owned(), target, operation, keep_original }
    }

    /// Decides, once the write of the target was attempted, whether the
    /// source is to be removed: only after a write that succeeded, and only
    /// when the original is not to be kept.
    pub fn removes_source(&self, written: bool) -> (remove: bool)
        ensures
            remove == (written && !self.keep_original),
            !written ==> !remove,
    {
        written && !self.keep_original
    }
}

} // verus!
