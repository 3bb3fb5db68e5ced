//! Bounded-concurrency batch engine for compressing or decompressing the
//! files that a glob pattern selects.
//!
//! The crate holds the decisions of a batch and none of its input or output:
//! which candidates are eligible, which transform may start while a permit
//! is free, how outcomes are recorded and how the batch is
//! summarised. A driver performs the file work and feeds the results back.

pub mod coordinator;
pub mod gate;
pub mod laws;
pub mod model;
pub mod outcome;
pub mod paths;
pub mod pattern;
pub mod request;
pub mod transform;
