//! The types used to make batch requests and responses.

use vstd::prelude::*;

use url_cleaner_engine::types::{JobContext, ParamsDiff};

verus! {

/// The payload of one cleaning request: the job descriptors in submission
/// order, the context shared by the batch, and an optional configuration
/// delta applied once, before dispatch, to the shared cleaner.
pub struct BulkJob {
    /// The job descriptors, in submission order. Each is opaque here and
    /// understood only by the job engine.
    pub jobs: Vec<serde_json::Value>,
    /// The context shared by every job of the batch.
    pub context: JobContext,
    /// The configuration delta to use for this batch, if any.
    pub params_diff: Option<ParamsDiff>,
}

/// A plain rendering of a build failure: the job descriptor could not be
/// turned into a runnable task.
#[derive(Debug, Clone, PartialEq, Eq)]
pub struct StringMakeJobError {
    /// The error message.
    pub message: String,
    /// The error's debug rendering, naming the variants of each contained
    /// error enum.
    pub variant: String,
}

/// A plain rendering of a run failure: the task was built but its execution
/// failed.
#[derive(Debug, Clone, PartialEq, Eq)]
pub struct StringDoJobError {
    /// The error message.
    pub message: String,
    /// The error's debug rendering, naming the variants of each contained
    /// error enum.
    pub variant: String,
}

/// The outcome of one job, at the same ordinal position as its descriptor:
/// the cleaned URL's text, or a run failure, or a build failure.
pub type JobOutcome = Result<Result<String, StringDoJobError>, StringMakeJobError>;

/// The success state of doing a [`BulkJob`]: one outcome per input
/// descriptor, in input order.
#[derive(Debug, Clone, PartialEq, Eq)]
pub struct CleaningSuccess {
    /// The job outcomes, in input order.
    pub urls: Vec<JobOutcome>,
}

/// The error state of doing a [`BulkJob`]: the batch failed as a whole, and
/// no partial result list is returned.
#[derive(Debug, Clone, PartialEq, Eq)]
pub struct CleaningError {
    /// The HTTP status code.
    pub status: u16,
    /// The HTTP status reason.
    pub reason: Option<String>,
}

} // verus!
