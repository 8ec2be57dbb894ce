//! The error taxonomy of the scheduler core.

use vstd::prelude::*;

verus! {

/// Every failure the core can report.
///
/// Splitter and merger errors are always returned to the immediate caller
/// and never silently recovered; executor errors are retried up to the
/// configured policy and then surface as terminal, per task.
#[derive(Debug, Clone)]
pub enum Error {
    /// Bad strategy parameters; rejected before any sub-task is built.
    ConfigError(String),
    /// Malformed or undersized input; fatal for that request.
    ValidationError(String),
    /// An expert or layer id outside the model's bounds.
    OutOfRange(String),
    /// A merge-time mismatch between expected and actual partial-result
    /// shapes: `index` names the offending partial (or 0 for a mismatch of
    /// the whole set), `expected` and `actual` the two lengths or counts.
    ShapeMismatch { index: usize, expected: usize, actual: usize },
    /// Nothing to merge: the set of partial results was empty.
    MergeError(String),
    /// The memory pool or the unit pool is exhausted; retryable by the
    /// caller after backoff.
    ResourceExhausted(String),
    /// A compute call failed and the retry budget is spent; carries the
    /// description of the last underlying failure.
    ExecutionFailure(String),
    /// The cumulative retry time exceeded the timeout budget.
    Timeout,
    /// A model artefact is missing or unusable.
    ModelLoadError(String),
    /// Anything else at the boundary.
    Other(String),
}

impl Error {
    /// A short fixed description of the error's kind, for task records
    /// and diagnostics.
    pub fn describe(&self) -> (r: &'static str)
        ensures
            self is ConfigError ==> r@ == "configuration error"@,
            self is ValidationError ==> r@ == "validation error"@,
            self is OutOfRange ==> r@ == "id out of range"@,
            self is ShapeMismatch ==> r@ == "shape mismatch"@,
            self is MergeError ==> r@ == "nothing to merge"@,
            self is ResourceExhausted ==> r@ == "resources exhausted"@,
            self is ExecutionFailure ==> r@ == "execution failure"@,
            self is Timeout ==> r@ == "timed out"@,
            self is ModelLoadError ==> r@ == "model load error"@,
            self is Other ==> r@ == "error"@,
    {
        match self {
            Error::ConfigError(_) => "configuration error",
            Error::ValidationError(_) => "validation error",
            Error::OutOfRange(_) => "id out of range",
            Error::ShapeMismatch { .. } => "shape mismatch",
            Error::MergeError(_) => "nothing to merge",
            Error::ResourceExhausted(_) => "resources exhausted",
            Error::ExecutionFailure(_) => "execution failure",
            Error::Timeout => "timed out",
            Error::ModelLoadError(_) => "model load error",
            Error::Other(_) => "error",
        }
    }
}

} // verus!
