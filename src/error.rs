use vstd::prelude::*;

verus! {

/// Returned by `Threadpool::build` when the requested number of workers is zero.
#[derive(Debug, Clone, Copy, PartialEq, Eq, Structural)]
pub struct PoolCreationError;

impl PoolCreationError {
    /// A human-readable description of the error.
    pub fn message(&self) -> (r: &'static str)
        ensures
            r@ == "Invalid size value provided to Threadpool::build"@,
    {
        "Invalid size value provided to Threadpool::build"
    }
}

/// Why a job could not be submitted.
#[derive(Debug, Clone, Copy, PartialEq, Eq, Structural)]
pub enum SubmitError {
    /// The pool has been shut down: its producer handle is gone.
    Closed,
    /// The queue refused the job: no worker is left to receive it.
    Disconnected,
}

} // verus!
