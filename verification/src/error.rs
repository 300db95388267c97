//! Errors reported by the pool's lifecycle and submission calls.

use vstd::prelude::*;

verus! {

/// A pool was asked for with no workers at all.
#[derive(Debug, Clone, Copy, PartialEq, Eq, Structural)]
pub struct InvalidSize;

/// `start` was called on a pool whose workers already exist.
#[derive(Debug, Clone, Copy, PartialEq, Eq, Structural)]
pub struct AlreadyStarted;

/// A job was submitted after shutdown had begun; it was not queued.
#[derive(Debug, Clone, Copy, PartialEq, Eq, Structural)]
pub struct PoolStopped;

/// A fault raised by one job, caught by the worker that ran it.
#[derive(Debug, PartialEq, Eq)]
pub struct JobFault {
    /// Identity of the worker that ran the faulting job.
    pub worker: usize,
    /// What the worker could tell of the fault.
    pub message: String,
}

/// The job faults collected over the pool's lifetime, handed over by `join`.
#[derive(Debug, PartialEq, Eq)]
pub struct AggregatedJobErrors {
    pub faults: Vec<JobFault>,
}

} // verus!
