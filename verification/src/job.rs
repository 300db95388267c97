//! Units of deferred work.

use vstd::prelude::*;

verus! {

/// One owned unit of deferred work: a task together with the delay, in
/// milliseconds, that its worker observes before running it.
#[derive(Debug, PartialEq, Eq)]
pub struct Job<T> {
    pub task: T,
    pub delay_ms: u64,
}

impl<T> Job<T> {
    /// A job that runs `task` after `delay_ms` milliseconds.
    pub fn new(task: T, delay_ms: u64) -> (job: Self)
        ensures
            job.task == task,
            job.delay_ms == delay_ms,
    {
        Job { task, delay_ms }
    }

    /// A job that runs `task` without delay.
    pub fn immediate(task: T) -> (job: Self)
        ensures
            job.task == task,
            job.delay_ms == 0,
    {
        Job { task, delay_ms: 0 }
    }

    /// The time a worker must wait before running the task, if any.
    pub fn delay_before_run(&self) -> (delay: Option<u64>)
        ensures
            delay == if self.delay_ms == 0 {
                None
            } else {
                Some(self.delay_ms)
            },
    {
        if self.delay_ms == 0 {
            None
        } else {
            Some(self.delay_ms)
        }
    }
}

} // verus!
