//! One worker of the pool: what it does each time it holds the lock.

use vstd::prelude::*;

use crate::job::Job;
use crate::queue::QueueModel;
use crate::queue::SharedQueueState;

verus! {

/// Longest time, in milliseconds, that an idle worker waits before it
/// looks at the queue again.
pub const IDLE_WAIT_MS: u64 = 10000;

/// Where a worker stands in its loop.
#[derive(Debug, Clone, Copy, PartialEq, Eq, Structural)]
pub enum WorkerState {
    /// Waiting for work or for shutdown.
    Idle,
    /// Holding a job that it took off the queue.
    Executing,
    /// Its thread has been told to return.
    Terminated,
}

/// What a worker does after it has released the lock.
#[derive(Debug, PartialEq, Eq)]
pub enum WorkerAction<T> {
    /// Wait on the signal for at most this many milliseconds, then step
    /// again.
    Wait(u64),
    /// Observe the job's delay, run its task, then step again.
    Run(Job<T>),
    /// Return from the thread.
    Exit,
}

/// One worker: its identity within the pool and its state.
#[derive(Debug, Clone, Copy, PartialEq, Eq, Structural)]
pub struct Worker {
    pub id: usize,
    pub state: WorkerState,
}

/// The result of one step of a worker in state `worker` over the queue
/// `queue`: the worker after the step, the queue after it, and what the
/// worker does next.
///
/// A terminated worker stays terminated. Any other worker takes the head
/// job if there is one; leaves if there is none and shutdown has begun;
/// and waits otherwise.
pub open spec fn step_model<T>(worker: Worker, queue: QueueModel<T>) -> (
    Worker,
    QueueModel<T>,
    WorkerAction<T>,
) {
    if worker.state == WorkerState::Terminated {
        (worker, queue, WorkerAction::Exit)
    } else if queue.jobs.len() > 0 {
        (
            Worker { state: WorkerState::Executing, ..worker },
            queue.dequeue(),
            WorkerAction::Run(queue.jobs[0]),
        )
    } else if queue.stopping {
        (Worker { state: WorkerState::Terminated, ..worker }, queue, WorkerAction::Exit)
    } else {
        (Worker { state: WorkerState::Idle, ..worker }, queue, WorkerAction::Wait(IDLE_WAIT_MS))
    }
}

impl Worker {
    /// A worker that has just been created and waits for its first step.
    pub fn new(id: usize) -> (worker: Worker)
        ensures
            worker == (Worker { id, state: WorkerState::Idle }),
    {
        Worker { id, state: WorkerState::Idle }
    }

    /// Whether the worker's thread is still running.
    pub open spec fn live(self) -> bool {
        self.state != WorkerState::Terminated
    }

    /// Whether the worker's thread is still running.
    #[verifier::when_used_as_spec(live)]
    pub fn is_live(self) -> (live: bool)
        ensures
            live == self.live(),
    {
        match self.state {
            WorkerState::Terminated => false,
            _ => true,
        }
    }

    /// One pass of the worker's loop, made while the pool's lock is held:
    /// decides between waiting, running the head job and leaving, and
    /// moves the worker and the queue accordingly.
    pub fn step<T>(&mut self, queue: &mut SharedQueueState<T>) -> (action: WorkerAction<T>)
        requires
            old(queue).wf(),
        ensures
            final(queue).wf(),
            (*final(self), final(queue)@, action) == step_model(*old(self), old(queue)@),
    {
        if !self.is_live() {
            return WorkerAction::Exit;
        }
        match queue.dequeue() {
            Some(job) => {
                self.state = WorkerState::Executing;
                WorkerAction::Run(job)
            },
            None => {
                if queue.is_stopping() {
                    self.state = WorkerState::Terminated;
                    WorkerAction::Exit
                } else {
                    self.state = WorkerState::Idle;
                    WorkerAction::Wait(IDLE_WAIT_MS)
                }
            },
        }
    }
}

} // verus!
