//! Mathematical model of a pool: its state, its transitions and the
//! invariant that every transition keeps.

use vstd::prelude::*;

use crate::error::JobFault;
use crate::job::Job;
use crate::queue::QueueModel;
use crate::worker::step_model;
use crate::worker::Worker;
use crate::worker::WorkerAction;
use crate::worker::WorkerState;

verus! {

/// Number of workers of `workers` that are in state `state`.
pub open spec fn count_in_state(workers: Seq<Worker>, state: WorkerState) -> nat
    decreases workers.len(),
{
    if workers.len() == 0 {
        0
    } else {
        count_in_state(workers.drop_last(), state) + if workers.last().state == state {
            1nat
        } else {
            0nat
        }
    }
}

/// Number of workers of `workers` whose thread is still running.
pub open spec fn count_live(workers: Seq<Worker>) -> nat {
    (workers.len() - count_in_state(workers, WorkerState::Terminated)) as nat
}

/// The workers that `start` creates: `size` idle workers, numbered from 0.
pub open spec fn fresh_workers(size: nat) -> Seq<Worker> {
    Seq::new(size, |i: int| Worker { id: i as usize, state: WorkerState::Idle })
}

/// Whether `k` is the first worker that has not terminated.
pub open spec fn is_first_live(workers: Seq<Worker>, k: int) -> bool {
    &&& 0 <= k < workers.len()
    &&& workers[k].live()
    &&& forall|j: int| 0 <= j < k ==> !(#[trigger] workers[j]).live()
}

/// Whether every worker has terminated.
pub open spec fn all_terminated(workers: Seq<Worker>) -> bool {
    forall|j: int| 0 <= j < workers.len() ==> !(#[trigger] workers[j]).live()
}

/// State of a pool.
pub struct PoolModel<T> {
    /// Configured number of workers.
    pub size: nat,
    /// Whether the workers have been created.
    pub started: bool,
    /// Pending jobs, stopping flag and history.
    pub queue: QueueModel<T>,
    /// The workers, by identity.
    pub workers: Seq<Worker>,
    /// Faults reported and not yet handed over.
    pub faults: Seq<JobFault>,
    /// Number of jobs whose worker has come back from running them.
    pub completed: nat,
}

impl<T> PoolModel<T> {
    /// A pool of `size` workers before `start`.
    pub open spec fn init(size: nat) -> Self {
        PoolModel {
            size,
            started: false,
            queue: QueueModel::empty(),
            workers: Seq::empty(),
            faults: Seq::empty(),
            completed: 0,
        }
    }

    /// What holds of every pool, whatever was done to it.
    pub open spec fn inv(self) -> bool {
        &&& self.size >= 1
        &&& self.size <= usize::MAX
        &&& self.queue.inv()
        &&& self.workers.len() == if self.started {
            self.size
        } else {
            0
        }
        &&& forall|i: int| 0 <= i < self.workers.len() ==> (#[trigger] self.workers[i]).id == i
        &&& forall|i: int|
            0 <= i < self.workers.len() && !(#[trigger] self.workers[i]).live()
                ==> self.queue.drained()
        &&& self.queue.dequeued.len() == self.completed + count_in_state(
            self.workers,
            WorkerState::Executing,
        )
    }

    /// Number of pending jobs.
    pub open spec fn pending(self) -> nat {
        self.queue.jobs.len()
    }

    /// Number of workers whose thread is still running.
    pub open spec fn live_workers(self) -> nat {
        count_live(self.workers)
    }

    /// Creates the workers, unless they exist already.
    pub open spec fn start(self) -> Self {
        if self.started {
            self
        } else {
            PoolModel { started: true, workers: fresh_workers(self.size), ..self }
        }
    }

    /// Queues `job`, unless shutdown has begun.
    pub open spec fn submit(self, job: Job<T>) -> Self {
        PoolModel { queue: self.queue.enqueue(job), ..self }
    }

    /// Begins shutdown.
    pub open spec fn stop(self) -> Self {
        PoolModel { queue: self.queue.request_stop(), ..self }
    }

    /// What worker `id` is told to do when it steps.
    pub open spec fn worker_action(self, id: int) -> WorkerAction<T> {
        if 0 <= id < self.workers.len() {
            step_model(self.workers[id], self.queue).2
        } else {
            WorkerAction::Exit
        }
    }

    /// The pool after worker `id` has stepped. A worker that comes back
    /// from a job counts that job as completed.
    pub open spec fn worker_step(self, id: int) -> Self {
        if 0 <= id < self.workers.len() {
            let stepped = step_model(self.workers[id], self.queue);
            PoolModel {
                workers: self.workers.update(id, stepped.0),
                queue: stepped.1,
                completed: if self.workers[id].state == WorkerState::Executing {
                    self.completed + 1
                } else {
                    self.completed
                },
                ..self
            }
        } else {
            self
        }
    }

    /// Whether a fault reported by worker `id` is recorded: the worker
    /// exists and holds a job.
    pub open spec fn records_fault(self, id: int) -> bool {
        0 <= id < self.workers.len() && self.workers[id].state == WorkerState::Executing
    }

    /// The pool after worker `id` has reported `fault`.
    pub open spec fn report_fault(self, id: int, fault: JobFault) -> Self {
        if self.records_fault(id) {
            PoolModel { faults: self.faults.push(fault), ..self }
        } else {
            self
        }
    }

    /// The pool after a `join` that found every worker terminated: the
    /// collected faults have been handed over.
    pub open spec fn joined(self) -> Self {
        PoolModel { faults: Seq::empty(), ..self }
    }
}

/// Replacing one worker moves the count of a state by that worker alone.
pub proof fn lemma_count_update(workers: Seq<Worker>, i: int, worker: Worker, state: WorkerState)
    requires
        0 <= i < workers.len(),
    ensures
        count_in_state(workers.update(i, worker), state) + (if workers[i].state == state {
            1nat
        } else {
            0nat
        }) == count_in_state(workers, state) + (if worker.state == state {
            1nat
        } else {
            0nat
        }),
    decreases workers.len(),
{
    let updated = workers.update(i, worker);
    if i == workers.len() - 1 {
        assert(updated.drop_last() =~= workers.drop_last());
    } else {
        assert(updated.drop_last() =~= workers.drop_last().update(i, worker));
        lemma_count_update(workers.drop_last(), i, worker, state);
    }
}

/// A state is counted at most once per worker, and not at all exactly when
/// no worker is in it.
pub proof fn lemma_count_bounds(workers: Seq<Worker>, state: WorkerState)
    ensures
        count_in_state(workers, state) <= workers.len(),
        count_in_state(workers, state) == 0 <==> forall|j: int|
            0 <= j < workers.len() ==> (#[trigger] workers[j]).state != state,
        count_in_state(workers, state) == workers.len() <==> forall|j: int|
            0 <= j < workers.len() ==> (#[trigger] workers[j]).state == state,
    decreases workers.len(),
{
    if workers.len() > 0 {
        let front = workers.drop_last();
        lemma_count_bounds(front, state);
        assert(forall|j: int| 0 <= j < front.len() ==> front[j] == workers[j]);
        if count_in_state(workers, state) == 0 {
            assert forall|j: int| 0 <= j < workers.len() implies (#[trigger] workers[j]).state
                != state by {
                if j < front.len() {
                    assert(front[j] == workers[j]);
                }
            }
        }
        if count_in_state(workers, state) == workers.len() {
            assert forall|j: int| 0 <= j < workers.len() implies (#[trigger] workers[j]).state
                == state by {
                if j < front.len() {
                    assert(front[j] == workers[j]);
                }
            }
        }
        if forall|j: int| 0 <= j < workers.len() ==> (#[trigger] workers[j]).state != state {
            assert forall|j: int| 0 <= j < front.len() implies (#[trigger] front[j]).state
                != state by {
                assert(front[j] == workers[j]);
            }
        }
        if forall|j: int| 0 <= j < workers.len() ==> (#[trigger] workers[j]).state == state {
            assert forall|j: int| 0 <= j < front.len() implies (#[trigger] front[j]).state
                == state by {
                assert(front[j] == workers[j]);
            }
        }
    }
}

} // verus!
