//! What holds of a pool however its callers and workers interleave.
//!
//! The pool moves by events: a start, a submission, a stop, a step of one
//! worker, a fault report, a join. The executable pool performs exactly
//! the transitions of `PoolModel`, one per call, so what is proved here of
//! every sequence of events holds of every use of the pool.

use vstd::prelude::*;

use crate::error::JobFault;
use crate::job::Job;
use crate::model::all_terminated;
use crate::model::count_in_state;
use crate::model::lemma_count_bounds;
use crate::model::lemma_count_update;
use crate::model::PoolModel;
use crate::worker::step_model;
use crate::worker::WorkerAction;
use crate::worker::WorkerState;

verus! {

/// One call made on a pool.
pub enum PoolEvent<T> {
    /// `start`.
    Start,
    /// A submission of this job.
    Post(Job<T>),
    /// `stop`.
    Stop,
    /// A step of the worker with this identity.
    Step(int),
    /// A fault reported by the worker with this identity.
    Fault(int, JobFault),
    /// `join`.
    Join,
}

impl<T> PoolModel<T> {
    /// The pool after a `join`: the faults are handed over once every
    /// worker has terminated, and nothing changes before that.
    pub open spec fn join(self) -> Self {
        if all_terminated(self.workers) {
            self.joined()
        } else {
            self
        }
    }

    /// The pool after one event.
    pub open spec fn apply(self, event: PoolEvent<T>) -> Self {
        match event {
            PoolEvent::Start => self.start(),
            PoolEvent::Post(job) => self.submit(job),
            PoolEvent::Stop => self.stop(),
            PoolEvent::Step(id) => self.worker_step(id),
            PoolEvent::Fault(id, fault) => self.report_fault(id, fault),
            PoolEvent::Join => self.join(),
        }
    }

    /// The pool after a sequence of events, first event first.
    pub open spec fn run(self, events: Seq<PoolEvent<T>>) -> Self
        decreases events.len(),
    {
        if events.len() == 0 {
            self
        } else {
            self.run(events.drop_last()).apply(events.last())
        }
    }

    /// Work that is left before every worker has terminated: the pending
    /// jobs and the workers still running.
    pub open spec fn remaining(self) -> nat {
        self.pending() + self.live_workers()
    }
}

/// A step of one worker keeps the pool's invariant.
pub proof fn lemma_worker_step_keeps_inv<T>(pool: PoolModel<T>, id: int)
    requires
        pool.inv(),
    ensures
        pool.worker_step(id).inv(),
{
    if 0 <= id < pool.workers.len() {
        let after = pool.worker_step(id);
        let stepped = step_model(pool.workers[id], pool.queue);
        lemma_count_update(pool.workers, id, stepped.0, WorkerState::Executing);
        assert(after.queue.submitted =~= after.queue.dequeued + after.queue.jobs);
        assert forall|i: int| 0 <= i < after.workers.len() && !(
        #[trigger] after.workers[i]).live() implies after.queue.drained() by {
            if i != id {
                assert(!pool.workers[i].live());
            }
        }
    }
}

/// Every event keeps the pool's invariant.
pub proof fn lemma_event_keeps_inv<T>(pool: PoolModel<T>, event: PoolEvent<T>)
    requires
        pool.inv(),
    ensures
        pool.apply(event).inv(),
{
    let after = pool.apply(event);
    match event {
        PoolEvent::Start => {
            lemma_count_bounds(after.workers, WorkerState::Executing);
            lemma_count_bounds(pool.workers, WorkerState::Executing);
        },
        PoolEvent::Post(job) => {
            assert(after.queue.submitted =~= after.queue.dequeued + after.queue.jobs);
        },
        PoolEvent::Stop => {},
        PoolEvent::Step(id) => {
            lemma_worker_step_keeps_inv(pool, id);
        },
        PoolEvent::Fault(id, fault) => {},
        PoolEvent::Join => {},
    }
}

/// Every sequence of events keeps the pool's invariant.
pub proof fn lemma_run_keeps_inv<T>(pool: PoolModel<T>, events: Seq<PoolEvent<T>>)
    requires
        pool.inv(),
    ensures
        pool.run(events).inv(),
    decreases events.len(),
{
    if events.len() > 0 {
        lemma_run_keeps_inv(pool, events.drop_last());
        lemma_event_keeps_inv(pool.run(events.drop_last()), events.last());
    }
}

/// Concurrency safety. Whatever calls are made on a new pool, by however
/// many submitters and workers and in whatever order the lock admits
/// them, the queue stays sound: the jobs handed out followed by the jobs
/// pending are the jobs accepted, each once and in order of acceptance, and
/// every job handed out is either completed or held by one worker.
pub proof fn law_every_interleaving_is_sound<T>(size: nat, events: Seq<PoolEvent<T>>)
    requires
        1 <= size <= usize::MAX,
    ensures
        ({
            let pool = PoolModel::<T>::init(size).run(events);
            &&& pool.inv()
            &&& pool.queue.submitted == pool.queue.dequeued + pool.queue.jobs
            &&& pool.queue.submitted.len() == pool.completed + count_in_state(
                pool.workers,
                WorkerState::Executing,
            ) + pool.pending()
        }),
{
    let fresh = PoolModel::<T>::init(size);
    lemma_count_bounds(fresh.workers, WorkerState::Executing);
    assert(fresh.queue.submitted =~= fresh.queue.dequeued + fresh.queue.jobs);
    lemma_run_keeps_inv(fresh, events);
}

/// First in, first out. In every state of a pool the jobs handed to
/// workers are the first of the jobs accepted, in the same order, and the
/// pending jobs are the ones that follow, in the same order.
pub proof fn law_fifo<T>(pool: PoolModel<T>)
    requires
        pool.inv(),
    ensures
        pool.queue.dequeued.len() + pool.queue.jobs.len() == pool.queue.submitted.len(),
        forall|i: int|
            0 <= i < pool.queue.dequeued.len() ==> pool.queue.dequeued[i]
                == pool.queue.submitted[i],
        forall|i: int|
            0 <= i < pool.queue.jobs.len() ==> pool.queue.jobs[i]
                == pool.queue.submitted[pool.queue.dequeued.len() + i],
{
}

/// First in, first out, step by step. The job that a stepping worker is
/// told to run is the earliest accepted job that no worker was handed
/// before, and it is the next one recorded as handed out.
pub proof fn law_fifo_step<T>(pool: PoolModel<T>, id: int)
    requires
        pool.inv(),
    ensures
        pool.worker_action(id) matches WorkerAction::Run(job) ==> {
            &&& pool.queue.dequeued.len() < pool.queue.submitted.len()
            &&& job == pool.queue.submitted[pool.queue.dequeued.len() as int]
            &&& pool.worker_step(id).queue.dequeued == pool.queue.dequeued.push(job)
        },
        !(pool.worker_action(id) is Run) ==> pool.worker_step(id).queue == pool.queue,
{
}

/// A job submitted before shutdown joins the tail of the queue, behind
/// every job accepted earlier; one submitted after is not queued at all.
pub proof fn law_submission<T>(pool: PoolModel<T>, job: Job<T>)
    requires
        pool.inv(),
    ensures
        !pool.queue.stopping ==> pool.submit(job).queue.submitted == pool.queue.submitted.push(
            job,
        ) && pool.submit(job).queue.jobs == pool.queue.jobs.push(job),
        pool.queue.stopping ==> pool.submit(job) == pool,
{
}

/// No loss. Once the workers of a started pool have all terminated, every
/// job that was accepted has been handed to a worker, in order and once,
/// and completed; nothing is pending.
pub proof fn law_no_loss<T>(pool: PoolModel<T>)
    requires
        pool.inv(),
        pool.started,
        all_terminated(pool.workers),
    ensures
        pool.pending() == 0,
        pool.queue.stopping,
        pool.queue.dequeued == pool.queue.submitted,
        pool.completed == pool.queue.submitted.len(),
        pool.live_workers() == 0,
{
    assert(!pool.workers[0].live());
    lemma_count_bounds(pool.workers, WorkerState::Executing);
    lemma_count_bounds(pool.workers, WorkerState::Terminated);
    assert(pool.queue.dequeued =~= pool.queue.submitted);
}

/// The stopping flag is a latch: no sequence of events clears it.
pub proof fn law_stop_is_latched<T>(pool: PoolModel<T>, events: Seq<PoolEvent<T>>)
    requires
        pool.queue.stopping,
    ensures
        pool.run(events).queue.stopping,
    decreases events.len(),
{
    if events.len() > 0 {
        law_stop_is_latched(pool, events.drop_last());
    }
}

/// A second stop changes nothing.
pub proof fn law_stop_is_idempotent<T>(pool: PoolModel<T>)
    ensures
        pool.stop().stop() == pool.stop(),
{
}

/// Shutdown makes progress. Once shutdown has begun, a running worker that
/// steps is never told to wait: it takes a job or it leaves, so the work
/// that is left shrinks by one with each such step.
pub proof fn law_shutdown_progress<T>(pool: PoolModel<T>, id: int)
    requires
        pool.inv(),
        pool.queue.stopping,
        0 <= id < pool.workers.len(),
        pool.workers[id].live(),
    ensures
        !(pool.worker_action(id) is Wait),
        pool.worker_step(id).remaining() + 1 == pool.remaining(),
{
    let stepped = step_model(pool.workers[id], pool.queue);
    lemma_count_update(pool.workers, id, stepped.0, WorkerState::Terminated);
    lemma_count_bounds(pool.workers, WorkerState::Terminated);
    lemma_count_bounds(pool.worker_step(id).workers, WorkerState::Terminated);
}

/// Shutdown is bounded. Once a started pool has begun shutdown, no event
/// adds to the work that is left, so the workers terminate after at most
/// that many steps.
pub proof fn law_shutdown_bound<T>(pool: PoolModel<T>, events: Seq<PoolEvent<T>>)
    requires
        pool.inv(),
        pool.started,
        pool.queue.stopping,
    ensures
        pool.run(events).started,
        pool.run(events).remaining() <= pool.remaining(),
    decreases events.len(),
{
    if events.len() > 0 {
        let before = pool.run(events.drop_last());
        law_shutdown_bound(pool, events.drop_last());
        law_stop_is_latched(pool, events.drop_last());
        lemma_run_keeps_inv(pool, events.drop_last());
        match events.last() {
            PoolEvent::Step(id) => {
                if 0 <= id < before.workers.len() {
                    if before.workers[id].live() {
                        law_shutdown_progress(before, id);
                    } else {
                        assert(before.worker_step(id).workers =~= before.workers);
                    }
                }
            },
            _ => {},
        }
    }
}

/// Fault isolation. A fault report changes neither the queue nor any
/// worker: as many workers run as before, and every worker, the one that
/// reported included, is told at its next step what it would have been
/// told without the fault.
pub proof fn law_fault_isolation<T>(pool: PoolModel<T>, id: int, fault: JobFault)
    requires
        pool.inv(),
    ensures
        ({
            let after = pool.report_fault(id, fault);
            &&& after.inv()
            &&& after.queue == pool.queue
            &&& after.workers == pool.workers
            &&& after.live_workers() == pool.live_workers()
            &&& forall|k: int| after.worker_action(k) == pool.worker_action(k)
            &&& forall|k: int|
                #![trigger after.worker_step(k)]
                {
                    &&& after.worker_step(k).queue == pool.worker_step(k).queue
                    &&& after.worker_step(k).workers == pool.worker_step(k).workers
                    &&& after.worker_step(k).completed == pool.worker_step(k).completed
                }
        }),
{
}

/// A worker whose job raised a fault goes on: while jobs are pending it is
/// handed the head of the queue at its next step, and it is still running
/// afterwards.
pub proof fn law_faulted_worker_continues<T>(pool: PoolModel<T>, id: int, fault: JobFault)
    requires
        pool.inv(),
        pool.records_fault(id),
        pool.pending() > 0,
    ensures
        ({
            let after = pool.report_fault(id, fault);
            &&& after.faults == pool.faults.push(fault)
            &&& after.worker_action(id) == WorkerAction::Run(pool.queue.jobs[0])
            &&& after.worker_step(id).workers[id].live()
        }),
{
}

/// A delay stalls one worker only. While worker `a` holds a job, delayed
/// or not, any other running worker that steps is served as if `a` were
/// not there: it is handed the next pending job if there is one.
pub proof fn law_delay_does_not_block<T>(pool: PoolModel<T>, a: int, b: int)
    requires
        pool.inv(),
        0 <= a < pool.workers.len(),
        0 <= b < pool.workers.len(),
        a != b,
        pool.workers[b].live(),
        pool.worker_action(a) is Run,
    ensures
        ({
            let busy = pool.worker_step(a);
            &&& busy.workers[a].state == WorkerState::Executing
            &&& busy.worker_action(b) == if pool.pending() >= 2 {
                WorkerAction::Run(pool.queue.jobs[1])
            } else if pool.queue.stopping {
                WorkerAction::Exit
            } else {
                WorkerAction::Wait(crate::worker::IDLE_WAIT_MS)
            }
        }),
{
}

} // verus!
