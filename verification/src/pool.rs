//! The pool itself: lifecycle, submission, the workers' steps and the
//! collection of job faults. Every call is made while the pool's lock is
//! held, so the pool moves from state to state one call at a time.

use vstd::prelude::*;

use crate::error::AggregatedJobErrors;
use crate::error::AlreadyStarted;
use crate::error::InvalidSize;
use crate::error::JobFault;
use crate::error::PoolStopped;
use crate::job::Job;
use crate::model::all_terminated;
use crate::model::count_live;
use crate::model::fresh_workers;
use crate::model::is_first_live;
use crate::model::lemma_count_bounds;
use crate::model::lemma_count_update;
use crate::model::PoolModel;
use crate::queue::Notify;
use crate::queue::SharedQueueState;
use crate::worker::Worker;
use crate::worker::WorkerAction;
use crate::worker::WorkerState;

verus! {

/// How far `join` has come.
#[derive(Debug, PartialEq, Eq)]
pub enum JoinStatus {
    /// The worker with this identity has not terminated: block until its
    /// thread has returned, then join again.
    Waiting(usize),
    /// Every worker has terminated. Carries the faults that jobs raised,
    /// if any did.
    Done(Result<(), AggregatedJobErrors>),
}

/// A fixed set of workers around one shared queue.
pub struct WorkerPool<T> {
    size: usize,
    started: bool,
    workers: Vec<Worker>,
    queue: SharedQueueState<T>,
    faults: Vec<JobFault>,
    completed: Ghost<nat>,
}

impl<T> View for WorkerPool<T> {
    type V = PoolModel<T>;

    closed spec fn view(&self) -> PoolModel<T> {
        PoolModel {
            size: self.size as nat,
            started: self.started,
            queue: self.queue@,
            workers: self.workers@,
            faults: self.faults@,
            completed: self.completed@,
        }
    }
}

impl<T> WorkerPool<T> {
    /// The pool is in a state that its model allows.
    pub open spec fn wf(&self) -> bool {
        self@.inv()
    }

    /// A pool of `size` workers, none of them created yet, with an empty
    /// queue. A pool needs at least one worker.
    pub fn new(size: usize) -> (pool: Result<Self, InvalidSize>)
        ensures
            pool.is_ok() <==> size >= 1,
            pool matches Ok(p) ==> p.wf() && p@ == PoolModel::<T>::init(size as nat),
    {
        if size == 0 {
            return Err(InvalidSize);
        }
        let pool = WorkerPool {
            size,
            started: false,
            workers: Vec::new(),
            queue: SharedQueueState::new(),
            faults: Vec::new(),
            completed: Ghost(0),
        };
        assert(pool@.workers =~= Seq::empty());
        assert(pool@.faults =~= Seq::empty());
        Ok(pool)
    }

    /// Creates the pool's workers, all idle, and says how many threads are
    /// to be spawned for them: one per worker, by identity from 0. Fails,
    /// and changes nothing, if the workers exist already.
    pub fn start(&mut self) -> (started: Result<usize, AlreadyStarted>)
        requires
            old(self).wf(),
        ensures
            final(self).wf(),
            final(self)@ == old(self)@.start(),
            started == if old(self)@.started {
                Err::<usize, AlreadyStarted>(AlreadyStarted)
            } else {
                Ok::<usize, AlreadyStarted>(old(self)@.size as usize)
            },
    {
        if self.started {
            return Err(AlreadyStarted);
        }
        let mut workers: Vec<Worker> = Vec::new();
        let mut id: usize = 0;
        while id < self.size
            invariant
                id <= self.size,
                workers@ == fresh_workers(id as nat),
            decreases self.size - id,
        {
            workers.push(Worker::new(id));
            assert(workers@ =~= fresh_workers((id + 1) as nat));
            id += 1;
        }
        proof {
            lemma_count_bounds(workers@, WorkerState::Executing);
            lemma_count_bounds(self.workers@, WorkerState::Executing);
        }
        self.workers = workers;
        self.started = true;
        Ok(self.size)
    }

    /// Queues `task` to run without delay.
    pub fn post(&mut self, task: T) -> (accepted: Result<Notify, PoolStopped>)
        requires
            old(self).wf(),
        ensures
            final(self).wf(),
            final(self)@ == old(self)@.submit(Job { task, delay_ms: 0 }),
            accepted == if old(self)@.queue.stopping {
                Err::<Notify, PoolStopped>(PoolStopped)
            } else {
                Ok::<Notify, PoolStopped>(Notify::One)
            },
    {
        self.post_delayed(task, 0)
    }

    /// Queues `task` at the tail, to run `delay_ms` milliseconds after a
    /// worker has taken it, and asks for one waiting worker to be woken.
    /// Once shutdown has begun the task is refused and the pool stays as it
    /// was.
    pub fn post_delayed(&mut self, task: T, delay_ms: u64) -> (accepted: Result<
        Notify,
        PoolStopped,
    >)
        requires
            old(self).wf(),
        ensures
            final(self).wf(),
            final(self)@ == old(self)@.submit(Job { task, delay_ms }),
            accepted == if old(self)@.queue.stopping {
                Err::<Notify, PoolStopped>(PoolStopped)
            } else {
                Ok::<Notify, PoolStopped>(Notify::One)
            },
    {
        self.queue.enqueue(Job::new(task, delay_ms))
    }

    /// Begins shutdown: no job is accepted from now on, and workers leave
    /// once the queue is empty. Asks for every waiting worker to be woken.
    /// A second call changes nothing.
    pub fn stop(&mut self) -> (wake: Notify)
        requires
            old(self).wf(),
        ensures
            final(self).wf(),
            final(self)@ == old(self)@.stop(),
            wake == Notify::All,
    {
        self.queue.request_stop()
    }

    /// One pass of worker `id` through its loop: it is told to wait, to
    /// run the head job, or to leave. A worker that comes back from a job
    /// has completed it. An identity that no worker has is told to leave.
    pub fn worker_step(&mut self, id: usize) -> (action: WorkerAction<T>)
        requires
            old(self).wf(),
        ensures
            final(self).wf(),
            final(self)@ == old(self)@.worker_step(id as int),
            action == old(self)@.worker_action(id as int),
    {
        if id >= self.workers.len() {
            return WorkerAction::Exit;
        }
        let mut worker = self.workers[id];
        let before = worker;
        let action = worker.step(&mut self.queue);
        self.workers.set(id, worker);
        proof {
            if before.state == WorkerState::Executing {
                self.completed@ = self.completed@ + 1;
            }
            lemma_count_update(old(self).workers@, id as int, worker, WorkerState::Executing);
        }
        action
    }

    /// Records that the job held by worker `id` raised a fault. The worker
    /// stays in the pool and steps on as after any other job. A report
    /// from a worker that holds no job is dropped.
    pub fn report_fault(&mut self, id: usize, message: String)
        requires
            old(self).wf(),
        ensures
            final(self).wf(),
            final(self)@ == old(self)@.report_fault(id as int, JobFault { worker: id, message }),
    {
        if id < self.workers.len() {
            match self.workers[id].state {
                WorkerState::Executing => {
                    self.faults.push(JobFault { worker: id, message });
                },
                _ => {},
            }
        }
    }

    /// Looks for a worker that has not terminated. If there is one, names
    /// the first and changes nothing. If there is none, hands over the
    /// faults collected so far: `Ok` if no job raised one.
    pub fn join(&mut self) -> (status: JoinStatus)
        requires
            old(self).wf(),
        ensures
            final(self).wf(),
            match status {
                JoinStatus::Waiting(k) => {
                    &&& is_first_live(old(self)@.workers, k as int)
                    &&& final(self)@ == old(self)@
                },
                JoinStatus::Done(outcome) => {
                    &&& all_terminated(old(self)@.workers)
                    &&& final(self)@ == old(self)@.joined()
                    &&& if old(self)@.faults.len() == 0 {
                        outcome == Ok::<(), AggregatedJobErrors>(())
                    } else {
                        outcome matches Err(errors) && errors.faults@ == old(self)@.faults
                    }
                },
            },
    {
        let mut k: usize = 0;
        while k < self.workers.len()
            invariant
                k <= self.workers.len(),
                *self == *old(self),
                self.wf(),
                forall|j: int| 0 <= j < k ==> !(#[trigger] self.workers@[j]).live(),
            decreases self.workers.len() - k,
        {
            if self.workers[k].is_live() {
                return JoinStatus::Waiting(k);
            }
            k += 1;
        }
        let mut faults: Vec<JobFault> = Vec::new();
        std::mem::swap(&mut self.faults, &mut faults);
        assert(self@.faults =~= Seq::empty());
        if faults.len() == 0 {
            JoinStatus::Done(Ok(()))
        } else {
            JoinStatus::Done(Err(AggregatedJobErrors { faults }))
        }
    }

    /// Configured number of workers.
    pub fn size(&self) -> (size: usize)
        ensures
            size == self@.size,
    {
        self.size
    }

    /// Whether the workers have been created.
    pub fn is_started(&self) -> (started: bool)
        ensures
            started == self@.started,
    {
        self.started
    }

    /// Whether shutdown has begun.
    pub fn is_stopping(&self) -> (stopping: bool)
        ensures
            stopping == self@.queue.stopping,
    {
        self.queue.is_stopping()
    }

    /// Number of jobs that wait in the queue.
    pub fn pending(&self) -> (pending: usize)
        ensures
            pending == self@.pending(),
    {
        self.queue.len()
    }

    /// Number of faults reported and not yet handed over.
    pub fn fault_count(&self) -> (count: usize)
        ensures
            count == self@.faults.len(),
    {
        self.faults.len()
    }

    /// State of worker `id`, if the pool has such a worker.
    pub fn worker_state(&self, id: usize) -> (state: Option<WorkerState>)
        ensures
            state == if id < self@.workers.len() {
                Some(self@.workers[id as int].state)
            } else {
                None
            },
    {
        if id < self.workers.len() {
            Some(self.workers[id].state)
        } else {
            None
        }
    }

    /// Number of workers whose thread is still running.
    pub fn live_workers(&self) -> (live: usize)
        ensures
            live == self@.live_workers(),
    {
        let mut live: usize = 0;
        let mut k: usize = 0;
        while k < self.workers.len()
            invariant
                k <= self.workers.len(),
                live == count_live(self.workers@.take(k as int)),
                live <= k,
            decreases self.workers.len() - k,
        {
            proof {
                let next = self.workers@.take(k + 1);
                assert(next.drop_last() =~= self.workers@.take(k as int));
                lemma_count_bounds(next.drop_last(), WorkerState::Terminated);
            }
            if self.workers[k].is_live() {
                live += 1;
            }
            k += 1;
        }
        assert(self.workers@.take(k as int) =~= self.workers@);
        live
    }
}

} // verus!
