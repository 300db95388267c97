//! The state that all threads of a pool share: pending jobs and the
//! stopping flag, changed only while the pool's lock is held.

use std::collections::VecDeque;
use vstd::prelude::*;

use crate::error::PoolStopped;
use crate::job::Job;

verus! {

/// Mathematical model of the shared queue state, with the history of what
/// was accepted and what was handed out.
pub struct QueueModel<T> {
    /// Pending jobs, head first.
    pub jobs: Seq<Job<T>>,
    /// Set once shutdown has begun; never cleared.
    pub stopping: bool,
    /// Every job ever accepted, in order of acceptance.
    pub submitted: Seq<Job<T>>,
    /// Every job ever handed to a worker, in order of hand-out.
    pub dequeued: Seq<Job<T>>,
}

impl<T> QueueModel<T> {
    /// The queue of a fresh pool.
    pub open spec fn empty() -> Self {
        QueueModel {
            jobs: Seq::empty(),
            stopping: false,
            submitted: Seq::empty(),
            dequeued: Seq::empty(),
        }
    }

    /// Every accepted job is either handed out or pending, exactly once,
    /// and in the order of acceptance.
    pub open spec fn inv(self) -> bool {
        self.submitted == self.dequeued + self.jobs
    }

    /// Appends `job` at the tail unless shutdown has begun.
    pub open spec fn enqueue(self, job: Job<T>) -> Self {
        if self.stopping {
            self
        } else {
            QueueModel {
                jobs: self.jobs.push(job),
                submitted: self.submitted.push(job),
                ..self
            }
        }
    }

    /// Latches the stopping flag.
    pub open spec fn request_stop(self) -> Self {
        QueueModel { stopping: true, ..self }
    }

    /// Removes the head job, if there is one.
    pub open spec fn dequeue(self) -> Self {
        if self.jobs.len() == 0 {
            self
        } else {
            QueueModel {
                jobs: self.jobs.drop_first(),
                dequeued: self.dequeued.push(self.jobs[0]),
                ..self
            }
        }
    }

    /// A worker has nothing to do and no reason to leave.
    pub open spec fn must_wait(self) -> bool {
        self.jobs.len() == 0 && !self.stopping
    }

    /// Shutdown has begun and no work is left.
    pub open spec fn drained(self) -> bool {
        self.jobs.len() == 0 && self.stopping
    }
}

/// Whom to wake on the pool's signal once the lock is released.
#[derive(Debug, Clone, Copy, PartialEq, Eq, Structural)]
pub enum Notify {
    /// One waiting worker: a job has arrived.
    One,
    /// Every waiting worker: shutdown has begun.
    All,
}

/// Pending jobs and the stopping flag of one pool.
pub struct SharedQueueState<T> {
    jobs: VecDeque<Job<T>>,
    stopping: bool,
    submitted: Ghost<Seq<Job<T>>>,
    dequeued: Ghost<Seq<Job<T>>>,
}

impl<T> View for SharedQueueState<T> {
    type V = QueueModel<T>;

    closed spec fn view(&self) -> QueueModel<T> {
        QueueModel {
            jobs: self.jobs@,
            stopping: self.stopping,
            submitted: self.submitted@,
            dequeued: self.dequeued@,
        }
    }
}

impl<T> SharedQueueState<T> {
    /// The recorded history agrees with the pending jobs.
    pub open spec fn wf(&self) -> bool {
        self@.inv()
    }

    /// An empty queue that accepts jobs.
    pub fn new() -> (queue: Self)
        ensures
            queue.wf(),
            queue@ == QueueModel::<T>::empty(),
    {
        SharedQueueState {
            jobs: VecDeque::new(),
            stopping: false,
            submitted: Ghost(Seq::empty()),
            dequeued: Ghost(Seq::empty()),
        }
    }

    /// Appends `job` at the tail of the queue and asks for one waiting
    /// worker to be woken. Once shutdown has begun the job is refused and
    /// the queue stays as it was.
    pub fn enqueue(&mut self, job: Job<T>) -> (accepted: Result<Notify, PoolStopped>)
        requires
            old(self).wf(),
        ensures
            final(self).wf(),
            final(self)@ == old(self)@.enqueue(job),
            accepted == if old(self)@.stopping {
                Err::<Notify, PoolStopped>(PoolStopped)
            } else {
                Ok::<Notify, PoolStopped>(Notify::One)
            },
    {
        if self.stopping {
            return Err(PoolStopped);
        }
        proof {
            self.submitted@ = self.submitted@.push(job);
        }
        self.jobs.push_back(job);
        assert(self@.submitted =~= self@.dequeued + self@.jobs);
        Ok(Notify::One)
    }

    /// Begins shutdown and asks for every waiting worker to be woken. A
    /// second call changes nothing.
    pub fn request_stop(&mut self) -> (wake: Notify)
        requires
            old(self).wf(),
        ensures
            final(self).wf(),
            final(self)@ == old(self)@.request_stop(),
            wake == Notify::All,
    {
        self.stopping = true;
        Notify::All
    }

    /// Removes and returns the head of the queue.
    pub fn dequeue(&mut self) -> (head: Option<Job<T>>)
        requires
            old(self).wf(),
        ensures
            final(self).wf(),
            final(self)@ == old(self)@.dequeue(),
            head == if old(self)@.jobs.len() == 0 {
                None
            } else {
                Some(old(self)@.jobs[0])
            },
    {
        let head = self.jobs.pop_front();
        proof {
            if head.is_some() {
                self.dequeued@ = self.dequeued@.push(head.unwrap());
                assert(self@.jobs =~= old(self)@.jobs.drop_first());
                assert(self@.submitted =~= self@.dequeued + self@.jobs);
            }
        }
        head
    }

    /// Number of pending jobs.
    pub fn len(&self) -> (n: usize)
        ensures
            n == self@.jobs.len(),
    {
        self.jobs.len()
    }

    /// Whether no job is pending.
    pub fn is_empty(&self) -> (empty: bool)
        ensures
            empty == (self@.jobs.len() == 0),
    {
        self.jobs.len() == 0
    }

    /// Whether shutdown has begun.
    pub fn is_stopping(&self) -> (stopping: bool)
        ensures
            stopping == self@.stopping,
    {
        self.stopping
    }

    /// The predicate a worker waits on: no job is pending and shutdown has
    /// not begun.
    pub fn must_wait(&self) -> (wait: bool)
        ensures
            wait == self@.must_wait(),
    {
        self.jobs.len() == 0 && !self.stopping
    }
}

} // verus!
