//! The job queue: an ordered channel of pending jobs that can be closed.

use std::collections::VecDeque;
use vstd::prelude::*;

verus! {

/// The queue as contracts see it: the jobs still waiting, oldest
/// first, and whether the sending side has been closed.
pub struct QueueView<J> {
    pub pending: Seq<J>,
    pub closed: bool,
}

/// The outcome of one attempt to take a job from the queue.
pub enum Dequeued<J> {
    /// The oldest pending job, now owned by the caller.
    Job(J),
    /// Nothing is pending but the queue is still open: the caller has to wait.
    Empty,
    /// Nothing is pending and nothing will ever be: the queue is closed.
    Closed,
}

/// The error of an `enqueue` on a closed queue. It hands the rejected job back.
pub struct QueueClosed<J>(pub J);

/// A first-in first-out queue of jobs with a closable sending side.
pub struct JobQueue<J> {
    pending: VecDeque<J>,
    closed: bool,
}

impl<J> View for JobQueue<J> {
    type V = QueueView<J>;

    closed spec fn view(&self) -> QueueView<J> {
        QueueView { pending: self.pending@, closed: self.closed }
    }
}

/// What an attempt to take a job from `queue` gives.
pub open spec fn dequeued<J>(queue: QueueView<J>) -> Dequeued<J> {
    if queue.pending.len() > 0 {
        Dequeued::Job(queue.pending[0])
    } else if queue.closed {
        Dequeued::Closed
    } else {
        Dequeued::Empty
    }
}

impl<J> QueueView<J> {
    /// The queue that holds nothing and accepts jobs.
    pub open spec fn fresh() -> Self {
        QueueView { pending: Seq::empty(), closed: false }
    }

    /// The queue after `job` was accepted at the tail.
    pub open spec fn enqueue(self, job: J) -> Self {
        QueueView { pending: self.pending.push(job), closed: self.closed }
    }

    /// The queue after its head left.
    pub open spec fn dequeue(self) -> Self {
        QueueView { pending: self.pending.drop_first(), closed: self.closed }
    }

    /// The queue after its sending side was closed.
    pub open spec fn close(self) -> Self {
        QueueView { pending: self.pending, closed: true }
    }
}

impl<J> JobQueue<J> {
    /// An open queue with nothing pending.
    pub fn new() -> (queue: Self)
        ensures
            queue@ == QueueView::<J>::fresh(),
    {
        JobQueue { pending: VecDeque::new(), closed: false }
    }

    /// Places `job` at the tail, unless the queue is closed: then nothing
    /// changes and the job comes back inside the error.
    pub fn enqueue(&mut self, job: J) -> (result: Result<(), QueueClosed<J>>)
        ensures
            old(self)@.closed ==> {
                &&& result == Err::<(), QueueClosed<J>>(QueueClosed(job))
                &&& final(self)@ == old(self)@
            },
            !old(self)@.closed ==> {
                &&& result == Ok::<(), QueueClosed<J>>(())
                &&& final(self)@ == old(self)@.enqueue(job)
            },
    {
        if self.closed {
            Err(QueueClosed(job))
        } else {
            self.pending.push_back(job);
            Ok(())
        }
    }

    /// Takes the oldest pending job. With nothing pending the answer says
    /// whether more may come (`Empty`) or not (`Closed`).
    pub fn dequeue(&mut self) -> (result: Dequeued<J>)
        ensures
            result == dequeued(old(self)@),
            final(self)@ == (if old(self)@.pending.len() > 0 {
                old(self)@.dequeue()
            } else {
                old(self)@
            }),
    {
        match self.pending.pop_front() {
            Some(job) => Dequeued::Job(job),
            None => if self.closed {
                Dequeued::Closed
            } else {
                Dequeued::Empty
            },
        }
    }

    /// Closes the sending side. Pending jobs stay; closing twice changes nothing.
    pub fn close(&mut self)
        ensures
            final(self)@ == old(self)@.close(),
    {
        self.closed = true;
    }

    /// Whether the sending side has been closed.
    pub fn is_closed(&self) -> (closed: bool)
        ensures
            closed == self@.closed,
    {
        self.closed
    }

    /// The number of pending jobs.
    pub fn len(&self) -> (len: usize)
        ensures
            len == self@.pending.len(),
    {
        self.pending.len()
    }
}

} // verus!
