//! One worker: its index, where it stands in its life cycle, and the handle of
//! the thread that runs it.

use crate::queue::{Dequeued, JobQueue, QueueView};
use vstd::prelude::*;

verus! {

/// Where a worker stands in its life cycle.
#[derive(Clone, Copy, PartialEq, Eq, Structural, Debug)]
pub enum WorkerState {
    /// Idle: the next thing it does is ask the queue for a job.
    Waiting,
    /// Executing a job it took from the queue.
    Running,
    /// It saw the closed, empty queue and left its loop for good.
    Terminated,
}

/// What a worker has to do after it asked the queue for a job.
pub enum Action<J> {
    /// Execute this job, outside the queue's lock, then report back.
    Run(J),
    /// Nothing is pending yet: block until the queue changes, then ask again.
    Wait,
    /// The queue is closed and drained: leave the loop.
    Exit,
}

/// A worker as contracts see it.
pub struct WorkerView<H> {
    pub id: usize,
    pub state: WorkerState,
    pub thread: Option<H>,
}

/// A worker of the pool. `H` is the handle by which its thread is awaited.
pub struct Worker<H> {
    id: usize,
    state: WorkerState,
    thread: Option<H>,
}

impl<H> View for Worker<H> {
    type V = WorkerView<H>;

    closed spec fn view(&self) -> WorkerView<H> {
        WorkerView { id: self.id, state: self.state, thread: self.thread }
    }
}

/// What a waiting worker is told when it meets `queue`.
pub open spec fn poll_action<J>(queue: QueueView<J>) -> Action<J> {
    if queue.pending.len() > 0 {
        Action::Run(queue.pending[0])
    } else if queue.closed {
        Action::Exit
    } else {
        Action::Wait
    }
}

/// The state a waiting worker is in after it met `queue`.
pub open spec fn poll_state<J>(queue: QueueView<J>) -> WorkerState {
    if queue.pending.len() > 0 {
        WorkerState::Running
    } else if queue.closed {
        WorkerState::Terminated
    } else {
        WorkerState::Waiting
    }
}

/// The queue after a waiting worker met it.
pub open spec fn poll_queue<J>(queue: QueueView<J>) -> QueueView<J> {
    if queue.pending.len() > 0 {
        queue.dequeue()
    } else {
        queue
    }
}

impl<H> Worker<H> {
    /// The worker with index `id`, waiting, whose thread is awaited through `thread`.
    pub fn new(id: usize, thread: H) -> (worker: Self)
        ensures
            worker@ == (WorkerView { id, state: WorkerState::Waiting, thread: Some(thread) }),
    {
        Worker { id, state: WorkerState::Waiting, thread: Some(thread) }
    }

    /// The worker's index.
    pub fn id(&self) -> (id: usize)
        ensures
            id == self@.id,
    {
        self.id
    }

    /// Where the worker stands.
    pub fn state(&self) -> (state: WorkerState)
        ensures
            state == self@.state,
    {
        self.state
    }

    /// Whether the thread's handle is still held.
    pub fn has_thread(&self) -> (held: bool)
        ensures
            held == self@.thread.is_some(),
    {
        self.thread.is_some()
    }

    /// One visit of a waiting worker to the queue. It takes the oldest job and
    /// starts running, or stays waiting on an open empty queue, or terminates
    /// on a closed empty one. Call it with the queue's lock held, and release
    /// the lock before the job runs.
    pub fn poll<J>(&mut self, queue: &mut JobQueue<J>) -> (action: Action<J>)
        requires
            old(self)@.state == WorkerState::Waiting,
        ensures
            action == poll_action(old(queue)@),
            final(queue)@ == poll_queue(old(queue)@),
            final(self)@ == (WorkerView { state: poll_state(old(queue)@), ..old(self)@ }),
    {
        match queue.dequeue() {
            Dequeued::Job(job) => {
                self.state = WorkerState::Running;
                Action::Run(job)
            },
            Dequeued::Empty => Action::Wait,
            Dequeued::Closed => {
                self.state = WorkerState::Terminated;
                Action::Exit
            },
        }
    }

    /// The job that the worker was running has ended: it waits again.
    pub fn finish(&mut self)
        requires
            old(self)@.state == WorkerState::Running,
        ensures
            final(self)@ == (WorkerView { state: WorkerState::Waiting, ..old(self)@ }),
    {
        self.state = WorkerState::Waiting;
    }

    /// Hands out the thread's handle, once. Every later call finds nothing and
    /// changes nothing.
    pub fn take_thread(&mut self) -> (thread: Option<H>)
        ensures
            thread == old(self)@.thread,
            final(self)@ == (WorkerView { thread: None, ..old(self)@ }),
    {
        self.thread.take()
    }
}

} // verus!
