//! The pool as a transition system: its state as plain mathematical values,
//! the steps that producers, workers and the disposer take, and the invariant
//! that every step keeps.

use crate::queue::QueueView;
use crate::worker::{poll_queue, poll_state, WorkerState, WorkerView};
use vstd::multiset::Multiset;
use vstd::prelude::*;

verus! {

/// The whole pool as contracts see it. Besides the queue and the workers
/// it records what happened so far: every job that was accepted, every job
/// that a worker took, every job whose execution ended, and the job that each
/// running worker is executing right now.
pub struct PoolView<J, H> {
    /// The shared queue.
    pub queue: QueueView<J>,
    /// The workers, by index.
    pub workers: Seq<WorkerView<H>>,
    /// For each worker the job it is executing, if it is running.
    pub running: Seq<Option<J>>,
    /// The jobs accepted so far, in the order of acceptance.
    pub accepted: Seq<J>,
    /// The jobs handed to workers so far, in the order of the handing.
    pub started: Seq<J>,
    /// The jobs whose execution has ended, in the order of the ending.
    pub finished: Seq<J>,
}

/// One step of the system.
pub enum Step<J> {
    /// A producer submits a job.
    Execute(J),
    /// The worker with this index visits the queue.
    Poll(int),
    /// The worker with this index ends the job it was running.
    Finish(int),
    /// The disposer closes the queue and takes the workers' handles.
    Shutdown,
}

/// The jobs that an optional job stands for: none or one.
pub open spec fn job_of<J>(slot: Option<J>) -> Multiset<J> {
    match slot {
        Some(job) => Multiset::singleton(job),
        None => Multiset::empty(),
    }
}

/// The jobs that are being executed, one for each occupied slot.
pub open spec fn in_flight<J>(running: Seq<Option<J>>) -> Multiset<J>
    decreases running.len(),
{
    if running.len() == 0 {
        Multiset::empty()
    } else {
        in_flight(running.drop_last()).add(job_of(running.last()))
    }
}

/// The number of steps that a worker in this state still takes once the
/// queue is closed and holds nothing for it.
pub open spec fn steps_left(state: WorkerState) -> nat {
    match state {
        WorkerState::Running => 2,
        WorkerState::Waiting => 1,
        WorkerState::Terminated => 0,
    }
}

/// The sum of `steps_left` over all workers.
pub open spec fn worker_steps_left<H>(workers: Seq<WorkerView<H>>) -> nat
    decreases workers.len(),
{
    if workers.len() == 0 {
        0
    } else {
        worker_steps_left(workers.drop_last()) + steps_left(workers.last().state)
    }
}

/// What each worker holds of its thread, in index order: the handle, or
/// nothing once it was taken.
pub open spec fn held_threads<H>(workers: Seq<WorkerView<H>>) -> Seq<Option<H>> {
    Seq::new(workers.len(), |i: int| workers[i].thread)
}

/// The handles of workers that all hold theirs, in index order.
pub open spec fn threads_of<H>(workers: Seq<WorkerView<H>>) -> Seq<H> {
    Seq::new(workers.len(), |i: int| workers[i].thread.unwrap())
}

/// The workers after every handle was taken from them.
pub open spec fn without_threads<H>(workers: Seq<WorkerView<H>>) -> Seq<WorkerView<H>> {
    Seq::new(workers.len(), |i: int| WorkerView { thread: None, ..workers[i] })
}

impl<J, H> PoolView<J, H> {
    /// The number of workers.
    pub open spec fn size(self) -> nat {
        self.workers.len()
    }

    /// The invariant of the pool. There is at least one worker, and each is
    /// known by its index. A worker is running exactly when it has a job. A
    /// worker has terminated only when the queue was closed and empty. The
    /// accepted jobs are those handed to workers followed by those pending,
    /// so jobs are handed out in the order of acceptance. And every job that
    /// was handed out has ended or is being executed, once.
    pub open spec fn wf(self) -> bool {
        &&& self.workers.len() > 0
        &&& self.running.len() == self.workers.len()
        &&& forall|i: int| 0 <= i < self.workers.len() ==> (#[trigger] self.workers[i]).id == i
        &&& forall|i: int|
            0 <= i < self.workers.len() ==> ((#[trigger] self.workers[i]).state
                == WorkerState::Running <==> self.running[i].is_some())
        &&& forall|i: int|
            0 <= i < self.workers.len() && (#[trigger] self.workers[i]).state
                == WorkerState::Terminated ==> self.queue.closed && self.queue.pending.len() == 0
        &&& self.accepted == self.started + self.queue.pending
        &&& self.started.to_multiset() == self.finished.to_multiset().add(in_flight(self.running))
    }

    /// The pool right after construction: every worker waits and holds its
    /// handle, the queue is open and empty, and nothing has happened yet.
    pub open spec fn fresh(threads: Seq<H>) -> Self {
        PoolView {
            queue: QueueView::fresh(),
            workers: Seq::new(
                threads.len(),
                |i: int|
                    WorkerView {
                        id: i as usize,
                        state: WorkerState::Waiting,
                        thread: Some(threads[i]),
                    },
            ),
            running: Seq::new(threads.len(), |i: int| None),
            accepted: Seq::empty(),
            started: Seq::empty(),
            finished: Seq::empty(),
        }
    }

    /// The pool after `job` was accepted.
    pub open spec fn execute(self, job: J) -> Self {
        PoolView { queue: self.queue.enqueue(job), accepted: self.accepted.push(job), ..self }
    }

    /// The pool after the waiting worker `id` visited the queue.
    pub open spec fn poll(self, id: int) -> Self {
        let worker = WorkerView { state: poll_state(self.queue), ..self.workers[id] };
        if self.queue.pending.len() > 0 {
            PoolView {
                queue: poll_queue(self.queue),
                workers: self.workers.update(id, worker),
                running: self.running.update(id, Some(self.queue.pending[0])),
                started: self.started.push(self.queue.pending[0]),
                ..self
            }
        } else {
            PoolView { workers: self.workers.update(id, worker), ..self }
        }
    }

    /// The pool after the running worker `id` ended its job.
    pub open spec fn finish(self, id: int) -> Self {
        PoolView {
            workers: self.workers.update(
                id,
                WorkerView { state: WorkerState::Waiting, ..self.workers[id] },
            ),
            running: self.running.update(id, None),
            finished: self.finished.push(self.running[id].unwrap()),
            ..self
        }
    }

    /// The pool after disposal began: the queue is closed and every handle
    /// that was still held has been taken.
    pub open spec fn shutdown(self) -> Self {
        PoolView { queue: self.queue.close(), workers: without_threads(self.workers), ..self }
    }

    /// Whether `step` may be taken in this state.
    pub open spec fn enabled(self, step: Step<J>) -> bool {
        match step {
            Step::Execute(_) => !self.queue.closed,
            Step::Poll(id) => 0 <= id < self.workers.len() && self.workers[id].state
                == WorkerState::Waiting,
            Step::Finish(id) => 0 <= id < self.workers.len() && self.workers[id].state
                == WorkerState::Running,
            Step::Shutdown => true,
        }
    }

    /// The state after `step`.
    pub open spec fn next(self, step: Step<J>) -> Self {
        match step {
            Step::Execute(job) => self.execute(job),
            Step::Poll(id) => self.poll(id),
            Step::Finish(id) => self.finish(id),
            Step::Shutdown => self.shutdown(),
        }
    }

    /// Whether `steps` can be taken one after the other, starting here.
    pub open spec fn admits(self, steps: Seq<Step<J>>) -> bool
        decreases steps.len(),
    {
        steps.len() > 0 ==> self.enabled(steps[0]) && self.next(steps[0]).admits(
            steps.drop_first(),
        )
    }

    /// The state after all of `steps`.
    pub open spec fn run(self, steps: Seq<Step<J>>) -> Self
        decreases steps.len(),
    {
        if steps.len() == 0 {
            self
        } else {
            self.next(steps[0]).run(steps.drop_first())
        }
    }

    /// Whether every worker has terminated.
    pub open spec fn quiescent(self) -> bool {
        forall|i: int|
            0 <= i < self.workers.len() ==> (#[trigger] self.workers[i]).state
                == WorkerState::Terminated
    }

    /// The number of worker steps that are still to come once the queue is
    /// closed: two for each pending job, which is taken and ended, and for
    /// each worker what its state says.
    pub open spec fn load(self) -> nat {
        2 * self.queue.pending.len() + worker_steps_left(self.workers)
    }
}

} // verus!
