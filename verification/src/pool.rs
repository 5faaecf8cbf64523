//! The pool: a fixed set of workers around one job queue.

use crate::laws::{law_fresh_is_wf, law_shutdown_keeps_wf, law_step_keeps_wf};
use crate::model::{held_threads, threads_of, without_threads, PoolView, Step};
use crate::queue::JobQueue;
use crate::worker::{poll_action, Action, Worker, WorkerState, WorkerView};
use vstd::prelude::*;

verus! {

/// A pool of a fixed number of workers that share one queue of jobs.
///
/// `J` is the type of a job and `H` the type of the handle by which a worker's
/// thread is awaited. The pool decides; it neither runs a job nor waits for a
/// thread. Whoever drives it calls [`ThreadPool::poll`] for a worker that is
/// about to look for work, does what the answer says, and reports the end of
/// a job with [`ThreadPool::finish`].
pub struct ThreadPool<J, H> {
    workers: Vec<Worker<H>>,
    queue: JobQueue<J>,
    running: Ghost<Seq<Option<J>>>,
    accepted: Ghost<Seq<J>>,
    started: Ghost<Seq<J>>,
    finished: Ghost<Seq<J>>,
}

/// The views of `workers`, one for one.
spec fn worker_views<H>(workers: Seq<Worker<H>>) -> Seq<WorkerView<H>> {
    Seq::new(workers.len(), |i: int| workers[i]@)
}

impl<J, H> View for ThreadPool<J, H> {
    type V = PoolView<J, H>;

    closed spec fn view(&self) -> PoolView<J, H> {
        PoolView {
            queue: self.queue@,
            workers: worker_views(self.workers@),
            running: self.running@,
            accepted: self.accepted@,
            started: self.started@,
            finished: self.finished@,
        }
    }
}

impl<J, H> ThreadPool<J, H> {
    /// A pool of `size` workers, all of them waiting at an open, empty queue.
    /// The thread of worker `id` is whatever `spawn(id)` hands back; `spawn`
    /// is called once for each index, in rising order.
    pub fn new<F: Fn(usize) -> H>(size: usize, spawn: F) -> (pool: Self)
        requires
            size > 0,
            forall|id: usize| id < size ==> call_requires(spawn, (id,)),
        ensures
            pool@.wf(),
            pool@.size() == size,
            pool@ == PoolView::<J, H>::fresh(threads_of(pool@.workers)),
            forall|id: usize|
                id < size ==> call_ensures(
                    spawn,
                    (id,),
                    #[trigger] threads_of(pool@.workers)[id as int],
                ),
    {
        let mut workers: Vec<Worker<H>> = Vec::new();
        let mut id: usize = 0;
        while id < size
            invariant
                id <= size,
                workers@.len() == id,
                forall|id: usize| id < size ==> call_requires(spawn, (id,)),
                forall|k: int|
                    0 <= k < id ==> {
                        &&& (#[trigger] workers@[k])@.id == k
                        &&& workers@[k]@.state == WorkerState::Waiting
                        &&& workers@[k]@.thread.is_some()
                        &&& call_ensures(spawn, (k as usize,), workers@[k]@.thread.unwrap())
                    },
            decreases size - id,
        {
            let thread = spawn(id);
            workers.push(Worker::new(id, thread));
            id += 1;
        }
        let pool = ThreadPool {
            workers,
            queue: JobQueue::new(),
            running: Ghost(Seq::new(size as nat, |i: int| None)),
            accepted: Ghost(Seq::empty()),
            started: Ghost(Seq::empty()),
            finished: Ghost(Seq::empty()),
        };
        proof {
            let threads = threads_of(pool@.workers);
            assert(pool@.workers =~= PoolView::<J, H>::fresh(threads).workers);
            assert(pool@ == PoolView::<J, H>::fresh(threads));
            law_fresh_is_wf::<J, H>(threads);
            assert forall|id: usize| id < size implies call_ensures(
                spawn,
                (id,),
                #[trigger] threads[id as int],
            ) by {
                assert(pool.workers@[id as int]@.thread.unwrap() == threads[id as int]);
            }
        }
        pool
    }

    /// The number of workers.
    pub fn size(&self) -> (size: usize)
        ensures
            size == self@.size(),
    {
        self.workers.len()
    }

    /// Whether jobs are still accepted: disposal has not begun.
    pub fn is_open(&self) -> (open: bool)
        ensures
            open == !self@.queue.closed,
    {
        !self.queue.is_closed()
    }

    /// The number of jobs that wait for a worker.
    pub fn pending(&self) -> (pending: usize)
        ensures
            pending == self@.queue.pending.len(),
    {
        self.queue.len()
    }

    /// Where worker `id` stands, if there is such a worker.
    pub fn worker_state(&self, id: usize) -> (state: Option<WorkerState>)
        ensures
            id < self@.size() ==> state == Some(self@.workers[id as int].state),
            id >= self@.size() ==> state.is_none(),
    {
        if id < self.workers.len() {
            Some(self.workers[id].state())
        } else {
            None
        }
    }

    /// Submits `job`: it joins the queue behind the jobs that wait there.
    /// To submit after disposal has begun is a fault of the caller.
    pub fn execute(&mut self, job: J)
        requires
            old(self)@.wf(),
            !old(self)@.queue.closed,
        ensures
            final(self)@ == old(self)@.execute(job),
            final(self)@.wf(),
    {
        let _ = self.queue.enqueue(job);
        proof {
            self.accepted@ = self.accepted@.push(job);
            law_step_keeps_wf(old(self)@, Step::Execute(job));
        }
    }

    /// The visit of the waiting worker `id` to the queue, made while it holds
    /// the pool's lock. The answer is the oldest pending job, which the worker
    /// now runs; or to wait, where nothing is pending and more may come; or to
    /// leave, where nothing is pending and disposal has begun.
    pub fn poll(&mut self, id: usize) -> (action: Action<J>)
        requires
            old(self)@.wf(),
            old(self)@.enabled(Step::Poll(id as int)),
        ensures
            action == poll_action(old(self)@.queue),
            final(self)@ == old(self)@.poll(id as int),
            final(self)@.wf(),
    {
        let action = self.workers[id].poll(&mut self.queue);
        proof {
            if old(self)@.queue.pending.len() > 0 {
                let job = old(self)@.queue.pending[0];
                self.running@ = self.running@.update(id as int, Some(job));
                self.started@ = self.started@.push(job);
            }
            assert(self@.workers =~= old(self)@.poll(id as int).workers);
            law_step_keeps_wf(old(self)@, Step::Poll(id as int));
        }
        action
    }

    /// The job that worker `id` was running has ended, however it ended: the
    /// worker waits again.
    pub fn finish(&mut self, id: usize)
        requires
            old(self)@.wf(),
            old(self)@.enabled(Step::Finish(id as int)),
        ensures
            final(self)@ == old(self)@.finish(id as int),
            final(self)@.wf(),
    {
        self.workers[id].finish();
        proof {
            self.finished@ = self.finished@.push(self.running@[id as int].unwrap());
            self.running@ = self.running@.update(id as int, None);
            assert(self@.workers =~= old(self)@.finish(id as int).workers);
            law_step_keeps_wf(old(self)@, Step::Finish(id as int));
        }
    }

    /// Begins disposal: closes the queue, so that no job is accepted any more
    /// and every worker leaves once nothing is pending, and takes from every
    /// worker what it holds of its thread. The result has one entry for each
    /// worker, in index order: the handle to await, or nothing where it was
    /// taken before. A second call finds the queue closed and no handle.
    pub fn shutdown(&mut self) -> (threads: Vec<Option<H>>)
        requires
            old(self)@.wf(),
        ensures
            threads@ == held_threads(old(self)@.workers),
            final(self)@ == old(self)@.shutdown(),
            final(self)@.wf(),
    {
        self.queue.close();
        let size = self.workers.len();
        let mut threads: Vec<Option<H>> = Vec::with_capacity(size);
        let mut id: usize = 0;
        while id < size
            invariant
                id <= size,
                size == old(self)@.workers.len(),
                self.workers@.len() == size,
                self.queue@ == old(self)@.queue.close(),
                self.running@ == old(self)@.running,
                self.accepted@ == old(self)@.accepted,
                self.started@ == old(self)@.started,
                self.finished@ == old(self)@.finished,
                threads@.len() == id,
                forall|k: int| 0 <= k < id ==> threads@[k] == old(self)@.workers[k].thread,
                forall|k: int|
                    0 <= k < size ==> (#[trigger] self.workers@[k])@ == (if k < id {
                        WorkerView { thread: None, ..old(self)@.workers[k] }
                    } else {
                        old(self)@.workers[k]
                    }),
            decreases size - id,
        {
            let thread = self.workers[id].take_thread();
            threads.push(thread);
            id += 1;
        }
        proof {
            assert(threads@ =~= held_threads(old(self)@.workers));
            assert(self@.workers =~= without_threads(old(self)@.workers));
            law_shutdown_keeps_wf(old(self)@);
        }
        threads
    }
}

} // verus!
