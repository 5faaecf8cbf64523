//! What holds of every pool, whatever the order in which producers, workers
//! and the disposer take their steps.

use crate::model::{
    held_threads, in_flight, job_of, steps_left, without_threads, worker_steps_left, PoolView,
    Step,
};
use crate::worker::{poll_action, Action, WorkerState, WorkerView};
use vstd::multiset::Multiset;
use vstd::prelude::*;

verus! {

/// Replacing one slot exchanges that slot's job for the new one and leaves
/// the other jobs in flight alone.
proof fn lemma_in_flight_update<J>(running: Seq<Option<J>>, id: int, slot: Option<J>)
    requires
        0 <= id < running.len(),
    ensures
        in_flight(running.update(id, slot)).add(job_of(running[id])) == in_flight(running).add(
            job_of(slot),
        ),
    decreases running.len(),
{
    broadcast use vstd::multiset::group_multiset_axioms;

    let updated = running.update(id, slot);
    let front = running.drop_last();
    assert(in_flight(running) == in_flight(front).add(job_of(running.last())));
    assert(in_flight(updated) == in_flight(updated.drop_last()).add(job_of(updated.last())));
    if id == running.len() - 1 {
        assert(updated.drop_last() =~= front);
        assert(updated.last() == slot);
        assert(running.last() == running[id]);
        assert(in_flight(updated).add(job_of(running[id])) =~= in_flight(running).add(
            job_of(slot),
        ));
    } else {
        assert(updated.drop_last() =~= front.update(id, slot));
        lemma_in_flight_update(front, id, slot);
        let last = job_of(running.last());
        let before = in_flight(front).add(job_of(slot));
        let after = in_flight(front.update(id, slot)).add(job_of(running[id]));
        assert(after == before);
        assert(in_flight(updated).add(job_of(running[id])) =~= after.add(last));
        assert(in_flight(running).add(job_of(slot)) =~= before.add(last));
    }
}

/// Where no slot is occupied, nothing is in flight.
proof fn lemma_in_flight_idle<J>(running: Seq<Option<J>>)
    requires
        forall|i: int| 0 <= i < running.len() ==> running[i].is_none(),
    ensures
        in_flight(running) == Multiset::<J>::empty(),
    decreases running.len(),
{
    broadcast use vstd::multiset::group_multiset_axioms;

    if running.len() > 0 {
        lemma_in_flight_idle(running.drop_last());
        assert(in_flight(running) =~= Multiset::<J>::empty());
    }
}

/// No more jobs are in flight than there are slots.
proof fn lemma_in_flight_len<J>(running: Seq<Option<J>>)
    ensures
        in_flight(running).len() <= running.len(),
    decreases running.len(),
{
    broadcast use vstd::multiset::group_multiset_axioms;

    if running.len() > 0 {
        lemma_in_flight_len(running.drop_last());
    }
}

/// The empty sequence holds no element.
proof fn lemma_empty_to_multiset<J>()
    ensures
        Seq::<J>::empty().to_multiset() == Multiset::<J>::empty(),
{
    vstd::seq_lib::to_multiset_len(Seq::<J>::empty());
    vstd::multiset::lemma_multiset_empty_len(Seq::<J>::empty().to_multiset());
}

/// Replacing one worker changes the sum of the steps left by the difference
/// between the two.
proof fn lemma_steps_left_update<H>(workers: Seq<WorkerView<H>>, id: int, worker: WorkerView<H>)
    requires
        0 <= id < workers.len(),
    ensures
        worker_steps_left(workers.update(id, worker)) + steps_left(workers[id].state)
            == worker_steps_left(workers) + steps_left(worker.state),
    decreases workers.len(),
{
    let updated = workers.update(id, worker);
    if id == workers.len() - 1 {
        assert(updated.drop_last() == workers.drop_last());
    } else {
        assert(updated.drop_last() == workers.drop_last().update(id, worker));
        lemma_steps_left_update(workers.drop_last(), id, worker);
    }
}

/// No worker has a step left exactly when every worker has terminated.
proof fn lemma_steps_left_zero<H>(workers: Seq<WorkerView<H>>)
    ensures
        worker_steps_left(workers) == 0 <==> forall|i: int|
            0 <= i < workers.len() ==> (#[trigger] workers[i]).state == WorkerState::Terminated,
    decreases workers.len(),
{
    if workers.len() > 0 {
        let front = workers.drop_last();
        lemma_steps_left_zero(front);
        if worker_steps_left(workers) == 0 {
            assert forall|i: int| 0 <= i < workers.len() implies (#[trigger] workers[i]).state
                == WorkerState::Terminated by {
                if i < workers.len() - 1 {
                    assert(front[i] == workers[i]);
                }
            }
        }
        if forall|i: int|
            0 <= i < workers.len() ==> (#[trigger] workers[i]).state == WorkerState::Terminated {
            assert forall|i: int| 0 <= i < front.len() implies (#[trigger] front[i]).state
                == WorkerState::Terminated by {
                assert(front[i] == workers[i]);
            }
            assert(workers.last() == workers[workers.len() - 1]);
        }
    }
}

/// Where every worker waits, each has one step left.
proof fn lemma_steps_left_waiting<H>(workers: Seq<WorkerView<H>>)
    requires
        forall|i: int|
            0 <= i < workers.len() ==> (#[trigger] workers[i]).state == WorkerState::Waiting,
    ensures
        worker_steps_left(workers) == workers.len(),
    decreases workers.len(),
{
    if workers.len() > 0 {
        let front = workers.drop_last();
        assert forall|i: int| 0 <= i < front.len() implies (#[trigger] front[i]).state
            == WorkerState::Waiting by {
            assert(front[i] == workers[i]);
        }
        lemma_steps_left_waiting(front);
        assert(workers.last() == workers[workers.len() - 1]);
    }
}

/// Workers in the same states have the same number of steps left.
proof fn lemma_steps_left_same_states<H>(a: Seq<WorkerView<H>>, b: Seq<WorkerView<H>>)
    requires
        a.len() == b.len(),
        forall|i: int| 0 <= i < a.len() ==> (#[trigger] a[i]).state == b[i].state,
    ensures
        worker_steps_left(a) == worker_steps_left(b),
    decreases a.len(),
{
    if a.len() > 0 {
        assert forall|i: int| 0 <= i < a.len() - 1 implies (#[trigger] a.drop_last()[i]).state
            == b.drop_last()[i].state by {
            assert(a.drop_last()[i] == a[i]);
            assert(b.drop_last()[i] == b[i]);
        }
        lemma_steps_left_same_states(a.drop_last(), b.drop_last());
        assert(a.last() == a[a.len() - 1]);
    }
}

/// Whether `step` is one that a worker takes.
pub open spec fn is_worker_step<J>(step: Step<J>) -> bool {
    step is Poll || step is Finish
}

/// Whether every one of `steps` is one that a worker takes.
pub open spec fn worker_steps<J>(steps: Seq<Step<J>>) -> bool {
    forall|k: int| 0 <= k < steps.len() ==> is_worker_step(#[trigger] steps[k])
}

/// The jobs that `steps` submit, in the order of submission.
pub open spec fn submitted<J>(steps: Seq<Step<J>>) -> Seq<J>
    decreases steps.len(),
{
    if steps.len() == 0 {
        Seq::empty()
    } else {
        match steps[0] {
            Step::Execute(job) => seq![job] + submitted(steps.drop_first()),
            _ => submitted(steps.drop_first()),
        }
    }
}

/// A pool that was just built from at least one handle meets the invariant.
pub proof fn law_fresh_is_wf<J, H>(threads: Seq<H>)
    requires
        0 < threads.len() <= usize::MAX,
    ensures
        PoolView::<J, H>::fresh(threads).wf(),
        PoolView::<J, H>::fresh(threads).size() == threads.len(),
{
    broadcast use vstd::multiset::group_multiset_axioms;

    let pool = PoolView::<J, H>::fresh(threads);
    lemma_in_flight_idle(pool.running);
    assert(pool.started + pool.queue.pending =~= pool.accepted);
    lemma_empty_to_multiset::<J>();
    assert(pool.finished.to_multiset().add(in_flight(pool.running)) =~= Multiset::<J>::empty());
}

/// Disposal keeps the invariant and the load: it changes no worker's state
/// and takes no job from the queue.
pub proof fn law_shutdown_keeps_wf<J, H>(pool: PoolView<J, H>)
    requires
        pool.wf(),
    ensures
        pool.shutdown().wf(),
        pool.shutdown().queue.closed,
        pool.shutdown().load() == pool.load(),
        pool.shutdown().size() == pool.size(),
{
    lemma_steps_left_same_states(pool.workers, pool.shutdown().workers);
}

/// Every step that may be taken keeps the invariant and the number of workers.
pub proof fn law_step_keeps_wf<J, H>(pool: PoolView<J, H>, step: Step<J>)
    requires
        pool.wf(),
        pool.enabled(step),
    ensures
        pool.next(step).wf(),
        pool.next(step).size() == pool.size(),
{
    broadcast use vstd::multiset::group_multiset_axioms;
    broadcast use vstd::seq_lib::to_multiset_build;

    let after = pool.next(step);
    match step {
        Step::Execute(job) => {
            assert(after.started + after.queue.pending =~= after.accepted);
        },
        Step::Poll(id) => {
            if pool.queue.pending.len() > 0 {
                let job = pool.queue.pending[0];
                assert(after.started + after.queue.pending =~= after.accepted);
                lemma_in_flight_update(pool.running, id, Some(job));
                assert(in_flight(after.running) =~= in_flight(after.running).add(
                    job_of(pool.running[id]),
                ));
                assert(after.started.to_multiset() =~= pool.finished.to_multiset().add(
                    in_flight(pool.running).add(job_of(Some(job))),
                ));
            }
        },
        Step::Finish(id) => {
            let job = pool.running[id].unwrap();
            lemma_in_flight_update(pool.running, id, None);
            assert(in_flight(pool.running) =~= in_flight(pool.running).add(job_of(None::<J>)));
            assert(after.finished.to_multiset().add(in_flight(after.running))
                =~= pool.finished.to_multiset().add(
                in_flight(after.running).add(job_of(pool.running[id])),
            ));
        },
        Step::Shutdown => {
            law_shutdown_keeps_wf(pool);
        },
    }
}

/// However the steps of producers, workers and the disposer interleave, the
/// invariant holds after them and the pool keeps its size.
pub proof fn law_run_keeps_wf<J, H>(pool: PoolView<J, H>, steps: Seq<Step<J>>)
    requires
        pool.wf(),
        pool.admits(steps),
    ensures
        pool.run(steps).wf(),
        pool.run(steps).size() == pool.size(),
    decreases steps.len(),
{
    if steps.len() > 0 {
        law_step_keeps_wf(pool, steps[0]);
        law_run_keeps_wf(pool.next(steps[0]), steps.drop_first());
    }
}

/// What a pool has accepted after some steps is what it had accepted before,
/// followed by the jobs that the steps submitted, in their order.
pub proof fn law_run_accepts_what_is_submitted<J, H>(pool: PoolView<J, H>, steps: Seq<Step<J>>)
    requires
        pool.admits(steps),
    ensures
        pool.run(steps).accepted == pool.accepted + submitted(steps),
    decreases steps.len(),
{
    if steps.len() > 0 {
        law_run_accepts_what_is_submitted(pool.next(steps[0]), steps.drop_first());
    }
    assert(pool.run(steps).accepted =~= pool.accepted + submitted(steps));
}

/// Jobs leave the queue in the order in which they were accepted: what was
/// handed to workers, followed by what is pending, is what was accepted. And
/// never are more jobs being executed than the pool has workers.
pub proof fn law_fifo_and_bounded<J, H>(pool: PoolView<J, H>)
    requires
        pool.wf(),
    ensures
        pool.accepted == pool.started + pool.queue.pending,
        pool.started.is_prefix_of(pool.accepted),
        in_flight(pool.running).len() <= pool.size(),
{
    lemma_in_flight_len(pool.running);
}

/// A pool of one worker runs one job at a time: whenever its worker is about
/// to visit the queue, every job that it took before has ended.
pub proof fn law_single_worker_serializes<J, H>(pool: PoolView<J, H>)
    requires
        pool.wf(),
        pool.size() == 1,
        pool.enabled(Step::Poll(0)),
    ensures
        in_flight(pool.running) == Multiset::<J>::empty(),
        pool.finished.to_multiset() == pool.started.to_multiset(),
{
    broadcast use vstd::multiset::group_multiset_axioms;

    lemma_in_flight_idle(pool.running);
    assert(pool.finished.to_multiset().add(Multiset::<J>::empty())
        =~= pool.finished.to_multiset());
}

/// Once every worker has terminated, the queue is closed and empty and every
/// job that was ever accepted has been executed exactly once: the finished
/// jobs are the accepted ones, each as often as it was accepted.
pub proof fn law_quiescent_pool_ran_every_job<J, H>(pool: PoolView<J, H>)
    requires
        pool.wf(),
        pool.quiescent(),
    ensures
        pool.queue.closed,
        pool.queue.pending.len() == 0,
        pool.started == pool.accepted,
        in_flight(pool.running) == Multiset::<J>::empty(),
        pool.finished.to_multiset() == pool.accepted.to_multiset(),
{
    broadcast use vstd::multiset::group_multiset_axioms;

    assert(pool.workers[0].state == WorkerState::Terminated);
    assert(pool.started + pool.queue.pending =~= pool.started);
    assert forall|i: int| 0 <= i < pool.running.len() implies pool.running[i].is_none() by {
        assert(pool.workers[i].state == WorkerState::Terminated);
    }
    lemma_in_flight_idle(pool.running);
    assert(pool.finished.to_multiset().add(Multiset::<J>::empty())
        =~= pool.finished.to_multiset());
}

/// From construction to the end of disposal: however producers, workers and
/// the disposer interleaved, once every worker has terminated the jobs that
/// were executed are the jobs that were submitted, each exactly once.
pub proof fn law_each_submitted_job_runs_once<J, H>(threads: Seq<H>, steps: Seq<Step<J>>)
    requires
        0 < threads.len() <= usize::MAX,
        PoolView::<J, H>::fresh(threads).admits(steps),
        PoolView::<J, H>::fresh(threads).run(steps).quiescent(),
    ensures
        PoolView::<J, H>::fresh(threads).run(steps).finished.to_multiset() == submitted(
            steps,
        ).to_multiset(),
        PoolView::<J, H>::fresh(threads).run(steps).finished.len() == submitted(steps).len(),
{
    let pool = PoolView::<J, H>::fresh(threads);
    law_fresh_is_wf::<J, H>(threads);
    law_run_keeps_wf(pool, steps);
    law_run_accepts_what_is_submitted(pool, steps);
    law_quiescent_pool_ran_every_job(pool.run(steps));
    assert(pool.accepted + submitted(steps) =~= submitted(steps));
    vstd::seq_lib::to_multiset_len(pool.run(steps).finished);
    vstd::seq_lib::to_multiset_len(submitted(steps));
}

/// The load is zero exactly when every worker has terminated.
pub proof fn law_load_zero_iff_quiescent<J, H>(pool: PoolView<J, H>)
    requires
        pool.wf(),
    ensures
        pool.load() == 0 <==> pool.quiescent(),
{
    lemma_steps_left_zero(pool.workers);
    if pool.quiescent() {
        assert(pool.workers[0].state == WorkerState::Terminated);
    }
}

/// After the queue was closed no worker is ever stuck: one that has not
/// terminated has a step to take, a visit to the queue never tells it to wait,
/// and its step brings the load down by one.
pub proof fn law_closed_pool_progress<J, H>(pool: PoolView<J, H>, id: int)
    requires
        pool.wf(),
        pool.queue.closed,
        0 <= id < pool.size(),
        pool.workers[id].state != WorkerState::Terminated,
    ensures
        pool.workers[id].state == WorkerState::Waiting ==> {
            &&& pool.enabled(Step::Poll(id))
            &&& !(poll_action(pool.queue) is Wait)
            &&& pool.poll(id).queue.closed
            &&& pool.poll(id).load() + 1 == pool.load()
        },
        pool.workers[id].state == WorkerState::Running ==> {
            &&& pool.enabled(Step::Finish(id))
            &&& pool.finish(id).queue.closed
            &&& pool.finish(id).load() + 1 == pool.load()
        },
{
    if pool.workers[id].state == WorkerState::Waiting {
        lemma_steps_left_update(pool.workers, id, pool.poll(id).workers[id]);
    } else {
        lemma_steps_left_update(pool.workers, id, pool.finish(id).workers[id]);
    }
}

/// After the queue was closed the workers take exactly as many steps as the
/// load says, in whatever order: each step they take brings it down by one.
pub proof fn law_drain_is_bounded<J, H>(pool: PoolView<J, H>, steps: Seq<Step<J>>)
    requires
        pool.wf(),
        pool.queue.closed,
        worker_steps(steps),
        pool.admits(steps),
    ensures
        pool.run(steps).wf(),
        pool.run(steps).queue.closed,
        pool.run(steps).load() + steps.len() == pool.load(),
        steps.len() <= pool.load(),
        pool.run(steps).accepted == pool.accepted,
    decreases steps.len(),
{
    if steps.len() > 0 {
        let step = steps[0];
        let rest = steps.drop_first();
        assert(is_worker_step(step));
        law_step_keeps_wf(pool, step);
        match step {
            Step::Poll(id) => law_closed_pool_progress(pool, id),
            Step::Finish(id) => law_closed_pool_progress(pool, id),
            _ => {},
        }
        assert forall|k: int| 0 <= k < rest.len() implies is_worker_step(#[trigger] rest[k]) by {
            assert(rest[k] == steps[k + 1]);
        }
        law_drain_is_bounded(pool.next(step), rest);
    }
}

/// Disposal ends, and ends well: when, after the queue was closed, the workers
/// have taken as many steps as the load said, every worker has terminated and
/// every accepted job has been executed exactly once.
pub proof fn law_drain_ends_quiescent<J, H>(pool: PoolView<J, H>, steps: Seq<Step<J>>)
    requires
        pool.wf(),
        pool.queue.closed,
        worker_steps(steps),
        pool.admits(steps),
        steps.len() == pool.load(),
    ensures
        pool.run(steps).quiescent(),
        pool.run(steps).queue.pending.len() == 0,
        pool.run(steps).finished.to_multiset() == pool.accepted.to_multiset(),
{
    law_drain_is_bounded(pool, steps);
    law_load_zero_iff_quiescent(pool.run(steps));
    law_quiescent_pool_ran_every_job(pool.run(steps));
}

/// A pool that is disposed of right after construction has one step left for
/// each worker: its visit to the queue, which tells it to leave.
pub proof fn law_fresh_pool_disposal<J, H>(threads: Seq<H>)
    requires
        0 < threads.len() <= usize::MAX,
    ensures
        PoolView::<J, H>::fresh(threads).shutdown().wf(),
        PoolView::<J, H>::fresh(threads).shutdown().load() == threads.len(),
        forall|id: int|
            0 <= id < threads.len() ==> #[trigger] PoolView::<J, H>::fresh(
                threads,
            ).shutdown().enabled(Step::Poll(id)),
        poll_action(PoolView::<J, H>::fresh(threads).shutdown().queue) == Action::<J>::Exit,
{
    let pool = PoolView::<J, H>::fresh(threads);
    law_fresh_is_wf::<J, H>(threads);
    law_shutdown_keeps_wf(pool);
    lemma_steps_left_waiting(pool.shutdown().workers);
}

/// A second disposal changes nothing and finds no handle to wait for.
pub proof fn law_shutdown_is_idempotent<J, H>(pool: PoolView<J, H>)
    ensures
        pool.shutdown().shutdown() == pool.shutdown(),
        forall|id: int|
            0 <= id < pool.size() ==> (#[trigger] held_threads(
                pool.shutdown().workers,
            )[id]).is_none(),
{
    assert(without_threads(without_threads(pool.workers)) =~= without_threads(pool.workers));
}

} // verus!
