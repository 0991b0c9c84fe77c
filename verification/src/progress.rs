//! That the pool gets somewhere: a whole life of a pool runs every job, and
//! teardown can always be completed.

use crate::laws::{
    lemma_execute_wf, lemma_extends_transitive, lemma_initial_workers, lemma_job_finished_wf,
    lemma_next_job_wf, lemma_shutdown_wf, lemma_step_extends, lemma_step_wf,
    lemma_teardown_leaves_nothing_running,
};
use crate::model::{Event, Fate, Outcome, PoolView};
use crate::queue::QueueView;
use crate::worker::{Phase, WorkerView};
use vstd::prelude::*;

verus! {

/// The pool after the jobs of `jobs` were submitted one by one.
pub open spec fn execute_all<J>(pool: PoolView<J>, jobs: Seq<J>) -> PoolView<J>
    decreases jobs.len(),
{
    if jobs.len() == 0 {
        pool
    } else {
        execute_all(pool, jobs.drop_last()).execute(jobs.last())
    }
}

/// The pool after `worker` has, `rounds` times over, asked for a job and
/// run it to completion.
pub open spec fn serve<J>(pool: PoolView<J>, worker: nat, rounds: nat) -> PoolView<J>
    decreases rounds,
{
    if rounds == 0 {
        pool
    } else {
        serve(pool, worker, (rounds - 1) as nat).next_job(worker).job_finished(worker)
    }
}

/// The pool after each of the first `count` workers has asked for a job
/// once, in construction order.
pub open spec fn ask_each<J>(pool: PoolView<J>, count: nat) -> PoolView<J>
    decreases count,
{
    if count == 0 {
        pool
    } else {
        ask_each(pool, (count - 1) as nat).next_job((count - 1) as nat)
    }
}

/// The pool after `steps` steps of teardown.
pub open spec fn shutdown_times<J>(pool: PoolView<J>, steps: nat) -> PoolView<J>
    decreases steps,
{
    if steps == 0 {
        pool
    } else {
        shutdown_times(pool, (steps - 1) as nat).shutdown()
    }
}

/// One whole life of a pool: it is built with `size` workers, the jobs of
/// `jobs` are submitted, the first worker runs them all, teardown begins,
/// every worker asks for a job once more, and teardown takes one step for
/// each worker.
pub open spec fn cycle<J>(size: nat, jobs: Seq<J>) -> PoolView<J> {
    let loaded = execute_all(PoolView::<J>::initial(size), jobs);
    let served = serve(loaded, 0, jobs.len());
    let stopped = ask_each(served.shutdown(), size);
    shutdown_times(stopped, size)
}

/// An open pool queues all the jobs it is given, in the order given, behind
/// those that were pending.
pub proof fn lemma_execute_all<J>(pool: PoolView<J>, jobs: Seq<J>)
    requires
        pool.wf(),
        pool.is_open(),
    ensures
        execute_all(pool, jobs).wf(),
        execute_all(pool, jobs) == (PoolView {
            queue: QueueView { pending: pool.queue.pending + jobs, ..pool.queue },
            ..pool
        }),
    decreases jobs.len(),
{
    if jobs.len() > 0 {
        lemma_execute_all(pool, jobs.drop_last());
        lemma_execute_wf(execute_all(pool, jobs.drop_last()), jobs.last());
        assert((pool.queue.pending + jobs.drop_last()).push(jobs.last()) =~= pool.queue.pending
            + jobs);
    }
}

/// A waiting worker that serves `rounds` pending jobs takes them oldest
/// first and finishes each of them; nothing else in the pool changes.
pub proof fn lemma_serve<J>(pool: PoolView<J>, worker: nat, rounds: nat)
    requires
        pool.wf(),
        pool.waiting(worker),
        rounds <= pool.queue.pending.len(),
    ensures
        serve(pool, worker, rounds).wf(),
        serve(pool, worker, rounds) == (PoolView {
            queue: QueueView {
                pending: pool.queue.pending.skip(rounds as int),
                delivered: pool.queue.delivered + pool.queue.pending.take(rounds as int),
                open: pool.queue.open,
            },
            fates: pool.fates + Seq::new(
                rounds,
                |i: int| Fate { worker, outcome: Outcome::Finished },
            ),
            ..pool
        }),
    decreases rounds,
{
    let finished = |i: int| Fate { worker, outcome: Outcome::Finished };
    if rounds == 0 {
        assert(pool.queue.pending.skip(0) =~= pool.queue.pending);
    } else {
        let fewer = (rounds - 1) as nat;
        let before = serve(pool, worker, fewer);
        lemma_serve(pool, worker, fewer);
        let taken = before.next_job(worker);
        lemma_next_job_wf(before, worker);
        let after = taken.job_finished(worker);
        lemma_job_finished_wf(taken, worker);
        assert(after.workers =~= pool.workers);
        assert(after.queue.pending =~= pool.queue.pending.skip(rounds as int));
        assert(after.queue.delivered =~= pool.queue.delivered + pool.queue.pending.take(
            rounds as int,
        ));
        assert(after.fates =~= pool.fates + Seq::new(rounds, finished));
    }
}

/// On a drained queue every waiting worker that asks for a job leaves its
/// loop; nothing else in the pool changes.
pub proof fn lemma_ask_each_on_drained_queue<J>(pool: PoolView<J>, count: nat)
    requires
        pool.wf(),
        pool.queue.drained(),
        count <= pool.size(),
    ensures
        ask_each(pool, count).wf(),
        ask_each(pool, count).queue == pool.queue,
        ask_each(pool, count).fates == pool.fates,
        ask_each(pool, count).workers.len() == pool.workers.len(),
        forall|w: int|
            0 <= w < pool.workers.len() ==> #[trigger] ask_each(pool, count).workers[w] == (if w
                < count && pool.workers[w].phase is Waiting {
                pool.workers[w].stop()
            } else {
                pool.workers[w]
            }),
    decreases count,
{
    if count > 0 {
        let fewer = (count - 1) as nat;
        lemma_ask_each_on_drained_queue(pool, fewer);
        lemma_next_job_wf(ask_each(pool, fewer), fewer);
    }
}

/// Where every worker has stopped and none has been joined, each step of
/// teardown joins the next worker in construction order; nothing else in
/// the pool changes.
pub proof fn lemma_shutdown_times_on_stopped_workers<J>(pool: PoolView<J>, steps: nat)
    requires
        pool.wf(),
        !pool.is_open(),
        forall|w: int|
            0 <= w < pool.workers.len() ==> (#[trigger] pool.workers[w]).phase is Stopped,
        steps <= pool.size(),
    ensures
        shutdown_times(pool, steps).wf(),
        shutdown_times(pool, steps).queue == pool.queue,
        shutdown_times(pool, steps).fates == pool.fates,
        shutdown_times(pool, steps).joined == steps,
        shutdown_times(pool, steps).workers.len() == pool.workers.len(),
        forall|w: int|
            0 <= w < pool.workers.len() ==> #[trigger] shutdown_times(pool, steps).workers[w] == (
            if w < steps {
                pool.workers[w].join()
            } else {
                pool.workers[w]
            }),
    decreases steps,
{
    if steps == 0 {
        assert(pool.workers[0].phase is Stopped);
    } else {
        let fewer = (steps - 1) as nat;
        let before = shutdown_times(pool, fewer);
        lemma_shutdown_times_on_stopped_workers(pool, fewer);
        lemma_shutdown_wf(before);
    }
}

/// A whole life of a pool runs every job exactly once and ends with every
/// worker joined.
///
/// Whatever the number of workers and whatever the jobs, also with none at
/// all: at the end of [`cycle`] the pool is closed and drained, the jobs
/// delivered are the jobs submitted, in their order, each has one ledger
/// entry and that entry says finished, no worker has faulted, and all
/// workers have been joined. The end depends on the size and the jobs
/// alone: every pool that lives this life ends in this state.
pub proof fn lemma_cycle_runs_every_job<J>(size: nat, jobs: Seq<J>)
    requires
        size >= 1,
    ensures
        cycle(size, jobs).wf(),
        cycle(size, jobs).terminated(),
        cycle(size, jobs).size() == size,
        cycle(size, jobs).queue.drained(),
        cycle(size, jobs).accepted() == jobs,
        cycle(size, jobs).queue.delivered == jobs,
        cycle(size, jobs).fates == Seq::new(
            jobs.len(),
            |k: int| Fate { worker: 0, outcome: Outcome::Finished },
        ),
        forall|w: int| 0 <= w < size ==> !(#[trigger] cycle(size, jobs).workers[w]).faulted,
{
    let fresh = PoolView::<J>::initial(size);
    lemma_initial_workers::<J>(size);
    let loaded = execute_all(fresh, jobs);
    lemma_execute_all(fresh, jobs);
    let served = serve(loaded, 0, jobs.len());
    lemma_serve(loaded, 0, jobs.len());
    let closing = served.shutdown();
    lemma_shutdown_wf(served);
    let stopped = ask_each(closing, size);
    lemma_ask_each_on_drained_queue(closing, size);
    lemma_shutdown_times_on_stopped_workers(stopped, size);
}

/// The steps that a worker in this phase is away from being joined, at
/// most.
pub open spec fn phase_weight(phase: Phase) -> nat {
    match phase {
        Phase::Executing => 3,
        Phase::Waiting => 2,
        Phase::Stopped => 1,
        Phase::Joined => 0,
    }
}

/// The weights of the phases of all workers, added up.
pub open spec fn workers_weight(workers: Seq<WorkerView>) -> nat
    decreases workers.len(),
{
    if workers.len() == 0 {
        0
    } else {
        workers_weight(workers.drop_last()) + phase_weight(workers.last().phase)
    }
}

/// A bound on the steps that teardown still needs: two for every pending
/// job, which has to be taken and finished, and for every worker the weight
/// of its phase.
pub open spec fn backlog<J>(pool: PoolView<J>) -> nat {
    2 * pool.queue.pending.len() + workers_weight(pool.workers)
}

/// Nothing has failed between `before` and `after`: every worker that has
/// faulted had faulted before, and every job that is abandoned was so
/// before.
pub open spec fn no_new_fault<J>(before: PoolView<J>, after: PoolView<J>) -> bool {
    &&& after.workers.len() == before.workers.len()
    &&& forall|w: int|
        0 <= w < after.workers.len() && (#[trigger] after.workers[w]).faulted
            ==> before.workers[w].faulted
    &&& forall|k: int|
        0 <= k < after.fates.len() && (#[trigger] after.fates[k]).outcome is Abandoned ==> k
            < before.fates.len() && before.fates[k].outcome is Abandoned
}

/// Replacing one worker changes the total weight by the difference of the
/// two weights.
pub proof fn lemma_weight_of_update(workers: Seq<WorkerView>, index: int, worker: WorkerView)
    requires
        0 <= index < workers.len(),
    ensures
        workers_weight(workers.update(index, worker)) + phase_weight(workers[index].phase)
            == workers_weight(workers) + phase_weight(worker.phase),
    decreases workers.len(),
{
    let updated = workers.update(index, worker);
    if index == workers.len() - 1 {
        assert(updated.drop_last() =~= workers.drop_last());
    } else {
        lemma_weight_of_update(workers.drop_last(), index, worker);
        assert(updated.drop_last() =~= workers.drop_last().update(index, worker));
    }
}

/// Running a sequence of events is running its first event and then the
/// rest.
pub proof fn lemma_run_first_then_rest<J>(pool: PoolView<J>, first: Event<J>, rest: Seq<Event<J>>)
    ensures
        pool.run(seq![first] + rest) == pool.step(first).run(rest),
    decreases rest.len(),
{
    let events = seq![first] + rest;
    if rest.len() == 0 {
        assert(pool.run(events.drop_last()) == pool);
    } else {
        lemma_run_first_then_rest(pool, first, rest.drop_last());
        assert(events.drop_last() =~= seq![first] + rest.drop_last());
    }
}

/// A step in which no job fails brings no new fault.
pub proof fn lemma_step_without_fault<J>(pool: PoolView<J>, event: Event<J>)
    requires
        pool.wf(),
        !(event is JobFaulted),
    ensures
        no_new_fault(pool, pool.step(event)),
{
}

/// Teardown is never stuck. In a closed pool that is not yet terminated
/// there is a step that brings the end nearer: a worker finishes its job, a
/// waiting worker takes a job or leaves, or teardown joins a worker that
/// has stopped. The step is returned; it shrinks the backlog, and nothing
/// is submitted or fails in it.
pub proof fn lemma_teardown_can_advance<J>(pool: PoolView<J>) -> (event: Event<J>)
    requires
        pool.wf(),
        !pool.is_open(),
        !pool.terminated(),
    ensures
        event is JobFinished || event is NextJob || event is Shutdown,
        backlog(pool.step(event)) < backlog(pool),
{
    if exists|w: nat| pool.executing(w) {
        let w = choose|w: nat| pool.executing(w);
        lemma_weight_of_update(pool.workers, w as int, pool.workers[w as int].finish());
        Event::JobFinished(w)
    } else if exists|w: nat| pool.waiting(w) {
        let w = choose|w: nat| pool.waiting(w);
        if pool.queue.has_job() {
            lemma_weight_of_update(
                pool.workers,
                w as int,
                pool.workers[w as int].take(pool.fates.len()),
            );
        } else {
            lemma_weight_of_update(pool.workers, w as int, pool.workers[w as int].stop());
        }
        Event::NextJob(w)
    } else {
        let next = pool.joined as int;
        assert(!pool.executing(pool.joined) && !pool.waiting(pool.joined));
        lemma_weight_of_update(pool.workers, next, pool.workers[next].join());
        Event::Shutdown
    }
}

/// A closed pool can always be brought to the end of teardown, in no more
/// steps than its backlog, without a job being submitted or failing. The
/// steps are returned.
pub proof fn lemma_closed_pool_can_terminate<J>(pool: PoolView<J>) -> (events: Seq<Event<J>>)
    requires
        pool.wf(),
        !pool.is_open(),
    ensures
        events.len() <= backlog(pool),
        pool.run(events).wf(),
        pool.run(events).terminated(),
        pool.run(events).extends(pool),
        no_new_fault(pool, pool.run(events)),
    decreases backlog(pool),
{
    if pool.terminated() {
        Seq::empty()
    } else {
        let first = lemma_teardown_can_advance(pool);
        let next = pool.step(first);
        lemma_step_wf(pool, first);
        lemma_step_extends(pool, first);
        lemma_step_without_fault(pool, first);
        let rest = lemma_closed_pool_can_terminate(next);
        lemma_run_first_then_rest(pool, first, rest);
        lemma_extends_transitive(pool, next, next.run(rest));
        seq![first] + rest
    }
}

/// Teardown can always be completed, and gracefully.
///
/// From any state of the pool there is a sequence of steps, beginning with
/// `shutdown`, that ends with every worker joined. It is returned. No job is
/// submitted or fails on the way, so that at the end every job a worker
/// took has finished, but for those that were abandoned before; and if the
/// pool had a worker left that had not faulted, no job is left in the
/// queue: every job the pool accepted has run.
pub proof fn lemma_teardown_can_complete<J>(pool: PoolView<J>) -> (events: Seq<Event<J>>)
    requires
        pool.wf(),
    ensures
        events.len() >= 1,
        events[0] is Shutdown,
        pool.run(events).wf(),
        pool.run(events).terminated(),
        pool.run(events).accepted() == pool.accepted(),
        forall|k: int|
            0 <= k < pool.run(events).fates.len() ==> (#[trigger] pool.run(events).fates[k]).outcome
                is Finished || (k < pool.fates.len() && pool.fates[k].outcome is Abandoned),
        (exists|w: int| 0 <= w < pool.size() && !(#[trigger] pool.workers[w]).faulted)
            ==> pool.run(events).queue.pending.len() == 0,
{
    let closing = pool.shutdown();
    lemma_shutdown_wf(pool);
    lemma_step_extends(pool, Event::Shutdown);
    let rest = lemma_closed_pool_can_terminate(closing);
    let events = seq![Event::Shutdown] + rest;
    lemma_run_first_then_rest(pool, Event::Shutdown, rest);
    lemma_teardown_leaves_nothing_running(pool.run(events));
    events
}

} // verus!
