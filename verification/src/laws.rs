//! What holds of every pool in every state: the invariant is kept, nothing
//! settled is undone, and what follows from the two.

use crate::model::{Event, Fate, Outcome, PoolView};
use crate::queue::lemma_delivery_follows_acceptance;
use crate::worker::Dispatch;
use vstd::prelude::*;

verus! {

/// A fresh pool is well formed, has exactly as many workers as were asked
/// for, and each of them is alive and waiting under the id of its position.
pub proof fn lemma_initial_workers<J>(size: nat)
    requires
        size >= 1,
    ensures
        PoolView::<J>::initial(size).wf(),
        PoolView::<J>::initial(size).size() == size,
        PoolView::<J>::initial(size).is_open(),
        PoolView::<J>::initial(size).accepted() == Seq::<J>::empty(),
        forall|w: int|
            0 <= w < size ==> {
                let worker = #[trigger] PoolView::<J>::initial(size).workers[w];
                worker.id == w && worker.phase is Waiting && worker.phase.alive()
            },
{
}

/// Submitting a job keeps the pool well formed.
pub proof fn lemma_execute_wf<J>(pool: PoolView<J>, job: J)
    requires
        pool.wf(),
    ensures
        pool.execute(job).wf(),
{
}

/// Asking for the next job keeps the pool well formed.
pub proof fn lemma_next_job_wf<J>(pool: PoolView<J>, worker: nat)
    requires
        pool.wf(),
    ensures
        pool.next_job(worker).wf(),
{
}

/// A finished job keeps the pool well formed.
pub proof fn lemma_job_finished_wf<J>(pool: PoolView<J>, worker: nat)
    requires
        pool.wf(),
    ensures
        pool.job_finished(worker).wf(),
{
}

/// A failed job keeps the pool well formed.
pub proof fn lemma_job_faulted_wf<J>(pool: PoolView<J>, worker: nat)
    requires
        pool.wf(),
    ensures
        pool.job_faulted(worker).wf(),
{
}

/// Teardown keeps the pool well formed.
pub proof fn lemma_shutdown_wf<J>(pool: PoolView<J>)
    requires
        pool.wf(),
    ensures
        pool.shutdown().wf(),
{
}

/// Once every worker has been joined, teardown changes nothing any more.
pub proof fn lemma_shutdown_after_termination<J>(pool: PoolView<J>)
    requires
        pool.wf(),
        pool.terminated(),
    ensures
        pool.shutdown() == pool,
{
    assert(pool.workers[0].phase is Joined);
}

/// Every step keeps the pool well formed.
pub proof fn lemma_step_wf<J>(pool: PoolView<J>, event: Event<J>)
    requires
        pool.wf(),
    ensures
        pool.step(event).wf(),
{
    match event {
        Event::Execute(job) => lemma_execute_wf(pool, job),
        Event::NextJob(worker) => lemma_next_job_wf(pool, worker),
        Event::JobFinished(worker) => lemma_job_finished_wf(pool, worker),
        Event::JobFaulted(worker) => lemma_job_faulted_wf(pool, worker),
        Event::Shutdown => lemma_shutdown_wf(pool),
    }
}

/// Every sequence of steps keeps the pool well formed.
pub proof fn lemma_run_wf<J>(pool: PoolView<J>, events: Seq<Event<J>>)
    requires
        pool.wf(),
    ensures
        pool.run(events).wf(),
    decreases events.len(),
{
    if events.len() > 0 {
        lemma_run_wf(pool, events.drop_last());
        lemma_step_wf(pool.run(events.drop_last()), events.last());
    }
}

/// Every state that a pool can get into is well formed, and the pool has in
/// it the workers it was built with: the number of workers never changes.
pub proof fn lemma_every_state_is_wf<J>(size: nat, events: Seq<Event<J>>)
    requires
        size >= 1,
    ensures
        PoolView::<J>::initial(size).run(events).wf(),
        PoolView::<J>::initial(size).run(events).size() == size,
{
    lemma_initial_workers::<J>(size);
    lemma_run_wf(PoolView::<J>::initial(size), events);
    lemma_run_extends(PoolView::<J>::initial(size), events);
}

/// A pool extends itself.
pub proof fn lemma_extends_reflexive<J>(pool: PoolView<J>)
    ensures
        pool.extends(pool),
{
}

/// What extends a later state extends every earlier one.
pub proof fn lemma_extends_transitive<J>(
    first: PoolView<J>,
    second: PoolView<J>,
    third: PoolView<J>,
)
    requires
        second.extends(first),
        third.extends(second),
    ensures
        third.extends(first),
{
}

/// No step undoes what was settled: the state after a step extends the
/// state before it.
///
/// In particular a closed pool is never reopened and accepts no further
/// job, a worker whose loop has ended never runs again, and a job whose
/// fate is sealed keeps that fate: it is never handed out or run again.
pub proof fn lemma_step_extends<J>(pool: PoolView<J>, event: Event<J>)
    requires
        pool.wf(),
    ensures
        pool.step(event).extends(pool),
{
}

/// No sequence of steps undoes what was settled.
pub proof fn lemma_run_extends<J>(pool: PoolView<J>, events: Seq<Event<J>>)
    requires
        pool.wf(),
    ensures
        pool.run(events).extends(pool),
    decreases events.len(),
{
    if events.len() > 0 {
        let before = pool.run(events.drop_last());
        lemma_run_extends(pool, events.drop_last());
        lemma_run_wf(pool, events.drop_last());
        lemma_step_extends(before, events.last());
        lemma_extends_transitive(pool, before, before.step(events.last()));
    }
}

/// Jobs are handed out in the order in which they were submitted: the job
/// with ticket `k` is the `k`-th job the pool accepted.
pub proof fn lemma_delivery_follows_submission<J>(pool: PoolView<J>, k: int)
    requires
        0 <= k < pool.queue.delivered.len(),
    ensures
        pool.queue.delivered[k] == pool.accepted()[k],
{
    lemma_delivery_follows_acceptance(pool.queue);
}

/// A worker never holds more than one job, and a job is never in the hands
/// of two workers: two different jobs that are running are running on two
/// different workers.
pub proof fn lemma_one_job_per_worker<J>(pool: PoolView<J>, first: int, second: int)
    requires
        pool.wf(),
        0 <= first < pool.fates.len(),
        0 <= second < pool.fates.len(),
        first != second,
        pool.fates[first].outcome is Running,
        pool.fates[second].outcome is Running,
    ensures
        pool.fates[first].worker != pool.fates[second].worker,
{
}

/// When teardown is complete the pool is closed, every worker has been
/// joined and none is alive, and no job is running: every job that a worker
/// took has either finished or was abandoned by a worker that faulted.
pub proof fn lemma_teardown_leaves_nothing_running<J>(pool: PoolView<J>)
    requires
        pool.wf(),
        pool.terminated(),
    ensures
        !pool.is_open(),
        forall|w: int|
            0 <= w < pool.size() ==> (#[trigger] pool.workers[w]).phase is Joined
                && !pool.workers[w].phase.alive(),
        forall|k: int|
            0 <= k < pool.fates.len() ==> !((#[trigger] pool.fates[k]).outcome is Running),
{
    assert(pool.workers[0].phase is Joined);
    assert forall|k: int| 0 <= k < pool.fates.len() implies !((#[trigger] pool.fates[k]).outcome
        is Running) by {
        let w = pool.fates[k].worker as int;
        assert(pool.workers[w].phase is Joined);
    }
}

/// When teardown is complete and no worker has faulted, every job that the
/// pool accepted was delivered and has finished.
pub proof fn lemma_teardown_without_faults_runs_every_job<J>(pool: PoolView<J>)
    requires
        pool.wf(),
        pool.terminated(),
        forall|w: int| 0 <= w < pool.size() ==> !(#[trigger] pool.workers[w]).faulted,
    ensures
        pool.queue.pending.len() == 0,
        pool.queue.delivered == pool.accepted(),
        forall|k: int| 0 <= k < pool.fates.len() ==> (#[trigger] pool.fates[k]).outcome is Finished,
{
    lemma_teardown_leaves_nothing_running(pool);
    assert(pool.workers[0].phase is Joined);
    assert forall|k: int| 0 <= k < pool.fates.len() implies (#[trigger] pool.fates[k]).outcome
        is Finished by {
        let w = pool.fates[k].worker as int;
        assert(!pool.workers[w].faulted);
    }
}

/// Jobs are left in the queue of a pool without live workers only if every
/// one of its workers has faulted: a worker that ends without a fault ends
/// on a drained queue.
pub proof fn lemma_leftover_jobs_mean_faults<J>(pool: PoolView<J>)
    requires
        pool.wf(),
        pool.queue.has_job(),
    ensures
        forall|w: int|
            0 <= w < pool.size() && !(#[trigger] pool.workers[w]).phase.alive()
                ==> pool.workers[w].faulted,
{
}

/// A closed pool refuses every job: submitting changes nothing.
pub proof fn lemma_closed_pool_refuses_every_job<J>(pool: PoolView<J>, job: J)
    requires
        !pool.is_open(),
    ensures
        pool.execute(job) == pool,
{
}

/// Once teardown has begun, no job is accepted any more, whatever happens
/// in between: after `shutdown` and any further steps the pool is closed,
/// has accepted nothing new, and refuses the job it is offered.
pub proof fn lemma_no_submission_after_shutdown<J>(
    pool: PoolView<J>,
    events: Seq<Event<J>>,
    job: J,
)
    requires
        pool.wf(),
    ensures
        !pool.shutdown().run(events).is_open(),
        pool.shutdown().run(events).accepted() == pool.accepted(),
        pool.shutdown().run(events).execute(job) == pool.shutdown().run(events),
{
    lemma_shutdown_wf(pool);
    lemma_run_extends(pool.shutdown(), events);
}

/// A worker that is busy takes nothing from the others: while `busy` runs
/// its job, a waiting worker `idle` is handed the oldest pending job, can
/// finish it, and leaves the job of `busy` running.
pub proof fn lemma_busy_worker_blocks_no_other<J>(pool: PoolView<J>, busy: nat, idle: nat)
    requires
        pool.wf(),
        pool.executing(busy),
        pool.waiting(idle),
        pool.queue.has_job(),
    ensures
        pool.dispatch(idle) == Some(Dispatch::Run(pool.queue.pending[0])),
        pool.next_job(idle).executing(idle),
        ({
            let ticket = pool.workers[busy as int].job->0 as int;
            let after = pool.next_job(idle).job_finished(idle);
            &&& after.waiting(idle)
            &&& after.workers[busy as int] == pool.workers[busy as int]
            &&& after.fates[pool.fates.len() as int] == (Fate {
                worker: idle,
                outcome: Outcome::Finished,
            })
            &&& after.fates[ticket] == (Fate { worker: busy, outcome: Outcome::Running })
        }),
{
}

/// A job that takes long holds up its own worker and nothing else: through
/// all the steps that the pool takes while `busy` runs its job, whatever
/// the other workers take and finish in them, `busy` stays as it is and its
/// job stays running.
pub proof fn lemma_long_job_holds_up_its_worker_only<J>(
    pool: PoolView<J>,
    busy: nat,
    events: Seq<Event<J>>,
)
    requires
        pool.wf(),
        pool.executing(busy),
        forall|i: int| 0 <= i < events.len() ==> !(#[trigger] events[i]).by_worker(busy),
    ensures
        pool.run(events).workers.len() == pool.workers.len(),
        pool.run(events).workers[busy as int] == pool.workers[busy as int],
        pool.run(events).fates[pool.workers[busy as int].job->0 as int] == (Fate {
            worker: busy,
            outcome: Outcome::Running,
        }),
    decreases events.len(),
{
    if events.len() > 0 {
        lemma_long_job_holds_up_its_worker_only(pool, busy, events.drop_last());
        lemma_run_wf(pool, events.drop_last());
    }
}

/// A worker runs its jobs one after the other: when it is handed a job,
/// every job it took before has finished.
pub proof fn lemma_worker_runs_jobs_in_turn<J>(pool: PoolView<J>, earlier: int, later: int)
    requires
        pool.wf(),
        0 <= earlier < later < pool.fates.len(),
        pool.fates[earlier].worker == pool.fates[later].worker,
    ensures
        pool.fates[earlier].outcome is Finished,
{
}

/// In a pool of one worker jobs run strictly one after the other, in
/// submission order: the job with ticket `k` is the `k`-th job submitted,
/// and when the job with ticket `k + 1` has been handed out, the job with
/// ticket `k` has finished.
pub proof fn lemma_single_worker_is_fifo<J>(pool: PoolView<J>, k: int)
    requires
        pool.wf(),
        pool.size() == 1,
        0 <= k,
        k + 1 < pool.fates.len(),
    ensures
        pool.fates[k].outcome is Finished,
        pool.queue.delivered[k] == pool.accepted()[k],
        pool.queue.delivered[k + 1] == pool.accepted()[k + 1],
{
    assert(pool.fates[k + 1].worker == 0);
}

/// Pools share nothing: what a pool does depends on its own state and on
/// the steps it is driven through alone. Two pools in equal states that are
/// driven through the same steps end in equal states and give every worker
/// the same answer.
pub proof fn lemma_equal_pools_agree<J>(
    first: PoolView<J>,
    second: PoolView<J>,
    events: Seq<Event<J>>,
    worker: nat,
)
    requires
        first == second,
    ensures
        first.run(events) == second.run(events),
        first.run(events).dispatch(worker) == second.run(events).dispatch(worker),
{
}

} // verus!
