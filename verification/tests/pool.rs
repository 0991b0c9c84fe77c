use hello_webserver::{Dispatch, Phase, Teardown, ThreadPool};
use std::cell::Cell;
use std::rc::Rc;

fn phases<J>(pool: &ThreadPool<J>) -> Vec<Phase> {
    (0..pool.size()).map(|id| pool.worker(id).unwrap().phase()).collect()
}

#[test]
fn new_pool_has_as_many_live_workers_as_asked_for() {
    for size in [1, 2, 3, 4, 17, 256] {
        let pool: ThreadPool<u32> = ThreadPool::new(size);
        assert_eq!(pool.size(), size);
        assert!(pool.is_open());
        assert_eq!(pool.pending(), 0);
        assert!(!pool.is_terminated());
        for id in 0..size {
            let worker = pool.worker(id).unwrap();
            assert_eq!(worker.id(), id);
            assert_eq!(worker.phase(), Phase::Waiting);
            assert!(worker.is_alive());
            assert!(!worker.is_joined());
        }
        assert!(pool.worker(size).is_none());
    }
}

#[test]
fn execute_queues_the_job() {
    let mut pool = ThreadPool::new(2);
    pool.execute('a');
    assert_eq!(pool.pending(), 1);
    pool.execute('b');
    assert_eq!(pool.pending(), 2);
    assert_eq!(phases(&pool), vec![Phase::Waiting, Phase::Waiting]);
    assert_eq!(pool.next_job(1), Some(Dispatch::Run('a')));
    assert_eq!(pool.pending(), 1);
    assert_eq!(phases(&pool), vec![Phase::Waiting, Phase::Executing]);
}

#[test]
fn idle_worker_is_told_to_wait() {
    let mut pool: ThreadPool<u32> = ThreadPool::new(2);
    assert_eq!(pool.next_job(0), Some(Dispatch::Wait));
    assert_eq!(pool.next_job(1), Some(Dispatch::Wait));
    assert_eq!(phases(&pool), vec![Phase::Waiting, Phase::Waiting]);
    pool.execute(5);
    assert_eq!(pool.next_job(1), Some(Dispatch::Run(5)));
    assert_eq!(pool.next_job(0), Some(Dispatch::Wait));
}

#[test]
fn single_worker_runs_jobs_in_submission_order() {
    let mut pool: ThreadPool<u32> = ThreadPool::new(1);
    pool.execute(1);
    pool.execute(2);
    pool.execute(3);
    let mut record = Vec::new();
    while let Some(Dispatch::Run(job)) = pool.next_job(0) {
        assert_eq!(pool.worker(0).unwrap().phase(), Phase::Executing);
        record.push(job);
        assert!(pool.job_finished(0));
        assert_eq!(pool.worker(0).unwrap().phase(), Phase::Waiting);
    }
    assert_eq!(record, vec![1, 2, 3]);
    assert_eq!(pool.pending(), 0);
}

#[test]
fn worker_holds_one_job_at_a_time() {
    let mut pool = ThreadPool::new(1);
    pool.execute("first");
    pool.execute("second");
    assert_eq!(pool.next_job(0), Some(Dispatch::Run("first")));
    assert_eq!(pool.next_job(0), None);
    assert_eq!(pool.next_job(0), None);
    assert_eq!(pool.pending(), 1);
    assert!(pool.job_finished(0));
    assert_eq!(pool.next_job(0), Some(Dispatch::Run("second")));
}

#[test]
fn unknown_worker_gets_no_answer() {
    let mut pool = ThreadPool::new(3);
    pool.execute(1);
    assert_eq!(pool.next_job(3), None);
    assert_eq!(pool.next_job(usize::MAX), None);
    assert!(!pool.job_finished(3));
    assert!(!pool.job_faulted(usize::MAX));
    assert_eq!(pool.pending(), 1);
    assert_eq!(phases(&pool), vec![Phase::Waiting; 3]);
}

#[test]
fn reports_from_workers_without_a_job_are_ignored() {
    let mut pool = ThreadPool::new(2);
    pool.execute(1);
    assert!(!pool.job_finished(0));
    assert!(!pool.job_faulted(0));
    assert_eq!(pool.next_job(0), Some(Dispatch::Run(1)));
    assert!(!pool.job_finished(1));
    assert!(!pool.job_faulted(1));
    assert_eq!(phases(&pool), vec![Phase::Executing, Phase::Waiting]);
    assert!(pool.job_finished(0));
    assert!(!pool.job_finished(0));
    assert_eq!(phases(&pool), vec![Phase::Waiting, Phase::Waiting]);
}

#[test]
fn busy_worker_blocks_no_other() {
    let mut pool = ThreadPool::new(3);
    pool.execute("slow");
    assert_eq!(pool.next_job(0), Some(Dispatch::Run("slow")));
    for job in ["a", "b", "c", "d"] {
        pool.execute(job);
    }
    assert_eq!(pool.next_job(1), Some(Dispatch::Run("a")));
    assert_eq!(pool.next_job(2), Some(Dispatch::Run("b")));
    assert!(pool.job_finished(2));
    assert_eq!(pool.next_job(2), Some(Dispatch::Run("c")));
    assert!(pool.job_finished(1));
    assert_eq!(pool.next_job(1), Some(Dispatch::Run("d")));
    assert!(pool.job_finished(1));
    assert!(pool.job_finished(2));
    assert_eq!(phases(&pool), vec![Phase::Executing, Phase::Waiting, Phase::Waiting]);
    assert!(pool.job_finished(0));
    assert_eq!(pool.pending(), 0);
}

#[test]
fn later_job_may_complete_first() {
    let mut pool = ThreadPool::new(2);
    let mut completed = Vec::new();
    pool.execute("A");
    pool.execute("B");
    let a = pool.next_job(0);
    let b = pool.next_job(1);
    assert_eq!(a, Some(Dispatch::Run("A")));
    assert_eq!(b, Some(Dispatch::Run("B")));
    assert!(pool.job_finished(1));
    completed.push("B");
    assert!(pool.job_finished(0));
    completed.push("A");
    assert_eq!(completed, vec!["B", "A"]);
}

#[test]
fn submitting_after_teardown_has_begun_fails_every_time() {
    let mut pool = ThreadPool::new(2);
    pool.execute(0);
    assert_eq!(pool.shutdown(), Teardown::Blocked(0));
    assert!(!pool.is_open());
    for attempt in 1..=100 {
        assert_eq!(pool.try_execute(attempt), Err(attempt));
        assert!(!pool.is_open());
        assert_eq!(pool.pending(), 1);
    }
    assert_eq!(pool.next_job(0), Some(Dispatch::Run(0)));
    assert_eq!(pool.try_execute(101), Err(101));
    assert!(pool.job_finished(0));
    assert_eq!(pool.try_execute(102), Err(102));
    assert_eq!(pool.next_job(0), Some(Dispatch::Exit));
    assert_eq!(pool.next_job(1), Some(Dispatch::Exit));
    assert_eq!(pool.shutdown(), Teardown::Joined(0));
    assert_eq!(pool.try_execute(103), Err(103));
    assert_eq!(pool.shutdown(), Teardown::Joined(1));
    assert_eq!(pool.shutdown(), Teardown::Done);
    assert_eq!(pool.try_execute(104), Err(104));
    assert_eq!(pool.pending(), 0);
}

#[test]
fn open_pool_accepts_through_try_execute() {
    let mut pool = ThreadPool::new(1);
    assert_eq!(pool.try_execute(1), Ok(()));
    assert_eq!(pool.try_execute(2), Ok(()));
    assert_eq!(pool.pending(), 2);
    assert_eq!(pool.next_job(0), Some(Dispatch::Run(1)));
}

#[test]
fn teardown_without_jobs_joins_all_workers() {
    let mut pool: ThreadPool<u32> = ThreadPool::new(3);
    assert_eq!(pool.shutdown(), Teardown::Blocked(0));
    assert!(!pool.is_open());
    assert!(!pool.is_terminated());
    for id in 0..3 {
        assert_eq!(pool.next_job(id), Some(Dispatch::Exit));
        assert_eq!(pool.worker(id).unwrap().phase(), Phase::Stopped);
    }
    for id in 0..3 {
        assert!(!pool.is_terminated());
        assert_eq!(pool.shutdown(), Teardown::Joined(id));
    }
    assert_eq!(pool.shutdown(), Teardown::Done);
    assert!(pool.is_terminated());
    assert_eq!(phases(&pool), vec![Phase::Joined; 3]);
    for id in 0..3 {
        assert!(pool.worker(id).unwrap().is_joined());
        assert!(!pool.worker(id).unwrap().is_alive());
    }
}

#[test]
fn teardown_joins_in_construction_order() {
    let mut pool: ThreadPool<u32> = ThreadPool::new(3);
    assert_eq!(pool.shutdown(), Teardown::Blocked(0));
    assert_eq!(pool.next_job(2), Some(Dispatch::Exit));
    assert_eq!(pool.next_job(1), Some(Dispatch::Exit));
    assert_eq!(pool.shutdown(), Teardown::Blocked(0));
    assert_eq!(phases(&pool), vec![Phase::Waiting, Phase::Stopped, Phase::Stopped]);
    assert_eq!(pool.next_job(0), Some(Dispatch::Exit));
    assert_eq!(pool.shutdown(), Teardown::Joined(0));
    assert_eq!(phases(&pool), vec![Phase::Joined, Phase::Stopped, Phase::Stopped]);
    assert_eq!(pool.shutdown(), Teardown::Joined(1));
    assert_eq!(pool.shutdown(), Teardown::Joined(2));
    assert_eq!(pool.shutdown(), Teardown::Done);
    assert_eq!(phases(&pool), vec![Phase::Joined; 3]);
}

#[test]
fn teardown_stops_at_the_first_live_worker() {
    let mut pool: ThreadPool<u32> = ThreadPool::new(4);
    assert_eq!(pool.shutdown(), Teardown::Blocked(0));
    assert_eq!(pool.next_job(0), Some(Dispatch::Exit));
    assert_eq!(pool.next_job(1), Some(Dispatch::Exit));
    assert_eq!(pool.next_job(3), Some(Dispatch::Exit));
    assert_eq!(pool.shutdown(), Teardown::Joined(0));
    assert_eq!(pool.shutdown(), Teardown::Joined(1));
    assert_eq!(pool.shutdown(), Teardown::Blocked(2));
    assert_eq!(pool.shutdown(), Teardown::Blocked(2));
    assert_eq!(
        phases(&pool),
        vec![Phase::Joined, Phase::Joined, Phase::Waiting, Phase::Stopped]
    );
    assert!(!pool.is_terminated());
    assert_eq!(pool.next_job(2), Some(Dispatch::Exit));
    assert_eq!(pool.shutdown(), Teardown::Joined(2));
    assert_eq!(pool.shutdown(), Teardown::Joined(3));
    assert_eq!(pool.shutdown(), Teardown::Done);
    assert!(pool.is_terminated());
}

#[test]
fn teardown_waits_for_the_job_in_flight() {
    let mut pool = ThreadPool::new(2);
    pool.execute("in flight");
    assert_eq!(pool.next_job(1), Some(Dispatch::Run("in flight")));
    assert_eq!(pool.shutdown(), Teardown::Blocked(0));
    assert_eq!(pool.next_job(0), Some(Dispatch::Exit));
    assert_eq!(pool.shutdown(), Teardown::Joined(0));
    assert_eq!(pool.shutdown(), Teardown::Blocked(1));
    assert_eq!(pool.shutdown(), Teardown::Blocked(1));
    assert_eq!(phases(&pool), vec![Phase::Joined, Phase::Executing]);
    assert!(!pool.is_terminated());
    assert!(pool.job_finished(1));
    assert_eq!(pool.shutdown(), Teardown::Blocked(1));
    assert_eq!(pool.next_job(1), Some(Dispatch::Exit));
    assert_eq!(pool.shutdown(), Teardown::Joined(1));
    assert_eq!(pool.shutdown(), Teardown::Done);
    assert!(pool.is_terminated());
}

#[test]
fn jobs_pending_at_close_are_still_served() {
    let mut pool = ThreadPool::new(1);
    pool.execute(1);
    pool.execute(2);
    assert_eq!(pool.shutdown(), Teardown::Blocked(0));
    assert_eq!(pool.next_job(0), Some(Dispatch::Run(1)));
    assert!(pool.job_finished(0));
    assert_eq!(pool.next_job(0), Some(Dispatch::Run(2)));
    assert!(pool.job_finished(0));
    assert_eq!(pool.next_job(0), Some(Dispatch::Exit));
    assert_eq!(pool.shutdown(), Teardown::Joined(0));
    assert_eq!(pool.shutdown(), Teardown::Done);
}

#[test]
fn every_job_is_handed_out_exactly_once() {
    let workers = 4;
    let jobs = 50;
    let mut pool = ThreadPool::new(workers);
    for job in 0..jobs {
        pool.execute(job);
    }
    let mut runs = vec![0; jobs];
    for turn in 0..jobs {
        // Each worker takes a job while the one before it is still busy.
        match pool.next_job(turn % workers) {
            Some(Dispatch::Run(job)) => {
                assert_eq!(job, turn);
                runs[job] += 1;
            }
            other => panic!("worker {} was answered {:?}", turn % workers, other),
        }
        if turn > 0 {
            assert!(pool.job_finished((turn - 1) % workers));
        }
        assert_eq!(pool.pending(), jobs - turn - 1);
    }
    assert!(pool.job_finished((jobs - 1) % workers));
    assert_eq!(runs, vec![1; jobs]);
    assert_eq!(phases(&pool), vec![Phase::Waiting; 4]);
    assert_eq!(pool.shutdown(), Teardown::Blocked(0));
    for id in 0..workers {
        assert_eq!(pool.next_job(id), Some(Dispatch::Exit));
    }
    for id in 0..workers {
        assert_eq!(pool.shutdown(), Teardown::Joined(id));
    }
    assert_eq!(pool.shutdown(), Teardown::Done);
    assert!(pool.is_terminated());
}

#[test]
fn faulted_worker_is_not_replaced() {
    let mut pool = ThreadPool::new(2);
    pool.execute("bad");
    pool.execute("good");
    pool.execute("better");
    assert_eq!(pool.next_job(0), Some(Dispatch::Run("bad")));
    assert!(pool.job_faulted(0));
    assert_eq!(pool.size(), 2);
    assert_eq!(phases(&pool), vec![Phase::Stopped, Phase::Waiting]);
    assert!(!pool.worker(0).unwrap().is_alive());
    assert_eq!(pool.worker(0).unwrap().id(), 0);
    assert_eq!(pool.next_job(0), None);
    assert!(!pool.job_finished(0));
    assert!(!pool.job_faulted(0));
    assert!(pool.is_open());
    assert_eq!(pool.next_job(1), Some(Dispatch::Run("good")));
    assert!(pool.job_finished(1));
    assert_eq!(pool.next_job(1), Some(Dispatch::Run("better")));
    assert!(pool.job_finished(1));
    assert_eq!(pool.shutdown(), Teardown::Joined(0));
    assert_eq!(pool.shutdown(), Teardown::Blocked(1));
    assert_eq!(phases(&pool), vec![Phase::Joined, Phase::Waiting]);
    assert_eq!(pool.next_job(1), Some(Dispatch::Exit));
    assert_eq!(pool.shutdown(), Teardown::Joined(1));
    assert_eq!(pool.shutdown(), Teardown::Done);
}

#[test]
fn jobs_are_left_over_only_when_every_worker_faulted() {
    let mut pool = ThreadPool::new(2);
    for job in 0..5 {
        pool.execute(job);
    }
    assert_eq!(pool.next_job(0), Some(Dispatch::Run(0)));
    assert_eq!(pool.next_job(1), Some(Dispatch::Run(1)));
    assert!(pool.job_faulted(1));
    assert!(pool.job_faulted(0));
    assert_eq!(pool.pending(), 3);
    assert_eq!(pool.shutdown(), Teardown::Joined(0));
    assert_eq!(pool.shutdown(), Teardown::Joined(1));
    assert_eq!(pool.shutdown(), Teardown::Done);
    assert!(pool.is_terminated());
    assert_eq!(pool.pending(), 3);
    assert_eq!(pool.try_execute(9), Err(9));
}

#[test]
fn shutdown_can_be_repeated_after_teardown() {
    let mut pool: ThreadPool<u32> = ThreadPool::new(1);
    assert_eq!(pool.shutdown(), Teardown::Blocked(0));
    assert_eq!(pool.next_job(0), Some(Dispatch::Exit));
    assert_eq!(pool.shutdown(), Teardown::Joined(0));
    assert_eq!(pool.shutdown(), Teardown::Done);
    assert_eq!(pool.shutdown(), Teardown::Done);
    assert!(pool.is_terminated());
    assert_eq!(pool.next_job(0), None);
}

fn one_cycle(size: usize, jobs: &[u32]) -> (Vec<u32>, Vec<Phase>, usize) {
    let mut pool = ThreadPool::new(size);
    for job in jobs {
        pool.execute(*job);
    }
    let mut ran = Vec::new();
    while let Some(Dispatch::Run(job)) = pool.next_job(0) {
        ran.push(job);
        assert!(pool.job_finished(0));
    }
    assert_eq!(pool.shutdown(), Teardown::Blocked(0));
    for id in 0..size {
        assert_eq!(pool.next_job(id), Some(Dispatch::Exit));
    }
    for id in 0..size {
        assert_eq!(pool.shutdown(), Teardown::Joined(id));
    }
    assert_eq!(pool.shutdown(), Teardown::Done);
    (ran, phases(&pool), pool.pending())
}

#[test]
fn repeated_cycles_behave_identically() {
    let jobs = [3, 1, 4, 1, 5, 9, 2, 6];
    let first = one_cycle(3, &jobs);
    assert_eq!(first, (jobs.to_vec(), vec![Phase::Joined; 3], 0));
    for _ in 0..10 {
        assert_eq!(one_cycle(3, &jobs), first);
    }
    assert_eq!(one_cycle(1, &[]), (vec![], vec![Phase::Joined], 0));
}

#[test]
fn pools_do_not_share_state() {
    let mut left = ThreadPool::new(2);
    let mut right = ThreadPool::new(2);
    left.execute(1);
    assert_eq!(left.pending(), 1);
    assert_eq!(right.pending(), 0);
    assert_eq!(left.shutdown(), Teardown::Blocked(0));
    assert!(right.is_open());
    right.execute(2);
    assert_eq!(right.next_job(0), Some(Dispatch::Run(2)));
    assert_eq!(left.next_job(0), Some(Dispatch::Run(1)));
    assert!(right.job_faulted(0));
    assert_eq!(phases(&left), vec![Phase::Executing, Phase::Waiting]);
    assert_eq!(phases(&right), vec![Phase::Stopped, Phase::Waiting]);
}

#[test]
fn closures_are_jobs_that_run_once() {
    let counter = Rc::new(Cell::new(0));
    let mut pool: ThreadPool<Box<dyn FnOnce()>> = ThreadPool::new(2);
    for step in [1, 10, 100] {
        let counter = Rc::clone(&counter);
        pool.execute(Box::new(move || counter.set(counter.get() + step)));
    }
    let mut worker = 0;
    while let Some(Dispatch::Run(job)) = pool.next_job(worker) {
        job();
        assert!(pool.job_finished(worker));
        worker = 1 - worker;
    }
    assert_eq!(counter.get(), 111);
    assert_eq!(pool.shutdown(), Teardown::Blocked(0));
    assert!(matches!(pool.next_job(0), Some(Dispatch::Exit)));
    assert!(matches!(pool.next_job(1), Some(Dispatch::Exit)));
    assert_eq!(pool.shutdown(), Teardown::Joined(0));
    assert_eq!(pool.shutdown(), Teardown::Joined(1));
    assert_eq!(pool.shutdown(), Teardown::Done);
    assert_eq!(Rc::strong_count(&counter), 1);
}

/// Takes teardown to its end, letting each worker that blocks it go on with
/// its loop, and returns the jobs that were run on the way.
fn tear_down(pool: &mut ThreadPool<u32>) -> Vec<u32> {
    let mut ran = Vec::new();
    let mut steps = 0;
    loop {
        steps += 1;
        assert!(steps < 1000, "teardown does not end");
        let id = match pool.shutdown() {
            Teardown::Done => return ran,
            Teardown::Joined(_) => continue,
            Teardown::Blocked(id) => id,
        };
        match pool.worker(id).unwrap().phase() {
            Phase::Executing => assert!(pool.job_finished(id)),
            Phase::Waiting => match pool.next_job(id) {
                Some(Dispatch::Run(job)) => ran.push(job),
                Some(Dispatch::Exit) => {}
                other => panic!("worker {id} was answered {other:?}"),
            },
            phase => panic!("teardown is blocked on a worker that is {phase:?}"),
        }
    }
}

#[test]
fn teardown_completes_from_a_busy_pool() {
    let mut pool = ThreadPool::new(3);
    for job in 0..10 {
        pool.execute(job);
    }
    assert_eq!(pool.next_job(2), Some(Dispatch::Run(0)));
    assert_eq!(pool.next_job(0), Some(Dispatch::Run(1)));
    assert!(pool.job_faulted(0));
    assert_eq!(pool.next_job(1), Some(Dispatch::Run(2)));
    assert!(pool.job_finished(1));
    assert_eq!(pool.pending(), 7);
    assert_eq!(tear_down(&mut pool), vec![3, 4, 5, 6, 7, 8, 9]);
    assert!(pool.is_terminated());
    assert!(!pool.is_open());
    assert_eq!(pool.pending(), 0);
    assert_eq!(phases(&pool), vec![Phase::Joined; 3]);
}

#[test]
fn teardown_completes_from_a_fresh_pool() {
    for size in [1, 2, 5] {
        let mut pool = ThreadPool::new(size);
        assert_eq!(tear_down(&mut pool), vec![]);
        assert!(pool.is_terminated());
        assert_eq!(phases(&pool), vec![Phase::Joined; size]);
    }
}
