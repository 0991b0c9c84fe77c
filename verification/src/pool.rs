//! The worker pool itself.

use crate::model::{Fate, Outcome, PoolView};
use crate::queue::JobQueue;
use crate::worker::{Dispatch, Phase, Worker, WorkerView};
use vstd::prelude::*;

verus! {

/// How far teardown has come.
#[derive(Clone, Copy, Debug, PartialEq, Eq, Structural)]
pub enum Teardown {
    /// The worker with this id had stopped and has now been joined.
    Joined(usize),
    /// The loop of the worker with this id still runs: teardown waits for
    /// it and goes on once it has stopped.
    Blocked(usize),
    /// Every worker has been joined.
    Done,
}

/// A pool of a fixed number of workers that share one queue of jobs.
///
/// The pool takes every decision of the hand-off and leaves the threads to
/// its driver. Submitters call [`execute`](ThreadPool::execute). The loop of
/// worker `w` calls [`next_job`](ThreadPool::next_job) and does what the
/// answer says; after running a job it reports
/// [`job_finished`](ThreadPool::job_finished) or
/// [`job_faulted`](ThreadPool::job_faulted). Teardown calls
/// [`shutdown`](ThreadPool::shutdown) until the answer is `Done`.
pub struct ThreadPool<J> {
    workers: Vec<Worker>,
    queue: JobQueue<J>,
    joined: usize,
    fates: Ghost<Seq<Fate>>,
}

impl<J> View for ThreadPool<J> {
    type V = PoolView<J>;

    closed spec fn view(&self) -> PoolView<J> {
        PoolView {
            workers: self.workers@.map_values(|w: Worker| w@),
            queue: self.queue@,
            fates: self.fates@,
            joined: self.joined as nat,
        }
    }
}

impl<J> ThreadPool<J> {
    /// The pool's invariant holds of this value.
    pub open spec fn wf(&self) -> bool {
        self@.wf()
    }

    /// A pool of `num` workers, all of them waiting, around an open and
    /// empty queue.
    pub fn new(num: usize) -> (pool: ThreadPool<J>)
        requires
            num >= 1,
        ensures
            pool.wf(),
            pool@ == PoolView::<J>::initial(num as nat),
    {
        let mut workers: Vec<Worker> = Vec::new();
        let mut id: usize = 0;
        while id < num
            invariant
                id <= num,
                workers@.len() == id,
                forall|i: int|
                    0 <= i < id ==> (#[trigger] workers@[i])@ == WorkerView::fresh(i as nat),
            decreases num - id,
        {
            workers.push(Worker::new(id));
            id += 1;
        }
        let pool = ThreadPool {
            workers,
            queue: JobQueue::new(),
            joined: 0,
            fates: Ghost(Seq::empty()),
        };
        assert(pool@.workers =~= PoolView::<J>::initial(num as nat).workers);
        pool
    }

    /// The number of workers, fixed at construction.
    pub fn size(&self) -> (size: usize)
        ensures
            size == self@.size(),
    {
        self.workers.len()
    }

    /// Whether the pool still accepts jobs.
    pub fn is_open(&self) -> (open: bool)
        ensures
            open == self@.is_open(),
    {
        self.queue.is_open()
    }

    /// The number of jobs that no worker has taken yet.
    pub fn pending(&self) -> (pending: usize)
        ensures
            pending == self@.queue.pending.len(),
    {
        self.queue.len()
    }

    /// The worker with the given id, if there is one.
    pub fn worker(&self, id: usize) -> (worker: Option<&Worker>)
        ensures
            match worker {
                Some(worker) => id < self@.size() && worker@ == self@.workers[id as int],
                None => id >= self@.size(),
            },
    {
        if id < self.workers.len() {
            Some(&self.workers[id])
        } else {
            None
        }
    }

    /// Submits a job to an open pool: it is queued behind all pending jobs.
    pub fn execute(&mut self, job: J)
        requires
            old(self).wf(),
            old(self)@.is_open(),
        ensures
            final(self).wf(),
            final(self)@ == old(self)@.execute(job),
    {
        let _ = self.queue.send(job);
    }

    /// Submits a job if the pool is open, and hands it back if teardown has
    /// begun.
    pub fn try_execute(&mut self, job: J) -> (result: Result<(), J>)
        requires
            old(self).wf(),
        ensures
            final(self).wf(),
            final(self)@ == old(self)@.execute(job),
            old(self)@.is_open() ==> result == Ok::<(), J>(()),
            !old(self)@.is_open() ==> result == Err::<(), J>(job),
    {
        self.queue.send(job)
    }

    /// Answers the worker with id `worker` that asks for its next job.
    ///
    /// `None` means that no worker with that id is waiting; the pool is then
    /// unchanged. A waiting worker is handed the oldest pending job, told to
    /// wait, or told to leave its loop, as [`PoolView::dispatch`] says.
    pub fn next_job(&mut self, worker: usize) -> (answer: Option<Dispatch<J>>)
        requires
            old(self).wf(),
        ensures
            final(self).wf(),
            final(self)@ == old(self)@.next_job(worker as nat),
            answer == old(self)@.dispatch(worker as nat),
    {
        if worker >= self.workers.len() {
            return None;
        }
        match self.workers[worker].phase() {
            Phase::Waiting => {},
            _ => {
                return None;
            },
        }
        let message = self.queue.try_receive();
        let action = self.workers[worker].on_message(message, Ghost(self.fates@.len()));
        proof {
            if message is Ok {
                self.fates@ = self.fates@.push(
                    Fate { worker: worker as nat, outcome: Outcome::Running },
                );
            }
            assert(self@.workers =~= old(self)@.next_job(worker as nat).workers);
        }
        Some(action)
    }

    /// Reports that the job of the worker with id `worker` ran to
    /// completion. The worker waits for its next job again.
    ///
    /// Returns whether that worker was executing; if it was not, the report
    /// is ignored.
    pub fn job_finished(&mut self, worker: usize) -> (accepted: bool)
        requires
            old(self).wf(),
        ensures
            final(self).wf(),
            final(self)@ == old(self)@.job_finished(worker as nat),
            accepted == old(self)@.executing(worker as nat),
    {
        if worker >= self.workers.len() {
            return false;
        }
        match self.workers[worker].phase() {
            Phase::Executing => {},
            _ => {
                return false;
            },
        }
        let ghost ticket = self@.workers[worker as int].job->0;
        self.workers[worker].finish();
        proof {
            self.fates@ = self.fates@.update(
                ticket as int,
                Fate { worker: worker as nat, outcome: Outcome::Finished },
            );
            assert(self@.workers =~= old(self)@.job_finished(worker as nat).workers);
        }
        true
    }

    /// Reports that the job of the worker with id `worker` failed and ended
    /// the worker's loop. The worker is not replaced: the pool goes on with
    /// one live worker less.
    ///
    /// Returns whether that worker was executing; if it was not, the report
    /// is ignored.
    pub fn job_faulted(&mut self, worker: usize) -> (accepted: bool)
        requires
            old(self).wf(),
        ensures
            final(self).wf(),
            final(self)@ == old(self)@.job_faulted(worker as nat),
            accepted == old(self)@.executing(worker as nat),
    {
        if worker >= self.workers.len() {
            return false;
        }
        match self.workers[worker].phase() {
            Phase::Executing => {},
            _ => {
                return false;
            },
        }
        let ghost ticket = self@.workers[worker as int].job->0;
        self.workers[worker].fault();
        proof {
            self.fates@ = self.fates@.update(
                ticket as int,
                Fate { worker: worker as nat, outcome: Outcome::Abandoned },
            );
            assert(self@.workers =~= old(self)@.job_faulted(worker as nat).workers);
        }
        true
    }

    /// Starts teardown, or takes it one step further.
    ///
    /// The queue is closed, so that no job can be submitted any more. Then
    /// the pool turns to the first worker, in construction order, that it
    /// has not joined yet. If that worker's loop has ended, the worker is
    /// joined and the answer is `Joined`. If the loop still runs, the answer
    /// is `Blocked`: teardown has to wait until that worker has stopped.
    /// With no worker left to join the answer is `Done`.
    pub fn shutdown(&mut self) -> (step: Teardown)
        requires
            old(self).wf(),
        ensures
            final(self).wf(),
            final(self)@ == old(self)@.shutdown(),
            match step {
                Teardown::Joined(id) => id == old(self)@.joined && old(self)@.can_join(),
                Teardown::Blocked(id) => {
                    &&& id == old(self)@.joined
                    &&& id < old(self)@.size()
                    &&& old(self)@.workers[id as int].phase.alive()
                },
                Teardown::Done => old(self)@.terminated(),
            },
    {
        self.queue.close();
        let id: usize = self.joined;
        if id == self.workers.len() {
            return Teardown::Done;
        }
        match self.workers[id].phase() {
            Phase::Stopped => {
                self.workers[id].join();
                self.joined = id + 1;
                proof {
                    assert(self@.workers =~= old(self)@.shutdown().workers);
                }
                Teardown::Joined(id)
            },
            _ => Teardown::Blocked(id),
        }
    }

    /// Whether teardown is complete: every worker has been joined.
    pub fn is_terminated(&self) -> (terminated: bool)
        ensures
            terminated == self@.terminated(),
    {
        self.joined == self.workers.len()
    }
}

} // verus!
