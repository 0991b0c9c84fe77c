//! The pool as a mathematical state machine.
//!
//! A [`PoolView`] is what a pool is worth in a contract: the workers, the
//! queue, and a ledger with one entry for every job that a worker has taken.
//! The transitions defined here are total: a step that the protocol does not
//! allow in a state leaves that state as it is.

use crate::queue::QueueView;
use crate::worker::{Dispatch, WorkerView};
use vstd::prelude::*;

verus! {

/// What has become of a job that a worker took.
pub enum Outcome {
    /// The worker is still running it.
    Running,
    /// It ran to completion.
    Finished,
    /// It failed, and its worker ended with it.
    Abandoned,
}

/// The ledger's entry for one delivered job.
pub struct Fate {
    /// The worker that took the job.
    pub worker: nat,
    /// What has become of the job.
    pub outcome: Outcome,
}

/// One step of the pool.
pub enum Event<J> {
    /// A job is submitted.
    Execute(J),
    /// The worker with this id asks for its next job.
    NextJob(nat),
    /// The job of the worker with this id ran to completion.
    JobFinished(nat),
    /// The job of the worker with this id failed.
    JobFaulted(nat),
    /// Teardown is started or taken one step further.
    Shutdown,
}

impl<J> Event<J> {
    /// The event is a step of the worker with id `worker`: that worker asks
    /// for a job, or its job ends.
    pub open spec fn by_worker(self, worker: nat) -> bool {
        match self {
            Event::NextJob(w) => w == worker,
            Event::JobFinished(w) => w == worker,
            Event::JobFaulted(w) => w == worker,
            _ => false,
        }
    }
}

/// The mathematical content of a pool.
pub struct PoolView<J> {
    /// The workers in construction order; a worker's id is its index.
    pub workers: Seq<WorkerView>,
    /// The job queue.
    pub queue: QueueView<J>,
    /// One entry for each delivered job: the job `queue.delivered[k]` has
    /// ticket `k` and fate `fates[k]`.
    pub fates: Seq<Fate>,
    /// The number of workers that teardown has joined. They are joined in
    /// construction order, so this is also the index of the next to join.
    pub joined: nat,
}

impl<J> PoolView<J> {
    /// A pool of `size` waiting workers around an open, empty queue.
    pub open spec fn initial(size: nat) -> Self {
        PoolView {
            workers: Seq::new(size, |i: int| WorkerView::fresh(i as nat)),
            queue: QueueView::fresh(),
            fates: Seq::empty(),
            joined: 0,
        }
    }

    /// The number of workers.
    pub open spec fn size(self) -> nat {
        self.workers.len()
    }

    /// Whether jobs can still be submitted.
    pub open spec fn is_open(self) -> bool {
        self.queue.open
    }

    /// Every job the pool ever accepted, in submission order.
    pub open spec fn accepted(self) -> Seq<J> {
        self.queue.accepted()
    }

    /// `worker` names a worker that waits for a job.
    pub open spec fn waiting(self, worker: nat) -> bool {
        worker < self.workers.len() && self.workers[worker as int].phase is Waiting
    }

    /// `worker` names a worker that runs a job.
    pub open spec fn executing(self, worker: nat) -> bool {
        worker < self.workers.len() && self.workers[worker as int].phase is Executing
    }

    /// Every worker has been joined: teardown is complete.
    pub open spec fn terminated(self) -> bool {
        self.joined == self.workers.len()
    }

    /// Teardown can join a worker now: the next one in construction order
    /// has left its loop.
    pub open spec fn can_join(self) -> bool {
        self.joined < self.workers.len() && self.workers[self.joined as int].phase is Stopped
    }

    /// The invariant of a pool.
    ///
    /// * There is at least one worker, and each worker's id is its index.
    /// * The ledger has one entry per delivered job.
    /// * A worker holds ticket `k` exactly if the ledger names it as the one
    ///   running job `k`: a job has one worker, a worker one job.
    /// * A job is abandoned only by a worker that faulted.
    /// * A worker takes its jobs one after the other: when it is handed a
    ///   job, every job it took before has finished.
    /// * A worker that left its loop without a fault did so because the
    ///   queue was closed and empty, and it still is.
    /// * Workers are joined only once the pool is closed, and in construction
    ///   order: the joined ones are the first `joined`.
    pub open spec fn wf(self) -> bool {
        &&& self.workers.len() >= 1
        &&& self.joined <= self.workers.len()
        &&& self.fates.len() == self.queue.delivered.len()
        &&& forall|w: int|
            0 <= w < self.workers.len() ==> {
                let worker = #[trigger] self.workers[w];
                &&& worker.id == w
                &&& worker.wf()
                &&& worker.job matches Some(k) ==> k < self.fates.len()
                &&& !worker.phase.alive() && !worker.faulted ==> self.queue.drained()
                &&& worker.phase is Joined ==> !self.queue.open
                &&& worker.phase is Joined <==> w < self.joined
            }
        &&& forall|k: int|
            0 <= k < self.fates.len() ==> (#[trigger] self.fates[k]).worker < self.workers.len()
        &&& forall|w: int, k: int|
            #![trigger self.workers[w], self.fates[k]]
            0 <= w < self.workers.len() && 0 <= k < self.fates.len() ==> {
                &&& self.workers[w].job == Some(k as nat) <==> self.fates[k].worker == w
                    && self.fates[k].outcome is Running
                &&& self.fates[k].worker == w && self.fates[k].outcome is Abandoned
                    ==> self.workers[w].faulted
            }
        &&& forall|k: int, l: int|
            #![trigger self.fates[k], self.fates[l]]
            0 <= k < l < self.fates.len() && self.fates[k].worker == self.fates[l].worker
                ==> self.fates[k].outcome is Finished
    }

    /// `self` is a state that the pool may be in later than `earlier`:
    /// nothing that was settled in `earlier` has been undone.
    ///
    /// * The workers are the same in number and in their ids.
    /// * The jobs accepted and the jobs delivered have only grown at the end.
    /// * A closed pool is still closed and has accepted nothing since.
    /// * A worker whose loop had ended, had faulted or had been joined is
    ///   still so.
    /// * Every delivered job still has the worker it was handed to, and a
    ///   fate that was sealed has not changed.
    pub open spec fn extends(self, earlier: Self) -> bool {
        &&& self.workers.len() == earlier.workers.len()
        &&& earlier.accepted().is_prefix_of(self.accepted())
        &&& earlier.queue.delivered.is_prefix_of(self.queue.delivered)
        &&& earlier.fates.len() <= self.fates.len()
        &&& earlier.joined <= self.joined
        &&& !earlier.queue.open ==> !self.queue.open && self.accepted() =~= earlier.accepted()
        &&& forall|w: int|
            0 <= w < earlier.workers.len() ==> {
                let before = #[trigger] earlier.workers[w];
                let after = self.workers[w];
                &&& after.id == before.id
                &&& !before.phase.alive() ==> !after.phase.alive()
                &&& before.phase is Joined ==> after.phase is Joined
                &&& before.faulted ==> after.faulted
            }
        &&& forall|k: int|
            0 <= k < earlier.fates.len() ==> {
                let before = #[trigger] earlier.fates[k];
                let after = self.fates[k];
                &&& after.worker == before.worker
                &&& !(before.outcome is Running) ==> after == before
            }
    }

    /// A job is submitted: an open pool queues it, a closed pool ignores it.
    pub open spec fn execute(self, job: J) -> Self {
        PoolView { queue: self.queue.send(job), ..self }
    }

    /// What the pool answers when `worker` asks for its next job.
    ///
    /// Only a waiting worker gets an answer. It is handed the oldest pending
    /// job if there is one; with none pending it is told to wait while the
    /// pool is open and to leave once it is closed.
    pub open spec fn dispatch(self, worker: nat) -> Option<Dispatch<J>> {
        if !self.waiting(worker) {
            None
        } else if self.queue.has_job() {
            Some(Dispatch::Run(self.queue.pending[0]))
        } else if self.queue.open {
            Some(Dispatch::Wait)
        } else {
            Some(Dispatch::Exit)
        }
    }

    /// The pool after `worker` asked for its next job.
    ///
    /// A waiting worker takes the oldest pending job, which gets the next
    /// ticket and a ledger entry; or, with the queue drained, leaves its
    /// loop. In every other case nothing changes.
    pub open spec fn next_job(self, worker: nat) -> Self {
        if !self.waiting(worker) {
            self
        } else if self.queue.has_job() {
            PoolView {
                workers: self.workers.update(
                    worker as int,
                    self.workers[worker as int].take(self.fates.len()),
                ),
                queue: self.queue.receive(),
                fates: self.fates.push(Fate { worker, outcome: Outcome::Running }),
                ..self
            }
        } else if self.queue.open {
            self
        } else {
            PoolView {
                workers: self.workers.update(worker as int, self.workers[worker as int].stop()),
                ..self
            }
        }
    }

    /// The pool after the job of `worker` ran to completion: the worker
    /// waits again and the job's fate is sealed as finished. Nothing changes
    /// unless the worker was executing.
    pub open spec fn job_finished(self, worker: nat) -> Self {
        if self.executing(worker) {
            let ticket = self.workers[worker as int].job->0;
            PoolView {
                workers: self.workers.update(worker as int, self.workers[worker as int].finish()),
                fates: self.fates.update(
                    ticket as int,
                    Fate { worker, outcome: Outcome::Finished },
                ),
                ..self
            }
        } else {
            self
        }
    }

    /// The pool after the job of `worker` failed: the worker's loop has
    /// ended for good and the job's fate is sealed as abandoned. Nothing
    /// changes unless the worker was executing.
    pub open spec fn job_faulted(self, worker: nat) -> Self {
        if self.executing(worker) {
            let ticket = self.workers[worker as int].job->0;
            PoolView {
                workers: self.workers.update(worker as int, self.workers[worker as int].fault()),
                fates: self.fates.update(
                    ticket as int,
                    Fate { worker, outcome: Outcome::Abandoned },
                ),
                ..self
            }
        } else {
            self
        }
    }

    /// The pool after one step of teardown: the queue is closed, and the
    /// next worker in construction order is joined if it has left its loop.
    pub open spec fn shutdown(self) -> Self {
        if self.can_join() {
            PoolView {
                workers: self.workers.update(
                    self.joined as int,
                    self.workers[self.joined as int].join(),
                ),
                queue: self.queue.close(),
                joined: self.joined + 1,
                ..self
            }
        } else {
            PoolView { queue: self.queue.close(), ..self }
        }
    }

    /// The pool after one event.
    pub open spec fn step(self, event: Event<J>) -> Self {
        match event {
            Event::Execute(job) => self.execute(job),
            Event::NextJob(worker) => self.next_job(worker),
            Event::JobFinished(worker) => self.job_finished(worker),
            Event::JobFaulted(worker) => self.job_faulted(worker),
            Event::Shutdown => self.shutdown(),
        }
    }

    /// The pool after a sequence of events, applied first to last.
    pub open spec fn run(self, events: Seq<Event<J>>) -> Self
        decreases events.len(),
    {
        if events.len() == 0 {
            self
        } else {
            self.run(events.drop_last()).step(events.last())
        }
    }
}

} // verus!
