//! One worker of the pool: its identity and its life cycle.

use crate::queue::TryReceiveError;
use vstd::prelude::*;

verus! {

/// Where a worker stands in its life.
///
/// A worker alternates between `Waiting` and `Executing` for as long as it
/// lives. Once it is `Stopped` it never runs again, and the pool's teardown
/// moves it on to `Joined`.
#[derive(Clone, Copy, Debug, PartialEq, Eq, Structural)]
pub enum Phase {
    /// Blocked on the queue, holding no job.
    Waiting,
    /// Running the one job it took from the queue.
    Executing,
    /// Its loop has ended and its thread can be joined.
    Stopped,
    /// The pool has joined its thread.
    Joined,
}

impl Phase {
    /// The worker's loop is still running.
    pub open spec fn alive(self) -> bool {
        self is Waiting || self is Executing
    }
}

/// What a worker is to do next: the pool's answer when the worker asks for
/// a job.
#[derive(Debug, PartialEq, Eq)]
pub enum Dispatch<J> {
    /// Run this job, then report how it ended.
    Run(J),
    /// No job is pending and the pool is open: block until something changes.
    Wait,
    /// The pool is closed and drained: leave the loop.
    Exit,
}

/// The mathematical content of a [`Worker`].
pub struct WorkerView {
    /// The worker's position in the pool, fixed at construction.
    pub id: nat,
    /// The phase of its life cycle.
    pub phase: Phase,
    /// The ticket of the job it is running, if it runs one.
    pub job: Option<nat>,
    /// Whether its loop ended because a job failed under it.
    pub faulted: bool,
}

impl WorkerView {
    /// A worker as it is right after construction.
    pub open spec fn fresh(id: nat) -> WorkerView {
        WorkerView { id, phase: Phase::Waiting, job: None, faulted: false }
    }

    /// A worker holds a job exactly while it executes, and only a worker
    /// whose loop has ended can have faulted.
    pub open spec fn wf(self) -> bool {
        &&& self.phase is Executing <==> self.job is Some
        &&& self.faulted ==> !self.phase.alive()
    }

    /// The worker takes the job with the given ticket.
    pub open spec fn take(self, ticket: nat) -> WorkerView {
        WorkerView { phase: Phase::Executing, job: Some(ticket), ..self }
    }

    /// The worker's job ran to completion.
    pub open spec fn finish(self) -> WorkerView {
        WorkerView { phase: Phase::Waiting, job: None, ..self }
    }

    /// The worker's job failed and took the worker's loop down with it.
    pub open spec fn fault(self) -> WorkerView {
        WorkerView { phase: Phase::Stopped, job: None, faulted: true, ..self }
    }

    /// The worker saw the queue closed and left its loop.
    pub open spec fn stop(self) -> WorkerView {
        WorkerView { phase: Phase::Stopped, ..self }
    }

    /// The pool joined the worker's thread.
    pub open spec fn join(self) -> WorkerView {
        WorkerView { phase: Phase::Joined, ..self }
    }
}

/// A worker of the pool.
///
/// The worker records which phase of its loop it is in. The ticket of the
/// job in its hands and the cause of its end exist only in proofs.
pub struct Worker {
    id: usize,
    phase: Phase,
    job: Ghost<Option<nat>>,
    faulted: Ghost<bool>,
}

impl View for Worker {
    type V = WorkerView;

    closed spec fn view(&self) -> WorkerView {
        WorkerView {
            id: self.id as nat,
            phase: self.phase,
            job: self.job@,
            faulted: self.faulted@,
        }
    }
}

impl Worker {
    /// A worker with the given id, waiting for its first job.
    pub fn new(id: usize) -> (worker: Worker)
        ensures
            worker@ == WorkerView::fresh(id as nat),
    {
        Worker { id, phase: Phase::Waiting, job: Ghost(None), faulted: Ghost(false) }
    }

    /// The worker's id: its position in the pool.
    pub fn id(&self) -> (id: usize)
        ensures
            id == self@.id,
    {
        self.id
    }

    /// The phase the worker is in.
    pub fn phase(&self) -> (phase: Phase)
        ensures
            phase == self@.phase,
    {
        self.phase
    }

    /// Whether the pool has joined the worker's thread.
    pub fn is_joined(&self) -> (joined: bool)
        ensures
            joined == (self@.phase is Joined),
    {
        match self.phase {
            Phase::Joined => true,
            _ => false,
        }
    }

    /// Whether the worker's loop is still running.
    pub fn is_alive(&self) -> (alive: bool)
        ensures
            alive == self@.phase.alive(),
    {
        match self.phase {
            Phase::Waiting | Phase::Executing => true,
            Phase::Stopped | Phase::Joined => false,
        }
    }

    /// One turn of the worker's loop: the worker has tried to take a job
    /// from the queue and acts on what came out.
    ///
    /// A job is taken in hand, under the ticket given, and is to be run. An
    /// empty queue that is still open leaves the worker waiting. A closed
    /// queue ends the loop.
    pub(crate) fn on_message<J>(
        &mut self,
        message: Result<J, TryReceiveError>,
        Ghost(ticket): Ghost<nat>,
    ) -> (action: Dispatch<J>)
        ensures
            match message {
                Ok(job) => action == Dispatch::Run(job) && final(self)@ == old(self)@.take(ticket),
                Err(TryReceiveError::Empty) => action == Dispatch::<J>::Wait && final(self)@
                    == old(self)@,
                Err(TryReceiveError::Closed) => action == Dispatch::<J>::Exit && final(self)@
                    == old(self)@.stop(),
            },
    {
        match message {
            Ok(job) => {
                self.phase = Phase::Executing;
                proof {
                    self.job@ = Some(ticket);
                }
                Dispatch::Run(job)
            },
            Err(TryReceiveError::Empty) => Dispatch::Wait,
            Err(TryReceiveError::Closed) => {
                self.phase = Phase::Stopped;
                Dispatch::Exit
            },
        }
    }

    /// Puts the finished job down and waits for the next one.
    pub(crate) fn finish(&mut self)
        ensures
            final(self)@ == old(self)@.finish(),
    {
        self.phase = Phase::Waiting;
        proof {
            self.job@ = None;
        }
    }

    /// Ends the worker's loop because its job failed.
    pub(crate) fn fault(&mut self)
        ensures
            final(self)@ == old(self)@.fault(),
    {
        self.phase = Phase::Stopped;
        proof {
            self.job@ = None;
            self.faulted@ = true;
        }
    }

    /// Records that the worker's thread has been joined.
    pub(crate) fn join(&mut self)
        ensures
            final(self)@ == old(self)@.join(),
    {
        self.phase = Phase::Joined;
    }
}

} // verus!
