//! The job queue: an unbounded FIFO channel that can be closed.

use std::collections::VecDeque;
use vstd::prelude::*;

verus! {

/// The mathematical content of a [`JobQueue`].
pub struct QueueView<J> {
    /// The jobs that wait to be taken, oldest first.
    pub pending: Seq<J>,
    /// The jobs that were handed out, in the order in which they left.
    pub delivered: Seq<J>,
    /// Whether the sending side is still open.
    pub open: bool,
}

impl<J> QueueView<J> {
    /// An open queue through which nothing has passed yet.
    pub open spec fn fresh() -> Self {
        QueueView { pending: Seq::empty(), delivered: Seq::empty(), open: true }
    }

    /// Every job the queue ever accepted, in the order of acceptance.
    pub open spec fn accepted(self) -> Seq<J> {
        self.delivered + self.pending
    }

    /// A job waits to be taken.
    pub open spec fn has_job(self) -> bool {
        self.pending.len() > 0
    }

    /// The queue is closed and empty: no job will ever come out of it again.
    pub open spec fn drained(self) -> bool {
        !self.open && self.pending.len() == 0
    }

    /// The queue after `job` was offered to it: appended while the queue is
    /// open, refused once it is closed.
    pub open spec fn send(self, job: J) -> Self {
        if self.open {
            QueueView { pending: self.pending.push(job), ..self }
        } else {
            self
        }
    }

    /// The queue after one attempt to take a job: the oldest pending job
    /// moves to the delivered ones, and an empty queue stays as it is.
    pub open spec fn receive(self) -> Self {
        if self.has_job() {
            QueueView {
                pending: self.pending.skip(1),
                delivered: self.delivered.push(self.pending[0]),
                ..self
            }
        } else {
            self
        }
    }

    /// The queue after its sending side was closed.
    pub open spec fn close(self) -> Self {
        QueueView { open: false, ..self }
    }
}

/// Why an attempt to take a job yielded none.
#[derive(Clone, Copy, Debug, PartialEq, Eq, Structural)]
pub enum TryReceiveError {
    /// The queue is open and holds no job right now: a receiver would block.
    Empty,
    /// The queue is closed and holds no job: none will ever arrive.
    Closed,
}

/// An unbounded FIFO queue of jobs with a sending side that can be closed.
///
/// Jobs leave in the order in which they were accepted, each exactly once.
/// Closing stops new jobs from entering; those already inside can still be
/// taken, and only after the last of them has left does a receiver learn
/// that the queue is closed.
pub struct JobQueue<J> {
    jobs: VecDeque<J>,
    open: bool,
    delivered: Ghost<Seq<J>>,
}

impl<J> View for JobQueue<J> {
    type V = QueueView<J>;

    closed spec fn view(&self) -> QueueView<J> {
        QueueView { pending: self.jobs@, delivered: self.delivered@, open: self.open }
    }
}

impl<J> JobQueue<J> {
    /// An open, empty queue.
    pub fn new() -> (queue: Self)
        ensures
            queue@ == QueueView::<J>::fresh(),
    {
        JobQueue { jobs: VecDeque::new(), open: true, delivered: Ghost(Seq::empty()) }
    }

    /// Offers `job` to the queue. An open queue appends it behind all
    /// pending jobs; a closed queue hands it back untouched.
    pub fn send(&mut self, job: J) -> (result: Result<(), J>)
        ensures
            final(self)@ == old(self)@.send(job),
            old(self)@.open ==> result == Ok::<(), J>(()),
            !old(self)@.open ==> result == Err::<(), J>(job),
    {
        if self.open {
            self.jobs.push_back(job);
            Ok(())
        } else {
            Err(job)
        }
    }

    /// Takes the oldest pending job without blocking.
    ///
    /// With no job pending the queue is left as it was, and the error tells
    /// whether a job may still arrive (`Empty`) or never will (`Closed`).
    pub fn try_receive(&mut self) -> (result: Result<J, TryReceiveError>)
        ensures
            final(self)@ == old(self)@.receive(),
            old(self)@.has_job() ==> result == Ok::<J, TryReceiveError>(old(self)@.pending[0]),
            !old(self)@.has_job() && old(self)@.open ==> result == Err::<J, TryReceiveError>(
                TryReceiveError::Empty,
            ),
            old(self)@.drained() ==> result == Err::<J, TryReceiveError>(TryReceiveError::Closed),
    {
        match self.jobs.pop_front() {
            Some(job) => {
                proof {
                    self.delivered@ = self.delivered@.push(job);
                }
                Ok(job)
            },
            None => {
                if self.open {
                    Err(TryReceiveError::Empty)
                } else {
                    Err(TryReceiveError::Closed)
                }
            },
        }
    }

    /// Closes the sending side. Closing a closed queue changes nothing.
    pub fn close(&mut self)
        ensures
            final(self)@ == old(self)@.close(),
    {
        self.open = false;
    }

    /// Whether the sending side is still open.
    pub fn is_open(&self) -> (open: bool)
        ensures
            open == self@.open,
    {
        self.open
    }

    /// The number of jobs that wait to be taken.
    pub fn len(&self) -> (len: usize)
        ensures
            len == self@.pending.len(),
    {
        self.jobs.len()
    }

    /// Whether no job waits to be taken.
    pub fn is_empty(&self) -> (empty: bool)
        ensures
            empty == !self@.has_job(),
    {
        self.jobs.len() == 0
    }
}

/// Jobs leave the queue in the order in which they entered it: the
/// delivered jobs are the first of the accepted ones, and the pending jobs
/// are the rest.
pub proof fn lemma_delivery_follows_acceptance<J>(queue: QueueView<J>)
    ensures
        queue.delivered.is_prefix_of(queue.accepted()),
        forall|k: int|
            0 <= k < queue.delivered.len() ==> #[trigger] queue.delivered[k] == queue.accepted()[k],
        forall|i: int|
            0 <= i < queue.pending.len() ==> #[trigger] queue.pending[i]
                == queue.accepted()[queue.delivered.len() + i],
{
}

/// No operation rewrites the past. Taking a job and closing leave the
/// accepted jobs as they are; sending adds the job sent at their end if the
/// queue is open, and nothing if it is closed.
pub proof fn lemma_accepted_grows_at_the_end<J>(queue: QueueView<J>, job: J)
    ensures
        queue.receive().accepted() == queue.accepted(),
        queue.close().accepted() == queue.accepted(),
        queue.open ==> queue.send(job).accepted() == queue.accepted().push(job),
        !queue.open ==> queue.send(job) == queue,
{
}

} // verus!
