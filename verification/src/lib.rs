//! A fixed-size worker pool, written as a sequential state machine.
//!
//! The pool owns a FIFO queue of jobs and a fixed set of workers. Each
//! operation is one atomic step of the hand-off between the side that
//! submits jobs and the workers that run them. A driver that owns the real
//! threads asks the pool what to do next and reports what happened; every
//! decision of the protocol is taken, and proved, here.
//!
//! * [`queue`] holds the job queue, [`worker`] one worker and its life
//!   cycle, [`pool`] the pool that puts them together.
//! * [`model`] says what a pool is worth in a contract and how each step
//!   changes it.
//! * [`laws`] proves what holds of every state a pool can get into, and
//!   [`progress`] that teardown can always be completed.

pub mod laws;
pub mod model;
pub mod pool;
pub mod progress;
pub mod queue;
pub mod worker;

pub use model::{Event, Fate, Outcome, PoolView};
pub use pool::{Teardown, ThreadPool};
pub use queue::{JobQueue, QueueView, TryReceiveError};
pub use worker::{Dispatch, Phase, Worker, WorkerView};
