//! A fixed-size worker pool, as a verified protocol.
//!
//! A pool owns a fixed number of workers and a first-in, first-out queue of
//! [`Message`]s. Submitting a job puts a message at the back of the queue.
//! Each worker runs a loop: wait on the queue, take the oldest message, and
//! act on it, by running the job it carries or by leaving the loop when it
//! is a terminate message. Shutdown sends one terminate message per worker
//! and then hands out the workers' thread handles, for the owner to wait on.
//!
//! This crate holds everything about the pool that can be decided without
//! a thread: the state that owner and workers share, as [`ThreadPool`], and
//! every operation on it as one atomic step. It runs no job and blocks on
//! nothing. A job is a value of any type `J`; a worker that dequeues one is
//! handed it back as [`Action::Run`], to be run outside the pool, and
//! reports when it is done. An embedding puts the pool behind a lock and
//! gives each worker a thread; a test can play scheduler itself and step
//! the workers in any order it likes.
//!
//! The contracts are stated over [`PoolModel`], the pool as a mathematical
//! value. The [`laws`] module proves what holds of every interleaving of
//! owner and workers: each submitted job is handed out exactly once and in
//! order, a backlog blocks nobody, and shutdown reaches every worker after
//! a bounded number of steps.

pub mod counting;
pub mod laws;
pub mod message;
pub mod model;
pub mod pool;
pub mod preservation;
pub mod schedule;
pub mod worker;

pub use message::{Action, Message};
pub use model::PoolModel;
pub use pool::ThreadPool;
pub use worker::{ThreadHandle, Worker, WorkerModel, WorkerState};
