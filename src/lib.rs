//! A fixed-size worker pool, as a verified state machine.
//!
//! The pool's coordination (the dispatch queue, each worker's status, submission
//! and the shutdown sequence) lives here with its contracts. Running the workers
//! on threads, and blocking on the queue, is the caller's part: each transition
//! here is one step that a thread takes while holding the pool's lock.
use vstd::prelude::*;

mod channel;
mod error;
mod pool;
mod worker;

pub use channel::{DispatchChannel, Message};
pub use error::{ThreadPoolCreationError, ThreadPoolSubmitError};
pub use pool::{
    idle_workers, lemma_clean_stop_ran_every_job, lemma_no_job_with_two_workers,
    lemma_shutdown_reaches_every_worker, terminates, ThreadPool,
};
pub use worker::{
    busy_pred, count_where, crashed_pred, exited_pred, lemma_count_all, lemma_count_none,
    lemma_count_partition, lemma_count_update, live_pred, WorkerStatus,
};

verus! {

} // verus!
