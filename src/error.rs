use vstd::prelude::*;

verus! {

/// Why a pool could not be built.
#[derive(Clone, Copy, Debug, PartialEq, Eq, Structural)]
pub enum ThreadPoolCreationError {
    /// A pool needs at least one worker.
    ThreadPoolCreatedWithInvalidSize,
}

impl ThreadPoolCreationError {
    /// The error in words.
    pub fn message(&self) -> (r: &'static str)
        ensures
            r@ == "ThreadPool was initialized with invalid size."@,
    {
        proof {
            reveal_strlit("ThreadPool was initialized with invalid size.");
        }
        "ThreadPool was initialized with invalid size."
    }
}

/// Why a job was not taken.
#[derive(Clone, Copy, Debug, PartialEq, Eq, Structural)]
pub enum ThreadPoolSubmitError {
    /// The pool has begun to shut down and takes no more jobs.
    ChannelClosed,
}

impl ThreadPoolSubmitError {
    /// The error in words.
    pub fn message(&self) -> (r: &'static str)
        ensures
            r@ == "ThreadPool is shutting down and takes no more jobs."@,
    {
        proof {
            reveal_strlit("ThreadPool is shutting down and takes no more jobs.");
        }
        "ThreadPool is shutting down and takes no more jobs."
    }
}

} // verus!
