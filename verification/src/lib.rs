//! The bookkeeping of a small future executor, verified: the task queue, the
//! result slot of each spawned task, and the readiness state of the futures
//! that the executor drives.
pub mod channel;
pub mod handle;
pub mod runtime;
pub mod timer;
pub mod socket;
