//! A cooperative task executor core: a pool of workers, each polling a
//! bounded-bitmap set of task slots, with a wake-flag protocol between task
//! wakers and the worker's park/unpark cycle.

use vstd::prelude::*;

pub mod flags;
pub mod task;
pub mod channel;
pub mod worker;
pub mod monitor;
pub mod executor;
pub mod utils;

verus! {

/// Number of bits in a worker's readiness bitmap; slot indexes at or above
/// this share bits via `index % FLAGS`.
pub const FLAGS: usize = 64;

/// Process-unique task identifier, allocated by a monotone counter.
pub type TaskId = usize;

} // verus!
