//! A fixed-size worker pool whose lifecycle is verified: building validates
//! the size and spawns one worker per identifier, submission goes through the
//! producer side of the queue only while it is open, and shutdown closes the
//! producer before joining every worker exactly once, in identifier order.
//!
//! The pool is generic over the producer handle `S` and the worker handle `H`,
//! so the threads and the channel are supplied by the caller through closures.
pub mod error;
pub mod worker;
pub mod pool;

pub use error::{PoolCreationError, SubmitError};
pub use pool::Threadpool;
pub use worker::{next_step, Step, Worker};
