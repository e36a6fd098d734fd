//! A fixed-size worker pool's scheduling core.
//!
//! The pool dispatches one-shot jobs to a bounded set of interchangeable
//! workers, queuing requests first-come-first-served when every worker is
//! busy, and failing all queued requests with `PoolTerminated` at teardown.
//! This crate holds the part worth proving: the availability resolver and
//! the pool facade's bookkeeping, as plain verified state machines.  The
//! embedding host drives them, performing the actual spawning, message
//! transport and job execution.

pub mod laws;
pub mod model;
pub mod pool;
pub mod resolver;

pub use pool::Phase;
pub use pool::PoolCore;

pub use resolver::Acquisition;
pub use resolver::Lease;
pub use resolver::PoolError;
pub use resolver::ReleaseEffect;
pub use resolver::Resolver;
pub use resolver::Ticket;

pub use model::Model;
pub use model::Release;
pub use model::Resolution;
