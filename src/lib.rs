//! A single-consumer cooperative task scheduler, the shared state of a timer
//! computation, and a few small value types.
//!
//! The scheduler decides which task is polled next, when a parked task goes
//! back on the bounded ready queue, and when the run loop may stop. The code
//! that owns the computations, blocks and talks to other threads feeds it events
//! and carries out the steps it returns.

pub mod scheduler;
pub mod laws;
pub mod timer;
pub mod matrix;
pub mod payment;
