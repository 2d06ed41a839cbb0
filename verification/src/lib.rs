//! Cooperative interruption of stepwise computations.
//!
//! A computation that implements [`Interruptable`] is advanced one step at a
//! time by an [`Executor`], which reads a monotonic clock between steps and
//! gives up once a deadline has passed, keeping whatever partial result the
//! computation can offer at that point.
//!
//! - `interruptable`: the trait, and the transition system that its
//!   contracts speak of.
//! - `executor`: the driver and its shorthand.
//! - `timeout`: the error of a missed deadline.
//! - `model`: what a run returns as a function of the clock's readings, and
//!   the laws that follow.
//! - `clock`: what is taken on trust from the standard library.
//! - `sort`: a selection sort as an example of an interruptable computation.

pub mod clock;
pub mod executor;
pub mod interruptable;
pub mod model;
pub mod prelude;
pub mod sort;
pub mod timeout;

pub use crate::executor::{exec_interruptable, Executor};
pub use crate::interruptable::{Interruptable, Status};
pub use crate::timeout::TimeoutError;
