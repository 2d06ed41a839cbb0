//! The default items to import.

pub use crate::executor::{exec_interruptable, Executor};
pub use crate::interruptable::{Interruptable, Status};
