//! Portable concurrency and task-management core.
//!
//! One API surface over two very different schedulers: a preemptive
//! real-time kernel on bare hardware and the thread facilities of a
//! general-purpose OS. The verified core here is everything the two
//! backends share: the capability-typed execution contexts, the binary
//! semaphore with priority-ordered wake selection, the mutex built on
//! it, the task lifecycle, the periodic timer, tick arithmetic, and the
//! buffered console. The native glue (thread creation, parking, real
//! clocks) is an external collaborator that drives these state machines.

mod error;
pub mod io;
pub mod sync;
pub mod task;
pub mod time;
pub mod timer;

pub use error::Error;

use vstd::prelude::*;

verus! {

/// Task priority. Higher values win the semaphore's wake selection.
pub type Priority = u8;

} // verus!
