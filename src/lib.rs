//! Task-scheduling core of a single-hart, cooperatively multitasking kernel.
//!
//! The scheduler's decisions, the kernel-context switch and the user trap
//! frame are modelled as plain values so that every transition carries a
//! machine-checked contract. Performing the actual register transfer on a
//! hart is left to the caller, who is handed a decision to carry out.

pub mod sync;
pub mod task_status;
pub mod task_context;
pub mod task;
pub mod trap_context;
