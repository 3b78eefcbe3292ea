//! Task-management core of a single-address-space, cooperative-multitasking
//! kernel: task lifecycle records, a round-robin task manager, and the
//! process-control syscall handlers (exit, yield, get-time, task-info).
//!
//! The surrounding kernel (trap entry, context switch, timer hardware) is out
//! of scope: handlers take the current clock reading as an argument and hand
//! back the scheduling decision, and the caller performs the actual context
//! switch or halt.

pub mod manager;
pub mod syscall;
pub mod task;
