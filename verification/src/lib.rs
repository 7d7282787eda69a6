//! Privileged syscall layer of a paged teaching kernel.
//!
//! The handlers validate raw user-supplied arguments, resolve user virtual
//! addresses through an explicit page table, and query or mutate the calling
//! task's address space, accounting record and program break.  All durable
//! state is passed into each handler explicitly; the scheduler owns which
//! context is current and receives a request value where a handler gives up
//! or ends the task.

pub mod addr;
pub mod area;
pub mod brk;
pub mod errors;
pub mod laws;
pub mod page_table;
pub mod perm;
pub mod syscall;
pub mod task;

