//! Process-execution core of a small monolithic kernel, modelled as a
//! verified library.
//!
//! The crate loads an executable image into a fresh virtual address space,
//! builds the initial user stack, tracks the tasks of a process, services
//! page faults raised by user mode, and decodes and handles the system
//! calls of a fixed Linux-compatible subset.  The pieces a host cannot run
//! (the privileged mode switch, the scheduler's context switch, physical
//! page tables) are collaborators: the library holds their state as plain
//! values and decides; a thin runner performs the hardware work.

pub mod config;
pub mod loader;
pub mod mm;
pub mod syscall;
pub mod task;
