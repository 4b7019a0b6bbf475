//! Core of a small RISC-V microkernel: capabilities, per-task address-space
//! bookkeeping, Sv39 page tables and trap dispatch.

pub mod capabilities;
pub mod io;
pub mod mem;
pub mod platform;
pub mod rt;
pub mod syscall;
pub mod syscalls;
pub mod task;
pub mod trap;
