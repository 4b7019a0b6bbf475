//! The system calls that the kernel serves.

pub mod print;
