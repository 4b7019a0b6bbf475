//! Input and output of the kernel.

pub mod console;
