//! System calls as a task makes them: the requests that go to the kernel,
//! and what its answers mean.

pub mod mem;
