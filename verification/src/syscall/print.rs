//! The system call that writes bytes of a task to the console.

use crate::mem::address::{VirtualAddress, KERNEL_REGION_START};
use crate::mem::paging::entry::{READ, WRITE};
use crate::task::{Task, TaskState};
use crate::trap::handler::killed;
use vstd::prelude::*;

verus! {

/// What is left to do for a print call.
#[derive(Debug, Clone, Copy, PartialEq, Eq, Structural)]
pub enum PrintOutcome {
    /// Nothing: the call named memory that is not mapped for it, or memory
    /// of the kernel, and the task has been ended.
    Killed,
    /// Write the `len` bytes at `virt` to the console, then store success at
    /// `res_out`.
    Write { virt: VirtualAddress, len: u64, res_out: VirtualAddress },
}

/// Whether a page of `task` is mapped at `address` with the flag `flag`.
pub open spec fn mapped_with(task: Task, address: int, flag: u64) -> bool {
    0 <= address <= u64::MAX && (task.memory_manager.leaf_entry(address as u64) matches Some(
        (entry, _),
    ) && entry.flag_bits() & flag != 0)
}

/// Whether `task` may have `len` bytes at `virt` printed and the outcome
/// stored at `res_out`: neither address is the kernel's, the page at
/// `res_out` is mapped and may be written, and the page at the start of the
/// bytes and the page at their end are mapped and may be read.
pub open spec fn printable(task: Task, virt: u64, len: u64, res_out: u64) -> bool {
    &&& res_out < KERNEL_REGION_START
    &&& mapped_with(task, res_out as int, WRITE)
    &&& virt < KERNEL_REGION_START
    &&& mapped_with(task, virt as int, READ)
    &&& mapped_with(task, virt + len, READ)
}

/// Decides a print call of `current_task` for `len` bytes at `virt`, with
/// the outcome to be stored at `res_out`.
///
/// The call is granted where the task may read the bytes and write the
/// outcome. A task that names memory of the kernel, or memory that is not
/// mapped for what the call does with it, is ended; the kernel goes on.
pub fn print(
    current_task: &mut Task,
    virt: VirtualAddress,
    len: u64,
    res_out: VirtualAddress,
) -> (outcome: PrintOutcome)
    requires
        old(current_task).wf(),
    ensures
        final(current_task).wf(),
        outcome == (if printable(*old(current_task), virt@, len, res_out@) {
            PrintOutcome::Write { virt, len, res_out }
        } else {
            PrintOutcome::Killed
        }),
        *final(current_task) == (if outcome is Killed {
            killed(*old(current_task))
        } else {
            *old(current_task)
        }),
{
    let flags_start = current_task.memory_manager.page_flags(virt);
    let flags_end = match virt.checked_offset(len) {
        Some(end) => current_task.memory_manager.page_flags(end),
        None => None,
    };
    let flags_res_out = current_task.memory_manager.page_flags(res_out);
    let valid_memory = match (flags_start, flags_end) {
        (Some(fs), Some(fe)) => fs & READ != 0 && fe & READ != 0,
        _ => false,
    };
    let valid_res = match flags_res_out {
        Some(f) => f & WRITE != 0,
        None => false,
    };
    if res_out.is_kernel_region() || !valid_res || virt.is_kernel_region() || !valid_memory {
        current_task.state = TaskState::Dead;
        return PrintOutcome::Killed;
    }
    PrintOutcome::Write { virt, len, res_out }
}

} // verus!
