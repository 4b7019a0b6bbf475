//! What the kernel does when a hart traps.
//!
//! The handler decides and changes the state of the hart and of its task;
//! what has to be done to the machine it hands back as a `TrapAction`, for
//! the code around it to carry out: run the scheduler, run the handler of a
//! system call, talk to the interrupt controller, invalidate a cached
//! translation, or stop the kernel.

use crate::mem::address::{VirtualAddress, KERNEL_REGION_START};
use crate::mem::paging::entry::{PERMISSION_BITS, WRITE};
use crate::task::{Context, Hart, Task, TaskState};
use crate::trap::{Registers, Trap, TrapFrame};
use vstd::prelude::*;

verus! {

/// A system call that a task has made, with its arguments.
#[derive(Debug, Clone, Copy, PartialEq, Eq, Structural)]
pub enum KernelCall {
    /// The task ends.
    Exit,
    /// `len` bytes at `virt` go to the console; the outcome is stored at
    /// `res_out`.
    Print { virt: VirtualAddress, len: u64, res_out: VirtualAddress },
    /// Up to `len` bytes of input go to `virt`.
    ReadStdin { virt: VirtualAddress, len: u64 },
}

impl KernelCall {
    /// The call that the registers ask for: `a0` holds its number, the
    /// registers after it the arguments. A number that no call has gives
    /// none.
    pub open spec fn decode(regs: Registers) -> Option<KernelCall> {
        if regs.a0 == 0 {
            Some(KernelCall::Exit)
        } else if regs.a0 == 1 {
            Some(
                KernelCall::Print {
                    virt: VirtualAddress::new(regs.a1),
                    len: regs.a2,
                    res_out: VirtualAddress::new(regs.a3),
                },
            )
        } else if regs.a0 == 2 {
            Some(KernelCall::ReadStdin { virt: VirtualAddress::new(regs.a1), len: regs.a2 })
        } else {
            None
        }
    }

    pub fn from_registers(regs: &Registers) -> (call: Option<KernelCall>)
        ensures
            call == Self::decode(*regs),
    {
        match regs.a0 {
            0 => Some(KernelCall::Exit),
            1 => Some(
                KernelCall::Print {
                    virt: VirtualAddress::new(regs.a1),
                    len: regs.a2,
                    res_out: VirtualAddress::new(regs.a3),
                },
            ),
            2 => Some(KernelCall::ReadStdin { virt: VirtualAddress::new(regs.a1), len: regs.a2 }),
            _ => None,
        }
    }
}

/// A state that the kernel must never be in.
#[derive(Debug, Clone, Copy, PartialEq, Eq, Structural)]
pub enum KernelBug {
    /// A page fault at an address of the kernel half, which is mapped and
    /// marked from the start.
    KernelPageFault(Trap),
    /// A trap that only a task can cause, with no task on the hart.
    NoActiveTask(Trap),
    /// A trap that the kernel has no answer to.
    UnexpectedTrap(Trap),
}

/// What is left to do after the handler has decided.
#[derive(Debug, Clone, Copy, PartialEq, Eq, Structural)]
pub enum TrapAction {
    /// Give the hart to the scheduler.
    Schedule,
    /// Run the handler of this call for the task of the hart, then
    /// `finish_syscall`.
    Syscall(KernelCall),
    /// Claim an interrupt for this context of the interrupt controller, run
    /// its handler, and tell the controller that it is done.
    ExternalInterrupt { context: usize },
    /// Invalidate the cached translation of this address and go on where the
    /// trap came from.
    Resume { invalidate: VirtualAddress },
    /// Stop the kernel.
    Panic(KernelBug),
}

/// The task with the trapped execution state saved in it.
pub open spec fn saved(task: Task, pc: u64, frame: TrapFrame) -> Task {
    Task {
        context: Context { pc, gp_regs: frame.registers, fp_regs: frame.fp_registers },
        ..task
    }
}

/// The task, dead.
pub open spec fn killed(task: Task) -> Task {
    Task { state: TaskState::Dead, ..task }
}

/// Whether the page of `task` at `address` can be marked as used: a page is
/// mapped there, and for a write, it may be written.
pub open spec fn can_mark(task: Task, address: u64, written: bool) -> bool {
    task.memory_manager.leaf_entry(address) matches Some((entry, _)) && (written
        ==> entry.flag_bits() & WRITE != 0)
}

/// What is left to do for a trap with cause `scause` and faulting address
/// `stval`, taken with the registers `frame` on `hart`.
pub open spec fn action_for(hart: Hart, frame: TrapFrame, scause: u64, stval: u64) -> TrapAction {
    let trap = Trap::decode(scause);
    match trap {
        Trap::SupervisorTimerInterrupt => TrapAction::Schedule,
        Trap::UserModeEnvironmentCall => match hart.current {
            None => TrapAction::Panic(KernelBug::NoActiveTask(trap)),
            Some(_) => match KernelCall::decode(frame.registers) {
                Some(call) => TrapAction::Syscall(call),
                None => TrapAction::Schedule,
            },
        },
        Trap::SupervisorExternalInterrupt => TrapAction::ExternalInterrupt {
            context: (1 + 2 * hart.id) as usize,
        },
        Trap::LoadPageFault | Trap::StorePageFault | Trap::InstructionPageFault => {
            if stval >= KERNEL_REGION_START {
                TrapAction::Panic(KernelBug::KernelPageFault(trap))
            } else {
                match hart.current {
                    None => TrapAction::Panic(KernelBug::NoActiveTask(trap)),
                    Some(task) => if can_mark(task, stval, trap is StorePageFault) {
                        TrapAction::Resume { invalidate: VirtualAddress::new(stval) }
                    } else {
                        TrapAction::Schedule
                    },
                }
            }
        },
        _ => TrapAction::Panic(KernelBug::UnexpectedTrap(trap)),
    }
}

/// What a trap makes of the task that was on the hart, `before`: `after`.
pub open spec fn task_after(
    before: Task,
    after: Task,
    frame: TrapFrame,
    sepc: u64,
    scause: u64,
    stval: u64,
) -> bool {
    let trap = Trap::decode(scause);
    match trap {
        Trap::SupervisorTimerInterrupt => after == saved(before, sepc, frame),
        Trap::UserModeEnvironmentCall => match KernelCall::decode(frame.registers) {
            Some(_) => after == before,
            None => after == killed(saved(before, (sepc + 4) as u64, frame)),
        },
        Trap::LoadPageFault | Trap::StorePageFault | Trap::InstructionPageFault => {
            if stval >= KERNEL_REGION_START {
                after == before
            } else {
                let written = trap is StorePageFault;
                &&& after.context == before.context
                &&& after.address_map == before.address_map
                &&& if can_mark(before, stval, written) {
                    let (entry, size) = before.memory_manager.leaf_entry(stval).unwrap();
                    &&& after.state == before.state
                    &&& after.memory_manager.replaces(
                        &before.memory_manager,
                        stval,
                        size,
                        entry.marked(written),
                    )
                } else {
                    &&& after.state == TaskState::Dead
                    &&& after.memory_manager.means_the_same(&before.memory_manager)
                }
            }
        },
        _ => after == before,
    }
}

/// A page fault grants nothing: whatever was mapped before it is mapped
/// after it, to the same page and with the same permissions, and nothing
/// else is. Here `before` is the task at a page fault at the user address
/// `stval`, and `after` what the handler made of it.
pub proof fn lemma_fault_keeps_permissions(
    before: Task,
    after: Task,
    frame: TrapFrame,
    sepc: u64,
    scause: u64,
    stval: u64,
    a: u64,
)
    requires
        Trap::decode(scause) is LoadPageFault || Trap::decode(scause) is StorePageFault
            || Trap::decode(scause) is InstructionPageFault,
        stval < KERNEL_REGION_START,
        task_after(before, after, frame, sepc, scause, stval),
    ensures
        match before.memory_manager.leaf_entry(a) {
            Some((was, size)) => after.memory_manager.leaf_entry(a) matches Some((is, same))
                && same == size && is.page_number() == was.page_number() && is.flag_bits()
                & PERMISSION_BITS == was.flag_bits() & PERMISSION_BITS,
            None => after.memory_manager.leaf_entry(a) is None,
        },
{
    let written = Trap::decode(scause) is StorePageFault;
    if can_mark(before, stval, written) {
        let (entry, size) = before.memory_manager.leaf_entry(stval).unwrap();
        entry.lemma_marked(written);
        assert(after.memory_manager.leaf_entry(a) == (if crate::mem::paging::manager::same_page(
            a,
            stval,
            size,
        ) {
            Some((entry.marked(written), size))
        } else {
            before.memory_manager.leaf_entry(a)
        }));
        if crate::mem::paging::manager::same_page(a, stval, size) {
            before.memory_manager.lemma_page_mapped_as_one(stval, a);
        }
    } else {
        assert(after.memory_manager.leaf_entry(a) == before.memory_manager.leaf_entry(a));
    }
}

/// Handles one trap: `frame` holds the registers at the trap, `sepc` the
/// address of the instruction, `scause` the cause, and `stval` the address
/// that a page fault is about.
///
/// A timer interrupt saves the state of the task on the hart, if there is
/// one, and gives the hart to the scheduler. A system call of a task is
/// handed back to be run, or, where its number is unknown, ends the task. An
/// external interrupt is handed back to be claimed. A page fault at a user
/// address marks the page as used, and as written for a store, and goes on;
/// where that cannot be done, the task ends. What may be done with a page is
/// never changed by a fault. Every other trap, a page fault in the kernel
/// half, and a trap of a task without a task, stop the kernel.
///
/// For a system call the instruction after `sepc` must have an address.
pub fn trap_handler(
    hart: &mut Hart,
    frame: &TrapFrame,
    sepc: u64,
    scause: u64,
    stval: u64,
) -> (action: TrapAction)
    requires
        old(hart).wf(),
        Trap::decode(scause) is UserModeEnvironmentCall ==> sepc + 4 <= u64::MAX,
    ensures
        final(hart).wf(),
        final(hart).id == old(hart).id,
        action == action_for(*old(hart), *frame, scause, stval),
        match old(hart).current {
            None => final(hart).current is None,
            Some(before) => final(hart).current matches Some(after) && task_after(
                before,
                after,
                *frame,
                sepc,
                scause,
                stval,
            ),
        },
{
    let trap = Trap::from_cause(scause);
    match trap {
        Trap::SupervisorTimerInterrupt => {
            match hart.current.take() {
                Some(mut task) => {
                    task.context =
                    Context { pc: sepc, gp_regs: frame.registers, fp_regs: frame.fp_registers };
                    hart.current = Some(task);
                },
                None => {},
            }
            TrapAction::Schedule
        },
        Trap::UserModeEnvironmentCall => {
            match hart.current.take() {
                None => TrapAction::Panic(KernelBug::NoActiveTask(trap)),
                Some(mut task) => {
                    let action = match KernelCall::from_registers(&frame.registers) {
                        Some(call) => TrapAction::Syscall(call),
                        None => {
                            task.state = TaskState::Dead;
                            task.context =
                            Context {
                                pc: sepc + 4,
                                gp_regs: frame.registers,
                                fp_regs: frame.fp_registers,
                            };
                            TrapAction::Schedule
                        },
                    };
                    hart.current = Some(task);
                    action
                },
            }
        },
        Trap::SupervisorExternalInterrupt => TrapAction::ExternalInterrupt {
            context: 1 + 2 * hart.id,
        },
        Trap::LoadPageFault | Trap::StorePageFault | Trap::InstructionPageFault => {
            let address = VirtualAddress::new(stval);
            if address.is_kernel_region() {
                return TrapAction::Panic(KernelBug::KernelPageFault(trap));
            }
            match hart.current.take() {
                None => TrapAction::Panic(KernelBug::NoActiveTask(trap)),
                Some(mut task) => {
                    let written = match trap {
                        Trap::StorePageFault => true,
                        _ => false,
                    };
                    let marked = task.memory_manager.mark_accessed(address, written);
                    let action = if marked {
                        TrapAction::Resume { invalidate: address }
                    } else {
                        task.state = TaskState::Dead;
                        TrapAction::Schedule
                    };
                    hart.current = Some(task);
                    action
                },
            }
        },
        _ => TrapAction::Panic(KernelBug::UnexpectedTrap(trap)),
    }
}

/// Ends a system call once its handler has run: the state of the task is
/// saved with the registers as the handler left them, to go on after the
/// call instruction, and the hart goes to the scheduler. Without a task on
/// the hart there is nothing to end.
pub fn finish_syscall(hart: &mut Hart, frame: &TrapFrame, sepc: u64) -> (action: TrapAction)
    requires
        old(hart).wf(),
        sepc + 4 <= u64::MAX,
    ensures
        final(hart).wf(),
        final(hart).id == old(hart).id,
        match old(hart).current {
            None => final(hart).current is None && action == TrapAction::Panic(
                KernelBug::NoActiveTask(Trap::UserModeEnvironmentCall),
            ),
            Some(before) => final(hart).current == Some(saved(before, (sepc + 4) as u64, *frame))
                && action == TrapAction::Schedule,
        },
{
    match hart.current.take() {
        None => TrapAction::Panic(KernelBug::NoActiveTask(Trap::UserModeEnvironmentCall)),
        Some(mut task) => {
            task.context =
            Context { pc: sepc + 4, gp_regs: frame.registers, fp_regs: frame.fp_registers };
            hart.current = Some(task);
            TrapAction::Schedule
        },
    }
}

/// What to do once the handler of a claimed interrupt has come back, or
/// none was found.
#[derive(Debug, Clone, Copy, PartialEq, Eq, Structural)]
pub struct InterruptDone {
    /// The interrupt to report to the controller as handled.
    pub complete: usize,
    /// Whether the handler failed, which is to be logged.
    pub failed: bool,
}

/// Ends an external interrupt: `handled` is what the handler of interrupt
/// `interrupt_id` gave back, or nothing where no handler is registered. A
/// failure is noted and nothing more; the interrupt is completed in every
/// case.
pub fn finish_interrupt(interrupt_id: usize, handled: Option<Result<(), ()>>) -> (done:
    InterruptDone)
    ensures
        done.complete == interrupt_id,
        done.failed == (handled matches Some(Err(_))),
{
    let failed = match handled {
        Some(Err(_)) => true,
        _ => false,
    };
    InterruptDone { complete: interrupt_id, failed }
}

} // verus!
