//! Tasks, and the harts that run them.

use crate::mem::address_map::AddressMap;
use crate::mem::paging::manager::PageTableManager;
use crate::trap::{FloatingPointRegisters, Registers};
use vstd::prelude::*;

verus! {

/// Whether a task can be given a hart.
#[derive(Debug, Clone, Copy, PartialEq, Eq, Structural)]
pub enum TaskState {
    /// The task waits for something.
    Blocked,
    /// The task has ended or was ended; the scheduler will not pick it again.
    Dead,
    /// The task runs, or can.
    Running,
}

/// What is kept of a task while it does not run: where it goes on, and its
/// registers.
#[derive(Debug, Clone, Copy, PartialEq, Eq)]
pub struct Context {
    pub pc: u64,
    pub gp_regs: Registers,
    pub fp_regs: FloatingPointRegisters,
}

/// A task: its saved execution state and its address space.
#[derive(Debug)]
pub struct Task {
    pub context: Context,
    pub memory_manager: PageTableManager,
    pub address_map: AddressMap,
    pub state: TaskState,
}

impl Task {
    /// The invariant of a task: that of its page tables and of its address
    /// map.
    pub open spec fn wf(&self) -> bool {
        &&& self.memory_manager.wf()
        &&& self.address_map.wf()
    }

    /// A task that starts at `pc` with the address space given.
    pub fn new(pc: u64, memory_manager: PageTableManager, address_map: AddressMap) -> (task: Self)
        requires
            memory_manager.wf(),
            address_map.wf(),
        ensures
            task.wf(),
            task.context.pc == pc,
            task.context.gp_regs.all_zero(),
            task.context.fp_regs.all_zero(),
            task.state == TaskState::Running,
            task.memory_manager == memory_manager,
            task.address_map == address_map,
    {
        Task {
            context: Context {
                pc,
                gp_regs: Registers::zeroed(),
                fp_regs: FloatingPointRegisters::zeroed(),
            },
            memory_manager,
            address_map,
            state: TaskState::Running,
        }
    }
}

/// One hart: its number, and the task that runs on it, if any.
#[derive(Debug)]
pub struct Hart {
    pub id: usize,
    pub current: Option<Task>,
}

impl Hart {
    /// The invariant of a hart: its number leaves room for the number of its
    /// interrupt context, and its task, if any, is in order.
    pub open spec fn wf(&self) -> bool {
        &&& 1 + 2 * self.id <= usize::MAX
        &&& self.current matches Some(task) ==> task.wf()
    }
}

} // verus!
