//! What is particular to the `virt` board: the contexts of its interrupt
//! controller, and the register that ends the machine.

use crate::task::Hart;
use vstd::prelude::*;

verus! {

/// The highest priority that the interrupt controller knows.
pub fn plic_max_priority() -> (priority: usize)
    ensures
        priority == 7,
{
    7
}

/// The context of the interrupt controller for supervisor mode on `hart`:
/// every hart has two contexts, and context 0 is machine mode on hart 0.
pub fn plic_context_for(hart: usize) -> (context: usize)
    requires
        1 + 2 * hart <= usize::MAX,
    ensures
        context == 1 + 2 * hart,
{
    1 + 2 * hart
}

/// The context of the interrupt controller for the hart given.
pub fn current_plic_context(hart: &Hart) -> (context: usize)
    requires
        hart.wf(),
    ensures
        context == 1 + 2 * hart.id,
{
    plic_context_for(hart.id)
}

/// How the machine is to end.
#[derive(Debug, Clone, Copy, PartialEq, Eq, Structural)]
pub enum ExitStatus {
    Pass,
    Reset,
    Fail(u16),
}

/// The word that tells the test device of a failure.
pub const FINISHER_FAIL: u32 = 0x3333;

/// The word that tells the test device of success.
pub const FINISHER_PASS: u32 = 0x5555;

/// The word that tells the test device to reset the machine.
pub const FINISHER_RESET: u32 = 0x7777;

/// Where the test device is in physical memory.
pub const VIRT_TEST: u64 = 0x10_0000;

impl ExitStatus {
    /// The low half of the word for the test device.
    pub open spec fn magic_of(self) -> u32 {
        match self {
            ExitStatus::Pass => FINISHER_PASS,
            ExitStatus::Reset => FINISHER_RESET,
            ExitStatus::Fail(_) => FINISHER_FAIL,
        }
    }

    /// The exit code: that of a failure, and 0 otherwise.
    pub open spec fn code_of(self) -> u16 {
        match self {
            ExitStatus::Pass | ExitStatus::Reset => 0,
            ExitStatus::Fail(code) => code,
        }
    }

    pub fn magic(self) -> (word: u32)
        ensures
            word == self.magic_of(),
    {
        match self {
            ExitStatus::Pass => FINISHER_PASS,
            ExitStatus::Reset => FINISHER_RESET,
            ExitStatus::Fail(_) => FINISHER_FAIL,
        }
    }

    /// The word to write to the test device: the exit code in its high half,
    /// the kind of exit in its low half.
    pub fn to_u32(self) -> (word: u32)
        ensures
            word == self.code_of() * 0x1_0000 + self.magic_of(),
    {
        let ret_code: u32 = match self {
            ExitStatus::Pass | ExitStatus::Reset => 0,
            ExitStatus::Fail(n) => n as u32,
        };
        let magic = self.magic();
        assert(((ret_code << 16) | magic) == ret_code * 0x1_0000 + magic) by (bit_vector)
            requires
                ret_code < 0x1_0000,
                magic < 0x1_0000,
        ;
        (ret_code << 16) | magic
    }
}

/// The address at which the test device is to be written: its physical
/// address while the hart does not translate, and that address in the window
/// that starts at `physical_offset` while it does.
pub fn exit_register(translating: bool, physical_offset: u64) -> (address: u64)
    requires
        translating ==> physical_offset + VIRT_TEST <= u64::MAX,
    ensures
        address == if translating {
            physical_offset + VIRT_TEST
        } else {
            VIRT_TEST as int
        },
{
    if translating {
        physical_offset + VIRT_TEST
    } else {
        VIRT_TEST
    }
}

} // verus!
