//! Traps: the register frame that is saved on entry, the causes a trap can
//! have, and what the kernel does for each.

pub mod handler;

use vstd::prelude::*;

verus! {

/// The general-purpose registers of a hart, `x1` to `x31`, in the order in
/// which the entry code stores them.
#[derive(Debug, Clone, Copy, Default, PartialEq, Eq, Structural)]
pub struct Registers {
    pub ra: u64,
    pub sp: u64,
    pub gp: u64,
    pub tp: u64,
    pub t0: u64,
    pub t1: u64,
    pub t2: u64,
    pub s0: u64,
    pub s1: u64,
    pub a0: u64,
    pub a1: u64,
    pub a2: u64,
    pub a3: u64,
    pub a4: u64,
    pub a5: u64,
    pub a6: u64,
    pub a7: u64,
    pub s2: u64,
    pub s3: u64,
    pub s4: u64,
    pub s5: u64,
    pub s6: u64,
    pub s7: u64,
    pub s8: u64,
    pub s9: u64,
    pub s10: u64,
    pub s11: u64,
    pub t3: u64,
    pub t4: u64,
    pub t5: u64,
    pub t6: u64,
}

impl Registers {
    /// Whether every register holds zero.
    pub open spec fn all_zero(self) -> bool {
        self.layout() == Seq::new(31, |i: int| 0u64)
    }

    /// The registers in the order in which they are stored, `x1` first.
    pub open spec fn layout(self) -> Seq<u64> {
        seq![
            self.ra,
            self.sp,
            self.gp,
            self.tp,
            self.t0,
            self.t1,
            self.t2,
            self.s0,
            self.s1,
            self.a0,
            self.a1,
            self.a2,
            self.a3,
            self.a4,
            self.a5,
            self.a6,
            self.a7,
            self.s2,
            self.s3,
            self.s4,
            self.s5,
            self.s6,
            self.s7,
            self.s8,
            self.s9,
            self.s10,
            self.s11,
            self.t3,
            self.t4,
            self.t5,
            self.t6,
        ]
    }

    /// Registers that all hold zero.
    pub fn zeroed() -> (regs: Self)
        ensures
            regs.all_zero(),
    {
        let regs = Registers {
            ra: 0,
            sp: 0,
            gp: 0,
            tp: 0,
            t0: 0,
            t1: 0,
            t2: 0,
            s0: 0,
            s1: 0,
            a0: 0,
            a1: 0,
            a2: 0,
            a3: 0,
            a4: 0,
            a5: 0,
            a6: 0,
            a7: 0,
            s2: 0,
            s3: 0,
            s4: 0,
            s5: 0,
            s6: 0,
            s7: 0,
            s8: 0,
            s9: 0,
            s10: 0,
            s11: 0,
            t3: 0,
            t4: 0,
            t5: 0,
            t6: 0,
        };
        assert(regs.layout() =~= Seq::new(31, |i: int| 0u64));
        regs
    }

    /// The stack pointer, as an address.
    pub fn sp(&self) -> (address: u64)
        ensures
            address == self.sp,
    {
        self.sp
    }
}

/// The floating-point registers, number 0 to 31, and the floating-point
/// status register, in the order in which the entry code stores them.
#[derive(Debug, Clone, Copy, Default, PartialEq, Eq)]
pub struct FloatingPointRegisters {
    pub f: [u64; 32],
    pub fscr: u64,
}

impl FloatingPointRegisters {
    /// Whether every register holds zero.
    pub open spec fn all_zero(self) -> bool {
        self.fscr == 0 && forall|i: int| 0 <= i < 32 ==> self.f[i] == 0
    }

    /// Registers that all hold zero.
    pub fn zeroed() -> (regs: Self)
        ensures
            regs.all_zero(),
    {
        FloatingPointRegisters { f: [0; 32], fscr: 0 }
    }
}

/// Everything the entry code saves of the interrupted execution.
#[derive(Debug, Clone, Copy, Default, PartialEq, Eq)]
pub struct TrapFrame {
    pub registers: Registers,
    pub fp_registers: FloatingPointRegisters,
}

/// The number of 64-bit words in a saved frame.
pub const FRAME_WORDS: usize = 64;

/// The number of bytes in a saved frame.
pub const FRAME_BYTES: usize = 512;

impl TrapFrame {
    /// The frame as the entry code lays it out in memory, word by word: the
    /// general-purpose registers `x1` to `x31`, the 32 floating-point
    /// registers, and the floating-point status register. Word `i` lies at
    /// byte `8 * i` of the frame.
    pub open spec fn layout(self) -> Seq<u64> {
        self.registers.layout() + self.fp_registers.f@ + seq![self.fp_registers.fscr]
    }

    /// The words of the frame, in the order of `layout`.
    pub fn to_words(&self) -> (words: [u64; 64])
        ensures
            words@ == self.layout(),
    {
        let words = [
            self.registers.ra,
            self.registers.sp,
            self.registers.gp,
            self.registers.tp,
            self.registers.t0,
            self.registers.t1,
            self.registers.t2,
            self.registers.s0,
            self.registers.s1,
            self.registers.a0,
            self.registers.a1,
            self.registers.a2,
            self.registers.a3,
            self.registers.a4,
            self.registers.a5,
            self.registers.a6,
            self.registers.a7,
            self.registers.s2,
            self.registers.s3,
            self.registers.s4,
            self.registers.s5,
            self.registers.s6,
            self.registers.s7,
            self.registers.s8,
            self.registers.s9,
            self.registers.s10,
            self.registers.s11,
            self.registers.t3,
            self.registers.t4,
            self.registers.t5,
            self.registers.t6,
            self.fp_registers.f[0],
            self.fp_registers.f[1],
            self.fp_registers.f[2],
            self.fp_registers.f[3],
            self.fp_registers.f[4],
            self.fp_registers.f[5],
            self.fp_registers.f[6],
            self.fp_registers.f[7],
            self.fp_registers.f[8],
            self.fp_registers.f[9],
            self.fp_registers.f[10],
            self.fp_registers.f[11],
            self.fp_registers.f[12],
            self.fp_registers.f[13],
            self.fp_registers.f[14],
            self.fp_registers.f[15],
            self.fp_registers.f[16],
            self.fp_registers.f[17],
            self.fp_registers.f[18],
            self.fp_registers.f[19],
            self.fp_registers.f[20],
            self.fp_registers.f[21],
            self.fp_registers.f[22],
            self.fp_registers.f[23],
            self.fp_registers.f[24],
            self.fp_registers.f[25],
            self.fp_registers.f[26],
            self.fp_registers.f[27],
            self.fp_registers.f[28],
            self.fp_registers.f[29],
            self.fp_registers.f[30],
            self.fp_registers.f[31],
            self.fp_registers.fscr,
        ];
        assert(words@ =~= self.layout());
        words
    }

    /// The frame that the words make, read in the order of `layout`.
    pub fn from_words(words: &[u64; 64]) -> (frame: TrapFrame)
        ensures
            frame.layout() == words@,
    {
        let frame = TrapFrame {
            registers: Registers {
                ra: words[0],
                sp: words[1],
                gp: words[2],
                tp: words[3],
                t0: words[4],
                t1: words[5],
                t2: words[6],
                s0: words[7],
                s1: words[8],
                a0: words[9],
                a1: words[10],
                a2: words[11],
                a3: words[12],
                a4: words[13],
                a5: words[14],
                a6: words[15],
                a7: words[16],
                s2: words[17],
                s3: words[18],
                s4: words[19],
                s5: words[20],
                s6: words[21],
                s7: words[22],
                s8: words[23],
                s9: words[24],
                s10: words[25],
                s11: words[26],
                t3: words[27],
                t4: words[28],
                t5: words[29],
                t6: words[30],
            },
            fp_registers: FloatingPointRegisters {
                f: [
                    words[31],
                    words[32],
                    words[33],
                    words[34],
                    words[35],
                    words[36],
                    words[37],
                    words[38],
                    words[39],
                    words[40],
                    words[41],
                    words[42],
                    words[43],
                    words[44],
                    words[45],
                    words[46],
                    words[47],
                    words[48],
                    words[49],
                    words[50],
                    words[51],
                    words[52],
                    words[53],
                    words[54],
                    words[55],
                    words[56],
                    words[57],
                    words[58],
                    words[59],
                    words[60],
                    words[61],
                    words[62],
                ],
                fscr: words[63],
            },
        };
        assert(frame.layout() =~= words@);
        frame
    }

    /// A frame is what its words make: nothing is lost on the way to memory
    /// and back.
    pub proof fn lemma_layout_injective(a: TrapFrame, b: TrapFrame)
        requires
            a.layout() == b.layout(),
        ensures
            a == b,
    {
        let la = a.layout();
        let lb = b.layout();
        assert(la[0] == a.registers.ra && lb[0] == b.registers.ra);
        assert(la[1] == a.registers.sp && lb[1] == b.registers.sp);
        assert(la[2] == a.registers.gp && lb[2] == b.registers.gp);
        assert(la[3] == a.registers.tp && lb[3] == b.registers.tp);
        assert(la[4] == a.registers.t0 && lb[4] == b.registers.t0);
        assert(la[5] == a.registers.t1 && lb[5] == b.registers.t1);
        assert(la[6] == a.registers.t2 && lb[6] == b.registers.t2);
        assert(la[7] == a.registers.s0 && lb[7] == b.registers.s0);
        assert(la[8] == a.registers.s1 && lb[8] == b.registers.s1);
        assert(la[9] == a.registers.a0 && lb[9] == b.registers.a0);
        assert(la[10] == a.registers.a1 && lb[10] == b.registers.a1);
        assert(la[11] == a.registers.a2 && lb[11] == b.registers.a2);
        assert(la[12] == a.registers.a3 && lb[12] == b.registers.a3);
        assert(la[13] == a.registers.a4 && lb[13] == b.registers.a4);
        assert(la[14] == a.registers.a5 && lb[14] == b.registers.a5);
        assert(la[15] == a.registers.a6 && lb[15] == b.registers.a6);
        assert(la[16] == a.registers.a7 && lb[16] == b.registers.a7);
        assert(la[17] == a.registers.s2 && lb[17] == b.registers.s2);
        assert(la[18] == a.registers.s3 && lb[18] == b.registers.s3);
        assert(la[19] == a.registers.s4 && lb[19] == b.registers.s4);
        assert(la[20] == a.registers.s5 && lb[20] == b.registers.s5);
        assert(la[21] == a.registers.s6 && lb[21] == b.registers.s6);
        assert(la[22] == a.registers.s7 && lb[22] == b.registers.s7);
        assert(la[23] == a.registers.s8 && lb[23] == b.registers.s8);
        assert(la[24] == a.registers.s9 && lb[24] == b.registers.s9);
        assert(la[25] == a.registers.s10 && lb[25] == b.registers.s10);
        assert(la[26] == a.registers.s11 && lb[26] == b.registers.s11);
        assert(la[27] == a.registers.t3 && lb[27] == b.registers.t3);
        assert(la[28] == a.registers.t4 && lb[28] == b.registers.t4);
        assert(la[29] == a.registers.t5 && lb[29] == b.registers.t5);
        assert(la[30] == a.registers.t6 && lb[30] == b.registers.t6);
        assert(a.registers == b.registers);
        assert forall|i: int| 0 <= i < 32 implies a.fp_registers.f@[i] == b.fp_registers.f@[i] by {
            assert(la[31 + i] == a.fp_registers.f@[i]);
            assert(lb[31 + i] == b.fp_registers.f@[i]);
        }
        assert(a.fp_registers.f@ =~= b.fp_registers.f@);
        assert(a.fp_registers.f =~= b.fp_registers.f);
        assert(la[63] == a.fp_registers.fscr);
        assert(lb[63] == b.fp_registers.fscr);
        assert(a.fp_registers == b.fp_registers);
    }
}

/// The bit of a cause that tells an interrupt from an exception.
pub const INTERRUPT_BIT: u64 = 0x8000_0000_0000_0000;

/// The code that stands for every cause without a meaning of its own.
pub const RESERVED_CAUSE: u64 = 0xFFFF_FFFF_FFFF_FFFF;

/// Why the hart entered the kernel.
#[derive(Debug, Clone, Copy, PartialEq, Eq, Structural)]
pub enum Trap {
    UserSoftwareInterrupt,
    SupervisorSoftwareInterrupt,
    MachineSoftwareInterrupt,
    UserTimerInterrupt,
    SupervisorTimerInterrupt,
    MachineTimerInterrupt,
    UserExternalInterrupt,
    SupervisorExternalInterrupt,
    MachineExternalInterrupt,
    InstructionAddressMisaligned,
    InstructionAccessFault,
    IllegalInstruction,
    Breakpoint,
    LoadAddressMisaligned,
    LoadAccessFault,
    StoreAddressMisaligned,
    StoreAccessFault,
    UserModeEnvironmentCall,
    SupervisorModeEnvironmentCall,
    MachineModeEnvironmentCall,
    InstructionPageFault,
    LoadPageFault,
    StorePageFault,
    Reserved,
}

impl Trap {
    /// The number that the hardware gives for this cause: for an interrupt
    /// the interrupt bit and its number, for an exception its number alone.
    pub open spec fn code(self) -> u64 {
        match self {
            Trap::UserSoftwareInterrupt => 0x8000_0000_0000_0000,
            Trap::SupervisorSoftwareInterrupt => 0x8000_0000_0000_0001,
            Trap::MachineSoftwareInterrupt => 0x8000_0000_0000_0003,
            Trap::UserTimerInterrupt => 0x8000_0000_0000_0004,
            Trap::SupervisorTimerInterrupt => 0x8000_0000_0000_0005,
            Trap::MachineTimerInterrupt => 0x8000_0000_0000_0007,
            Trap::UserExternalInterrupt => 0x8000_0000_0000_0008,
            Trap::SupervisorExternalInterrupt => 0x8000_0000_0000_0009,
            Trap::MachineExternalInterrupt => 0x8000_0000_0000_000B,
            Trap::InstructionAddressMisaligned => 0,
            Trap::InstructionAccessFault => 1,
            Trap::IllegalInstruction => 2,
            Trap::Breakpoint => 3,
            Trap::LoadAddressMisaligned => 4,
            Trap::LoadAccessFault => 5,
            Trap::StoreAddressMisaligned => 6,
            Trap::StoreAccessFault => 7,
            Trap::UserModeEnvironmentCall => 8,
            Trap::SupervisorModeEnvironmentCall => 9,
            Trap::MachineModeEnvironmentCall => 11,
            Trap::InstructionPageFault => 12,
            Trap::LoadPageFault => 13,
            Trap::StorePageFault => 15,
            Trap::Reserved => RESERVED_CAUSE,
        }
    }

    /// Whether `cause` is the number of a cause with a name of its own.
    pub open spec fn defined(cause: u64) -> bool {
        exists|trap: Trap| trap != Trap::Reserved && #[trigger] trap.code() == cause
    }

    /// The cause that the number `cause` stands for: the one with that code,
    /// and `Reserved` for a number that is the code of none.
    pub open spec fn decode(cause: u64) -> Trap {
        if Self::defined(cause) {
            choose|trap: Trap| trap != Trap::Reserved && #[trigger] trap.code() == cause
        } else {
            Trap::Reserved
        }
    }

    /// No two causes share a code.
    pub proof fn lemma_code_injective(a: Trap, b: Trap)
        requires
            a.code() == b.code(),
        ensures
            a == b,
    {
    }

    /// Decoding is the inverse of `code`: every cause is what its own code
    /// decodes to, and a number decodes to a cause other than `Reserved`
    /// only if it is the code of that cause.
    pub proof fn lemma_decode_inverts_code(trap: Trap, cause: u64)
        ensures
            Self::decode(trap.code()) == trap,
            Self::decode(cause) != Trap::Reserved ==> Self::decode(cause).code() == cause,
            !Self::defined(cause) ==> Self::decode(cause) == Trap::Reserved,
    {
        if trap != Trap::Reserved {
            assert(Self::defined(trap.code()));
            Self::lemma_code_injective(Self::decode(trap.code()), trap);
        } else {
            if Self::defined(RESERVED_CAUSE) {
                let other = choose|t: Trap| t != Trap::Reserved && #[trigger] t.code()
                    == RESERVED_CAUSE;
                Self::lemma_code_injective(other, Trap::Reserved);
            }
        }
    }

    /// Decodes the cause register. Every number has a meaning: that of the
    /// cause whose code it is, or `Reserved`.
    pub fn from_cause(cause: u64) -> (trap: Trap)
        ensures
            trap == Self::decode(cause),
            trap != Trap::Reserved ==> trap.code() == cause,
            trap == Trap::Reserved <==> !Self::defined(cause),
    {
        let trap = match cause {
            0x8000_0000_0000_0000 => Trap::UserSoftwareInterrupt,
            0x8000_0000_0000_0001 => Trap::SupervisorSoftwareInterrupt,
            0x8000_0000_0000_0003 => Trap::MachineSoftwareInterrupt,
            0x8000_0000_0000_0004 => Trap::UserTimerInterrupt,
            0x8000_0000_0000_0005 => Trap::SupervisorTimerInterrupt,
            0x8000_0000_0000_0007 => Trap::MachineTimerInterrupt,
            0x8000_0000_0000_0008 => Trap::UserExternalInterrupt,
            0x8000_0000_0000_0009 => Trap::SupervisorExternalInterrupt,
            0x8000_0000_0000_000B => Trap::MachineExternalInterrupt,
            0 => Trap::InstructionAddressMisaligned,
            1 => Trap::InstructionAccessFault,
            2 => Trap::IllegalInstruction,
            3 => Trap::Breakpoint,
            4 => Trap::LoadAddressMisaligned,
            5 => Trap::LoadAccessFault,
            6 => Trap::StoreAddressMisaligned,
            7 => Trap::StoreAccessFault,
            8 => Trap::UserModeEnvironmentCall,
            9 => Trap::SupervisorModeEnvironmentCall,
            11 => Trap::MachineModeEnvironmentCall,
            12 => Trap::InstructionPageFault,
            13 => Trap::LoadPageFault,
            15 => Trap::StorePageFault,
            _ => Trap::Reserved,
        };
        proof {
            if trap != Trap::Reserved {
                assert(trap.code() == cause);
                assert(Self::defined(cause));
                Self::lemma_code_injective(Self::decode(cause), trap);
            } else {
                if Self::defined(cause) {
                    let other = choose|t: Trap| t != Trap::Reserved && #[trigger] t.code() == cause;
                    assert(false);
                }
            }
        }
        trap
    }

    /// The number of this cause in the cause register.
    pub fn cause(self) -> (code: u64)
        ensures
            code == self.code(),
    {
        match self {
            Trap::UserSoftwareInterrupt => 0x8000_0000_0000_0000,
            Trap::SupervisorSoftwareInterrupt => 0x8000_0000_0000_0001,
            Trap::MachineSoftwareInterrupt => 0x8000_0000_0000_0003,
            Trap::UserTimerInterrupt => 0x8000_0000_0000_0004,
            Trap::SupervisorTimerInterrupt => 0x8000_0000_0000_0005,
            Trap::MachineTimerInterrupt => 0x8000_0000_0000_0007,
            Trap::UserExternalInterrupt => 0x8000_0000_0000_0008,
            Trap::SupervisorExternalInterrupt => 0x8000_0000_0000_0009,
            Trap::MachineExternalInterrupt => 0x8000_0000_0000_000B,
            Trap::InstructionAddressMisaligned => 0,
            Trap::InstructionAccessFault => 1,
            Trap::IllegalInstruction => 2,
            Trap::Breakpoint => 3,
            Trap::LoadAddressMisaligned => 4,
            Trap::LoadAccessFault => 5,
            Trap::StoreAddressMisaligned => 6,
            Trap::StoreAccessFault => 7,
            Trap::UserModeEnvironmentCall => 8,
            Trap::SupervisorModeEnvironmentCall => 9,
            Trap::MachineModeEnvironmentCall => 11,
            Trap::InstructionPageFault => 12,
            Trap::LoadPageFault => 13,
            Trap::StorePageFault => 15,
            Trap::Reserved => RESERVED_CAUSE,
        }
    }
}

} // verus!
