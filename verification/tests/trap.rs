use vanadinite::mem::address::{PhysicalAddress, VirtualAddress};
use vanadinite::mem::address_map::AddressMap;
use vanadinite::mem::paging::entry::{Permissions, ACCESSED, DIRTY, EXECUTE, READ, USER, VALID, WRITE};
use vanadinite::mem::paging::manager::PageTableManager;
use vanadinite::mem::paging::table::Sv39PageTable;
use vanadinite::task::{Hart, Task, TaskState};
use vanadinite::trap::handler::{
    finish_interrupt, finish_syscall, trap_handler, InterruptDone, KernelBug, KernelCall,
    TrapAction,
};
use vanadinite::trap::{FloatingPointRegisters, Registers, Trap, TrapFrame, INTERRUPT_BIT, RESERVED_CAUSE};

const ALL: [(u64, Trap); 23] = [
    (0x8000_0000_0000_0000, Trap::UserSoftwareInterrupt),
    (0x8000_0000_0000_0001, Trap::SupervisorSoftwareInterrupt),
    (0x8000_0000_0000_0003, Trap::MachineSoftwareInterrupt),
    (0x8000_0000_0000_0004, Trap::UserTimerInterrupt),
    (0x8000_0000_0000_0005, Trap::SupervisorTimerInterrupt),
    (0x8000_0000_0000_0007, Trap::MachineTimerInterrupt),
    (0x8000_0000_0000_0008, Trap::UserExternalInterrupt),
    (0x8000_0000_0000_0009, Trap::SupervisorExternalInterrupt),
    (0x8000_0000_0000_000B, Trap::MachineExternalInterrupt),
    (0, Trap::InstructionAddressMisaligned),
    (1, Trap::InstructionAccessFault),
    (2, Trap::IllegalInstruction),
    (3, Trap::Breakpoint),
    (4, Trap::LoadAddressMisaligned),
    (5, Trap::LoadAccessFault),
    (6, Trap::StoreAddressMisaligned),
    (7, Trap::StoreAccessFault),
    (8, Trap::UserModeEnvironmentCall),
    (9, Trap::SupervisorModeEnvironmentCall),
    (11, Trap::MachineModeEnvironmentCall),
    (12, Trap::InstructionPageFault),
    (13, Trap::LoadPageFault),
    (15, Trap::StorePageFault),
];

const TIMER: u64 = 0x8000_0000_0000_0005;
const EXTERNAL: u64 = 0x8000_0000_0000_0009;
const ECALL: u64 = 8;
const FETCH_FAULT: u64 = 12;
const LOAD_FAULT: u64 = 13;
const STORE_FAULT: u64 = 15;

fn va(address: u64) -> VirtualAddress {
    VirtualAddress::new(address)
}

fn task_with(pages: &[(u64, u64)]) -> Task {
    let mut tables = PageTableManager::new(Sv39PageTable::new());
    for &(address, bits) in pages {
        let frame = PhysicalAddress::new(0x8000_0000 + address);
        assert_eq!(tables.alloc_virtual(va(address), Permissions::new(bits), frame), Ok(()));
    }
    Task::new(0x1_0000, tables, AddressMap::new())
}

fn frame_with(a0: u64, a1: u64, a2: u64, a3: u64) -> TrapFrame {
    let mut frame = TrapFrame::default();
    frame.registers.a0 = a0;
    frame.registers.a1 = a1;
    frame.registers.a2 = a2;
    frame.registers.a3 = a3;
    frame.registers.sp = 0x7fff_f000;
    frame.fp_registers.f[3] = 0x4000_0000_0000_0000;
    frame.fp_registers.fscr = 1;
    frame
}

#[test]
fn every_defined_code_has_its_cause() {
    for (code, trap) in ALL {
        assert_eq!(Trap::from_cause(code), trap);
        assert_eq!(trap.cause(), code);
    }
    for i in 0..ALL.len() {
        for j in 0..ALL.len() {
            assert_eq!(ALL[i].0 == ALL[j].0, i == j);
            assert_eq!(ALL[i].1 == ALL[j].1, i == j);
        }
    }
}

#[test]
fn every_other_code_is_reserved() {
    let defined: Vec<u64> = ALL.iter().map(|c| c.0).collect();
    for low in 0..64u64 {
        for code in [low, INTERRUPT_BIT | low] {
            if !defined.contains(&code) {
                assert_eq!(Trap::from_cause(code), Trap::Reserved);
            }
        }
    }
    for code in [10, 14, 16, 0x100, 1 << 62, INTERRUPT_BIT | 2, INTERRUPT_BIT | 6, INTERRUPT_BIT | 10, u64::MAX - 1, u64::MAX] {
        assert_eq!(Trap::from_cause(code), Trap::Reserved);
    }
    assert_eq!(Trap::Reserved.cause(), u64::MAX);
    assert_eq!(RESERVED_CAUSE, u64::MAX);
    assert_eq!(INTERRUPT_BIT, 1 << 63);
}

#[test]
fn decoding_is_stable() {
    for (code, _) in ALL {
        assert_eq!(Trap::from_cause(code), Trap::from_cause(code));
        assert_eq!(Trap::from_cause(Trap::from_cause(code).cause()), Trap::from_cause(code));
    }
    assert_eq!(Trap::from_cause(Trap::Reserved.cause()), Trap::Reserved);
}

#[test]
fn the_stack_pointer_is_a_register() {
    let mut registers = Registers::zeroed();
    assert_eq!(registers.sp(), 0);
    registers.sp = 0x3f_ffff_f000;
    assert_eq!(registers.sp(), 0x3f_ffff_f000);
    assert_eq!(Registers::default(), Registers::zeroed());
    assert_eq!(FloatingPointRegisters::default(), FloatingPointRegisters::zeroed());
}

#[test]
fn system_calls_are_read_from_the_registers() {
    assert_eq!(KernelCall::from_registers(&frame_with(0, 1, 2, 3).registers), Some(KernelCall::Exit));
    assert_eq!(
        KernelCall::from_registers(&frame_with(1, 0x1000, 12, 0x2000).registers),
        Some(KernelCall::Print { virt: va(0x1000), len: 12, res_out: va(0x2000) })
    );
    assert_eq!(
        KernelCall::from_registers(&frame_with(2, 0x3000, 80, 0).registers),
        Some(KernelCall::ReadStdin { virt: va(0x3000), len: 80 })
    );
    assert_eq!(KernelCall::from_registers(&frame_with(3, 0, 0, 0).registers), None);
    assert_eq!(KernelCall::from_registers(&frame_with(u64::MAX, 0, 0, 0).registers), None);
}

#[test]
fn a_timer_interrupt_saves_the_task_and_schedules() {
    let mut hart = Hart { id: 0, current: Some(task_with(&[])) };
    let frame = frame_with(5, 6, 7, 8);
    assert_eq!(trap_handler(&mut hart, &frame, 0x1_2344, TIMER, 0), TrapAction::Schedule);
    let task = hart.current.unwrap();
    assert_eq!(task.context.pc, 0x1_2344);
    assert_eq!(task.context.gp_regs, frame.registers);
    assert_eq!(task.context.fp_regs, frame.fp_registers);
    assert_eq!(task.state, TaskState::Running);
}

#[test]
fn a_timer_interrupt_without_a_task_schedules() {
    let mut hart = Hart { id: 1, current: None };
    assert_eq!(trap_handler(&mut hart, &TrapFrame::default(), 0x8020_0000, TIMER, 0), TrapAction::Schedule);
    assert!(hart.current.is_none());
    assert_eq!(hart.id, 1);
}

#[test]
fn a_known_system_call_is_handed_back() {
    let mut hart = Hart { id: 0, current: Some(task_with(&[])) };
    assert_eq!(
        trap_handler(&mut hart, &frame_with(0, 0, 0, 0), 0x1_0000, ECALL, 0),
        TrapAction::Syscall(KernelCall::Exit)
    );
    assert_eq!(
        trap_handler(&mut hart, &frame_with(1, 0x5000, 4, 0x6000), 0x1_0000, ECALL, 0),
        TrapAction::Syscall(KernelCall::Print { virt: va(0x5000), len: 4, res_out: va(0x6000) })
    );
    assert_eq!(
        trap_handler(&mut hart, &frame_with(2, 0x5000, 4, 0), 0x1_0000, ECALL, 0),
        TrapAction::Syscall(KernelCall::ReadStdin { virt: va(0x5000), len: 4 })
    );
    let task = hart.current.as_ref().unwrap();
    assert_eq!(task.state, TaskState::Running);
    assert_eq!(task.context.pc, 0x1_0000);
    assert_eq!(task.context.gp_regs, Registers::zeroed());
}

#[test]
fn a_system_call_ends_with_the_next_instruction_saved() {
    let mut hart = Hart { id: 0, current: Some(task_with(&[])) };
    let frame = frame_with(77, 1, 2, 3);
    assert_eq!(finish_syscall(&mut hart, &frame, 0x1_2340), TrapAction::Schedule);
    let task = hart.current.as_ref().unwrap();
    assert_eq!(task.context.pc, 0x1_2344);
    assert_eq!(task.context.gp_regs, frame.registers);
    assert_eq!(task.context.fp_regs, frame.fp_registers);
    assert_eq!(task.state, TaskState::Running);
    let mut idle = Hart { id: 0, current: None };
    assert_eq!(
        finish_syscall(&mut idle, &frame, 0x1_2340),
        TrapAction::Panic(KernelBug::NoActiveTask(Trap::UserModeEnvironmentCall))
    );
}

#[test]
fn an_unknown_system_call_ends_the_task() {
    let mut hart = Hart { id: 0, current: Some(task_with(&[])) };
    let frame = frame_with(3, 0, 0, 0);
    assert_eq!(trap_handler(&mut hart, &frame, 0x1_0010, ECALL, 0), TrapAction::Schedule);
    let task = hart.current.as_ref().unwrap();
    assert_eq!(task.state, TaskState::Dead);
    assert_eq!(task.context.pc, 0x1_0014);
    assert_eq!(task.context.gp_regs, frame.registers);
}

#[test]
fn a_system_call_without_a_task_stops_the_kernel() {
    let mut hart = Hart { id: 0, current: None };
    assert_eq!(
        trap_handler(&mut hart, &frame_with(1, 0, 0, 0), 0x1_0000, ECALL, 0),
        TrapAction::Panic(KernelBug::NoActiveTask(Trap::UserModeEnvironmentCall))
    );
}

#[test]
fn an_external_interrupt_is_claimed_for_the_context_of_the_hart() {
    for (id, context) in [(0usize, 1usize), (1, 3), (5, 11)] {
        let mut hart = Hart { id, current: Some(task_with(&[])) };
        assert_eq!(
            trap_handler(&mut hart, &TrapFrame::default(), 0x1_0000, EXTERNAL, 0),
            TrapAction::ExternalInterrupt { context }
        );
        assert_eq!(hart.current.as_ref().unwrap().state, TaskState::Running);
    }
}

#[test]
fn a_claimed_interrupt_is_always_completed() {
    assert_eq!(finish_interrupt(10, Some(Ok(()))), InterruptDone { complete: 10, failed: false });
    assert_eq!(finish_interrupt(10, Some(Err(()))), InterruptDone { complete: 10, failed: true });
    assert_eq!(finish_interrupt(4, None), InterruptDone { complete: 4, failed: false });
}

#[test]
fn a_load_fault_on_a_mapped_page_is_repaired() {
    let mut hart = Hart { id: 0, current: Some(task_with(&[(0x5000, READ | USER)])) };
    assert_eq!(
        trap_handler(&mut hart, &TrapFrame::default(), 0x1_0000, LOAD_FAULT, 0x5678),
        TrapAction::Resume { invalidate: va(0x5678) }
    );
    let task = hart.current.as_ref().unwrap();
    assert_eq!(task.state, TaskState::Running);
    assert_eq!(task.context.pc, 0x1_0000);
    assert_eq!(task.memory_manager.page_flags(va(0x5000)), Some(VALID | READ | USER | ACCESSED));
}

#[test]
fn a_fetch_fault_on_a_mapped_page_is_repaired() {
    let mut hart = Hart { id: 0, current: Some(task_with(&[(0x1_0000, READ | EXECUTE | USER)])) };
    assert_eq!(
        trap_handler(&mut hart, &TrapFrame::default(), 0x1_0000, FETCH_FAULT, 0x1_0000),
        TrapAction::Resume { invalidate: va(0x1_0000) }
    );
    let task = hart.current.as_ref().unwrap();
    assert_eq!(
        task.memory_manager.page_flags(va(0x1_0000)),
        Some(VALID | READ | EXECUTE | USER | ACCESSED)
    );
}

#[test]
fn a_store_fault_on_a_writable_page_marks_it_dirty() {
    let mut hart = Hart { id: 0, current: Some(task_with(&[(0x5000, READ | WRITE | USER)])) };
    assert_eq!(
        trap_handler(&mut hart, &TrapFrame::default(), 0x1_0000, STORE_FAULT, 0x5ff8),
        TrapAction::Resume { invalidate: va(0x5ff8) }
    );
    let task = hart.current.as_ref().unwrap();
    assert_eq!(task.state, TaskState::Running);
    assert_eq!(
        task.memory_manager.page_flags(va(0x5000)),
        Some(VALID | READ | WRITE | USER | ACCESSED | DIRTY)
    );
}

#[test]
fn a_store_to_a_read_only_page_ends_the_task() {
    assert_eq!(Trap::from_cause(15), Trap::StorePageFault);
    assert_eq!(Trap::StorePageFault.cause(), 15);
    let mut hart = Hart { id: 0, current: Some(task_with(&[(0x5000, READ | USER)])) };
    assert_eq!(
        trap_handler(&mut hart, &TrapFrame::default(), 0x1_0000, 15, 0x5008),
        TrapAction::Schedule
    );
    let task = hart.current.as_ref().unwrap();
    assert_eq!(task.state, TaskState::Dead);
    assert_eq!(task.memory_manager.page_flags(va(0x5000)), Some(VALID | READ | USER));
    assert!(!task.memory_manager.is_valid_writable(va(0x5008)));
    assert!(task.memory_manager.is_valid_readable(va(0x5008)));
}

#[test]
fn a_fault_on_an_unmapped_page_ends_the_task() {
    for cause in [FETCH_FAULT, LOAD_FAULT, STORE_FAULT] {
        let mut hart = Hart { id: 0, current: Some(task_with(&[(0x5000, READ | WRITE | USER)])) };
        assert_eq!(
            trap_handler(&mut hart, &TrapFrame::default(), 0x1_0000, cause, 0x6000),
            TrapAction::Schedule
        );
        let task = hart.current.as_ref().unwrap();
        assert_eq!(task.state, TaskState::Dead);
        assert_eq!(task.memory_manager.page_flags(va(0x5000)), Some(VALID | READ | WRITE | USER));
        assert_eq!(task.memory_manager.page_flags(va(0x6000)), None);
    }
}

#[test]
fn a_fault_in_the_kernel_half_stops_the_kernel() {
    for (cause, trap) in [
        (FETCH_FAULT, Trap::InstructionPageFault),
        (LOAD_FAULT, Trap::LoadPageFault),
        (STORE_FAULT, Trap::StorePageFault),
    ] {
        let mut hart = Hart { id: 0, current: Some(task_with(&[])) };
        assert_eq!(
            trap_handler(&mut hart, &TrapFrame::default(), 0x1_0000, cause, 0xFFFF_FFC0_0000_0000),
            TrapAction::Panic(KernelBug::KernelPageFault(trap))
        );
        assert_eq!(hart.current.as_ref().unwrap().state, TaskState::Running);
        let mut idle = Hart { id: 0, current: None };
        assert_eq!(
            trap_handler(&mut idle, &TrapFrame::default(), 0x1_0000, cause, u64::MAX),
            TrapAction::Panic(KernelBug::KernelPageFault(trap))
        );
    }
}

#[test]
fn a_user_fault_without_a_task_stops_the_kernel() {
    let mut hart = Hart { id: 0, current: None };
    assert_eq!(
        trap_handler(&mut hart, &TrapFrame::default(), 0x1_0000, LOAD_FAULT, 0x5000),
        TrapAction::Panic(KernelBug::NoActiveTask(Trap::LoadPageFault))
    );
}

#[test]
fn every_other_trap_stops_the_kernel() {
    for (code, trap) in ALL {
        if [TIMER, EXTERNAL, ECALL, FETCH_FAULT, LOAD_FAULT, STORE_FAULT].contains(&code) {
            continue;
        }
        let mut hart = Hart { id: 0, current: Some(task_with(&[])) };
        assert_eq!(
            trap_handler(&mut hart, &TrapFrame::default(), 0x1_0000, code, 0),
            TrapAction::Panic(KernelBug::UnexpectedTrap(trap))
        );
        assert_eq!(hart.current.as_ref().unwrap().state, TaskState::Running);
    }
    let mut hart = Hart { id: 0, current: None };
    assert_eq!(
        trap_handler(&mut hart, &TrapFrame::default(), 0x1_0000, 14, 0),
        TrapAction::Panic(KernelBug::UnexpectedTrap(Trap::Reserved))
    );
}

#[test]
fn the_frame_is_laid_out_as_the_entry_code_stores_it() {
    let mut words = [0u64; 64];
    for (i, word) in words.iter_mut().enumerate() {
        *word = 0x1000 + i as u64;
    }
    let frame = TrapFrame::from_words(&words);
    assert_eq!(frame.registers.ra, 0x1000);
    assert_eq!(frame.registers.sp, 0x1001);
    assert_eq!(frame.registers.gp, 0x1002);
    assert_eq!(frame.registers.tp, 0x1003);
    assert_eq!(frame.registers.t0, 0x1004);
    assert_eq!(frame.registers.t2, 0x1006);
    assert_eq!(frame.registers.s0, 0x1007);
    assert_eq!(frame.registers.s1, 0x1008);
    assert_eq!(frame.registers.a0, 0x1009);
    assert_eq!(frame.registers.a7, 0x1010);
    assert_eq!(frame.registers.s2, 0x1011);
    assert_eq!(frame.registers.s11, 0x101a);
    assert_eq!(frame.registers.t3, 0x101b);
    assert_eq!(frame.registers.t6, 0x101e);
    for i in 0..32 {
        assert_eq!(frame.fp_registers.f[i], 0x101f + i as u64);
    }
    assert_eq!(frame.fp_registers.fscr, 0x103f);
    assert_eq!(frame.to_words(), words);
    assert_eq!(TrapFrame::from_words(&frame.to_words()), frame);
    assert_eq!(vanadinite::trap::FRAME_WORDS * 8, vanadinite::trap::FRAME_BYTES);
    assert_eq!(vanadinite::trap::FRAME_BYTES, 512);
    assert_eq!(TrapFrame::default().to_words(), [0u64; 64]);
}
