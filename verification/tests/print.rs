use vanadinite::mem::address::{PhysicalAddress, VirtualAddress};
use vanadinite::mem::address_map::AddressMap;
use vanadinite::mem::paging::entry::{Permissions, READ, USER, WRITE};
use vanadinite::mem::paging::manager::PageTableManager;
use vanadinite::mem::paging::table::Sv39PageTable;
use vanadinite::syscall::print::{print, PrintOutcome};
use vanadinite::task::{Task, TaskState};

fn va(address: u64) -> VirtualAddress {
    VirtualAddress::new(address)
}

/// A task with a readable page at 0x5000, a second one at 0x6000, a
/// writable page at 0x8000, a page at 0x9000 that may be written only, and
/// a page of the kernel that may be read and written.
fn task() -> Task {
    let mut tables = PageTableManager::new(Sv39PageTable::new());
    for (address, bits) in [
        (0x5000u64, READ | USER),
        (0x6000, READ | USER),
        (0x8000, READ | WRITE | USER),
        (0x9000, WRITE | USER),
        (0xFFFF_FFC0_0000_0000, READ | WRITE),
    ] {
        let frame = PhysicalAddress::new(0x8000_0000 + (address & 0xffff));
        assert_eq!(tables.alloc_virtual(va(address), Permissions::new(bits), frame), Ok(()));
    }
    Task::new(0x1_0000, tables, AddressMap::new())
}

#[test]
fn readable_bytes_are_printed() {
    let mut task = task();
    assert_eq!(
        print(&mut task, va(0x5010), 32, va(0x8000)),
        PrintOutcome::Write { virt: va(0x5010), len: 32, res_out: va(0x8000) }
    );
    assert_eq!(
        print(&mut task, va(0x5ff0), 0x20, va(0x8008)),
        PrintOutcome::Write { virt: va(0x5ff0), len: 0x20, res_out: va(0x8008) }
    );
    assert_eq!(
        print(&mut task, va(0x5000), 0, va(0x9000)),
        PrintOutcome::Write { virt: va(0x5000), len: 0, res_out: va(0x9000) }
    );
    assert_eq!(task.state, TaskState::Running);
    assert_eq!(task.context.pc, 0x1_0000);
}

#[test]
fn a_call_without_a_place_for_the_outcome_ends_the_task() {
    for res_out in [0x5000u64, 0x7000, 0xFFFF_FFC0_0000_0000, 0xFFFF_FFC0_0000_1000] {
        let mut task = task();
        assert_eq!(print(&mut task, va(0x5010), 32, va(res_out)), PrintOutcome::Killed);
        assert_eq!(task.state, TaskState::Dead);
        assert_eq!(task.context.pc, 0x1_0000);
    }
}

#[test]
fn bytes_that_are_not_mapped_for_reading_end_the_task() {
    for (virt, len) in [(0x7000u64, 8u64), (0x6ff8, 16), (0x9000, 8), (0x4ff8, 16), (0x5000, u64::MAX)] {
        let mut task = task();
        assert_eq!(print(&mut task, va(virt), len, va(0x8000)), PrintOutcome::Killed);
        assert_eq!(task.state, TaskState::Dead);
    }
}

#[test]
fn bytes_of_the_kernel_end_the_task() {
    let mut task = task();
    assert_eq!(print(&mut task, va(0xFFFF_FFC0_0000_0000), 8, va(0x8000)), PrintOutcome::Killed);
    assert_eq!(task.state, TaskState::Dead);
}
