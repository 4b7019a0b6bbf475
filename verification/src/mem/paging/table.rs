//! One table of the Sv39 hierarchy: 512 entries, whatever its level.

use crate::mem::paging::entry::PageTableEntry;
use vstd::prelude::*;

verus! {

/// A page table.
#[derive(Debug, Clone, Copy)]
pub struct Sv39PageTable {
    pub entries: [PageTableEntry; 512],
}

impl Sv39PageTable {
    /// A table in which no entry is in use.
    pub fn new() -> (table: Self)
        ensures
            forall|slot: int| 0 <= slot < 512 ==> (#[trigger] table.entries[slot])@ == 0,
    {
        Sv39PageTable { entries: [PageTableEntry(0); 512] }
    }
}

} // verus!
