//! Physical memory that backs a span of a task's address space.

use crate::mem::address::{PageSize, PhysicalAddress};
use vstd::prelude::*;

verus! {

/// A run of physical pages of one size, handed out by the physical allocator
/// and owned by whoever holds this value.
#[derive(Debug, PartialEq, Eq)]
pub struct MemoryRegion {
    pub start: PhysicalAddress,
    pub pages: u64,
    pub size: PageSize,
}

impl MemoryRegion {
    pub fn new(start: PhysicalAddress, pages: u64, size: PageSize) -> (region: Self)
        ensures
            region.start == start,
            region.pages == pages,
            region.size == size,
    {
        Self { start, pages, size }
    }

    /// The size of the pages of this region.
    pub fn page_size(&self) -> (size: PageSize)
        ensures
            size == self.size,
    {
        self.size
    }
}

} // verus!
