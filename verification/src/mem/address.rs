//! Virtual and physical addresses of a 64-bit machine with Sv39 translation.

use core::ops::Range;
use vstd::prelude::*;

verus! {

/// First address of the range that tasks may use.
pub const USERSPACE_START: u64 = 0;

/// One past the last address that tasks may use: the lower half of the
/// 39-bit space.
pub const USERSPACE_END: u64 = 0x40_0000_0000;

/// First address of the half that belongs to the kernel in every task.
pub const KERNEL_REGION_START: u64 = 0xFFFF_FFC0_0000_0000;

/// The three sizes at which one table entry can map memory.
#[derive(Debug, Clone, Copy, PartialEq, Eq, Structural)]
pub enum PageSize {
    Kilopage,
    Megapage,
    Gigapage,
}

impl PageSize {
    /// Bytes in a page of this size.
    pub open spec fn bytes(self) -> int {
        match self {
            PageSize::Kilopage => 4096,
            PageSize::Megapage => 0x20_0000,
            PageSize::Gigapage => 0x4000_0000,
        }
    }

    /// The level of the table whose entries map pages of this size: 0 for the
    /// last table of a walk, 2 for the root.
    pub open spec fn level(self) -> int {
        match self {
            PageSize::Kilopage => 0,
            PageSize::Megapage => 1,
            PageSize::Gigapage => 2,
        }
    }

    pub fn to_byte_size(self) -> (n: u64)
        ensures
            n == self.bytes(),
    {
        match self {
            PageSize::Kilopage => 4096,
            PageSize::Megapage => 0x20_0000,
            PageSize::Gigapage => 0x4000_0000,
        }
    }
}

/// An address as a task or the kernel sees it.
#[derive(Debug, Clone, Copy, PartialEq, Eq, Structural, PartialOrd, Ord, Hash)]
pub struct VirtualAddress(u64);

impl VirtualAddress {
    /// The address as a number.
    pub closed spec fn view(self) -> u64 {
        self.0
    }

    /// Index into the table of `level` that a walk for address `addr` uses.
    pub open spec fn vpn(addr: int, level: int) -> int {
        if level == 0 {
            (addr / 4096) % 512
        } else if level == 1 {
            (addr / 0x20_0000) % 512
        } else {
            (addr / 0x4000_0000) % 512
        }
    }

    /// Two virtual addresses are the same exactly when their numbers are.
    pub proof fn lemma_view_injective(a: Self, b: Self)
        ensures
            a@ == b@ <==> a == b,
    {
    }

    /// The virtual address with the number `addr`.
    pub closed spec fn at(addr: u64) -> Self {
        Self(addr)
    }

    /// `at` is the inverse of the view.
    pub proof fn lemma_at(addr: u64)
        ensures
            Self::at(addr)@ == addr,
    {
    }

    #[verifier::when_used_as_spec(at)]
    pub fn new(addr: u64) -> (va: Self)
        ensures
            va@ == addr,
            va == Self::at(addr),
    {
        Self(addr)
    }

    pub fn as_u64(self) -> (addr: u64)
        ensures
            addr == self@,
    {
        self.0
    }

    /// The address `bytes` further on. The sum must exist: nothing wraps.
    pub fn offset(self, bytes: u64) -> (va: Self)
        requires
            self@ + bytes <= u64::MAX,
        ensures
            va@ == self@ + bytes,
    {
        Self(self.0 + bytes)
    }

    /// The address `bytes` further on, or nothing where that would pass the
    /// end of the address space.
    pub fn checked_offset(self, bytes: u64) -> (va: Option<Self>)
        ensures
            self@ + bytes <= u64::MAX ==> va is Some && va.unwrap()@ == self@ + bytes,
            self@ + bytes > u64::MAX ==> va is None,
    {
        match self.0.checked_add(bytes) {
            Some(sum) => Some(Self(sum)),
            None => None,
        }
    }

    /// Whether the address lies in the half that the kernel keeps.
    pub fn is_kernel_region(self) -> (yes: bool)
        ensures
            yes == (self@ >= KERNEL_REGION_START),
    {
        self.0 >= KERNEL_REGION_START
    }

    /// The table indices of a walk for this address, last level first.
    pub fn vpns(self) -> (idx: [u64; 3])
        ensures
            idx[0] == Self::vpn(self@ as int, 0),
            idx[1] == Self::vpn(self@ as int, 1),
            idx[2] == Self::vpn(self@ as int, 2),
            idx[0] < 512 && idx[1] < 512 && idx[2] < 512,
    {
        [(self.0 / 4096) % 512, (self.0 / 0x20_0000) % 512, (self.0 / 0x4000_0000) % 512]
    }

    /// The whole range that tasks may use.
    pub fn userspace_range() -> (range: Range<VirtualAddress>)
        ensures
            range.start@ == USERSPACE_START,
            range.end@ == USERSPACE_END,
    {
        Range { start: Self(USERSPACE_START), end: Self(USERSPACE_END) }
    }
}

/// An address of physical memory.
#[derive(Debug, Clone, Copy, PartialEq, Eq, Structural, PartialOrd, Ord, Hash)]
pub struct PhysicalAddress(u64);

impl PhysicalAddress {
    /// The address as a number.
    pub closed spec fn view(self) -> u64 {
        self.0
    }

    /// Two physical addresses are the same exactly when their numbers are.
    pub proof fn lemma_view_injective(a: Self, b: Self)
        ensures
            a@ == b@ <==> a == b,
    {
    }

    /// The physical address with the number `addr`.
    pub closed spec fn at(addr: u64) -> Self {
        Self(addr)
    }

    /// `at` is the inverse of the view.
    pub proof fn lemma_at(addr: u64)
        ensures
            Self::at(addr)@ == addr,
    {
    }

    #[verifier::when_used_as_spec(at)]
    pub fn new(addr: u64) -> (pa: Self)
        ensures
            pa@ == addr,
            pa == Self::at(addr),
    {
        Self(addr)
    }

    pub fn as_u64(self) -> (addr: u64)
        ensures
            addr == self@,
    {
        self.0
    }

    /// The physical page number: the address without its offset in the page.
    pub fn ppn(self) -> (n: u64)
        ensures
            n == self@ / 4096,
    {
        self.0 / 4096
    }
}

} // verus!
