//! The system calls for memory: asking what a memory capability covers, and
//! asking for memory.
//!
//! A function here makes the request that is to be sent to the kernel; the
//! sending is the caller's. What comes back is read by the function that
//! goes with it.

use crate::capabilities::CapabilityPtr;
use crate::mem::address::PhysicalAddress;
use vstd::prelude::*;

verus! {

/// The memory may be read. Every mapping may be: this is no bit.
pub const READ: usize = 0;

/// The memory may be written.
pub const WRITE: usize = 1;

/// The memory may be executed.
pub const EXECUTE: usize = 2;

/// What a task may do with memory. Reading is always allowed; writing and
/// executing have a bit each.
#[derive(Debug, Clone, Copy, PartialEq, Eq)]
pub struct MemoryPermissions(usize);

impl MemoryPermissions {
    /// The bits.
    pub closed spec fn view(self) -> usize {
        self.0
    }

    /// Whether every bit of `other` is a bit of `self`.
    pub open spec fn includes(self, other: Self) -> bool {
        self@ & other@ == other@
    }

    /// The permissions of both.
    pub closed spec fn union(self, other: Self) -> Self {
        MemoryPermissions(self.0 | other.0)
    }

    /// The union holds exactly the bits of both.
    pub proof fn lemma_union(self, other: Self)
        ensures
            self.union(other)@ == self@ | other@,
    {
    }

    pub fn new(flags: usize) -> (perms: Self)
        ensures
            perms@ == flags,
    {
        Self(flags)
    }

    pub fn value(self) -> (flags: usize)
        ensures
            flags == self@,
    {
        self.0
    }
}

impl vstd::std_specs::ops::BitOrSpecImpl for MemoryPermissions {
    open spec fn obeys_bitor_spec() -> bool {
        true
    }

    open spec fn bitor_req(self, rhs: Self) -> bool {
        true
    }

    open spec fn bitor_spec(self, rhs: Self) -> Self {
        self.union(rhs)
    }
}

impl core::ops::BitOr for MemoryPermissions {
    type Output = Self;

    fn bitor(self, rhs: Self) -> (both: Self)
        ensures
            both == self.union(rhs),
            both@ == self@ | rhs@,
    {
        Self(self.0 | rhs.0)
    }
}

impl vstd::std_specs::ops::BitAndSpecImpl for MemoryPermissions {
    open spec fn obeys_bitand_spec() -> bool {
        true
    }

    open spec fn bitand_req(self, rhs: Self) -> bool {
        true
    }

    open spec fn bitand_spec(self, rhs: Self) -> bool {
        self.includes(rhs)
    }
}

impl core::ops::BitAnd for MemoryPermissions {
    type Output = bool;

    /// Not an intersection: whether `self` holds every bit of `rhs`.
    fn bitand(self, rhs: Self) -> (yes: bool)
        ensures
            yes == self.includes(rhs),
    {
        self.0 & rhs.0 == rhs.0
    }
}

/// No option.
pub const NONE: usize = 0;

/// Use large pages.
pub const LARGE_PAGE: usize = 1;

/// Hand the memory out zeroed.
pub const ZERO: usize = 2;

/// Zero the memory when it is given back.
pub const ZERO_ON_DROP: usize = 4;

/// Back the memory with pages only when it is used.
pub const LAZY: usize = 8;

/// Let the tasks of the same group use the memory.
pub const JOB_GROUP_AVAILABLE: usize = 16;

/// How virtual memory is to be allocated: a set of the options above.
#[derive(Debug, Clone, Copy, PartialEq, Eq)]
pub struct AllocationOptions(usize);

impl AllocationOptions {
    /// The bits.
    pub closed spec fn view(self) -> usize {
        self.0
    }

    /// Whether every option of `other` is an option of `self`.
    pub open spec fn includes(self, other: Self) -> bool {
        self@ & other@ == other@
    }

    /// The options of both.
    pub closed spec fn union(self, other: Self) -> Self {
        AllocationOptions(self.0 | other.0)
    }

    /// The union holds exactly the bits of both.
    pub proof fn lemma_union(self, other: Self)
        ensures
            self.union(other)@ == self@ | other@,
    {
    }

    pub fn new(flags: usize) -> (options: Self)
        ensures
            options@ == flags,
    {
        Self(flags)
    }

    pub fn value(self) -> (flags: usize)
        ensures
            flags == self@,
    {
        self.0
    }
}

impl vstd::std_specs::ops::BitOrSpecImpl for AllocationOptions {
    open spec fn obeys_bitor_spec() -> bool {
        true
    }

    open spec fn bitor_req(self, rhs: Self) -> bool {
        true
    }

    open spec fn bitor_spec(self, rhs: Self) -> Self {
        self.union(rhs)
    }
}

impl core::ops::BitOr for AllocationOptions {
    type Output = Self;

    fn bitor(self, rhs: Self) -> (both: Self)
        ensures
            both == self.union(rhs),
            both@ == self@ | rhs@,
    {
        Self(self.0 | rhs.0)
    }
}

impl vstd::std_specs::ops::BitAndSpecImpl for AllocationOptions {
    open spec fn obeys_bitand_spec() -> bool {
        true
    }

    open spec fn bitand_req(self, rhs: Self) -> bool {
        true
    }

    open spec fn bitand_spec(self, rhs: Self) -> bool {
        self.includes(rhs)
    }
}

impl core::ops::BitAnd for AllocationOptions {
    type Output = bool;

    /// Not an intersection: whether `self` holds every option of `rhs`.
    fn bitand(self, rhs: Self) -> (yes: bool)
        ensures
            yes == self.includes(rhs),
    {
        self.0 & rhs.0 == rhs.0
    }
}

/// How memory for device access is to be allocated: `NONE` or `ZERO`.
#[derive(Debug, Clone, Copy, PartialEq, Eq)]
pub struct DmaAllocationOptions(usize);

impl DmaAllocationOptions {
    /// The bits.
    pub closed spec fn view(self) -> usize {
        self.0
    }

    /// Whether every option of `other` is an option of `self`.
    pub open spec fn includes(self, other: Self) -> bool {
        self@ & other@ == other@
    }

    /// The options of both.
    pub closed spec fn union(self, other: Self) -> Self {
        DmaAllocationOptions(self.0 | other.0)
    }

    /// The union holds exactly the bits of both.
    pub proof fn lemma_union(self, other: Self)
        ensures
            self.union(other)@ == self@ | other@,
    {
    }

    pub fn new(flags: usize) -> (options: Self)
        ensures
            options@ == flags,
    {
        Self(flags)
    }

    pub fn value(self) -> (flags: usize)
        ensures
            flags == self@,
    {
        self.0
    }
}

impl vstd::std_specs::ops::BitOrSpecImpl for DmaAllocationOptions {
    open spec fn obeys_bitor_spec() -> bool {
        true
    }

    open spec fn bitor_req(self, rhs: Self) -> bool {
        true
    }

    open spec fn bitor_spec(self, rhs: Self) -> Self {
        self.union(rhs)
    }
}

impl core::ops::BitOr for DmaAllocationOptions {
    type Output = Self;

    fn bitor(self, rhs: Self) -> (both: Self)
        ensures
            both == self.union(rhs),
            both@ == self@ | rhs@,
    {
        Self(self.0 | rhs.0)
    }
}

impl vstd::std_specs::ops::BitAndSpecImpl for DmaAllocationOptions {
    open spec fn obeys_bitand_spec() -> bool {
        true
    }

    open spec fn bitand_req(self, rhs: Self) -> bool {
        true
    }

    open spec fn bitand_spec(self, rhs: Self) -> bool {
        self.includes(rhs)
    }
}

impl core::ops::BitAnd for DmaAllocationOptions {
    type Output = bool;

    /// Not an intersection: whether `self` holds every option of `rhs`.
    fn bitand(self, rhs: Self) -> (yes: bool)
        ensures
            yes == self.includes(rhs),
    {
        self.0 & rhs.0 == rhs.0
    }
}

/// The system calls for memory.
#[derive(Debug, Clone, Copy, PartialEq, Eq, Structural)]
pub enum Syscall {
    AllocDmaMemory,
    AllocVirtualMemory,
    QueryMemoryCapability,
}

/// A request to the kernel: the call, and its twelve argument words.
#[derive(Debug, Clone, Copy, PartialEq, Eq)]
pub struct SyscallRequest {
    pub syscall: Syscall,
    pub arguments: [usize; 12],
}

/// The request `syscall` with the arguments `a`, `b` and `c` and zeros after
/// them.
pub open spec fn request(syscall: Syscall, a: usize, b: usize, c: usize) -> SyscallRequest {
    SyscallRequest { syscall, arguments: [a, b, c, 0, 0, 0, 0, 0, 0, 0, 0, 0] }
}

/// The request that asks what the memory capability `cptr` covers. The
/// answer is read by `memory_capability`.
pub fn query_memory_capability(cptr: CapabilityPtr) -> (asked: SyscallRequest)
    ensures
        asked == request(Syscall::QueryMemoryCapability, cptr@, 0, 0),
{
    SyscallRequest {
        syscall: Syscall::QueryMemoryCapability,
        arguments: [cptr.value(), 0, 0, 0, 0, 0, 0, 0, 0, 0, 0, 0],
    }
}

/// Reads the answer to `query_memory_capability`: where the memory is, how
/// long it is, and what may be done with it; or the error, as it came.
pub fn memory_capability<E>(answer: Result<(usize, usize, usize), E>) -> (covered: Result<
    (usize, usize, MemoryPermissions),
    E,
>)
    ensures
        match answer {
            Ok((ptr, len, perms)) => covered matches Ok((p, l, m)) && p == ptr && l == len && m@
                == perms,
            Err(e) => covered == Err::<(usize, usize, MemoryPermissions), E>(e),
        },
{
    match answer {
        Ok((ptr, len, perms)) => Ok((ptr, len, MemoryPermissions::new(perms))),
        Err(e) => Err(e),
    }
}

/// The request for `size_in_bytes` bytes of virtual memory, allocated as
/// `options` say and usable as `perms` say. The answer is a pointer to the
/// memory, or an error.
pub fn alloc_virtual_memory(
    size_in_bytes: usize,
    options: AllocationOptions,
    perms: MemoryPermissions,
) -> (asked: SyscallRequest)
    ensures
        asked == request(Syscall::AllocVirtualMemory, size_in_bytes, options@, perms@),
{
    SyscallRequest {
        syscall: Syscall::AllocVirtualMemory,
        arguments: [size_in_bytes, options.value(), perms.value(), 0, 0, 0, 0, 0, 0, 0, 0, 0],
    }
}

/// The request for `size_in_bytes` bytes of memory that devices can reach.
/// The answer is read by `dma_memory`.
pub fn alloc_dma_memory(size_in_bytes: usize, options: DmaAllocationOptions) -> (asked:
    SyscallRequest)
    ensures
        asked == request(Syscall::AllocDmaMemory, size_in_bytes, options@, 0),
{
    SyscallRequest {
        syscall: Syscall::AllocDmaMemory,
        arguments: [size_in_bytes, options.value(), 0, 0, 0, 0, 0, 0, 0, 0, 0, 0],
    }
}

/// Reads the answer to `alloc_dma_memory`: the physical address of the
/// memory and the pointer to it; or the error, as it came.
pub fn dma_memory<E>(answer: Result<(usize, usize), E>) -> (given: Result<
    (PhysicalAddress, usize),
    E,
>)
    ensures
        match answer {
            Ok((phys, virt)) => given matches Ok((p, v)) && p@ == phys && v == virt,
            Err(e) => given == Err::<(PhysicalAddress, usize), E>(e),
        },
{
    match answer {
        Ok((phys, virt)) => Ok((PhysicalAddress::new(phys as u64), virt)),
        Err(e) => Err(e),
    }
}

} // verus!
