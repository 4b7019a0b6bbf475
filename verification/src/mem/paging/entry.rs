//! One entry of an Sv39 page table, bit for bit as the hardware reads it.
//!
//! Bit 0 says whether the entry is in use. Bits 1 to 3 allow reads, writes
//! and fetches; an entry in use that allows none of them points to the table
//! of the next level, any other maps a page. Bits 10 to 53 hold a physical
//! page number.

use crate::mem::address::PhysicalAddress;
use vstd::prelude::*;

verus! {

/// The entry is in use.
pub const VALID: u64 = 1;

/// Loads from the page are allowed.
pub const READ: u64 = 2;

/// Stores to the page are allowed.
pub const WRITE: u64 = 4;

/// Instructions may be fetched from the page.
pub const EXECUTE: u64 = 8;

/// The page can be used from user mode.
pub const USER: u64 = 16;

/// The mapping is the same in every address space.
pub const GLOBAL: u64 = 32;

/// The page has been read, written or fetched from.
pub const ACCESSED: u64 = 64;

/// The page has been written.
pub const DIRTY: u64 = 128;

/// The bits that say what may be done with a page: read, write, execute and
/// user.
pub const PERMISSION_BITS: u64 = 0x1E;

/// The bits of which one at least is set in an entry that maps a page: read,
/// write and execute.
pub const ACCESS_BITS: u64 = 0xE;

/// The eight flag bits of an entry.
pub const FLAG_BITS: u64 = 0xFF;

/// One more than the largest physical page number that an entry can hold.
pub const PAGE_NUMBER_LIMIT: u64 = 0x1000_0000_0000;

/// One more than the largest physical address that an entry can map.
pub const PHYSICAL_LIMIT: u64 = 0x100_0000_0000_0000;

/// What may be done with a page.
#[derive(Debug, Clone, Copy, PartialEq, Eq)]
pub struct Permissions(u64);

impl Permissions {
    /// The permission bits, among `PERMISSION_BITS`.
    pub closed spec fn view(self) -> u64 {
        self.0 & PERMISSION_BITS
    }

    /// Whether the permissions allow an access of some kind: a read, a write
    /// or a fetch. Only such permissions make a mapping.
    pub open spec fn grants_access(self) -> bool {
        self@ & ACCESS_BITS != 0
    }

    /// Keeps the permission bits of `bits` and drops the rest.
    pub fn new(bits: u64) -> (perms: Self)
        ensures
            perms@ == bits & PERMISSION_BITS,
    {
        Self(bits)
    }

    pub fn value(self) -> (bits: u64)
        ensures
            bits == self@,
    {
        self.0 & PERMISSION_BITS
    }

    /// True exactly for permissions that allow an access of some kind.
    pub fn allows_access(self) -> (yes: bool)
        ensures
            yes == self.grants_access(),
    {
        let bits: u64 = self.0;
        assert(((bits & 0x1E) & 0xE != 0) == (bits & 0xE != 0)) by (bit_vector);
        bits & ACCESS_BITS != 0
    }
}

/// What an entry is: a mapping, a pointer to the table of the next level at
/// the address given, or nothing.
#[derive(Debug, Clone, Copy, PartialEq, Eq, Structural)]
pub enum EntryKind {
    Leaf,
    Branch(PhysicalAddress),
    NotValid,
}

/// One entry of a page table.
#[derive(Debug, Clone, Copy, PartialEq, Eq, Structural)]
pub struct PageTableEntry(pub u64);

impl PageTableEntry {
    /// The 64 bits of the entry.
    pub open spec fn view(self) -> u64 {
        self.0
    }

    /// Whether the entry is in use.
    pub open spec fn valid(self) -> bool {
        self@ & VALID != 0
    }

    /// Whether the entry maps a page.
    pub open spec fn leaf(self) -> bool {
        self@ & VALID != 0 && self@ & ACCESS_BITS != 0
    }

    /// Whether the entry points to a table of the next level.
    pub open spec fn branch(self) -> bool {
        self@ & VALID != 0 && self@ & ACCESS_BITS == 0
    }

    /// The physical page number that the entry holds.
    pub open spec fn page_number(self) -> u64 {
        (self@ >> 10) & 0xFFF_FFFF_FFFF
    }

    /// The flag bits of the entry.
    pub open spec fn flag_bits(self) -> u64 {
        self@ & FLAG_BITS
    }

    /// The entry that maps the page at `frame` with `perms`. The accessed
    /// and dirty bits are not set: the first use of the page traps.
    pub open spec fn leaf_of(frame: PhysicalAddress, perms: Permissions) -> PageTableEntry {
        PageTableEntry(((frame@ >> 12) << 10) | perms@ | VALID)
    }

    /// The entry that points to the table with page number `number`.
    pub open spec fn branch_to(number: u64) -> PageTableEntry {
        PageTableEntry((number << 10) | VALID)
    }

    /// The entry with its permission bits replaced by `perms`.
    pub open spec fn with_permissions(self, perms: Permissions) -> PageTableEntry {
        PageTableEntry((self@ & !PERMISSION_BITS) | perms@)
    }

    /// The entry marked as accessed, and as dirty too where `written` holds.
    pub open spec fn marked(self, written: bool) -> PageTableEntry {
        if written {
            PageTableEntry(self@ | ACCESSED | DIRTY)
        } else {
            PageTableEntry(self@ | ACCESSED)
        }
    }

    /// A page number has 44 bits.
    pub proof fn lemma_page_number_bound(self)
        ensures
            self.page_number() < PAGE_NUMBER_LIMIT,
    {
        let e: u64 = self@;
        assert(((e >> 10) & 0xFFF_FFFF_FFFF) < 0x1000_0000_0000) by (bit_vector);
    }

    /// What `leaf_of` makes: a mapping of the frame given, with the
    /// permissions given and no other flag.
    pub proof fn lemma_leaf_of(frame: PhysicalAddress, perms: Permissions)
        requires
            frame@ < PHYSICAL_LIMIT,
        ensures
            Self::leaf_of(frame, perms).valid(),
            Self::leaf_of(frame, perms).leaf() == perms.grants_access(),
            Self::leaf_of(frame, perms).page_number() == frame@ / 4096,
            Self::leaf_of(frame, perms).flag_bits() == perms@ | VALID,
            Self::leaf_of(frame, perms).flag_bits() & PERMISSION_BITS == perms@,
    {
        let f: u64 = frame@;
        let p: u64 = perms.0;
        assert(((((f >> 12) << 10) | (p & 0x1E) | 1) & 1 != 0) && ((((f >> 12) << 10) | (p & 0x1E)
            | 1) & 0xE != 0) == ((p & 0x1E) & 0xE != 0) && (((((f >> 12) << 10) | (p & 0x1E) | 1)
            >> 10) & 0xFFF_FFFF_FFFF) == f / 4096 && ((((f >> 12) << 10) | (p & 0x1E) | 1) & 0xFF)
            == ((p & 0x1E) | 1) && (((((f >> 12) << 10) | (p & 0x1E) | 1) & 0xFF) & 0x1E) == (p
            & 0x1E)) by (bit_vector)
            requires
                f < 0x100_0000_0000_0000,
        ;
    }

    /// What `branch_to` makes: a pointer to the table of that number.
    pub proof fn lemma_branch_to(number: u64)
        requires
            number < PAGE_NUMBER_LIMIT,
        ensures
            Self::branch_to(number).valid(),
            Self::branch_to(number).branch(),
            !Self::branch_to(number).leaf(),
            Self::branch_to(number).page_number() == number,
    {
        assert((((number << 10) | 1) & 1 != 0) && (((number << 10) | 1) & 0xE == 0) && ((((number
            << 10) | 1) >> 10) & 0xFFF_FFFF_FFFF) == number) by (bit_vector)
            requires
                number < 0x1000_0000_0000,
        ;
    }

    /// `with_permissions` changes the permission bits and nothing else.
    pub proof fn lemma_with_permissions(self, perms: Permissions)
        ensures
            self.with_permissions(perms).valid() == self.valid(),
            self.with_permissions(perms).page_number() == self.page_number(),
            self.with_permissions(perms).flag_bits() & PERMISSION_BITS == perms@,
            self.with_permissions(perms).flag_bits() & !PERMISSION_BITS == self.flag_bits()
                & !PERMISSION_BITS,
            self.valid() ==> self.with_permissions(perms).leaf() == perms.grants_access(),
    {
        let e: u64 = self@;
        let p: u64 = perms.0;
        assert((((e & !0x1E) | (p & 0x1E)) & 1 != 0) == (e & 1 != 0) && ((((e & !0x1E) | (p
            & 0x1E)) >> 10) & 0xFFF_FFFF_FFFF) == ((e >> 10) & 0xFFF_FFFF_FFFF) && ((((e & !0x1E)
            | (p & 0x1E)) & 0xFF) & 0x1E) == (p & 0x1E) && ((((e & !0x1E) | (p & 0x1E)) & 0xFF)
            & !0x1E) == ((e & 0xFF) & !0x1E) && ((((e & !0x1E) | (p & 0x1E)) & 0xE) != 0) == ((p
            & 0x1E) & 0xE != 0)) by (bit_vector);
    }

    /// `marked` sets the accessed bit, and the dirty bit where asked, and
    /// changes nothing else: the page, and what may be done with it, stay.
    pub proof fn lemma_marked(self, written: bool)
        ensures
            self.marked(written).valid() == self.valid(),
            self.marked(written).leaf() == self.leaf(),
            self.marked(written).branch() == self.branch(),
            self.marked(written).page_number() == self.page_number(),
            self.marked(written).flag_bits() & PERMISSION_BITS == self.flag_bits()
                & PERMISSION_BITS,
            self.marked(written).flag_bits() == self.flag_bits() | ACCESSED | (if written {
                DIRTY
            } else {
                0
            }),
    {
        let e: u64 = self@;
        assert(((e | 64) & 1 != 0) == (e & 1 != 0) && ((e | 64) & 0xE) == (e & 0xE) && (((e | 64)
            >> 10) & 0xFFF_FFFF_FFFF) == ((e >> 10) & 0xFFF_FFFF_FFFF) && (((e | 64) & 0xFF)
            & 0x1E) == ((e & 0xFF) & 0x1E) && ((e | 64) & 0xFF) == ((e & 0xFF) | 64 | 0))
            by (bit_vector);
        assert(((e | 64 | 128) & 1 != 0) == (e & 1 != 0) && ((e | 64 | 128) & 0xE) == (e & 0xE)
            && (((e | 64 | 128) >> 10) & 0xFFF_FFFF_FFFF) == ((e >> 10) & 0xFFF_FFFF_FFFF) && (((e
            | 64 | 128) & 0xFF) & 0x1E) == ((e & 0xFF) & 0x1E) && ((e | 64 | 128) & 0xFF) == ((e
            & 0xFF) | 64 | 128)) by (bit_vector);
    }

    /// An entry that is not in use.
    pub fn new() -> (entry: Self)
        ensures
            entry@ == 0,
            !entry.valid(),
    {
        assert(0u64 & 1 == 0) by (bit_vector);
        PageTableEntry(0)
    }

    pub fn is_valid(&self) -> (yes: bool)
        ensures
            yes == self.valid(),
    {
        self.0 & VALID != 0
    }

    pub fn is_leaf(&self) -> (yes: bool)
        ensures
            yes == self.leaf(),
    {
        self.0 & VALID != 0 && self.0 & ACCESS_BITS != 0
    }

    /// Whether the entry maps a page that may be read.
    pub fn is_readable(&self) -> (yes: bool)
        ensures
            yes == (self.leaf() && self.flag_bits() & READ != 0),
    {
        let e: u64 = self.0;
        assert(((e & 0xFF) & 2 != 0) == (e & 2 != 0)) by (bit_vector);
        self.is_leaf() && self.0 & READ != 0
    }

    /// Whether the entry maps a page that may be written.
    pub fn is_writable(&self) -> (yes: bool)
        ensures
            yes == (self.leaf() && self.flag_bits() & WRITE != 0),
    {
        let e: u64 = self.0;
        assert(((e & 0xFF) & 4 != 0) == (e & 4 != 0)) by (bit_vector);
        self.is_leaf() && self.0 & WRITE != 0
    }

    /// The flag bits.
    pub fn flags(&self) -> (bits: u64)
        ensures
            bits == self.flag_bits(),
    {
        self.0 & FLAG_BITS
    }

    /// The physical page number in the entry, whatever the entry is.
    pub fn number(&self) -> (n: u64)
        ensures
            n == self.page_number(),
            n < PAGE_NUMBER_LIMIT,
    {
        let e: u64 = self.0;
        assert(((e >> 10) & 0xFFF_FFFF_FFFF) < 0x1000_0000_0000) by (bit_vector);
        (self.0 >> 10) & 0xFFF_FFFF_FFFF
    }

    /// The address of the page that an entry in use names: the page it maps,
    /// or the table it points to.
    pub fn ppn(&self) -> (page: Option<PhysicalAddress>)
        ensures
            page is Some == self.valid(),
            page matches Some(address) ==> address@ == self.page_number() * 4096,
    {
        if self.is_valid() {
            let n = self.number();
            Some(PhysicalAddress::new(n * 4096))
        } else {
            None
        }
    }

    pub fn kind(&self) -> (kind: EntryKind)
        ensures
            kind is Leaf == self.leaf(),
            kind is Branch == self.branch(),
            kind is NotValid == !self.valid(),
            kind matches EntryKind::Branch(table) ==> table@ == self.page_number() * 4096,
    {
        if !self.is_valid() {
            EntryKind::NotValid
        } else if self.0 & ACCESS_BITS != 0 {
            EntryKind::Leaf
        } else {
            let n = self.number();
            EntryKind::Branch(PhysicalAddress::new(n * 4096))
        }
    }

    /// Makes the entry map the page at `frame`.
    pub fn make_leaf(&mut self, frame: PhysicalAddress, perms: Permissions)
        ensures
            *final(self) == Self::leaf_of(frame, perms),
    {
        self.0 = ((frame.as_u64() >> 12) << 10) | perms.value() | VALID;
    }

    /// Makes the entry point to the table with page number `number`.
    pub fn make_branch(&mut self, number: u64)
        requires
            number < PAGE_NUMBER_LIMIT,
        ensures
            *final(self) == Self::branch_to(number),
    {
        assert(number << 10 == number * 1024) by (bit_vector)
            requires
                number < 0x1000_0000_0000,
        ;
        self.0 = (number << 10) | VALID;
    }

    /// Replaces the permission bits and keeps the rest.
    pub fn set_permissions(&mut self, perms: Permissions)
        ensures
            *final(self) == old(self).with_permissions(perms),
    {
        self.0 = (self.0 & !PERMISSION_BITS) | perms.value();
    }

    /// Sets the accessed bit, and the dirty bit too where `written` holds.
    pub fn mark(&mut self, written: bool)
        ensures
            *final(self) == old(self).marked(written),
    {
        if written {
            self.0 = self.0 | ACCESSED | DIRTY;
        } else {
            self.0 = self.0 | ACCESSED;
        }
    }
}

} // verus!
