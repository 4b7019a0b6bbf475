//! The page tables of one address space, and the operations on them.
//!
//! The manager owns its tables in an arena. The root is table 0. An entry
//! that points to a table of the next level holds, as its page number, the
//! place of that table in the arena, and the arena notes for every table
//! the entry that points to it. A pointer is followed only where that note
//! agrees, so whatever the entries hold, a walk stays among the manager's
//! own tables, and no table is reached by two paths.

use crate::mem::address::{PageSize, PhysicalAddress, VirtualAddress};
use crate::mem::paging::entry::{
    PageTableEntry, Permissions, PAGE_NUMBER_LIMIT, PHYSICAL_LIMIT, READ, WRITE,
};
use crate::mem::paging::table::Sv39PageTable;
use vstd::prelude::*;

verus! {

/// First slot of the root that belongs to the kernel half of the address
/// space.
pub const KERNEL_SLOTS_START: usize = 256;

/// Why a page could not be mapped.
#[derive(Debug, Clone, Copy, PartialEq, Eq, Structural)]
pub enum MapError {
    /// The virtual or the physical address is not a multiple of the page size.
    Misaligned,
    /// The physical address is beyond what an entry can hold.
    OutOfRange,
    /// The permissions allow no access, so no mapping can carry them.
    NoAccess,
    /// Something is mapped already at the address, or around it, or in it.
    AlreadyMapped,
    /// The arena cannot take the tables that the mapping may need.
    OutOfTables,
}

/// The entry that points to a table: its table and its slot there.
#[derive(Debug, Clone, Copy, PartialEq, Eq, Structural)]
struct Link {
    table: usize,
    slot: usize,
}

/// The page tables of one address space.
#[derive(Debug)]
pub struct PageTableManager {
    tables: Vec<Sv39PageTable>,
    links: Vec<Link>,
}

/// The slot of the root that a walk for `va` starts from.
pub open spec fn root_slot(va: u64) -> int {
    VirtualAddress::vpn(va as int, 2)
}

/// Whether `a` and `b` lie in the same page of size `size`, as far as
/// translation can tell: their table indices agree from the root down to
/// the level of that size. Translation reads 39 bits of an address.
pub open spec fn same_page(a: u64, b: u64, size: PageSize) -> bool {
    &&& VirtualAddress::vpn(a as int, 2) == VirtualAddress::vpn(b as int, 2)
    &&& size.level() <= 1 ==> VirtualAddress::vpn(a as int, 1) == VirtualAddress::vpn(b as int, 1)
    &&& size.level() <= 0 ==> VirtualAddress::vpn(a as int, 0) == VirtualAddress::vpn(b as int, 0)
}

/// Whether the page of size `size` at `a` and the page of size `other` at
/// `b` share an address: the smaller one lies in the larger.
pub open spec fn pages_overlap(a: u64, size: PageSize, b: u64, other: PageSize) -> bool {
    if size.level() >= other.level() {
        same_page(a, b, size)
    } else {
        same_page(a, b, other)
    }
}

impl PageTableManager {
    /// The entry in slot `s` of table `t`.
    pub closed spec fn entry(&self, t: int, s: int) -> PageTableEntry {
        self.tables@[t].entries@[s]
    }

    /// The table that the entry in slot `s` of table `t` leads to, where it
    /// is a pointer to a table of this arena that is noted as hanging there.
    pub closed spec fn child(&self, t: int, s: int) -> Option<int> {
        let e = self.entry(t, s);
        let p = e.page_number() as int;
        if e.branch() && 0 < p < self.tables@.len() && self.links@[p].table == t
            && self.links@[p].slot == s {
            Some(p)
        } else {
            None
        }
    }

    /// Where a walk for `va` ends: the table and slot of the entry that maps
    /// it, and the size of the page.
    pub closed spec fn locate(&self, va: u64) -> Option<(int, int, PageSize)> {
        let s2 = VirtualAddress::vpn(va as int, 2);
        let s1 = VirtualAddress::vpn(va as int, 1);
        let s0 = VirtualAddress::vpn(va as int, 0);
        if self.entry(0, s2).leaf() {
            Some((0, s2, PageSize::Gigapage))
        } else {
            match self.child(0, s2) {
                None => None,
                Some(t1) => if self.entry(t1, s1).leaf() {
                    Some((t1, s1, PageSize::Megapage))
                } else {
                    match self.child(t1, s1) {
                        None => None,
                        Some(t0) => if self.entry(t0, s0).leaf() {
                            Some((t0, s0, PageSize::Kilopage))
                        } else {
                            None
                        },
                    }
                },
            }
        }
    }

    /// What is mapped at `va`: the entry that maps it and the size of its
    /// page, or nothing. This is what the tables mean; the operations are
    /// stated over it.
    pub closed spec fn leaf_entry(&self, va: u64) -> Option<(PageTableEntry, PageSize)> {
        match self.locate(va) {
            Some((t, s, size)) => Some((self.entry(t, s), size)),
            None => None,
        }
    }

    /// Whether a page of size `size` can be mapped at `va`: the entry for it
    /// is not in use, and neither is an entry above it, but for pointers on
    /// the way to it.
    pub closed spec fn vacant(&self, va: u64, size: PageSize) -> bool {
        let s2 = VirtualAddress::vpn(va as int, 2);
        let s1 = VirtualAddress::vpn(va as int, 1);
        let s0 = VirtualAddress::vpn(va as int, 0);
        if size is Gigapage || !self.entry(0, s2).valid() {
            !self.entry(0, s2).valid()
        } else {
            match self.child(0, s2) {
                None => false,
                Some(t1) => if size is Megapage || !self.entry(t1, s1).valid() {
                    !self.entry(t1, s1).valid()
                } else {
                    match self.child(t1, s1) {
                        None => false,
                        Some(t0) => !self.entry(t0, s0).valid(),
                    }
                },
            }
        }
    }

    /// The number of tables in the arena.
    pub closed spec fn table_count(&self) -> nat {
        self.tables@.len()
    }

    /// The entries of the root table.
    pub closed spec fn root(&self) -> Seq<PageTableEntry> {
        self.tables@[0].entries@
    }

    /// Whether the arena can take the two tables that a mapping needs at
    /// most.
    pub open spec fn has_room(&self) -> bool {
        self.table_count() + 2 <= PAGE_NUMBER_LIMIT
    }

    /// There is always a root.
    pub proof fn lemma_has_root(&self)
        requires
            self.wf(),
        ensures
            self.table_count() >= 1,
    {
    }

    /// Whether the arena can take the tables that mapping `pages` pages
    /// needs at most.
    pub open spec fn has_room_for(&self, pages: int) -> bool {
        self.table_count() + 2 * pages <= PAGE_NUMBER_LIMIT
    }

    /// The invariant of the manager: there is a root, there is a note for
    /// every table, and a table that hangs below another than the root, a
    /// table of the last level, holds no pointer.
    pub closed spec fn wf(&self) -> bool {
        &&& self.tables@.len() == self.links@.len()
        &&& 1 <= self.tables@.len() <= PAGE_NUMBER_LIMIT
        &&& forall|t: int, s: int|
            0 < t < self.tables@.len() && self.links@[t].table != 0 && 0 <= s < 512 ==> !(
            #[trigger] self.tables@[t].entries@[s]).branch()
    }

    /// No table of the last level holds a pointer: below the table that an
    /// entry of the root leads to there are only mappings. Here `first` is
    /// the slot of the root and `second` the slot of the table below it that
    /// lead to a table of the last level, and `s` a slot of that table.
    pub proof fn lemma_last_level_maps_only(&self, first: int, second: int, s: int)
        requires
            self.wf(),
            self.child(0, first) is Some,
            self.child(self.child(0, first).unwrap(), second) is Some,
            0 <= s < 512,
        ensures
            !self.entry(self.child(self.child(0, first).unwrap(), second).unwrap(), s).branch(),
    {
    }

    /// The physical address that `va` translates to under a mapping by
    /// `entry` of a page of size `size`: the start of the page, and the
    /// offset of `va` in it.
    pub open spec fn translated(entry: PageTableEntry, size: PageSize, va: u64) -> int {
        entry.page_number() * 4096 + va as int % size.bytes()
    }

    /// What a walk for `va` finds, step by step: the entry of the root for
    /// it where that maps a page, else the entry of the table that the root
    /// leads to, and so on down to the last level.
    pub open spec fn walked(&self, va: u64) -> Option<(PageTableEntry, PageSize)> {
        let s2 = VirtualAddress::vpn(va as int, 2);
        let s1 = VirtualAddress::vpn(va as int, 1);
        let s0 = VirtualAddress::vpn(va as int, 0);
        if self.entry(0, s2).leaf() {
            Some((self.entry(0, s2), PageSize::Gigapage))
        } else {
            match self.child(0, s2) {
                None => None,
                Some(t1) => if self.entry(t1, s1).leaf() {
                    Some((self.entry(t1, s1), PageSize::Megapage))
                } else {
                    match self.child(t1, s1) {
                        None => None,
                        Some(t0) => if self.entry(t0, s0).leaf() {
                            Some((self.entry(t0, s0), PageSize::Kilopage))
                        } else {
                            None
                        },
                    }
                },
            }
        }
    }

    /// What is mapped at an address is what a walk for it finds.
    pub proof fn lemma_walk(&self, va: u64)
        ensures
            self.leaf_entry(va) == self.walked(va),
    {
    }

    /// A page is mapped as a whole: every address of it by the same entry.
    pub proof fn lemma_page_mapped_as_one(&self, va: u64, a: u64)
        requires
            self.leaf_entry(va) is Some,
            same_page(a, va, self.leaf_entry(va).unwrap().1),
        ensures
            self.leaf_entry(a) == self.leaf_entry(va),
    {
    }

    /// Nothing is mapped where a page could still be mapped.
    pub proof fn lemma_vacant_unmapped(&self, va: u64, size: PageSize, a: u64)
        requires
            self.vacant(va, size),
            same_page(a, va, size),
        ensures
            self.leaf_entry(a) is None,
    {
    }

    /// A manager whose root is `table`. Pointers in `table` lead nowhere:
    /// the manager has no other table yet.
    pub fn new(table: Sv39PageTable) -> (manager: Self)
        ensures
            manager.wf(),
            manager.root() == table.entries@,
            manager.table_count() == 1,
            forall|va: u64|
                #![trigger manager.leaf_entry(va)]
                manager.leaf_entry(va) == (if table.entries[root_slot(va)].leaf() {
                    Some((table.entries[root_slot(va)], PageSize::Gigapage))
                } else {
                    None
                }),
            forall|va: u64, size: PageSize|
                #![trigger manager.vacant(va, size)]
                manager.vacant(va, size) == !table.entries[root_slot(va)].valid(),
    {
        let mut tables: Vec<Sv39PageTable> = Vec::new();
        tables.push(table);
        let mut links: Vec<Link> = Vec::new();
        links.push(Link { table: 0, slot: 0 });
        PageTableManager { tables, links }
    }

    /// The root table.
    pub fn table(&self) -> (root: &Sv39PageTable)
        requires
            self.wf(),
        ensures
            root.entries@ == self.root(),
    {
        &self.tables[0]
    }

    /// Whether the arena can take the tables that mapping `pages` pages
    /// needs at most.
    pub(crate) fn room_for(&self, pages: usize) -> (yes: bool)
        requires
            self.wf(),
        ensures
            yes == self.has_room_for(pages as int),
    {
        let free = PAGE_NUMBER_LIMIT - self.tables.len() as u64;
        pages as u64 <= free / 2
    }

    /// The entry in slot `s` of table `t`.
    pub(crate) fn entry_at(&self, t: usize, s: usize) -> (entry: PageTableEntry)
        requires
            self.wf(),
            t < self.table_count(),
            s < 512,
        ensures
            entry == self.entry(t as int, s as int),
    {
        self.tables[t].entries[s]
    }

    /// The table that the entry in slot `s` of table `t` leads to.
    pub(crate) fn follow(&self, t: usize, s: usize) -> (next: Option<usize>)
        requires
            self.wf(),
            t < self.table_count(),
            s < 512,
        ensures
            match next {
                Some(p) => self.child(t as int, s as int) == Some(p as int) && 0 < p
                    < self.table_count(),
                None => self.child(t as int, s as int) is None,
            },
    {
        let e = self.tables[t].entries[s];
        if e.is_valid() && !e.is_leaf() {
            let n = e.number();
            if 0 < n && n < self.tables.len() as u64 {
                let p = n as usize;
                if self.links[p].table == t && self.links[p].slot == s {
                    return Some(p);
                }
            }
        }
        None
    }

    /// The table and slot of the entry that maps `virt`, and the size of
    /// its page.
    fn walk(&self, virt: VirtualAddress) -> (found: Option<(usize, usize, PageSize)>)
        requires
            self.wf(),
        ensures
            match found {
                Some((t, s, size)) => self.locate(virt@) == Some((t as int, s as int, size)) && t
                    < self.tables@.len() && s < 512 && self.entry(t as int, s as int).leaf(),
                None => self.locate(virt@) is None,
            },
    {
        let idx = virt.vpns();
        let s2 = idx[2] as usize;
        let s1 = idx[1] as usize;
        let s0 = idx[0] as usize;
        if self.tables[0].entries[s2].is_leaf() {
            return Some((0, s2, PageSize::Gigapage));
        }
        let t1 = match self.follow(0, s2) {
            Some(t1) => t1,
            None => {
                return None;
            },
        };
        if self.tables[t1].entries[s1].is_leaf() {
            return Some((t1, s1, PageSize::Megapage));
        }
        let t0 = match self.follow(t1, s1) {
            Some(t0) => t0,
            None => {
                return None;
            },
        };
        if self.tables[t0].entries[s0].is_leaf() {
            Some((t0, s0, PageSize::Kilopage))
        } else {
            None
        }
    }

    /// The size of the pages that the entries of a table of `level` map.
    pub open spec fn size_at(level: int) -> PageSize {
        if level == 2 {
            PageSize::Gigapage
        } else if level == 1 {
            PageSize::Megapage
        } else {
            PageSize::Kilopage
        }
    }

    /// Whether table `t` is the table of `level` on the way to `va`.
    spec fn on_path(&self, t: int, level: int, va: u64) -> bool {
        let s2 = VirtualAddress::vpn(va as int, 2);
        let s1 = VirtualAddress::vpn(va as int, 1);
        if level == 2 {
            t == 0
        } else if level == 1 {
            self.child(0, s2) == Some(t)
        } else {
            self.child(0, s2) is Some && self.child(self.child(0, s2).unwrap(), s1) == Some(t)
        }
    }

    /// What a mapping of a page of size `size` at `va` by `entry` makes of
    /// the tables `before`: the page is mapped, nothing else changes, and
    /// no page that shares an address with it can be mapped any more.
    pub open spec fn extends(
        &self,
        before: &Self,
        va: u64,
        size: PageSize,
        entry: PageTableEntry,
    ) -> bool {
        &&& forall|a: u64| #[trigger]
            self.leaf_entry(a) == (if same_page(a, va, size) {
                Some((entry, size))
            } else {
                before.leaf_entry(a)
            })
        &&& forall|b: u64, other: PageSize| #[trigger]
            self.vacant(b, other) == (before.vacant(b, other) && !pages_overlap(
                b,
                other,
                va,
                size,
            ))
        &&& before.table_count() <= self.table_count() <= before.table_count() + 2
    }

    /// Whether the tables mean the same as the tables `before`.
    pub open spec fn means_the_same(&self, before: &Self) -> bool {
        &&& forall|a: u64| #[trigger] self.leaf_entry(a) == before.leaf_entry(a)
        &&& forall|b: u64, other: PageSize| #[trigger]
            self.vacant(b, other) == before.vacant(b, other)
        &&& self.table_count() == before.table_count()
        &&& self.root() == before.root()
    }

    /// What comes of mapping a page of size `size` at `virt` to `frame`.
    pub open spec fn map_outcome(
        &self,
        frame: u64,
        virt: u64,
        size: PageSize,
        perms: Permissions,
    ) -> Result<(), MapError> {
        if virt as int % size.bytes() != 0 || frame as int % size.bytes() != 0 {
            Err(MapError::Misaligned)
        } else if frame >= PHYSICAL_LIMIT {
            Err(MapError::OutOfRange)
        } else if !perms.grants_access() {
            Err(MapError::NoAccess)
        } else if !self.vacant(virt, size) {
            Err(MapError::AlreadyMapped)
        } else if !self.has_room() {
            Err(MapError::OutOfTables)
        } else {
            Ok(())
        }
    }

    /// Whether a page of size `size` can be mapped at `virt`.
    fn is_vacant(&self, virt: VirtualAddress, size: PageSize) -> (yes: bool)
        requires
            self.wf(),
        ensures
            yes == self.vacant(virt@, size),
    {
        let idx = virt.vpns();
        let s2 = idx[2] as usize;
        let s1 = idx[1] as usize;
        let s0 = idx[0] as usize;
        let top = self.tables[0].entries[s2].is_valid();
        if !top {
            return true;
        }
        if let PageSize::Gigapage = size {
            return false;
        }
        let t1 = match self.follow(0, s2) {
            Some(t1) => t1,
            None => {
                return false;
            },
        };
        let mid = self.tables[t1].entries[s1].is_valid();
        if !mid {
            return true;
        }
        if let PageSize::Megapage = size {
            return false;
        }
        match self.follow(t1, s1) {
            Some(t0) => !self.tables[t0].entries[s0].is_valid(),
            None => false,
        }
    }

    /// The table that slot `s` of table `t` leads to, made first where
    /// there is none. `t` is the table of `level` on the way to `va`.
    fn grow(&mut self, t: usize, s: usize, Ghost(va): Ghost<u64>, Ghost(level): Ghost<int>) -> (c:
        usize)
        requires
            old(self).wf(),
            old(self).tables@.len() < PAGE_NUMBER_LIMIT,
            1 <= level <= 2,
            old(self).on_path(t as int, level, va),
            t < old(self).tables@.len(),
            s == VirtualAddress::vpn(va as int, level),
            level == 1 ==> !old(self).entry(0, VirtualAddress::vpn(va as int, 2)).leaf(),
            old(self).child(t as int, s as int) is Some || !old(self).entry(
                t as int,
                s as int,
            ).valid(),
        ensures
            final(self).wf(),
            c < final(self).tables@.len(),
            final(self).on_path(c as int, level - 1, va),
            !final(self).entry(t as int, s as int).leaf(),
            level == 1 ==> !final(self).entry(0, VirtualAddress::vpn(va as int, 2)).leaf(),
            forall|a: u64| #[trigger] final(self).leaf_entry(a) == old(self).leaf_entry(a),
            forall|b: u64, other: PageSize| #[trigger]
                final(self).vacant(b, other) == (old(self).vacant(b, other) && !(other.level()
                    >= level && same_page(b, va, Self::size_at(level)))),
            old(self).table_count() <= final(self).table_count() <= old(self).table_count() + 1,
    {
        match self.follow(t, s) {
            Some(c) => c,
            None => {
                let c = self.tables.len();
                self.tables.push(Sv39PageTable::new());
                self.links.push(Link { table: t, slot: s });
                let mut pointer = PageTableEntry::new();
                pointer.make_branch(c as u64);
                self.tables[t].entries[s] = pointer;
                proof {
                    PageTableEntry::lemma_branch_to(c as u64);
                    assert forall|v: int| 0 <= v < 512 implies !(#[trigger] self.entry(
                        c as int,
                        v,
                    )).valid() by {
                        assert(0u64 & 1 == 0) by (bit_vector);
                    }
                }
                c
            },
        }
    }

    /// Writes `leaf` into slot `s` of table `t`, the entry for a page of
    /// size `size` at `va`.
    fn place(
        &mut self,
        t: usize,
        s: usize,
        leaf: PageTableEntry,
        Ghost(va): Ghost<u64>,
        size: PageSize,
    )
        requires
            old(self).wf(),
            old(self).vacant(va, size),
            leaf.leaf(),
            old(self).on_path(t as int, size.level(), va),
            size.level() <= 1 ==> !old(self).entry(0, VirtualAddress::vpn(va as int, 2)).leaf(),
            size.level() <= 0 ==> !old(self).entry(
                old(self).child(0, VirtualAddress::vpn(va as int, 2)).unwrap(),
                VirtualAddress::vpn(va as int, 1),
            ).leaf(),
            t < old(self).tables@.len(),
            s == VirtualAddress::vpn(va as int, size.level()),
        ensures
            final(self).wf(),
            forall|a: u64| #[trigger]
                final(self).leaf_entry(a) == (if same_page(a, va, size) {
                    Some((leaf, size))
                } else {
                    old(self).leaf_entry(a)
                }),
            forall|b: u64, other: PageSize| #[trigger]
                final(self).vacant(b, other) == (old(self).vacant(b, other) && !pages_overlap(
                    b,
                    other,
                    va,
                    size,
                )),
            final(self).table_count() == old(self).table_count(),
    {
        self.tables[t].entries[s] = leaf;
    }

    /// What a change of the entry that maps `va` makes of the tables
    /// `before`: the page of `va` is now mapped by `entry`, and nothing else
    /// changes.
    pub open spec fn replaces(
        &self,
        before: &Self,
        va: u64,
        size: PageSize,
        entry: PageTableEntry,
    ) -> bool {
        &&& forall|a: u64| #[trigger]
            self.leaf_entry(a) == (if same_page(a, va, size) {
                Some((entry, size))
            } else {
                before.leaf_entry(a)
            })
        &&& forall|b: u64, other: PageSize| #[trigger]
            self.vacant(b, other) == before.vacant(b, other)
        &&& self.table_count() == before.table_count()
    }

    /// Maps the page of size `size` at `map_to` to the physical page at
    /// `map_from`. Both addresses must be multiples of the page size, the
    /// permissions must allow some access, and nothing may be mapped at the
    /// page, around it or in it. Where the mapping cannot be made, the
    /// tables stay as they were.
    ///
    /// The caller invalidates the translation cache for `map_to` afterwards.
    pub fn map_direct(
        &mut self,
        map_from: PhysicalAddress,
        map_to: VirtualAddress,
        size: PageSize,
        perms: Permissions,
    ) -> (done: Result<(), MapError>)
        requires
            old(self).wf(),
        ensures
            final(self).wf(),
            done == old(self).map_outcome(map_from@, map_to@, size, perms),
            done is Ok ==> final(self).extends(
                old(self),
                map_to@,
                size,
                PageTableEntry::leaf_of(map_from, perms),
            ),
            done is Err ==> final(self).means_the_same(old(self)),
    {
        let bytes = size.to_byte_size();
        if map_to.as_u64() % bytes != 0 || map_from.as_u64() % bytes != 0 {
            return Err(MapError::Misaligned);
        }
        if map_from.as_u64() >= PHYSICAL_LIMIT {
            return Err(MapError::OutOfRange);
        }
        if !perms.allows_access() {
            return Err(MapError::NoAccess);
        }
        if !self.is_vacant(map_to, size) {
            return Err(MapError::AlreadyMapped);
        }
        if self.tables.len() as u64 + 2 > PAGE_NUMBER_LIMIT {
            return Err(MapError::OutOfTables);
        }
        let idx = map_to.vpns();
        let s2 = idx[2] as usize;
        let s1 = idx[1] as usize;
        let s0 = idx[0] as usize;
        let mut leaf = PageTableEntry::new();
        leaf.make_leaf(map_from, perms);
        proof {
            PageTableEntry::lemma_leaf_of(map_from, perms);
        }
        match size {
            PageSize::Gigapage => {
                self.place(0, s2, leaf, Ghost(map_to@), size);
            },
            PageSize::Megapage => {
                let t1 = self.grow(0, s2, Ghost(map_to@), Ghost(2));
                assert(self.vacant(map_to@, size));
                self.place(t1, s1, leaf, Ghost(map_to@), size);
            },
            PageSize::Kilopage => {
                let t1 = self.grow(0, s2, Ghost(map_to@), Ghost(2));
                assert(self.vacant(map_to@, size));
                let t0 = self.grow(t1, s1, Ghost(map_to@), Ghost(1));
                assert(self.vacant(map_to@, size));
                self.place(t0, s0, leaf, Ghost(map_to@), size);
            },
        }
        Ok(())
    }

    /// Maps the smallest page at `map_to` to `frame`, a page that the
    /// physical allocator has just handed out.
    ///
    /// The caller invalidates the translation cache for `map_to` afterwards.
    pub fn alloc_virtual(
        &mut self,
        map_to: VirtualAddress,
        perms: Permissions,
        frame: PhysicalAddress,
    ) -> (done: Result<(), MapError>)
        requires
            old(self).wf(),
        ensures
            final(self).wf(),
            done == old(self).map_outcome(frame@, map_to@, PageSize::Kilopage, perms),
            done is Ok ==> final(self).extends(
                old(self),
                map_to@,
                PageSize::Kilopage,
                PageTableEntry::leaf_of(frame, perms),
            ),
            done is Err ==> final(self).means_the_same(old(self)),
    {
        self.map_direct(frame, map_to, PageSize::Kilopage, perms)
    }

    /// Gives the page mapped at `virt` the permissions `new_permissions`.
    /// Nothing happens where no page is mapped there, nor where the
    /// permissions allow no access: an entry with such permissions would no
    /// longer map a page.
    pub fn modify_page_permissions(&mut self, virt: VirtualAddress, new_permissions: Permissions)
        requires
            old(self).wf(),
        ensures
            final(self).wf(),
            match old(self).leaf_entry(virt@) {
                Some((entry, size)) => if new_permissions.grants_access() {
                    final(self).replaces(
                        old(self),
                        virt@,
                        size,
                        entry.with_permissions(new_permissions),
                    )
                } else {
                    final(self).means_the_same(old(self))
                },
                None => final(self).means_the_same(old(self)),
            },
    {
        if !new_permissions.allows_access() {
            return ;
        }
        match self.walk(virt) {
            Some((t, s, size)) => {
                let mut entry = self.tables[t].entries[s];
                proof {
                    entry.lemma_with_permissions(new_permissions);
                }
                entry.set_permissions(new_permissions);
                self.tables[t].entries[s] = entry;
            },
            None => {},
        }
    }

    /// Notes that the page mapped at `virt` has been used, and with
    /// `written` that it has been written. The answer is whether that could
    /// be done: a page is mapped there, and where it is to be marked as
    /// written, it may be written. Nothing is changed otherwise. What may be
    /// done with the page stays as it is in every case.
    pub fn mark_accessed(&mut self, virt: VirtualAddress, written: bool) -> (marked: bool)
        requires
            old(self).wf(),
        ensures
            final(self).wf(),
            marked == (old(self).leaf_entry(virt@) matches Some((entry, _)) && (written
                ==> entry.flag_bits() & WRITE != 0)),
            match old(self).leaf_entry(virt@) {
                Some((entry, size)) => if marked {
                    final(self).replaces(old(self), virt@, size, entry.marked(written))
                } else {
                    final(self).means_the_same(old(self))
                },
                None => final(self).means_the_same(old(self)),
            },
    {
        match self.walk(virt) {
            Some((t, s, size)) => {
                let mut entry = self.tables[t].entries[s];
                if written && !entry.is_writable() {
                    return false;
                }
                proof {
                    entry.lemma_marked(written);
                }
                entry.mark(written);
                self.tables[t].entries[s] = entry;
                true
            },
            None => false,
        }
    }

    /// Copies the entries of the kernel half from the root `current`, the
    /// table in use at the moment, so that this address space maps the
    /// kernel as that one does. The user half stays as it is.
    ///
    /// The caller invalidates the whole translation cache afterwards.
    pub fn copy_kernel_pages(&mut self, current: &Sv39PageTable)
        requires
            old(self).wf(),
        ensures
            final(self).wf(),
            final(self).root().len() == 512,
            forall|slot: int|
                0 <= slot < 512 ==> #[trigger] final(self).root()[slot] == (if slot
                    >= KERNEL_SLOTS_START {
                    current.entries[slot]
                } else {
                    old(self).root()[slot]
                }),
            forall|a: u64|
                root_slot(a) < KERNEL_SLOTS_START ==> #[trigger] final(self).leaf_entry(a)
                    == old(self).leaf_entry(a),
            forall|b: u64, size: PageSize|
                root_slot(b) < KERNEL_SLOTS_START ==> #[trigger] final(self).vacant(b, size)
                    == old(self).vacant(b, size),
            forall|a: u64|
                root_slot(a) >= KERNEL_SLOTS_START && current.entries[root_slot(a)].leaf()
                    ==> #[trigger] final(self).leaf_entry(a) == Some(
                    (current.entries[root_slot(a)], PageSize::Gigapage),
                ),
            forall|a: u64|
                root_slot(a) >= KERNEL_SLOTS_START && !current.entries[root_slot(a)].valid()
                    ==> #[trigger] final(self).leaf_entry(a) is None,
            final(self).table_count() == old(self).table_count(),
    {
        let ghost before = *self;
        let mut slot: usize = KERNEL_SLOTS_START;
        while slot < 512
            invariant
                KERNEL_SLOTS_START <= slot <= 512,
                self.wf(),
                before.wf(),
                self.links@ == before.links@,
                self.tables@.len() == before.tables@.len(),
                forall|t: int|
                    0 < t < self.tables@.len() ==> #[trigger] self.tables@[t] == before.tables@[t],
                forall|i: int|
                    0 <= i < 512 ==> #[trigger] self.tables@[0].entries@[i] == (if 256 <= i
                        < slot {
                        current.entries[i]
                    } else {
                        before.tables@[0].entries@[i]
                    }),
            decreases 512 - slot,
        {
            self.tables[0].entries[slot] = current.entries[slot];
            slot += 1;
        }
        proof {
            assert forall|a: u64| root_slot(a) < KERNEL_SLOTS_START implies (
            #[trigger] self.leaf_entry(a)) == before.leaf_entry(a) by {
                Self::lemma_same_user_half(&before, self, a);
            }
            assert forall|b: u64, size: PageSize| root_slot(b) < KERNEL_SLOTS_START implies (
            #[trigger] self.vacant(b, size)) == before.vacant(b, size) by {
                Self::lemma_same_user_half(&before, self, b);
            }
        }
    }

    /// Two arenas that differ in the kernel half of the root only mean the
    /// same in the user half.
    proof fn lemma_same_user_half(before: &Self, after: &Self, a: u64)
        requires
            before.wf(),
            after.wf(),
            after.links@ == before.links@,
            after.tables@.len() == before.tables@.len(),
            forall|t: int|
                0 < t < after.tables@.len() ==> #[trigger] after.tables@[t] == before.tables@[t],
            forall|i: int|
                0 <= i < KERNEL_SLOTS_START ==> #[trigger] after.tables@[0].entries@[i]
                    == before.tables@[0].entries@[i],
            VirtualAddress::vpn(a as int, 2) < KERNEL_SLOTS_START,
        ensures
            after.leaf_entry(a) == before.leaf_entry(a),
            forall|size: PageSize| after.vacant(a, size) == before.vacant(a, size),
    {
    }

    /// The physical address that `virt` translates to, if a page is mapped
    /// there.
    pub fn resolve(&self, virt: VirtualAddress) -> (phys: Option<PhysicalAddress>)
        requires
            self.wf(),
        ensures
            match self.leaf_entry(virt@) {
                Some((entry, size)) => phys is Some && phys.unwrap()@ == Self::translated(
                    entry,
                    size,
                    virt@,
                ),
                None => phys is None,
            },
    {
        match self.walk(virt) {
            Some((t, s, size)) => {
                let entry = self.tables[t].entries[s];
                let base = entry.number() * 4096;
                let offset = virt.as_u64() % size.to_byte_size();
                Some(PhysicalAddress::new(base + offset))
            },
            None => None,
        }
    }

    /// The flag bits of the entry that maps `virt`, if a page is mapped
    /// there.
    pub fn page_flags(&self, virt: VirtualAddress) -> (flags: Option<u64>)
        requires
            self.wf(),
        ensures
            match self.leaf_entry(virt@) {
                Some((entry, _)) => flags == Some(entry.flag_bits()),
                None => flags is None,
            },
    {
        match self.walk(virt) {
            Some((t, s, _)) => Some(self.tables[t].entries[s].flags()),
            None => None,
        }
    }

    /// Whether a page is mapped at `virt` and may be read.
    pub fn is_valid_readable(&self, virt: VirtualAddress) -> (yes: bool)
        requires
            self.wf(),
        ensures
            yes == (self.leaf_entry(virt@) matches Some((entry, _)) && entry.flag_bits() & READ
                != 0),
    {
        match self.walk(virt) {
            Some((t, s, _)) => self.tables[t].entries[s].is_readable(),
            None => false,
        }
    }

    /// Whether a page is mapped at `virt` and may be written.
    pub fn is_valid_writable(&self, virt: VirtualAddress) -> (yes: bool)
        requires
            self.wf(),
        ensures
            yes == (self.leaf_entry(virt@) matches Some((entry, _)) && entry.flag_bits() & WRITE
                != 0),
    {
        match self.walk(virt) {
            Some((t, s, _)) => self.tables[t].entries[s].is_writable(),
            None => false,
        }
    }
}

} // verus!
