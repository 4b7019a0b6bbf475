//! A listing of everything that the user half of an address space maps.

use crate::mem::address::{PageSize, VirtualAddress, USERSPACE_END};
use crate::mem::paging::manager::{PageTableManager, KERNEL_SLOTS_START};
use vstd::prelude::*;

verus! {

/// One mapping in a listing: the size of the page, where it starts, and the
/// physical address it is mapped to.
#[derive(Debug, Clone, Copy, PartialEq, Eq, Structural)]
pub struct MappingLine {
    pub size: PageSize,
    pub virt: u64,
    pub frame: u64,
}

/// A page table manager, to be listed.
#[derive(Debug)]
pub struct PageTableDebugPrint<'a>(pub &'a PageTableManager);

impl PageTableManager {
    /// The listing of slot `s` of table `t`, a table of `level` whose first
    /// entry stands for the address `base`: the mapping in the slot, or the
    /// listing of the table that the slot leads to. A table of the last
    /// level holds no pointer, so there the slot maps a page or lists
    /// nothing.
    pub open spec fn slot_lines(&self, t: int, level: int, base: int, s: int) -> Seq<MappingLine>
        decreases level, s, 0int,
    {
        let entry = self.entry(t, s);
        let virt = base + s * Self::size_at(level).bytes();
        if entry.leaf() {
            seq![
                MappingLine {
                    size: Self::size_at(level),
                    virt: virt as u64,
                    frame: (entry.page_number() * 4096) as u64,
                },
            ]
        } else if level > 0 && s >= 0 && self.child(t, s) is Some {
            self.table_lines(self.child(t, s).unwrap(), level - 1, virt, 512)
        } else {
            Seq::empty()
        }
    }

    /// The listing of the first `upto` slots of table `t`, in order.
    pub open spec fn table_lines(&self, t: int, level: int, base: int, upto: int) -> Seq<
        MappingLine,
    >
        decreases level, upto, 1int,
    {
        if upto <= 0 || level < 0 {
            Seq::empty()
        } else {
            self.table_lines(t, level, base, upto - 1) + self.slot_lines(t, level, base, upto - 1)
        }
    }

    /// The listing of the user half: every page mapped there, in address
    /// order.
    pub open spec fn listing(&self) -> Seq<MappingLine> {
        self.table_lines(0, 2, 0, KERNEL_SLOTS_START as int)
    }

    /// Whether `line` is a mapping of the user half: a page of its size
    /// starts at its address, and is mapped there to its frame.
    pub open spec fn maps_line(&self, line: MappingLine) -> bool {
        &&& line.virt < USERSPACE_END
        &&& line.virt as int % line.size.bytes() == 0
        &&& self.leaf_entry(line.virt) matches Some((entry, size)) && size == line.size
            && line.frame == entry.page_number() * 4096
    }

    /// Whether table `t` is the table of `level` for the addresses from
    /// `base` on: a walk for them comes to it, and maps nothing on the way.
    spec fn reaches(&self, t: int, level: int, base: int) -> bool {
        let g = base / 0x4000_0000;
        let m = (base / 0x20_0000) % 512;
        if level == 2 {
            t == 0 && base == 0
        } else if level == 1 {
            &&& 0 <= base < USERSPACE_END
            &&& base % 0x4000_0000 == 0
            &&& !self.entry(0, g).leaf()
            &&& self.child(0, g) == Some(t)
        } else {
            &&& level == 0
            &&& 0 <= base < USERSPACE_END
            &&& base % 0x20_0000 == 0
            &&& !self.entry(0, g).leaf()
            &&& self.child(0, g) is Some
            &&& !self.entry(self.child(0, g).unwrap(), m).leaf()
            &&& self.child(self.child(0, g).unwrap(), m) == Some(t)
        }
    }

    /// What the entry in slot `s` of a table on the way means for an
    /// address `a` of the slot.
    proof fn lemma_slot(&self, t: int, level: int, base: int, s: int, a: u64)
        requires
            self.reaches(t, level, base),
            0 <= level <= 2,
            0 <= s < 512,
            base + (s + 1) * Self::size_at(level).bytes() <= USERSPACE_END,
            base + s * Self::size_at(level).bytes() <= a < base + (s + 1) * Self::size_at(
                level,
            ).bytes(),
        ensures
            self.entry(t, s).leaf() ==> self.leaf_entry(a) == Some(
                (self.entry(t, s), Self::size_at(level)),
            ),
            !self.entry(t, s).leaf() && (level == 0 || self.child(t, s) is None)
                ==> self.leaf_entry(a) is None,
            !self.entry(t, s).leaf() && level > 0 && self.child(t, s) is Some ==> self.reaches(
                self.child(t, s).unwrap(),
                level - 1,
                base + s * Self::size_at(level).bytes(),
            ),
            (base + s * Self::size_at(level).bytes()) % Self::size_at(level).bytes() == 0,
            a as int % Self::size_at(level).bytes() == 0 ==> a == base + s * Self::size_at(
                level,
            ).bytes(),
    {
        self.lemma_walk(a);
        let x = a as int;
        if level == 2 {
            assert(x / 0x4000_0000 == s);
            assert(VirtualAddress::vpn(x, 2) == s);
            assert((s * 0x4000_0000) / 0x4000_0000 == s);
        } else if level == 1 {
            let g = base / 0x4000_0000;
            assert(base == g * 0x4000_0000);
            assert(x / 0x4000_0000 == g);
            assert(x / 0x20_0000 == g * 512 + s);
            assert(VirtualAddress::vpn(x, 2) == g);
            assert(VirtualAddress::vpn(x, 1) == s);
            let virt = base + s * 0x20_0000;
            assert(virt / 0x4000_0000 == g);
            assert(virt / 0x20_0000 == g * 512 + s);
        } else {
            let g = base / 0x4000_0000;
            let m = (base / 0x20_0000) % 512;
            assert(base == (base / 0x20_0000) * 0x20_0000);
            assert(base / 0x20_0000 == g * 512 + m);
            assert(x / 0x4000_0000 == g);
            assert(x / 0x20_0000 == g * 512 + m);
            assert(x / 4096 == (g * 512 + m) * 512 + s);
            assert(VirtualAddress::vpn(x, 2) == g);
            assert(VirtualAddress::vpn(x, 1) == m);
            assert(VirtualAddress::vpn(x, 0) == s);
        }
    }

    /// Every line of the listing of a table on the way is a mapping, and
    /// lies among the addresses of the slots listed.
    proof fn lemma_lines_sound(&self, t: int, level: int, base: int, upto: int, i: int)
        requires
            self.reaches(t, level, base),
            0 <= level <= 2,
            0 <= upto <= 512,
            base + upto * Self::size_at(level).bytes() <= USERSPACE_END,
            0 <= i < self.table_lines(t, level, base, upto).len(),
        ensures
            self.maps_line(self.table_lines(t, level, base, upto)[i]),
            base <= self.table_lines(t, level, base, upto)[i].virt < base + upto * Self::size_at(
                level,
            ).bytes(),
        decreases level, upto, 1int,
    {
        let bytes = Self::size_at(level).bytes();
        let s = upto - 1;
        let prefix = self.table_lines(t, level, base, s);
        let last = self.slot_lines(t, level, base, s);
        let virt = base + s * bytes;
        assert(self.table_lines(t, level, base, upto) == prefix + last);
        if i < prefix.len() {
            self.lemma_lines_sound(t, level, base, s, i);
        } else {
            let entry = self.entry(t, s);
            self.lemma_slot(t, level, base, s, virt as u64);
            if entry.leaf() {
                entry.lemma_page_number_bound();
                assert(virt % bytes == 0);
            } else {
                let c = self.child(t, s).unwrap();
                self.lemma_lines_sound(c, level - 1, virt, 512, i - prefix.len());
            }
        }
    }

    /// The lines of the listing of a table on the way come in address
    /// order.
    proof fn lemma_lines_ordered(&self, t: int, level: int, base: int, upto: int, i: int, j: int)
        requires
            self.reaches(t, level, base),
            0 <= level <= 2,
            0 <= upto <= 512,
            base + upto * Self::size_at(level).bytes() <= USERSPACE_END,
            0 <= i < j < self.table_lines(t, level, base, upto).len(),
        ensures
            self.table_lines(t, level, base, upto)[i].virt < self.table_lines(
                t,
                level,
                base,
                upto,
            )[j].virt,
        decreases level, upto, 1int,
    {
        let bytes = Self::size_at(level).bytes();
        let s = upto - 1;
        let prefix = self.table_lines(t, level, base, s);
        let last = self.slot_lines(t, level, base, s);
        let virt = base + s * bytes;
        assert(self.table_lines(t, level, base, upto) == prefix + last);
        if j < prefix.len() {
            self.lemma_lines_ordered(t, level, base, s, i, j);
        } else {
            self.lemma_lines_sound(t, level, base, upto, j);
            self.lemma_slot(t, level, base, s, virt as u64);
            if !self.entry(t, s).leaf() {
                let c = self.child(t, s).unwrap();
                self.lemma_lines_sound(c, level - 1, virt, 512, j - prefix.len());
            }
            if i < prefix.len() {
                self.lemma_lines_sound(t, level, base, s, i);
            } else {
                let c = self.child(t, s).unwrap();
                self.lemma_lines_ordered(
                    c,
                    level - 1,
                    virt,
                    512,
                    i - prefix.len(),
                    j - prefix.len(),
                );
            }
        }
    }

    /// Every mapping among the addresses of the slots listed is a line of
    /// the listing of a table on the way.
    proof fn lemma_lines_complete(
        &self,
        t: int,
        level: int,
        base: int,
        upto: int,
        line: MappingLine,
    )
        requires
            self.reaches(t, level, base),
            0 <= level <= 2,
            0 <= upto <= 512,
            base + upto * Self::size_at(level).bytes() <= USERSPACE_END,
            self.maps_line(line),
            base <= line.virt < base + upto * Self::size_at(level).bytes(),
        ensures
            self.table_lines(t, level, base, upto).contains(line),
        decreases level, upto, 1int,
    {
        let bytes = Self::size_at(level).bytes();
        let s = upto - 1;
        let prefix = self.table_lines(t, level, base, s);
        let last = self.slot_lines(t, level, base, s);
        let all = self.table_lines(t, level, base, upto);
        let virt = base + s * bytes;
        assert(bytes == 0x4000_0000 || bytes == 0x20_0000 || bytes == 4096);
        assert(upto >= 1) by (nonlinear_arith)
            requires
                base <= line.virt < base + upto * bytes,
                bytes > 0,
        ;
        assert(s * bytes == upto * bytes - bytes) by (nonlinear_arith)
            requires
                s == upto - 1,
        ;
        assert(all == prefix + last);
        if line.virt < virt {
            self.lemma_lines_complete(t, level, base, s, line);
            let k = choose|k: int| 0 <= k < prefix.len() && prefix[k] == line;
            assert(all[k] == line);
        } else {
            let entry = self.entry(t, s);
            self.lemma_slot(t, level, base, s, line.virt);
            if entry.leaf() {
                entry.lemma_page_number_bound();
                assert(line.virt == virt);
                assert(last[0] == line);
                assert(all[prefix.len() as int] == line);
            } else {
                let c = self.child(t, s).unwrap();
                self.lemma_lines_complete(c, level - 1, virt, 512, line);
                let k = choose|k: int| 0 <= k < last.len() && last[k] == line;
                assert(all[prefix.len() + k] == line);
            }
        }
    }

    /// Every line of the listing is a mapping of the user half.
    pub proof fn lemma_listing_sound(&self, i: int)
        requires
            0 <= i < self.listing().len(),
        ensures
            self.maps_line(self.listing()[i]),
    {
        self.lemma_lines_sound(0, 2, 0, KERNEL_SLOTS_START as int, i);
    }

    /// Every mapping of the user half is a line of the listing.
    pub proof fn lemma_listing_complete(&self, line: MappingLine)
        requires
            self.maps_line(line),
        ensures
            self.listing().contains(line),
    {
        self.lemma_lines_complete(0, 2, 0, KERNEL_SLOTS_START as int, line);
    }

    /// The lines of the listing come in address order, each address once.
    pub proof fn lemma_listing_ordered(&self, i: int, j: int)
        requires
            0 <= i < j < self.listing().len(),
        ensures
            self.listing()[i].virt < self.listing()[j].virt,
    {
        self.lemma_lines_ordered(0, 2, 0, KERNEL_SLOTS_START as int, i, j);
    }

    /// Something to list the mappings with.
    pub fn debug_print(&self) -> (printer: PageTableDebugPrint<'_>)
        ensures
            printer.0 == self,
    {
        PageTableDebugPrint(self)
    }

    /// Adds the listing of the first `upto` slots of table `t` to `out`.
    fn collect(&self, t: usize, level: u8, base: u64, upto: usize, out: &mut Vec<MappingLine>)
        requires
            self.wf(),
            t < self.table_count(),
            level <= 2,
            upto <= 512,
            base + 512 * Self::size_at(level as int).bytes() <= 0x80_0000_0000,
        ensures
            final(out)@ == old(out)@ + self.table_lines(
                t as int,
                level as int,
                base as int,
                upto as int,
            ),
        decreases level,
    {
        let bytes: u64 = if level == 2 {
            0x4000_0000
        } else if level == 1 {
            0x20_0000
        } else {
            4096
        };
        let size = if level == 2 {
            PageSize::Gigapage
        } else if level == 1 {
            PageSize::Megapage
        } else {
            PageSize::Kilopage
        };
        let ghost start = out@;
        let mut s: usize = 0;
        while s < upto
            invariant
                0 <= s <= upto <= 512,
                self.wf(),
                t < self.table_count(),
                level <= 2,
                bytes == Self::size_at(level as int).bytes(),
                size == Self::size_at(level as int),
                base + 512 * bytes <= 0x80_0000_0000,
                out@ == start + self.table_lines(t as int, level as int, base as int, s as int),
            decreases upto - s,
        {
            let ghost so_far = out@;
            let entry = self.entry_at(t, s);
            let virt = base + s as u64 * bytes;
            if entry.is_leaf() {
                out.push(MappingLine { size, virt, frame: entry.number() * 4096 });
            } else if level > 0 {
                match self.follow(t, s) {
                    Some(c) => {
                        self.collect(c, level - 1, virt, 512, out);
                    },
                    None => {},
                }
            }
            assert(out@ =~= so_far + self.slot_lines(
                t as int,
                level as int,
                base as int,
                s as int,
            ));
            assert(out@ =~= start + self.table_lines(
                t as int,
                level as int,
                base as int,
                s as int + 1,
            ));
            s += 1;
        }
    }
}

impl<'a> PageTableDebugPrint<'a> {
    /// Every page that the user half maps, in address order, each with its
    /// size and the addresses it joins.
    pub fn lines(&self) -> (lines: Vec<MappingLine>)
        requires
            self.0.wf(),
        ensures
            lines@ == self.0.listing(),
    {
        let mut lines: Vec<MappingLine> = Vec::new();
        proof {
            self.0.lemma_has_root();
        }
        self.0.collect(0, 2, 0, KERNEL_SLOTS_START, &mut lines);
        lines
    }
}

} // verus!
