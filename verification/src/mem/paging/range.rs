//! Mapping runs of pages: one page after the other, with or without data
//! to put in them.
//!
//! A run maps its pages in order and stops at the first that cannot be
//! mapped. What comes of a run is stated by what the tables held before it:
//! a page of the run can be mapped where its addresses are in order, where
//! it was vacant before the run, and where no earlier page of the run lies
//! at the same place.

use crate::mem::address::{PageSize, PhysicalAddress, VirtualAddress};
use crate::mem::paging::entry::{PageTableEntry, Permissions, PHYSICAL_LIMIT};
use crate::mem::paging::manager::{pages_overlap, same_page, MapError, PageTableManager};
use vstd::prelude::*;

verus! {

/// Why mapping a run of pages stopped, and after how many pages.
#[derive(Debug, Clone, Copy, PartialEq, Eq, Structural)]
pub struct RangeError {
    /// The pages of the run that were mapped before it stopped.
    pub mapped: usize,
    /// Why the next page could not be mapped.
    pub cause: MapError,
}

/// Bytes to be copied into a page that has just been mapped: `len` bytes of
/// the data, from its byte `offset` on, go to the start of `frame`.
#[derive(Debug, Clone, Copy, PartialEq, Eq, Structural)]
pub struct PageLoad {
    pub frame: PhysicalAddress,
    pub offset: usize,
    pub len: usize,
}

/// The start of page `i` of a run of smallest pages from `start`.
pub open spec fn page_at(start: u64, i: int) -> u64 {
    (start + i * 4096) as u64
}

/// The number of pages that data of `len` bytes fills, the last one maybe in
/// part.
pub open spec fn pages_of(len: int) -> int {
    (len + 4095) / 4096
}

/// What page `i` of data of `len` bytes takes: its place in the data and
/// its length.
pub open spec fn load_of(frame: PhysicalAddress, len: int, i: int) -> PageLoad {
    PageLoad {
        frame,
        offset: (i * 4096) as usize,
        len: (if len - i * 4096 >= 4096 {
            4096
        } else {
            len - i * 4096
        }) as usize,
    }
}

/// What maps `a` after the first `count` pages of a run from `start` have
/// been mapped, one to each of `frames`, where `before` mapped it before.
pub open spec fn run_entry(
    before: Option<(PageTableEntry, PageSize)>,
    a: u64,
    start: u64,
    frames: Seq<PhysicalAddress>,
    perms: Permissions,
    count: int,
) -> Option<(PageTableEntry, PageSize)>
    decreases count,
{
    if count <= 0 {
        before
    } else if same_page(a, page_at(start, count - 1), PageSize::Kilopage) {
        Some((PageTableEntry::leaf_of(frames[count - 1], perms), PageSize::Kilopage))
    } else {
        run_entry(before, a, start, frames, perms, count - 1)
    }
}

/// Whether the page of size `size` at `b` shares no address with any of the
/// first `count` pages of a run from `start`.
pub open spec fn clear_of_run(b: u64, size: PageSize, start: u64, count: int) -> bool
    decreases count,
{
    if count <= 0 {
        true
    } else {
        !pages_overlap(b, size, page_at(start, count - 1), PageSize::Kilopage) && clear_of_run(
            b,
            size,
            start,
            count - 1,
        )
    }
}

impl PageTableManager {
    /// What comes of mapping page `i` of a run, where `self` holds the
    /// tables as they were before the run.
    pub open spec fn page_outcome(
        &self,
        start: u64,
        frames: Seq<PhysicalAddress>,
        perms: Permissions,
        i: int,
    ) -> Result<(), MapError> {
        let virt = page_at(start, i);
        let frame = frames[i]@;
        if virt % 4096 != 0 || frame % 4096 != 0 {
            Err(MapError::Misaligned)
        } else if frame >= PHYSICAL_LIMIT {
            Err(MapError::OutOfRange)
        } else if !perms.grants_access() {
            Err(MapError::NoAccess)
        } else if !(self.vacant(virt, PageSize::Kilopage) && clear_of_run(
            virt,
            PageSize::Kilopage,
            start,
            i,
        )) {
            Err(MapError::AlreadyMapped)
        } else {
            Ok(())
        }
    }

    /// How many of the first `count` pages of a run are mapped: all of them,
    /// or those before the first that cannot be.
    pub open spec fn run_length(
        &self,
        start: u64,
        frames: Seq<PhysicalAddress>,
        perms: Permissions,
        count: int,
    ) -> int
        decreases count,
    {
        if count <= 0 {
            0
        } else {
            let mapped = self.run_length(start, frames, perms, count - 1);
            if mapped == count - 1 && self.page_outcome(start, frames, perms, count - 1) is Ok {
                count
            } else {
                mapped
            }
        }
    }

    /// What comes of a run of `count` pages, where `self` holds the tables
    /// as they were before it. A run for which the arena might lack tables
    /// is not begun.
    pub open spec fn run_outcome(
        &self,
        start: u64,
        frames: Seq<PhysicalAddress>,
        perms: Permissions,
        count: int,
    ) -> Result<(), RangeError> {
        let mapped = self.run_length(start, frames, perms, count);
        if !self.has_room_for(count) {
            Err(RangeError { mapped: 0, cause: MapError::OutOfTables })
        } else if mapped >= count {
            Ok(())
        } else {
            Err(
                RangeError {
                    mapped: mapped as usize,
                    cause: self.page_outcome(start, frames, perms, mapped).unwrap_err(),
                },
            )
        }
    }

    /// The number of pages that a run of `count` pages maps.
    pub open spec fn run_mapped(
        &self,
        start: u64,
        frames: Seq<PhysicalAddress>,
        perms: Permissions,
        count: int,
    ) -> int {
        if !self.has_room_for(count) {
            0
        } else {
            self.run_length(start, frames, perms, count)
        }
    }

    /// What mapping the first `count` pages of a run makes of the tables
    /// `before`: each of the pages is mapped to its frame, nothing else
    /// changes, and no page that shares an address with one of them can be
    /// mapped any more.
    pub open spec fn maps_run(
        &self,
        before: &Self,
        start: u64,
        frames: Seq<PhysicalAddress>,
        perms: Permissions,
        count: int,
    ) -> bool {
        &&& forall|a: u64| #[trigger]
            self.leaf_entry(a) == run_entry(before.leaf_entry(a), a, start, frames, perms, count)
        &&& forall|b: u64, size: PageSize| #[trigger]
            self.vacant(b, size) == (before.vacant(b, size) && clear_of_run(b, size, start, count))
        &&& before.table_count() <= self.table_count() <= before.table_count() + 2 * count
    }

    /// A run that has stopped does not go on: once a page could not be
    /// mapped, the pages after it are not tried.
    pub proof fn lemma_run_stops(
        &self,
        start: u64,
        frames: Seq<PhysicalAddress>,
        perms: Permissions,
        mapped: int,
        count: int,
    )
        requires
            0 <= mapped < count,
            self.run_length(start, frames, perms, mapped) == mapped,
            self.page_outcome(start, frames, perms, mapped) is Err,
        ensures
            self.run_length(start, frames, perms, count) == mapped,
        decreases count,
    {
        if count > mapped + 1 {
            self.lemma_run_stops(start, frames, perms, mapped, count - 1);
        }
    }

    /// Maps the first `count` pages of the run from `start`, each to its
    /// frame.
    fn map_run(
        &mut self,
        start: VirtualAddress,
        perms: Permissions,
        frames: &[PhysicalAddress],
        count: usize,
    ) -> (done: Result<(), RangeError>)
        requires
            old(self).wf(),
            count <= frames@.len(),
            start@ + count * 4096 <= u64::MAX,
        ensures
            final(self).wf(),
            done == old(self).run_outcome(start@, frames@, perms, count as int),
            final(self).maps_run(
                old(self),
                start@,
                frames@,
                perms,
                old(self).run_mapped(start@, frames@, perms, count as int),
            ),
    {
        let ghost before = *self;
        if !self.room_for(count) {
            return Err(RangeError { mapped: 0, cause: MapError::OutOfTables });
        }
        let mut i: usize = 0;
        while i < count
            invariant
                0 <= i <= count <= frames@.len(),
                start@ + count * 4096 <= u64::MAX,
                self.wf(),
                before == *old(self),
                before.has_room_for(count as int),
                before.run_length(start@, frames@, perms, i as int) == i,
                self.maps_run(&before, start@, frames@, perms, i as int),
            decreases count - i,
        {
            let ghost here = *self;
            let page = start.offset(i as u64 * 4096);
            assert(page@ == page_at(start@, i as int));
            assert(here.vacant(page@, PageSize::Kilopage) == (before.vacant(
                page@,
                PageSize::Kilopage,
            ) && clear_of_run(page@, PageSize::Kilopage, start@, i as int)));
            match self.alloc_virtual(page, perms, frames[i]) {
                Ok(_) => {},
                Err(cause) => {
                    proof {
                        assert(before.page_outcome(start@, frames@, perms, i as int) == Err::<
                            (),
                            MapError,
                        >(cause));
                        before.lemma_run_stops(start@, frames@, perms, i as int, count as int);
                        assert forall|a: u64| #[trigger]
                            self.leaf_entry(a) == run_entry(
                                before.leaf_entry(a),
                                a,
                                start@,
                                frames@,
                                perms,
                                i as int,
                            ) by {
                            assert(self.leaf_entry(a) == here.leaf_entry(a));
                        }
                        assert forall|b: u64, size: PageSize| #[trigger]
                            self.vacant(b, size) == (before.vacant(b, size) && clear_of_run(
                                b,
                                size,
                                start@,
                                i as int,
                            )) by {
                            assert(self.vacant(b, size) == here.vacant(b, size));
                        }
                    }
                    return Err(RangeError { mapped: i, cause });
                },
            }
            proof {
                assert(before.page_outcome(start@, frames@, perms, i as int) is Ok);
                assert forall|a: u64| #[trigger]
                    self.leaf_entry(a) == run_entry(
                        before.leaf_entry(a),
                        a,
                        start@,
                        frames@,
                        perms,
                        i + 1,
                    ) by {
                    assert(here.leaf_entry(a) == run_entry(
                        before.leaf_entry(a),
                        a,
                        start@,
                        frames@,
                        perms,
                        i as int,
                    ));
                }
                assert forall|b: u64, size: PageSize| #[trigger]
                    self.vacant(b, size) == (before.vacant(b, size) && clear_of_run(
                        b,
                        size,
                        start@,
                        i + 1,
                    )) by {
                    assert(here.vacant(b, size) == (before.vacant(b, size) && clear_of_run(
                        b,
                        size,
                        start@,
                        i as int,
                    )));
                }
            }
            i += 1;
        }
        Ok(())
    }

    /// Maps `size` bytes from `start` on, page by page, each to one of
    /// `frames`, the pages that the physical allocator has handed out for
    /// them. `size` must be a multiple of the page size. The run stops at
    /// the first page that cannot be mapped; the pages before it stay
    /// mapped, and the error says how many they are.
    ///
    /// The caller invalidates the translation cache for every page mapped.
    pub fn alloc_virtual_range(
        &mut self,
        start: VirtualAddress,
        size: u64,
        perms: Permissions,
        frames: &[PhysicalAddress],
    ) -> (done: Result<(), RangeError>)
        requires
            old(self).wf(),
            size % 4096 == 0,
            frames@.len() == size / 4096,
            start@ + size <= u64::MAX,
        ensures
            final(self).wf(),
            done == old(self).run_outcome(start@, frames@, perms, size as int / 4096),
            final(self).maps_run(
                old(self),
                start@,
                frames@,
                perms,
                old(self).run_mapped(start@, frames@, perms, size as int / 4096),
            ),
    {
        self.map_run(start, perms, frames, frames.len())
    }

    /// Maps the smallest page at `map_to` to `frame`, a page that the
    /// physical allocator has just handed out, and says what is to be
    /// copied into it: `data`, which must fit in the page.
    ///
    /// The caller copies, and invalidates the translation cache for
    /// `map_to`.
    pub fn alloc_virtual_with_data(
        &mut self,
        map_to: VirtualAddress,
        perms: Permissions,
        data: &[u8],
        frame: PhysicalAddress,
    ) -> (done: Result<PageLoad, MapError>)
        requires
            old(self).wf(),
            data@.len() <= 4096,
        ensures
            final(self).wf(),
            match done {
                Ok(load) => {
                    &&& old(self).map_outcome(frame@, map_to@, PageSize::Kilopage, perms) is Ok
                    &&& final(self).extends(
                        old(self),
                        map_to@,
                        PageSize::Kilopage,
                        PageTableEntry::leaf_of(frame, perms),
                    )
                    &&& load == load_of(frame, data@.len() as int, 0)
                },
                Err(cause) => {
                    &&& old(self).map_outcome(frame@, map_to@, PageSize::Kilopage, perms) == Err::<
                        (),
                        MapError,
                    >(cause)
                    &&& final(self).means_the_same(old(self))
                },
            },
    {
        match self.alloc_virtual(map_to, perms, frame) {
            Ok(_) => Ok(PageLoad { frame, offset: 0, len: data.len() }),
            Err(cause) => Err(cause),
        }
    }

    /// The number of pages that `alloc_virtual_range_with_data` is to map:
    /// as many as the data fills, and no more than `pages`.
    pub open spec fn pages_with_data(pages: int, len: int) -> int {
        if pages_of(len) < pages {
            pages_of(len)
        } else {
            pages
        }
    }

    /// Maps pages from `start` on, as `alloc_virtual_range` does, for as
    /// long as there is data to put in them: as many pages as `data` fills,
    /// and no more than `size` bytes of them. The answer lists, page by
    /// page, what is to be copied where.
    ///
    /// The caller copies, and invalidates the translation cache for every
    /// page mapped.
    pub fn alloc_virtual_range_with_data(
        &mut self,
        start: VirtualAddress,
        size: u64,
        perms: Permissions,
        data: &[u8],
        frames: &[PhysicalAddress],
    ) -> (done: Result<Vec<PageLoad>, RangeError>)
        requires
            old(self).wf(),
            size % 4096 == 0,
            frames@.len() == size / 4096,
            start@ + size <= u64::MAX,
        ensures
            final(self).wf(),
            ({
                let count = Self::pages_with_data(size as int / 4096, data@.len() as int);
                &&& final(self).maps_run(
                    old(self),
                    start@,
                    frames@,
                    perms,
                    old(self).run_mapped(start@, frames@, perms, count),
                )
                &&& match done {
                    Ok(loads) => {
                        &&& old(self).run_outcome(start@, frames@, perms, count) is Ok
                        &&& loads@.len() == count
                        &&& forall|i: int|
                            0 <= i < count ==> #[trigger] loads@[i] == load_of(
                                frames@[i],
                                data@.len() as int,
                                i,
                            )
                    },
                    Err(stop) => old(self).run_outcome(start@, frames@, perms, count) == Err::<
                        (),
                        RangeError,
                    >(stop),
                }
            }),
    {
        let pages = frames.len();
        let len = data.len();
        let filled = if len % 4096 == 0 {
            len / 4096
        } else {
            len / 4096 + 1
        };
        let count = if filled < pages {
            filled
        } else {
            pages
        };
        match self.map_run(start, perms, frames, count) {
            Ok(_) => {},
            Err(stop) => {
                return Err(stop);
            },
        }
        let mut loads: Vec<PageLoad> = Vec::new();
        let mut i: usize = 0;
        while i < count
            invariant
                0 <= i <= count <= pages,
                count <= pages_of(len as int),
                pages == frames@.len(),
                len == data@.len(),
                loads@.len() == i,
                forall|j: int|
                    0 <= j < i ==> #[trigger] loads@[j] == load_of(frames@[j], len as int, j),
            decreases count - i,
        {
            let rest = len - i * 4096;
            let chunk = if rest >= 4096 {
                4096
            } else {
                rest
            };
            loads.push(PageLoad { frame: frames[i], offset: i * 4096, len: chunk });
            i += 1;
        }
        Ok(loads)
    }
}

} // verus!
