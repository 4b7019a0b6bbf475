//! The address map of one task: which spans of its address space are in use,
//! and what backs them.
//!
//! The map is a list of regions in address order that covers the whole range
//! a task may use. A region is either occupied, and then backed by a
//! `MemoryRegion`, or unoccupied. Two unoccupied regions never touch: freeing
//! merges them, so the free space between two allocations is always one
//! region, and the list is determined by the set of occupied regions alone.

use crate::mem::address::{VirtualAddress, USERSPACE_END, USERSPACE_START};
use crate::mem::region::MemoryRegion;
use core::ops::Range;
use vstd::prelude::*;

verus! {

/// What a region is used for. It is a note for whoever reads a dump of the
/// map; nothing is decided by it.
#[derive(Debug, Clone, Copy, PartialEq, Eq, Structural)]
pub enum AddressRegionKind {
    Channel,
    Data,
    Guard,
    ReadOnly,
    Stack,
    Text,
    Tls,
    Unoccupied,
    UserAllocated,
}

/// One contiguous span of a task's address space.
#[derive(Debug)]
pub struct AddressRegion {
    /// What backs the span; `None` for a span that nothing uses.
    pub region: Option<MemoryRegion>,
    /// The addresses of the region, `start` included and `end` not.
    pub span: Range<VirtualAddress>,
    /// What the region is used for.
    pub kind: AddressRegionKind,
}

impl AddressRegion {
    /// The occupied region that an allocation makes of its arguments.
    pub open spec fn occupied_by(
        span: Range<VirtualAddress>,
        backing: MemoryRegion,
        kind: AddressRegionKind,
    ) -> AddressRegion {
        AddressRegion { region: Some(backing), span, kind }
    }

    /// The unoccupied region from `start` to `end`.
    pub open spec fn hole(start: VirtualAddress, end: VirtualAddress) -> AddressRegion {
        AddressRegion {
            region: None,
            span: Range { start, end },
            kind: AddressRegionKind::Unoccupied,
        }
    }

    /// Whether the region shares no address with `span`.
    pub open spec fn apart_from(self, span: Range<VirtualAddress>) -> bool {
        self.span.end@ <= span.start@ || span.end@ <= self.span.start@
    }

    /// Whether `address` is one of the addresses of the region.
    pub open spec fn holds(self, address: int) -> bool {
        self.span.start@ <= address < self.span.end@
    }

    pub fn is_unoccupied(&self) -> (yes: bool)
        ensures
            yes == (self.region is None),
    {
        self.region.is_none()
    }
}

/// Whether `next` can stand right after `prev`: it starts where `prev` ends,
/// and the two are not both unoccupied.
pub open spec fn adjoins(prev: AddressRegion, next: AddressRegion) -> bool {
    &&& prev.span.end@ == next.span.start@
    &&& prev.region is None ==> next.region is Some
}

/// Whether a region is in order by itself: not empty, and marked as
/// unoccupied where nothing backs it.
pub open spec fn sound(r: AddressRegion) -> bool {
    &&& r.span.start@ < r.span.end@
    &&& r.region is None ==> r.kind == AddressRegionKind::Unoccupied
}

/// Regions that follow one another without a gap: each is sound and adjoins
/// the one before it.
#[verifier::opaque]
pub open spec fn chained(s: Seq<AddressRegion>) -> bool {
    &&& forall|i: int| 0 <= i < s.len() ==> sound(#[trigger] s[i])
    &&& forall|i: int, j: int|
        #![trigger s[i], s[j]]
        0 <= i && j == i + 1 && j < s.len() ==> adjoins(s[i], s[j])
}

/// Regions that cover the range of a task exactly: chained, from the first
/// address of the range to its end.
pub open spec fn partitions_userspace(s: Seq<AddressRegion>) -> bool {
    &&& s.len() > 0
    &&& chained(s)
    &&& s[0].span.start@ == USERSPACE_START
    &&& s[s.len() - 1].span.end@ == USERSPACE_END
}

/// The occupied regions among `s`.
pub open spec fn occupied(s: Seq<AddressRegion>) -> Set<AddressRegion> {
    Set::new(|r: AddressRegion| r.region is Some && s.contains(r))
}

/// What `chained` says of one region and of the one after it.
pub proof fn lemma_chained_at(s: Seq<AddressRegion>, i: int)
    requires
        chained(s),
        0 <= i < s.len(),
    ensures
        sound(s[i]),
        i + 1 < s.len() ==> adjoins(s[i], s[i + 1]),
{
    reveal(chained);
    if i + 1 < s.len() {
        assert(adjoins(s[i], s[i + 1]));
    }
}

/// In chained regions a later one starts no earlier than an earlier one ends.
pub proof fn lemma_chained_ordered(s: Seq<AddressRegion>, i: int, j: int)
    requires
        chained(s),
        0 <= i < j < s.len(),
    ensures
        s[i].span.end@ <= s[j].span.start@,
        s[i].span.start@ < s[j].span.start@,
        s[i].span.end@ < s[j].span.end@,
    decreases j - i,
{
    lemma_chained_at(s, i);
    lemma_chained_at(s, j);
    lemma_chained_at(s, j - 1);
    if j > i + 1 {
        lemma_chained_ordered(s, i, j - 1);
    }
}

/// Regions at different places of a chain are different regions.
pub proof fn lemma_chained_distinct(s: Seq<AddressRegion>, i: int, j: int)
    requires
        chained(s),
        0 <= i < s.len(),
        0 <= j < s.len(),
        i != j,
    ensures
        s[i] != s[j],
        s[i].span.start@ != s[j].span.start@,
{
    if i < j {
        lemma_chained_ordered(s, i, j);
    } else {
        lemma_chained_ordered(s, j, i);
    }
}

/// Every region of a partition lies within the userspace.
pub proof fn lemma_within_userspace(s: Seq<AddressRegion>, i: int)
    requires
        partitions_userspace(s),
        0 <= i < s.len(),
    ensures
        USERSPACE_START <= s[i].span.start@ < s[i].span.end@ <= USERSPACE_END,
{
    lemma_chained_at(s, i);
    if i > 0 {
        lemma_chained_ordered(s, 0, i);
    }
    if i < s.len() - 1 {
        lemma_chained_ordered(s, i, s.len() - 1);
    }
}

/// Index of the region that holds `address`, looked for from region `from` on.
pub proof fn lemma_region_holding(s: Seq<AddressRegion>, address: int, from: int) -> (i: int)
    requires
        partitions_userspace(s),
        0 <= from < s.len(),
        s[from].span.start@ <= address < USERSPACE_END,
    ensures
        0 <= i < s.len(),
        s[i].holds(address),
    decreases s.len() - from,
{
    if address < s[from].span.end@ {
        from
    } else {
        lemma_chained_at(s, from);
        lemma_region_holding(s, address, from + 1)
    }
}

/// What replaces the regions `lo` to `hi` of `s` in a splice: `mid` covers
/// the same addresses, and adjoins the neighbours in `s`.
pub open spec fn fits(s: Seq<AddressRegion>, lo: int, hi: int, mid: Seq<AddressRegion>) -> bool {
    &&& 0 <= lo <= hi < s.len()
    &&& mid.len() > 0
    &&& chained(mid)
    &&& mid[0].span.start@ == s[lo].span.start@
    &&& mid[mid.len() - 1].span.end@ == s[hi].span.end@
    &&& lo > 0 && mid[0].region is None ==> s[lo - 1].region is Some
    &&& hi + 1 < s.len() && mid[mid.len() - 1].region is None ==> s[hi + 1].region is Some
}

/// `s` with its regions `lo` to `hi` replaced by `mid`.
#[verifier::opaque]
pub open spec fn spliced(s: Seq<AddressRegion>, lo: int, hi: int, mid: Seq<AddressRegion>) -> Seq<
    AddressRegion,
> {
    s.take(lo) + mid + s.skip(hi + 1)
}

/// Where each region of a spliced list comes from.
pub proof fn lemma_spliced_index(
    s: Seq<AddressRegion>,
    lo: int,
    hi: int,
    mid: Seq<AddressRegion>,
    k: int,
)
    requires
        0 <= lo <= hi < s.len(),
        0 <= k < s.len() - (hi + 1 - lo) + mid.len(),
    ensures
        spliced(s, lo, hi, mid).len() == s.len() - (hi + 1 - lo) + mid.len(),
        k < lo ==> spliced(s, lo, hi, mid)[k] == s[k],
        lo <= k < lo + mid.len() ==> spliced(s, lo, hi, mid)[k] == mid[k - lo],
        lo + mid.len() <= k ==> spliced(s, lo, hi, mid)[k] == s[k + (hi + 1 - lo) - mid.len()],
{
    reveal(spliced);
}

/// Replacing a run of regions by a run that fits keeps the userspace
/// partitioned.
pub proof fn lemma_splice_partitions(
    s: Seq<AddressRegion>,
    lo: int,
    hi: int,
    mid: Seq<AddressRegion>,
)
    requires
        partitions_userspace(s),
        fits(s, lo, hi, mid),
    ensures
        partitions_userspace(spliced(s, lo, hi, mid)),
{
    let t = spliced(s, lo, hi, mid);
    let m = mid.len() as int;
    let shift = hi + 1 - lo - m;
    lemma_spliced_index(s, lo, hi, mid, 0);
    lemma_spliced_index(s, lo, hi, mid, s.len() - shift - 1);
    assert forall|i: int| 0 <= i < t.len() implies sound(#[trigger] t[i]) by {
        lemma_spliced_index(s, lo, hi, mid, i);
        if i < lo {
            lemma_chained_at(s, i);
        } else if i < lo + m {
            lemma_chained_at(mid, i - lo);
        } else {
            lemma_chained_at(s, i + shift);
        }
    }
    assert forall|i: int, j: int|
        #![trigger t[i], t[j]]
        0 <= i && j == i + 1 && j < t.len() implies adjoins(t[i], t[j]) by {
        lemma_spliced_index(s, lo, hi, mid, i);
        lemma_spliced_index(s, lo, hi, mid, j);
        if j < lo {
            lemma_chained_at(s, i);
        } else if j == lo {
            lemma_chained_at(s, i);
        } else if j < lo + m {
            lemma_chained_at(mid, i - lo);
        } else if j == lo + m {
            lemma_chained_at(s, hi);
        } else {
            lemma_chained_at(s, i + shift);
        }
    }
    assert(chained(t)) by {
        reveal(chained);
    }
}

/// Replacing a run of regions by a run that fits changes the occupied
/// regions by exactly those that left and those that came.
pub proof fn lemma_splice_occupied(
    s: Seq<AddressRegion>,
    lo: int,
    hi: int,
    mid: Seq<AddressRegion>,
    r: AddressRegion,
)
    requires
        partitions_userspace(s),
        fits(s, lo, hi, mid),
    ensures
        occupied(spliced(s, lo, hi, mid)).contains(r) <==> (occupied(mid).contains(r) || (
        occupied(s).contains(r) && !s.subrange(lo, hi + 1).contains(r))),
{
    let t = spliced(s, lo, hi, mid);
    let gone = s.subrange(lo, hi + 1);
    let m = mid.len() as int;
    let shift = hi + 1 - lo - m;
    lemma_spliced_index(s, lo, hi, mid, lo);
    if occupied(t).contains(r) {
        let k = choose|k: int| 0 <= k < t.len() && t[k] == r;
        lemma_spliced_index(s, lo, hi, mid, k);
        if k < lo {
            assert(s[k] == r);
            if gone.contains(r) {
                let q = choose|q: int| 0 <= q < gone.len() && gone[q] == r;
                lemma_chained_distinct(s, k, lo + q);
            }
        } else if k < lo + m {
            assert(mid[k - lo] == r);
        } else {
            assert(s[k + shift] == r);
            if gone.contains(r) {
                let q = choose|q: int| 0 <= q < gone.len() && gone[q] == r;
                lemma_chained_distinct(s, k + shift, lo + q);
            }
        }
    }
    if occupied(mid).contains(r) {
        let q = choose|q: int| 0 <= q < mid.len() && mid[q] == r;
        lemma_spliced_index(s, lo, hi, mid, lo + q);
        assert(t[lo + q] == r);
    }
    if occupied(s).contains(r) && !gone.contains(r) {
        let j = choose|j: int| 0 <= j < s.len() && s[j] == r;
        if j < lo {
            lemma_spliced_index(s, lo, hi, mid, j);
            assert(t[j] == r);
        } else if j <= hi {
            assert(gone[j - lo] == r);
        } else {
            lemma_spliced_index(s, lo, hi, mid, j - shift);
            assert(t[j - shift] == r);
        }
    }
}

/// The hole that is left before `span` when it is cut out of `enclosing`,
/// if any.
pub open spec fn cut_lead(enclosing: AddressRegion, span: Range<VirtualAddress>) -> Seq<
    AddressRegion,
> {
    if enclosing.span.start@ == span.start@ {
        Seq::empty()
    } else {
        seq![AddressRegion::hole(enclosing.span.start, span.start)]
    }
}

/// The hole that is left after `span` when it is cut out of `enclosing`, if
/// any.
pub open spec fn cut_trail(enclosing: AddressRegion, span: Range<VirtualAddress>) -> Seq<
    AddressRegion,
> {
    if enclosing.span.end@ == span.end@ {
        Seq::empty()
    } else {
        seq![AddressRegion::hole(span.end, enclosing.span.end)]
    }
}

/// Cutting a span out of the unoccupied region that holds it, and giving it
/// to `backing`, keeps the userspace partitioned and adds one occupied
/// region.
pub proof fn lemma_cut(
    s: Seq<AddressRegion>,
    i: int,
    span: Range<VirtualAddress>,
    backing: MemoryRegion,
    kind: AddressRegionKind,
)
    requires
        partitions_userspace(s),
        0 <= i < s.len(),
        s[i].region is None,
        s[i].span.start@ <= span.start@ < span.end@ <= s[i].span.end@,
    ensures
        ({
            let active = AddressRegion::occupied_by(span, backing, kind);
            let mid = cut_lead(s[i], span) + seq![active] + cut_trail(s[i], span);
            &&& partitions_userspace(spliced(s, i, i, mid))
            &&& occupied(spliced(s, i, i, mid)) == occupied(s).insert(active)
        }),
{
    let active = AddressRegion::occupied_by(span, backing, kind);
    let lead = cut_lead(s[i], span);
    let trail = cut_trail(s[i], span);
    let mid = lead + seq![active] + trail;
    let n = lead.len() as int;
    assert(mid[n] == active);
    if n > 0 {
        assert(mid[0] == lead[0]);
    }
    if trail.len() > 0 {
        assert(mid[mid.len() - 1] == trail[0]);
    }
    assert(chained(mid)) by {
        reveal(chained);
        assert forall|k: int| 0 <= k < mid.len() implies sound(#[trigger] mid[k]) by {
            if k < n {
                assert(mid[k] == lead[k]);
            } else if k > n {
                assert(mid[k] == trail[k - n - 1]);
            }
        }
        assert forall|k: int, l: int|
            #![trigger mid[k], mid[l]]
            0 <= k && l == k + 1 && l < mid.len() implies adjoins(mid[k], mid[l]) by {
            if k < n {
                assert(mid[k] == lead[k]);
            }
            if l > n {
                assert(mid[l] == trail[l - n - 1]);
            }
        }
    }
    lemma_chained_at(s, i);
    if i > 0 {
        lemma_chained_at(s, i - 1);
    }
    assert(fits(s, i, i, mid));
    lemma_splice_partitions(s, i, i, mid);
    let after = spliced(s, i, i, mid);
    let gone = s.subrange(i, i + 1);
    assert forall|r: AddressRegion|
        occupied(after).contains(r) <==> (r == active || occupied(s).contains(r)) by {
        lemma_splice_occupied(s, i, i, mid, r);
        if occupied(mid).contains(r) {
            let q = choose|q: int| 0 <= q < mid.len() && mid[q] == r;
            if q < n {
                assert(mid[q] == lead[q]);
            } else if q > n {
                assert(mid[q] == trail[q - n - 1]);
            }
        }
        if gone.contains(r) {
            let q = choose|q: int| 0 <= q < gone.len() && gone[q] == r;
        }
    }
    assert(occupied(after) =~= occupied(s).insert(active));
}

/// First of the regions that merge when the occupied region `i` is freed:
/// the unoccupied neighbour before it, or the region itself.
pub open spec fn merge_first(s: Seq<AddressRegion>, i: int) -> int {
    if i > 0 && s[i - 1].region is None {
        i - 1
    } else {
        i
    }
}

/// Last of the regions that merge when the occupied region `i` is freed: the
/// unoccupied neighbour after it, or the region itself.
pub open spec fn merge_last(s: Seq<AddressRegion>, i: int) -> int {
    if i + 1 < s.len() && s[i + 1].region is None {
        i + 1
    } else {
        i
    }
}

/// The one hole that the merging regions become.
pub open spec fn merged(s: Seq<AddressRegion>, i: int) -> AddressRegion {
    AddressRegion::hole(s[merge_first(s, i)].span.start, s[merge_last(s, i)].span.end)
}

/// Freeing an occupied region and merging it with its unoccupied neighbours
/// keeps the userspace partitioned and takes one occupied region away.
pub proof fn lemma_merge(s: Seq<AddressRegion>, i: int)
    requires
        partitions_userspace(s),
        0 <= i < s.len(),
        s[i].region is Some,
    ensures
        ({
            let after = spliced(s, merge_first(s, i), merge_last(s, i), seq![merged(s, i)]);
            &&& partitions_userspace(after)
            &&& occupied(after) == occupied(s).remove(s[i])
            &&& after[merge_first(s, i)] == merged(s, i)
            &&& merged(s, i).span.start@ <= s[i].span.start@
            &&& s[i].span.end@ <= merged(s, i).span.end@
        }),
{
    let lo = merge_first(s, i);
    let hi = merge_last(s, i);
    let mid = seq![merged(s, i)];
    lemma_chained_at(s, i);
    lemma_chained_at(s, lo);
    lemma_chained_at(s, hi);
    if lo > 0 {
        lemma_chained_at(s, lo - 1);
    }
    assert(chained(mid)) by {
        reveal(chained);
    }
    assert(fits(s, lo, hi, mid));
    lemma_splice_partitions(s, lo, hi, mid);
    let after = spliced(s, lo, hi, mid);
    lemma_spliced_index(s, lo, hi, mid, lo);
    let gone = s.subrange(lo, hi + 1);
    assert forall|r: AddressRegion|
        occupied(after).contains(r) <==> (occupied(s).contains(r) && r != s[i]) by {
        lemma_splice_occupied(s, lo, hi, mid, r);
        if occupied(mid).contains(r) {
            let q = choose|q: int| 0 <= q < mid.len() && mid[q] == r;
        }
        if gone.contains(r) {
            let q = choose|q: int| 0 <= q < gone.len() && gone[q] == r;
            assert(gone[q] == s[lo + q]);
        }
        assert(gone[i - lo] == s[i]);
    }
    assert(occupied(after) =~= occupied(s).remove(s[i]));
}

/// The region that decides a release is the first that ends at or after the
/// end of the span given. An occupied region has that span exactly when this
/// one has; and no other has.
pub proof fn lemma_free_target(s: Seq<AddressRegion>, span: Range<VirtualAddress>, i: int)
    requires
        partitions_userspace(s),
        0 <= i <= s.len(),
        i < s.len() ==> span.end@ <= s[i].span.end@,
        forall|j: int| 0 <= j < i ==> (#[trigger] s[j]).span.end@ < span.end@,
    ensures
        forall|r: AddressRegion|
            (#[trigger] occupied(s).contains(r) && r.span == span) <==> (i < s.len()
                && s[i].region is Some && s[i].span == span && r == s[i]),
{
    assert forall|r: AddressRegion|
        (#[trigger] occupied(s).contains(r) && r.span == span) <==> (i < s.len()
            && s[i].region is Some && s[i].span == span && r == s[i]) by {
        if occupied(s).contains(r) && r.span == span {
            let j = choose|j: int| 0 <= j < s.len() && s[j] == r;
            if j < i {
                assert(s[j].span.end@ < span.end@);
            } else if j > i {
                lemma_chained_ordered(s, i, j);
            }
        }
        if i < s.len() && r == s[i] {
            assert(s.contains(s[i]));
        }
    }
}

/// The region that decides an allocation is the first that ends at or after
/// the end of the span asked for. The span shares no address with an
/// occupied region exactly when that region exists, is unoccupied and starts
/// at or before the span.
pub proof fn lemma_alloc_target(s: Seq<AddressRegion>, span: Range<VirtualAddress>, i: int)
    requires
        partitions_userspace(s),
        span.start@ < span.end@,
        0 <= i <= s.len(),
        i < s.len() ==> span.end@ <= s[i].span.end@,
        forall|j: int| 0 <= j < i ==> (#[trigger] s[j]).span.end@ < span.end@,
    ensures
        (i < s.len() && s[i].region is None && s[i].span.start@ <= span.start@) <==> (span.end@
            <= USERSPACE_END && forall|r: AddressRegion| #[trigger]
            occupied(s).contains(r) ==> r.apart_from(span)),
{
    let last = s.len() - 1;
    if i < s.len() && s[i].region is None && s[i].span.start@ <= span.start@ {
        lemma_within_userspace(s, i);
        assert forall|r: AddressRegion| #[trigger] occupied(s).contains(r) implies r.apart_from(
            span,
        ) by {
            let j = choose|j: int| 0 <= j < s.len() && s[j] == r;
            if j < i {
                lemma_chained_ordered(s, j, i);
            } else if j > i {
                lemma_chained_ordered(s, i, j);
            }
        }
    }
    if span.end@ <= USERSPACE_END && forall|r: AddressRegion| #[trigger]
        occupied(s).contains(r) ==> r.apart_from(span) {
        if i == s.len() {
            assert(s[last].span.end@ < span.end@);
        }
        lemma_chained_at(s, i);
        if i > 0 {
            lemma_chained_at(s, i - 1);
            assert(s[i - 1].span.end@ < span.end@);
        }
        if s[i].region is Some {
            assert(s.contains(s[i]));
            assert(occupied(s).contains(s[i]));
        } else if s[i].span.start@ > span.start@ {
            assert(s.contains(s[i - 1]));
            assert(occupied(s).contains(s[i - 1]));
        }
    }
}

/// In two partitions with the same occupied regions, an unoccupied region of
/// the one does not end before the unoccupied region of the other that
/// starts at the same address.
proof fn lemma_hole_end(a: Seq<AddressRegion>, b: Seq<AddressRegion>, i: int)
    requires
        partitions_userspace(a),
        partitions_userspace(b),
        occupied(a) == occupied(b),
        0 <= i < a.len(),
        i < b.len(),
        a[i].region is None,
        b[i].region is None,
        a[i].span.start@ == b[i].span.start@,
    ensures
        a[i].span.end@ >= b[i].span.end@,
{
    if a[i].span.end@ < b[i].span.end@ {
        lemma_within_userspace(b, i);
        lemma_chained_at(a, i);
        let next = a[i + 1];
        assert(a.contains(next));
        assert(occupied(a).contains(next));
        assert(occupied(b).contains(next));
        let m = choose|m: int| 0 <= m < b.len() && b[m] == next;
        if m < i {
            lemma_chained_ordered(b, m, i);
        } else if m > i {
            lemma_chained_ordered(b, i, m);
        }
    }
}

/// Two partitions with the same occupied regions have the same region at
/// every place where both start at the same address.
proof fn lemma_same_at(a: Seq<AddressRegion>, b: Seq<AddressRegion>, i: int)
    requires
        partitions_userspace(a),
        partitions_userspace(b),
        occupied(a) == occupied(b),
        0 <= i < a.len(),
        i < b.len(),
        a[i].span.start@ == b[i].span.start@,
    ensures
        a[i] == b[i],
{
    if a[i].region is Some {
        assert(a.contains(a[i]));
        assert(occupied(a).contains(a[i]));
        assert(occupied(b).contains(a[i]));
        let m = choose|m: int| 0 <= m < b.len() && b[m] == a[i];
        if m != i {
            lemma_chained_distinct(b, m, i);
        }
    } else if b[i].region is Some {
        assert(b.contains(b[i]));
        assert(occupied(b).contains(b[i]));
        assert(occupied(a).contains(b[i]));
        let m = choose|m: int| 0 <= m < a.len() && a[m] == b[i];
        if m != i {
            lemma_chained_distinct(a, m, i);
        }
    } else {
        lemma_hole_end(a, b, i);
        lemma_hole_end(b, a, i);
        lemma_chained_at(a, i);
        lemma_chained_at(b, i);
        VirtualAddress::lemma_view_injective(a[i].span.start, b[i].span.start);
        VirtualAddress::lemma_view_injective(a[i].span.end, b[i].span.end);
    }
}

/// Two partitions with the same occupied regions agree on their first `k`
/// regions.
proof fn lemma_same_prefix(a: Seq<AddressRegion>, b: Seq<AddressRegion>, k: int)
    requires
        partitions_userspace(a),
        partitions_userspace(b),
        occupied(a) == occupied(b),
        0 <= k <= a.len(),
    ensures
        k <= b.len(),
        forall|j: int| 0 <= j < k ==> a[j] == b[j],
    decreases k,
{
    if k > 0 {
        lemma_same_prefix(a, b, k - 1);
        let i = k - 1;
        if i > 0 {
            assert(a[i - 1] == b[i - 1]);
            lemma_chained_at(a, i - 1);
            lemma_within_userspace(a, i);
            if i < b.len() {
                lemma_chained_at(b, i - 1);
            }
        }
        lemma_same_at(a, b, i);
    }
}

/// The occupied regions determine the whole partition: there is one way only
/// to fill the space between them.
pub proof fn lemma_partition_determined(a: Seq<AddressRegion>, b: Seq<AddressRegion>)
    requires
        partitions_userspace(a),
        partitions_userspace(b),
        occupied(a) == occupied(b),
    ensures
        a == b,
{
    lemma_same_prefix(a, b, a.len() as int);
    lemma_same_prefix(b, a, b.len() as int);
    assert(a =~= b);
}

/// The userspace of one task, and what each part of it is used for.
#[derive(Debug)]
pub struct AddressMap {
    regions: Vec<AddressRegion>,
}

impl AddressMap {
    /// All regions of the map, occupied or not, in address order.
    pub closed spec fn regions(&self) -> Seq<AddressRegion> {
        self.regions@
    }

    /// The occupied regions: what has been allocated and not yet freed.
    pub open spec fn view(&self) -> Set<AddressRegion> {
        occupied(self.regions())
    }

    /// The invariant of the map: its regions cover the userspace exactly,
    /// without gap or overlap, and free space is never split in two.
    pub open spec fn wf(&self) -> bool {
        partitions_userspace(self.regions())
    }

    /// Whether `span` can be allocated: it lies in the userspace and shares
    /// no address with an occupied region.
    pub open spec fn available(&self, span: Range<VirtualAddress>) -> bool {
        &&& USERSPACE_START <= span.start@
        &&& span.end@ <= USERSPACE_END
        &&& forall|r: AddressRegion| #[trigger] self@.contains(r) ==> r.apart_from(span)
    }

    /// The occupied region whose span is exactly `span`, if there is one.
    pub open spec fn occupant(&self, span: Range<VirtualAddress>) -> Option<AddressRegion> {
        if exists|r: AddressRegion| #[trigger] self@.contains(r) && r.span == span {
            Some(choose|r: AddressRegion| #[trigger] self@.contains(r) && r.span == span)
        } else {
            None
        }
    }

    /// Whether `span` lies within a single unoccupied region.
    pub open spec fn unoccupied_around(&self, span: Range<VirtualAddress>) -> bool {
        exists|i: int|
            0 <= i < self.regions().len() && (#[trigger] self.regions()[i]).region is None
                && self.regions()[i].span.start@ <= span.start@ && span.end@
                <= self.regions()[i].span.end@
    }

    /// A map in which nothing is allocated: one unoccupied region over the
    /// whole userspace.
    pub fn new() -> (map: Self)
        ensures
            map.wf(),
            map.regions().len() == 1,
            map.regions()[0].region is None,
            map.regions()[0].kind == AddressRegionKind::Unoccupied,
            map.regions()[0].span.start@ == USERSPACE_START,
            map.regions()[0].span.end@ == USERSPACE_END,
            map@ == Set::<AddressRegion>::empty(),
    {
        let complete_range = VirtualAddress::userspace_range();
        let mut regions: Vec<AddressRegion> = Vec::new();
        regions.push(
            AddressRegion {
                region: None,
                span: complete_range,
                kind: AddressRegionKind::Unoccupied,
            },
        );
        let map = Self { regions };
        proof {
            reveal(chained);
            assert forall|r: AddressRegion| !(#[trigger] map@.contains(r)) by {
                if r.region is Some && map.regions().contains(r) {
                    let i = choose|i: int| 0 <= i < map.regions().len() && map.regions()[i] == r;
                    assert(i == 0);
                }
            }
            assert(map@ =~= Set::<AddressRegion>::empty());
        }
        map
    }

    /// Takes `subrange` for `backing`. This succeeds exactly when the span
    /// is available. The unoccupied region around the span is then cut into
    /// the part before the span, the span itself, now occupied, and the part
    /// after it, with the empty parts left out. Where the span cannot be
    /// had, the map stays as it was.
    ///
    /// The span must not be empty.
    pub fn allocate(
        &mut self,
        subrange: Range<VirtualAddress>,
        backing: MemoryRegion,
        kind: AddressRegionKind,
    ) -> (done: Result<(), ()>)
        requires
            old(self).wf(),
            subrange.start@ < subrange.end@,
        ensures
            final(self).wf(),
            done is Ok <==> old(self).available(subrange),
            done is Ok ==> final(self)@ == old(self)@.insert(
                AddressRegion::occupied_by(subrange, backing, kind),
            ),
            done is Err ==> final(self).regions() == old(self).regions(),
    {
        let ghost before = self.regions@;
        let i = self.first_ending_at_or_after(subrange.end.as_u64());
        proof {
            lemma_alloc_target(before, subrange, i as int);
            assert(old(self)@ == occupied(before));
            assert(old(self).available(subrange) <==> (subrange.end@ <= USERSPACE_END
                && forall|r: AddressRegion| #[trigger]
                occupied(before).contains(r) ==> r.apart_from(subrange)));
        }
        if i == self.regions.len() {
            return Err(());
        }
        if self.regions[i].span.start.as_u64() > subrange.start.as_u64()
            || self.regions[i].region.is_some() {
            return Err(());
        }
        let enclosing = self.regions.remove(i);
        let start = enclosing.span.start;
        let end = enclosing.span.end;
        let ghost head = before.take(i as int);
        let ghost tail = before.skip(i + 1);
        let ghost active = AddressRegion::occupied_by(subrange, backing, kind);
        let ghost lead = cut_lead(before[i as int], subrange);
        let ghost trail = cut_trail(before[i as int], subrange);
        assert(self.regions@ =~= head + tail);
        let mut at = i;
        if start.as_u64() != subrange.start.as_u64() {
            self.regions.insert(
                at,
                AddressRegion {
                    region: None,
                    span: Range { start, end: subrange.start },
                    kind: AddressRegionKind::Unoccupied,
                },
            );
            at += 1;
        }
        assert(self.regions@ =~= head + lead + tail);
        assert(at == i + lead.len());
        let subrange_end = subrange.end;
        self.regions.insert(at, AddressRegion { region: Some(backing), span: subrange, kind });
        assert(self.regions@ =~= head + (lead + seq![active]) + tail);
        assert(at < self.regions.len());
        if end.as_u64() != subrange_end.as_u64() {
            self.regions.insert(
                at + 1,
                AddressRegion {
                    region: None,
                    span: Range { start: subrange_end, end },
                    kind: AddressRegionKind::Unoccupied,
                },
            );
        }
        assert(self.regions@ =~= head + (lead + seq![active] + trail) + tail);
        proof {
            reveal(spliced);
            lemma_cut(before, i as int, subrange, backing, kind);
        }
        Ok(())
    }

    /// Gives the span `range` back and returns what backed it. This succeeds
    /// exactly when an occupied region has that very span: a part of a
    /// region cannot be freed. The region becomes unoccupied and is merged
    /// with the unoccupied region before it and the one after it, where
    /// there is one; as no two unoccupied regions are ever neighbours, one
    /// on each side is all there can be. Where nothing is freed, the map
    /// stays as it was.
    pub fn free(&mut self, range: Range<VirtualAddress>) -> (done: Result<MemoryRegion, ()>)
        requires
            old(self).wf(),
        ensures
            final(self).wf(),
            match done {
                Ok(backing) => {
                    &&& old(self).occupant(range) matches Some(freed)
                    &&& freed.region == Some(backing)
                    &&& final(self)@ == old(self)@.remove(freed)
                    &&& final(self).unoccupied_around(range)
                },
                Err(_) => {
                    &&& old(self).occupant(range) is None
                    &&& final(self).regions() == old(self).regions()
                },
            },
    {
        let ghost before = self.regions@;
        let i = self.first_ending_at_or_after(range.end.as_u64());
        proof {
            lemma_free_target(before, range, i as int);
            assert(old(self)@ == occupied(before));
        }
        if i == self.regions.len() {
            return Err(());
        }
        proof {
            VirtualAddress::lemma_view_injective(before[i as int].span.start, range.start);
            VirtualAddress::lemma_view_injective(before[i as int].span.end, range.end);
        }
        if self.regions[i].span.start.as_u64() != range.start.as_u64()
            || self.regions[i].span.end.as_u64() != range.end.as_u64()
            || self.regions[i].region.is_none() {
            return Err(());
        }
        proof {
            assert(before[i as int].span == range);
            assert(before.contains(before[i as int]));
            assert(old(self)@.contains(before[i as int]));
            lemma_merge(before, i as int);
        }
        let backing = self.release(i);
        proof {
            lemma_spliced_index(
                before,
                merge_first(before, i as int),
                merge_last(before, i as int),
                seq![merged(before, i as int)],
                merge_first(before, i as int),
            );
        }
        Ok(backing)
    }

    /// Takes the occupied region `i` out of the list and puts one hole in
    /// the place of it and of its unoccupied neighbours.
    fn release(&mut self, i: usize) -> (backing: MemoryRegion)
        requires
            old(self).wf(),
            i < old(self).regions().len(),
            old(self).regions()[i as int].region is Some,
        ensures
            old(self).regions()[i as int].region == Some(backing),
            final(self).regions() == spliced(
                old(self).regions(),
                merge_first(old(self).regions(), i as int),
                merge_last(old(self).regions(), i as int),
                seq![merged(old(self).regions(), i as int)],
            ),
    {
        let ghost before = self.regions@;
        let ghost lo = merge_first(before, i as int);
        let ghost hi = merge_last(before, i as int);
        let freed = self.regions.remove(i);
        let mut start = freed.span.start;
        let mut end = freed.span.end;
        let mut at = i;
        if at > 0 && self.regions[at - 1].region.is_none() {
            let lower = self.regions.remove(at - 1);
            start = lower.span.start;
            at -= 1;
        }
        assert(at == lo);
        assert(self.regions@ =~= before.take(lo) + before.skip(i + 1));
        if at < self.regions.len() && self.regions[at].region.is_none() {
            let upper = self.regions.remove(at);
            end = upper.span.end;
        }
        assert(self.regions@ =~= before.take(lo) + before.skip(hi + 1));
        self.regions.insert(
            at,
            AddressRegion {
                region: None,
                span: Range { start, end },
                kind: AddressRegionKind::Unoccupied,
            },
        );
        proof {
            reveal(spliced);
            assert(self.regions@ =~= spliced(before, lo, hi, seq![merged(before, i as int)]));
        }
        freed.region.unwrap()
    }

    /// Index of the first region that ends at or after `address`, or the
    /// number of regions where there is none.
    fn first_ending_at_or_after(&self, address: u64) -> (i: usize)
        requires
            self.wf(),
        ensures
            i <= self.regions().len(),
            i < self.regions().len() ==> address <= self.regions()[i as int].span.end@,
            i == self.regions().len() ==> address > USERSPACE_END,
            forall|j: int| 0 <= j < i ==> (#[trigger] self.regions()[j]).span.end@ < address,
    {
        let mut i: usize = 0;
        while i < self.regions.len() && self.regions[i].span.end.as_u64() < address
            invariant
                i <= self.regions.len(),
                forall|j: int| 0 <= j < i ==> (#[trigger] self.regions@[j]).span.end@ < address,
            decreases self.regions.len() - i,
        {
            i += 1;
        }
        proof {
            if i == self.regions@.len() {
                assert(self.regions@[i - 1].span.end@ < address);
            }
        }
        i
    }

    /// The region that ends at or after `address` and starts before it: the
    /// first region, in address order, whose end is not below `address`.
    /// There is one for every address up to the end of the userspace, that
    /// end included; an address at which one region ends and the next
    /// starts is found in the region that ends there.
    pub fn find(&self, address: VirtualAddress) -> (found: Option<&AddressRegion>)
        requires
            self.wf(),
        ensures
            found is Some <==> address@ <= USERSPACE_END,
            found matches Some(region) ==> {
                &&& self.regions().contains(*region)
                &&& address@ <= region.span.end@
                &&& region.span.start@ < address@ || region.span.start@ == USERSPACE_START
            },
    {
        let i = self.first_ending_at_or_after(address.as_u64());
        if i < self.regions.len() {
            proof {
                lemma_within_userspace(self.regions@, i as int);
                if i > 0 {
                    lemma_chained_at(self.regions@, i - 1);
                }
            }
            Some(&self.regions[i])
        } else {
            None
        }
    }
    /// Every address of the userspace lies in one region of the map, and in
    /// one only: the regions leave no gap and do not overlap.
    pub proof fn lemma_covers_userspace_once(&self, address: int)
        requires
            self.wf(),
            USERSPACE_START <= address < USERSPACE_END,
        ensures
            exists|i: int|
                0 <= i < self.regions().len() && (#[trigger] self.regions()[i]).holds(address),
            forall|i: int, j: int|
                0 <= i < self.regions().len() && 0 <= j < self.regions().len() && (
                #[trigger] self.regions()[i]).holds(address) && (
                #[trigger] self.regions()[j]).holds(address) ==> i == j,
    {
        let s = self.regions();
        let at = lemma_region_holding(s, address, 0);
        assert(s[at].holds(address));
        assert forall|i: int, j: int|
            0 <= i < s.len() && 0 <= j < s.len() && (#[trigger] s[i]).holds(address) && (
            #[trigger] s[j]).holds(address) implies i == j by {
            if i < j {
                lemma_chained_ordered(s, i, j);
            } else if j < i {
                lemma_chained_ordered(s, j, i);
            }
        }
    }

    /// Two occupied regions of a map that are not the same region share no
    /// address.
    pub proof fn lemma_occupied_apart(&self, a: AddressRegion, b: AddressRegion)
        requires
            self.wf(),
            self@.contains(a),
            self@.contains(b),
            a != b,
        ensures
            a.apart_from(b.span),
    {
        let s = self.regions();
        let i = choose|i: int| 0 <= i < s.len() && s[i] == a;
        let j = choose|j: int| 0 <= j < s.len() && s[j] == b;
        if i < j {
            lemma_chained_ordered(s, i, j);
        } else if j < i {
            lemma_chained_ordered(s, j, i);
        }
    }

    /// A span that shares an address with an occupied region is not
    /// available, so an allocation there fails and leaves the map as it is.
    pub proof fn lemma_overlap_unavailable(&self, span: Range<VirtualAddress>, r: AddressRegion)
        requires
            self@.contains(r),
            !r.apart_from(span),
        ensures
            !self.available(span),
    {
    }

    /// A span that shares no address with an occupied region lies within one
    /// unoccupied region: free space that touches is one region.
    pub proof fn lemma_available_is_one_hole(&self, span: Range<VirtualAddress>)
        requires
            self.wf(),
            span.start@ < span.end@,
            self.available(span),
        ensures
            self.unoccupied_around(span),
    {
        let s = self.regions();
        let i = lemma_region_holding(s, span.end@ - 1, 0);
        assert forall|j: int| 0 <= j < i implies (#[trigger] s[j]).span.end@ < span.end@ by {
            lemma_chained_ordered(s, j, i);
        }
        lemma_alloc_target(s, span, i);
        assert(self@ == occupied(s));
        assert(s[i].region is None);
    }

    /// The occupied regions determine the map: two maps that hold the same
    /// occupied regions have the same regions throughout.
    pub proof fn lemma_determined_by_view(&self, other: &AddressMap)
        requires
            self.wf(),
            other.wf(),
            self@ == other@,
        ensures
            self.regions() == other.regions(),
    {
        lemma_partition_determined(self.regions(), other.regions());
    }

    /// Allocating a span and freeing it again leads back to where it began:
    /// what is freed is the region that was allocated, with its backing, and
    /// the map has the regions it had before. Here `before` is any map in
    /// which `span` is available, `between` the map after `allocate`, and
    /// `after` the map after `free` of the same span.
    pub proof fn lemma_allocate_then_free(
        before: &AddressMap,
        between: &AddressMap,
        after: &AddressMap,
        span: Range<VirtualAddress>,
        backing: MemoryRegion,
        kind: AddressRegionKind,
    )
        requires
            before.wf(),
            between.wf(),
            after.wf(),
            span.start@ < span.end@,
            before.available(span),
            between@ == before@.insert(AddressRegion::occupied_by(span, backing, kind)),
            between.occupant(span) is Some ==> after@ == between@.remove(
                between.occupant(span).unwrap(),
            ),
        ensures
            between.occupant(span) == Some(AddressRegion::occupied_by(span, backing, kind)),
            after@ == before@,
            after.regions() == before.regions(),
    {
        let active = AddressRegion::occupied_by(span, backing, kind);
        assert(between@.contains(active));
        assert(active.span == span);
        let found = between.occupant(span).unwrap();
        assert(between@.contains(found) && found.span == span);
        if found != active {
            assert(before@.contains(found));
            assert(found.apart_from(span));
        }
        if before@.contains(active) {
            assert(active.apart_from(span));
        }
        assert(after@ =~= before@);
        after.lemma_determined_by_view(before);
    }

    /// The order in which two regions are freed does not matter: either way
    /// the map ends with the same regions. `first_a` and `first_b` are the
    /// maps after freeing `a`, or `b`, from `start`; `a_then_b` and
    /// `b_then_a` the maps after freeing the other one too.
    pub proof fn lemma_free_in_any_order(
        start: &AddressMap,
        first_a: &AddressMap,
        a_then_b: &AddressMap,
        first_b: &AddressMap,
        b_then_a: &AddressMap,
        a: AddressRegion,
        b: AddressRegion,
    )
        requires
            start.wf(),
            first_a.wf(),
            a_then_b.wf(),
            first_b.wf(),
            b_then_a.wf(),
            first_a@ == start@.remove(a),
            a_then_b@ == first_a@.remove(b),
            first_b@ == start@.remove(b),
            b_then_a@ == first_b@.remove(a),
        ensures
            a_then_b@ == b_then_a@,
            a_then_b.regions() == b_then_a.regions(),
    {
        assert(a_then_b@ =~= b_then_a@);
        a_then_b.lemma_determined_by_view(b_then_a);
    }

    /// The unoccupied regions, in address order.
    pub fn unoccupied_regions(&self) -> (found: Vec<&AddressRegion>)
        ensures
            found@.map_values(|r: &AddressRegion| *r) == self.regions().filter(
                |r: AddressRegion| r.region is None,
            ),
    {
        let mut found: Vec<&AddressRegion> = Vec::new();
        let mut i: usize = 0;
        while i < self.regions.len()
            invariant
                i <= self.regions.len(),
                found@.map_values(|r: &AddressRegion| *r) == self.regions@.take(i as int).filter(
                    |r: AddressRegion| r.region is None,
                ),
            decreases self.regions.len() - i,
        {
            let ghost so_far = found@.map_values(|r: &AddressRegion| *r);
            proof {
                lemma_filter_step(
                    self.regions@,
                    i as int,
                    |r: AddressRegion| r.region is None,
                );
            }
            if self.regions[i].region.is_none() {
                found.push(&self.regions[i]);
                assert(found@.map_values(|r: &AddressRegion| *r) =~= so_far.push(
                    self.regions@[i as int],
                ));
            }
            i += 1;
        }
        assert(self.regions@.take(i as int) =~= self.regions@);
        found
    }

    /// The occupied regions, in address order.
    pub fn occupied_regions(&self) -> (found: Vec<&AddressRegion>)
        ensures
            found@.map_values(|r: &AddressRegion| *r) == self.regions().filter(
                |r: AddressRegion| r.region is Some,
            ),
    {
        let mut found: Vec<&AddressRegion> = Vec::new();
        let mut i: usize = 0;
        while i < self.regions.len()
            invariant
                i <= self.regions.len(),
                found@.map_values(|r: &AddressRegion| *r) == self.regions@.take(i as int).filter(
                    |r: AddressRegion| r.region is Some,
                ),
            decreases self.regions.len() - i,
        {
            let ghost so_far = found@.map_values(|r: &AddressRegion| *r);
            proof {
                lemma_filter_step(
                    self.regions@,
                    i as int,
                    |r: AddressRegion| r.region is Some,
                );
            }
            if self.regions[i].region.is_some() {
                found.push(&self.regions[i]);
                assert(found@.map_values(|r: &AddressRegion| *r) =~= so_far.push(
                    self.regions@[i as int],
                ));
            }
            i += 1;
        }
        assert(self.regions@.take(i as int) =~= self.regions@);
        found
    }
}

/// Filtering one region more: it is added at the end, or left out.
proof fn lemma_filter_step(s: Seq<AddressRegion>, i: int, keep: spec_fn(AddressRegion) -> bool)
    requires
        0 <= i < s.len(),
    ensures
        s.take(i + 1).filter(keep) == if keep(s[i]) {
            s.take(i).filter(keep).push(s[i])
        } else {
            s.take(i).filter(keep)
        },
{
    reveal(Seq::filter);
    assert(s.take(i + 1).drop_last() =~= s.take(i));
}

} // verus!
