//! Capabilities: a task-local handle paired with a rights bitmask.
//!
//! A capability never grows by being copied: the only way to widen a rights
//! mask is `|`, and whether a grant may widen is decided by whoever grants.

use vstd::prelude::*;

verus! {

/// An index into the capability table of the task that owns it. The number
/// means nothing outside that table.
#[derive(Debug, Clone, Copy, PartialEq, Eq, Structural, PartialOrd, Ord, Hash)]
pub struct CapabilityPtr(usize);

impl CapabilityPtr {
    /// The table index.
    pub closed spec fn view(self) -> usize {
        self.0
    }

    pub fn new(n: usize) -> (ptr: Self)
        ensures
            ptr@ == n,
    {
        Self(n)
    }

    pub fn value(self) -> (n: usize)
        ensures
            n == self@,
    {
        self.0
    }
}

/// Bit of the right to read.
pub const READ_BIT: usize = 1;

/// Bit of the right to write.
pub const WRITE_BIT: usize = 2;

/// Bit of the right to execute.
pub const EXECUTE_BIT: usize = 4;

/// Bit of the right to grant the capability on.
pub const GRANT_BIT: usize = 8;

/// All the bits that carry a meaning in a rights mask.
pub const DEFINED_RIGHTS: usize = 0xF;

/// A set of rights, one bit each.
#[derive(Debug, Clone, Copy, PartialEq, Eq, Structural, PartialOrd, Ord, Hash)]
pub struct CapabilityRights(usize);

impl CapabilityRights {
    /// The mask.
    pub closed spec fn view(self) -> usize {
        self.0
    }

    /// Whether every right of `other` is also a right of `self`.
    pub open spec fn includes(self, other: Self) -> bool {
        other@ & !self@ == 0
    }

    /// The set that holds the rights of both.
    pub closed spec fn union(self, other: Self) -> Self {
        CapabilityRights(self.0 | other.0)
    }

    /// The union holds exactly the bits of both.
    pub proof fn lemma_union(self, other: Self)
        ensures
            self.union(other)@ == self@ | other@,
    {
    }

    /// No right at all.
    pub fn none() -> (rights: Self)
        ensures
            rights@ == 0,
    {
        Self(0)
    }

    pub fn read() -> (rights: Self)
        ensures
            rights@ == READ_BIT,
    {
        Self(READ_BIT)
    }

    pub fn write() -> (rights: Self)
        ensures
            rights@ == WRITE_BIT,
    {
        Self(WRITE_BIT)
    }

    pub fn execute() -> (rights: Self)
        ensures
            rights@ == EXECUTE_BIT,
    {
        Self(EXECUTE_BIT)
    }

    pub fn grant() -> (rights: Self)
        ensures
            rights@ == GRANT_BIT,
    {
        Self(GRANT_BIT)
    }

    /// Keeps the defined bits of `value` and drops the rest.
    pub fn new(value: usize) -> (rights: Self)
        ensures
            rights@ == value & DEFINED_RIGHTS,
            rights@ <= DEFINED_RIGHTS,
    {
        assert(value & 0xF <= 0xF) by (bit_vector);
        Self(value & DEFINED_RIGHTS)
    }

    /// True exactly when no right of `other` is missing from `self`.
    pub fn is_superset(self, other: Self) -> (yes: bool)
        ensures
            yes == self.includes(other),
    {
        let mine: usize = self.0;
        let theirs: usize = other.0;
        assert(((mine | !theirs) == !0usize) == (theirs & !mine == 0)) by (bit_vector);
        (mine | !theirs) == !0usize
    }

    pub fn value(self) -> (n: usize)
        ensures
            n == self@,
    {
        self.0
    }

    /// Every set of rights includes itself.
    pub proof fn lemma_superset_reflexive(self)
        ensures
            self.includes(self),
    {
        let a: usize = self@;
        assert(a & !a == 0) by (bit_vector);
    }

    /// Every set of rights includes the empty set.
    pub proof fn lemma_superset_of_none(self, none: Self)
        requires
            none@ == 0,
        ensures
            self.includes(none),
    {
        let a: usize = self@;
        assert(0usize & !a == 0) by (bit_vector);
    }

    /// The empty set includes no set that holds a right.
    pub proof fn lemma_none_includes_nothing(self, none: Self)
        requires
            none@ == 0,
            self@ != 0,
        ensures
            !none.includes(self),
    {
        let a: usize = self@;
        assert(a & !0usize == a) by (bit_vector);
    }
}

impl vstd::std_specs::ops::BitOrSpecImpl for CapabilityRights {
    open spec fn obeys_bitor_spec() -> bool {
        true
    }

    open spec fn bitor_req(self, rhs: Self) -> bool {
        true
    }

    open spec fn bitor_spec(self, rhs: Self) -> Self {
        self.union(rhs)
    }
}

impl core::ops::BitOr for CapabilityRights {
    type Output = Self;

    /// The union of the two sets.
    fn bitor(self, rhs: Self) -> (both: Self)
        ensures
            both == self.union(rhs),
            both@ == self@ | rhs@,
    {
        CapabilityRights(self.0 | rhs.0)
    }
}

impl core::ops::BitOrAssign for CapabilityRights {
    fn bitor_assign(&mut self, rhs: Self)
        ensures
            final(self)@ == old(self)@ | rhs@,
    {
        *self = CapabilityRights(self.0 | rhs.0);
    }
}

impl vstd::std_specs::ops::BitAndSpecImpl for CapabilityRights {
    open spec fn obeys_bitand_spec() -> bool {
        true
    }

    open spec fn bitand_req(self, rhs: Self) -> bool {
        true
    }

    open spec fn bitand_spec(self, rhs: Self) -> bool {
        self.includes(rhs)
    }
}

impl core::ops::BitAnd for CapabilityRights {
    type Output = bool;

    /// Not an intersection: the answer to "does `self` hold every right of
    /// `rhs`", the same question that `is_superset` answers.
    fn bitand(self, rhs: Self) -> (yes: bool)
        ensures
            yes == self.includes(rhs),
    {
        let mine: usize = self.0;
        let theirs: usize = rhs.0;
        assert(((mine & theirs) == theirs) == (theirs & !mine == 0)) by (bit_vector);
        (mine & theirs) == theirs
    }
}

/// A handle that can be granted: where it points, and what it allows.
#[derive(Debug, Clone, Copy)]
pub struct Capability {
    pub cptr: CapabilityPtr,
    pub rights: CapabilityRights,
}

impl Capability {
    pub fn new(cptr: CapabilityPtr, rights: CapabilityRights) -> (cap: Self)
        ensures
            cap.cptr == cptr,
            cap.rights == rights,
    {
        Self { cptr, rights }
    }
}

impl Default for Capability {
    /// The null pointer with no rights.
    fn default() -> (cap: Self)
        ensures
            cap.cptr@ == 0,
            cap.rights@ == 0,
    {
        Self { cptr: CapabilityPtr::new(0), rights: CapabilityRights::none() }
    }
}

} // verus!
