//! What is known about a memory access.

use vstd::prelude::*;

verus! {

/// Flags of a load or store: whether it is known not to trap, and whether its
/// address is known to be aligned.
#[derive(Clone, Copy, Debug, PartialEq, Eq, Hash, Structural)]
pub struct MemFlags {
    notrap: bool,
    aligned: bool,
}

impl MemFlags {
    pub closed spec fn notrap_spec(self) -> bool {
        self.notrap
    }

    pub closed spec fn aligned_spec(self) -> bool {
        self.aligned
    }

    /// The flags that say `notrap` and `aligned`.
    pub closed spec fn with_flags(notrap: bool, aligned: bool) -> MemFlags {
        MemFlags { notrap, aligned }
    }

    /// The flags of an access of which nothing is known.
    pub fn new() -> (f: MemFlags)
        ensures
            f == MemFlags::with_flags(false, false),
            !f.notrap_spec(),
            !f.aligned_spec(),
    {
        MemFlags { notrap: false, aligned: false }
    }

    pub fn notrap(self) -> (b: bool)
        ensures
            b == self.notrap_spec(),
    {
        self.notrap
    }

    pub fn aligned(self) -> (b: bool)
        ensures
            b == self.aligned_spec(),
    {
        self.aligned
    }

    /// Records that the access does not trap.
    pub fn set_notrap(&mut self)
        ensures
            *final(self) == MemFlags::with_flags(true, old(self).aligned_spec()),
            final(self).notrap_spec(),
            final(self).aligned_spec() == old(self).aligned_spec(),
    {
        self.notrap = true;
    }

    /// Records that the address is aligned.
    pub fn set_aligned(&mut self)
        ensures
            *final(self) == MemFlags::with_flags(old(self).notrap_spec(), true),
            final(self).aligned_spec(),
            final(self).notrap_spec() == old(self).notrap_spec(),
    {
        self.aligned = true;
    }
}

} // verus!
