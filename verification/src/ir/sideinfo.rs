//! What later passes record about instructions, values and blocks.

use vstd::prelude::*;

verus! {

/// An opaque token for the place in the source that an instruction came from.
#[derive(Clone, Copy, Debug, PartialEq, Eq, Hash, Structural)]
pub struct SourceLoc(pub u32);

impl SourceLoc {
    /// Whether this is the location of an instruction that came from
    /// nowhere in particular.
    pub fn is_default(self) -> (b: bool)
        ensures
            b == (self == SourceLoc(0)),
    {
        self.0 == 0
    }
}

/// Where a value lives once registers are assigned.
#[derive(Clone, Copy, Debug, PartialEq, Eq, Hash, Structural)]
pub enum ValueLoc {
    /// Not assigned yet.
    Unassigned,
    /// In the register with this number.
    Reg(u16),
    /// In the stack slot with this number.
    Stack(u32),
}

/// The encoding that a target picked for an instruction.
#[derive(Clone, Copy, Debug, PartialEq, Eq, Hash, Structural)]
pub struct Encoding {
    /// The number of the recipe.
    pub recipe: u16,
    /// The bits that the recipe is filled with.
    pub bits: u16,
}

} // verus!
