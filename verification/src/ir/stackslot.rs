//! Slots of the stack frame.

use vstd::prelude::*;

verus! {

/// What a stack slot is used for.
#[derive(Clone, Copy, Debug, PartialEq, Eq, Hash, Structural)]
pub enum StackSlotKind {
    /// A slot that the program addresses itself.
    ExplicitSlot,
    /// A slot for a value that has no register.
    SpillSlot,
    /// An argument that the caller passed on the stack.
    IncomingArg,
    /// An argument that is passed to a callee on the stack.
    OutgoingArg,
}

/// A slot of the stack frame.
#[derive(Clone, Copy, Debug, PartialEq, Eq, Hash, Structural)]
pub struct StackSlotData {
    /// What the slot is used for.
    pub kind: StackSlotKind,
    /// The size of the slot in bytes.
    pub size: u32,
}

} // verus!
