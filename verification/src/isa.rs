//! What the passes need to know about the target.

use crate::ir::types::Type;
use vstd::prelude::*;

verus! {

/// The description of a target: the width of its pointers.
#[derive(Clone, Copy, Debug, PartialEq, Eq)]
pub struct TargetIsa {
    pointer_bits: u8,
}

impl TargetIsa {
    /// The number of bits in a pointer of the target: 16, 32 or 64.
    pub closed spec fn pointer_bits_spec(&self) -> nat {
        self.pointer_bits as nat
    }

    /// The integer type that holds a pointer of the target.
    pub open spec fn pointer_type_spec(&self) -> Type {
        if self.pointer_bits_spec() == 16 {
            Type::I16
        } else if self.pointer_bits_spec() == 32 {
            Type::I32
        } else {
            Type::I64
        }
    }

    /// A target whose pointers have `bits` bits: 16, 32 or 64. There is no
    /// target for another width.
    pub fn with_pointer_bits(bits: u8) -> (isa: Option<TargetIsa>)
        ensures
            match isa {
                Some(t) => t.pointer_bits_spec() == bits && (bits == 16 || bits == 32 || bits
                    == 64),
                None => bits != 16 && bits != 32 && bits != 64,
            },
    {
        if bits == 16 || bits == 32 || bits == 64 {
            Some(TargetIsa { pointer_bits: bits })
        } else {
            None
        }
    }

    /// The number of bits in a pointer of the target.
    pub fn pointer_bits(&self) -> (bits: u8)
        ensures
            bits == self.pointer_bits_spec(),
    {
        self.pointer_bits
    }

    /// The integer type that holds a pointer of the target.
    pub fn pointer_type(&self) -> (ty: Type)
        ensures
            ty == self.pointer_type_spec(),
    {
        if self.pointer_bits == 16 {
            Type::I16
        } else if self.pointer_bits == 32 {
            Type::I32
        } else {
            Type::I64
        }
    }
}

} // verus!
