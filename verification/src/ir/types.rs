//! The types of SSA values.

use vstd::prelude::*;
use vstd::string::StringExecFns;

verus! {

/// The type of an SSA value: nothing, a scalar, or a 128-bit vector.
#[derive(Clone, Copy, Debug, PartialEq, Eq, Hash, Structural)]
pub enum Type {
    Void,
    B1,
    B8,
    B16,
    B32,
    B64,
    I8,
    I16,
    I32,
    I64,
    F32,
    F64,
    I8X16,
    I16X8,
    I32X4,
    I64X2,
    F32X4,
    F64X2,
}

/// No type: the first type of an instruction that has no result.
pub const VOID: Type = Type::Void;

pub const B1: Type = Type::B1;

pub const B8: Type = Type::B8;

pub const B16: Type = Type::B16;

pub const B32: Type = Type::B32;

pub const B64: Type = Type::B64;

pub const I8: Type = Type::I8;

pub const I16: Type = Type::I16;

pub const I32: Type = Type::I32;

pub const I64: Type = Type::I64;

pub const F32: Type = Type::F32;

pub const F64: Type = Type::F64;

pub const I8X16: Type = Type::I8X16;

pub const I16X8: Type = Type::I16X8;

pub const I32X4: Type = Type::I32X4;

pub const I64X2: Type = Type::I64X2;

pub const F32X4: Type = Type::F32X4;

pub const F64X2: Type = Type::F64X2;

impl Type {
    /// The type of one lane; a scalar is its own lane, and so is `Void`.
    pub open spec fn lane_type_spec(self) -> Type {
        match self {
            Type::I8X16 => Type::I8,
            Type::I16X8 => Type::I16,
            Type::I32X4 => Type::I32,
            Type::I64X2 => Type::I64,
            Type::F32X4 => Type::F32,
            Type::F64X2 => Type::F64,
            t => t,
        }
    }

    /// The number of lanes: 1 for a scalar and for `Void`.
    pub open spec fn lane_count_spec(self) -> nat {
        match self {
            Type::I8X16 => 16,
            Type::I16X8 => 8,
            Type::I32X4 | Type::F32X4 => 4,
            Type::I64X2 | Type::F64X2 => 2,
            _ => 1,
        }
    }

    /// The number of bits in one lane; `Void` has none.
    pub open spec fn lane_bits_spec(self) -> nat {
        match self.lane_type_spec() {
            Type::Void => 0,
            Type::B1 => 1,
            Type::B8 | Type::I8 => 8,
            Type::B16 | Type::I16 => 16,
            Type::B32 | Type::I32 | Type::F32 => 32,
            _ => 64,
        }
    }

    /// The integer type with half as many bits in each lane, where there is
    /// one; any other type has no half and yields `Void`.
    pub open spec fn half_width_spec(self) -> Type {
        match self {
            Type::I16 => Type::I8,
            Type::I32 => Type::I16,
            Type::I64 => Type::I32,
            Type::I16X8 => Type::I8X16,
            Type::I32X4 => Type::I16X8,
            Type::I64X2 => Type::I32X4,
            _ => Type::Void,
        }
    }

    /// The name under which the type is written.
    pub open spec fn name(self) -> Seq<char> {
        match self {
            Type::Void => "void"@,
            Type::B1 => "b1"@,
            Type::B8 => "b8"@,
            Type::B16 => "b16"@,
            Type::B32 => "b32"@,
            Type::B64 => "b64"@,
            Type::I8 => "i8"@,
            Type::I16 => "i16"@,
            Type::I32 => "i32"@,
            Type::I64 => "i64"@,
            Type::F32 => "f32"@,
            Type::F64 => "f64"@,
            Type::I8X16 => "i8x16"@,
            Type::I16X8 => "i16x8"@,
            Type::I32X4 => "i32x4"@,
            Type::I64X2 => "i64x2"@,
            Type::F32X4 => "f32x4"@,
            Type::F64X2 => "f64x2"@,
        }
    }

    pub fn is_void(self) -> (b: bool)
        ensures
            b == (self == Type::Void),
    {
        match self {
            Type::Void => true,
            _ => false,
        }
    }

    pub fn is_vector(self) -> (b: bool)
        ensures
            b == (self.lane_count_spec() > 1),
    {
        match self {
            Type::I8X16 | Type::I16X8 | Type::I32X4 | Type::I64X2 | Type::F32X4 | Type::F64X2 => true,
            _ => false,
        }
    }

    pub fn lane_type(self) -> (t: Type)
        ensures
            t == self.lane_type_spec(),
    {
        match self {
            Type::I8X16 => Type::I8,
            Type::I16X8 => Type::I16,
            Type::I32X4 => Type::I32,
            Type::I64X2 => Type::I64,
            Type::F32X4 => Type::F32,
            Type::F64X2 => Type::F64,
            t => t,
        }
    }

    pub fn lane_count(self) -> (n: u8)
        ensures
            n == self.lane_count_spec(),
    {
        match self {
            Type::I8X16 => 16,
            Type::I16X8 => 8,
            Type::I32X4 | Type::F32X4 => 4,
            Type::I64X2 | Type::F64X2 => 2,
            _ => 1,
        }
    }

    pub fn lane_bits(self) -> (n: u8)
        ensures
            n == self.lane_bits_spec(),
    {
        match self.lane_type() {
            Type::Void => 0,
            Type::B1 => 1,
            Type::B8 | Type::I8 => 8,
            Type::B16 | Type::I16 => 16,
            Type::B32 | Type::I32 | Type::F32 => 32,
            _ => 64,
        }
    }

    pub fn half_width(self) -> (t: Type)
        ensures
            t == self.half_width_spec(),
    {
        match self {
            Type::I16 => Type::I8,
            Type::I32 => Type::I16,
            Type::I64 => Type::I32,
            Type::I16X8 => Type::I8X16,
            Type::I32X4 => Type::I16X8,
            Type::I64X2 => Type::I32X4,
            _ => Type::Void,
        }
    }

    /// The name under which the type is written.
    pub fn to_text(self) -> (s: String)
        ensures
            s@ == self.name(),
    {
        let name = match self {
            Type::Void => "void",
            Type::B1 => "b1",
            Type::B8 => "b8",
            Type::B16 => "b16",
            Type::B32 => "b32",
            Type::B64 => "b64",
            Type::I8 => "i8",
            Type::I16 => "i16",
            Type::I32 => "i32",
            Type::I64 => "i64",
            Type::F32 => "f32",
            Type::F64 => "f64",
            Type::I8X16 => "i8x16",
            Type::I16X8 => "i16x8",
            Type::I32X4 => "i32x4",
            Type::I64X2 => "i64x2",
            Type::F32X4 => "f32x4",
            Type::F64X2 => "f64x2",
        };
        String::from_str(name)
    }
}

} // verus!
