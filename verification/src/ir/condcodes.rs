//! Condition codes of the comparison instructions.

use vstd::prelude::*;
use vstd::string::StringExecFns;

verus! {

/// How two integers are compared.
#[derive(Clone, Copy, Debug, PartialEq, Eq, Hash, Structural)]
pub enum IntCC {
    Equal,
    NotEqual,
    SignedLessThan,
    SignedGreaterThanOrEqual,
    SignedGreaterThan,
    SignedLessThanOrEqual,
    UnsignedLessThan,
    UnsignedGreaterThanOrEqual,
    UnsignedGreaterThan,
    UnsignedLessThanOrEqual,
}

/// How two floating point numbers are compared.
#[derive(Clone, Copy, Debug, PartialEq, Eq, Hash, Structural)]
pub enum FloatCC {
    Ordered,
    Unordered,
    Equal,
    NotEqual,
    LessThan,
    LessThanOrEqual,
    GreaterThan,
    GreaterThanOrEqual,
}

impl IntCC {
    /// The condition that holds exactly when this one does not.
    pub open spec fn inverse_spec(self) -> IntCC {
        match self {
            IntCC::Equal => IntCC::NotEqual,
            IntCC::NotEqual => IntCC::Equal,
            IntCC::SignedLessThan => IntCC::SignedGreaterThanOrEqual,
            IntCC::SignedGreaterThanOrEqual => IntCC::SignedLessThan,
            IntCC::SignedGreaterThan => IntCC::SignedLessThanOrEqual,
            IntCC::SignedLessThanOrEqual => IntCC::SignedGreaterThan,
            IntCC::UnsignedLessThan => IntCC::UnsignedGreaterThanOrEqual,
            IntCC::UnsignedGreaterThanOrEqual => IntCC::UnsignedLessThan,
            IntCC::UnsignedGreaterThan => IntCC::UnsignedLessThanOrEqual,
            IntCC::UnsignedLessThanOrEqual => IntCC::UnsignedGreaterThan,
        }
    }

    /// The condition that holds exactly when this one does not.
    pub fn inverse(self) -> (c: IntCC)
        ensures
            c == self.inverse_spec(),
    {
        match self {
            IntCC::Equal => IntCC::NotEqual,
            IntCC::NotEqual => IntCC::Equal,
            IntCC::SignedLessThan => IntCC::SignedGreaterThanOrEqual,
            IntCC::SignedGreaterThanOrEqual => IntCC::SignedLessThan,
            IntCC::SignedGreaterThan => IntCC::SignedLessThanOrEqual,
            IntCC::SignedLessThanOrEqual => IntCC::SignedGreaterThan,
            IntCC::UnsignedLessThan => IntCC::UnsignedGreaterThanOrEqual,
            IntCC::UnsignedGreaterThanOrEqual => IntCC::UnsignedLessThan,
            IntCC::UnsignedGreaterThan => IntCC::UnsignedLessThanOrEqual,
            IntCC::UnsignedLessThanOrEqual => IntCC::UnsignedGreaterThan,
        }
    }

    /// The name under which the condition is written.
    pub open spec fn name(self) -> Seq<char> {
        match self {
            IntCC::Equal => "eq"@,
            IntCC::NotEqual => "ne"@,
            IntCC::SignedLessThan => "slt"@,
            IntCC::SignedGreaterThanOrEqual => "sge"@,
            IntCC::SignedGreaterThan => "sgt"@,
            IntCC::SignedLessThanOrEqual => "sle"@,
            IntCC::UnsignedLessThan => "ult"@,
            IntCC::UnsignedGreaterThanOrEqual => "uge"@,
            IntCC::UnsignedGreaterThan => "ugt"@,
            IntCC::UnsignedLessThanOrEqual => "ule"@,
        }
    }

    /// The name under which the condition is written.
    pub fn to_text(self) -> (s: String)
        ensures
            s@ == self.name(),
    {
        let name = match self {
            IntCC::Equal => "eq",
            IntCC::NotEqual => "ne",
            IntCC::SignedLessThan => "slt",
            IntCC::SignedGreaterThanOrEqual => "sge",
            IntCC::SignedGreaterThan => "sgt",
            IntCC::SignedLessThanOrEqual => "sle",
            IntCC::UnsignedLessThan => "ult",
            IntCC::UnsignedGreaterThanOrEqual => "uge",
            IntCC::UnsignedGreaterThan => "ugt",
            IntCC::UnsignedLessThanOrEqual => "ule",
        };
        String::from_str(name)
    }
}

impl FloatCC {
    /// The name under which the condition is written.
    pub open spec fn name(self) -> Seq<char> {
        match self {
            FloatCC::Ordered => "ord"@,
            FloatCC::Unordered => "uno"@,
            FloatCC::Equal => "eq"@,
            FloatCC::NotEqual => "ne"@,
            FloatCC::LessThan => "lt"@,
            FloatCC::LessThanOrEqual => "le"@,
            FloatCC::GreaterThan => "gt"@,
            FloatCC::GreaterThanOrEqual => "ge"@,
        }
    }

    /// The name under which the condition is written.
    pub fn to_text(self) -> (s: String)
        ensures
            s@ == self.name(),
    {
        let name = match self {
            FloatCC::Ordered => "ord",
            FloatCC::Unordered => "uno",
            FloatCC::Equal => "eq",
            FloatCC::NotEqual => "ne",
            FloatCC::LessThan => "lt",
            FloatCC::LessThanOrEqual => "le",
            FloatCC::GreaterThan => "gt",
            FloatCC::GreaterThanOrEqual => "ge",
        };
        String::from_str(name)
    }
}

} // verus!
