//! Signatures and external functions.

use crate::ir::entities::SigRef;
use crate::ir::types::Type;
use vstd::prelude::*;

verus! {

/// What a parameter or a return value is for.
#[derive(Clone, Copy, Debug, PartialEq, Eq, Hash, Structural)]
pub enum ArgumentPurpose {
    /// An ordinary value of the program.
    Normal,
    /// The pointer to the return area.
    StructReturn,
    /// The return address.
    Link,
    /// The frame pointer of the caller.
    FramePointer,
    /// The pointer to the context of the virtual machine.
    VMContext,
}

/// A parameter or a return value of a function.
#[derive(Clone, Copy, Debug, PartialEq, Eq, Hash, Structural)]
pub struct AbiParam {
    /// The type of the value.
    pub value_type: Type,
    /// What the value is for.
    pub purpose: ArgumentPurpose,
}

impl AbiParam {
    /// An ordinary parameter of type `value_type`.
    pub fn new(value_type: Type) -> (p: AbiParam)
        ensures
            p == (AbiParam { value_type, purpose: ArgumentPurpose::Normal }),
    {
        AbiParam { value_type, purpose: ArgumentPurpose::Normal }
    }

    /// A parameter of type `value_type` that serves `purpose`.
    pub fn special(value_type: Type, purpose: ArgumentPurpose) -> (p: AbiParam)
        ensures
            p == (AbiParam { value_type, purpose }),
    {
        AbiParam { value_type, purpose }
    }
}

/// The position of the first of `params` that serves `purpose`.
pub open spec fn first_with_purpose(params: Seq<AbiParam>, purpose: ArgumentPurpose) -> Option<
    int,
>
    decreases params.len(),
{
    if params.len() == 0 {
        None
    } else if params[0].purpose == purpose {
        Some(0)
    } else {
        match first_with_purpose(params.subrange(1, params.len() as int), purpose) {
            Some(i) => Some(i + 1),
            None => None,
        }
    }
}

/// What `first_with_purpose` finds: the least position that serves the purpose.
pub proof fn lemma_first_with_purpose(params: Seq<AbiParam>, purpose: ArgumentPurpose)
    ensures
        match first_with_purpose(params, purpose) {
            Some(i) => 0 <= i < params.len() && params[i].purpose == purpose && forall|j: int|
                0 <= j < i ==> params[j].purpose != purpose,
            None => forall|j: int| 0 <= j < params.len() ==> params[j].purpose != purpose,
        },
    decreases params.len(),
{
    if params.len() > 0 && params[0].purpose != purpose {
        let rest = params.subrange(1, params.len() as int);
        lemma_first_with_purpose(rest, purpose);
        match first_with_purpose(rest, purpose) {
            Some(i) => {
                assert(params[i + 1] == rest[i]);
                assert forall|j: int| 0 <= j < i + 1 implies params[j].purpose != purpose by {
                    if j > 0 {
                        assert(params[j] == rest[j - 1]);
                    }
                }
            },
            None => {
                assert forall|j: int| 0 <= j < params.len() implies params[j].purpose
                    != purpose by {
                    if j > 0 {
                        assert(params[j] == rest[j - 1]);
                    }
                }
            },
        }
    }
}

/// The signature of a function: what it takes and what it returns.
#[derive(Clone, Debug, PartialEq, Eq, Hash)]
pub struct Signature {
    /// The parameters, in their order.
    pub params: Vec<AbiParam>,
    /// The return values, in their order.
    pub return_types: Vec<AbiParam>,
}

impl Signature {
    /// The signature of a function that takes and returns nothing.
    pub fn new() -> (s: Signature)
        ensures
            s.params@ == Seq::<AbiParam>::empty(),
            s.return_types@ == Seq::<AbiParam>::empty(),
    {
        Signature { params: Vec::new(), return_types: Vec::new() }
    }

    /// The position of the first parameter that serves `purpose`.
    pub fn special_param_index(&self, purpose: ArgumentPurpose) -> (at: Option<usize>)
        ensures
            match at {
                Some(i) => first_with_purpose(self.params@, purpose) == Some(i as int),
                None => first_with_purpose(self.params@, purpose).is_none(),
            },
    {
        let mut i: usize = 0;
        while i < self.params.len()
            invariant
                i <= self.params@.len(),
                forall|j: int| 0 <= j < i ==> self.params@[j].purpose != purpose,
            decreases self.params@.len() - i,
        {
            if self.params[i].purpose == purpose {
                proof {
                    lemma_first_with_purpose(self.params@, purpose);
                }
                return Some(i);
            }
            i = i + 1;
        }
        proof {
            lemma_first_with_purpose(self.params@, purpose);
        }
        None
    }
}

/// An external function that can be called directly.
#[derive(Clone, Copy, Debug, PartialEq, Eq, Hash, Structural)]
pub struct ExtFuncData {
    /// The number by which the function is known outside.
    pub name: u32,
    /// The signature of the function.
    pub signature: SigRef,
}

} // verus!
