//! Opcodes, instruction formats, and the payload of an instruction.

use crate::ir::condcodes::{FloatCC, IntCC};
use crate::ir::entities::{Ebb, FuncRef, GlobalValue, JumpTable, SigRef, Value};
use crate::ir::memflags::MemFlags;
use crate::ir::types::Type;
use crate::ir::valuelist::{ValueList, ValueListPool};
use vstd::prelude::*;
use vstd::string::StringExecFns;

verus! {

/// What an instruction does. The opcode decides the format of the payload,
/// the number of fixed results and their types, and whether the instruction
/// ends a block.
#[derive(Clone, Copy, Debug, PartialEq, Eq, Hash, Structural)]
pub enum Opcode {
    Jump,
    Brz,
    Brnz,
    BrTable,
    Trap,
    Return,
    Call,
    CallIndirect,
    Nop,
    Iconst,
    F32const,
    F64const,
    Copy,
    Bnot,
    Isplit,
    Iadd,
    Isub,
    Imul,
    Band,
    Bor,
    Bxor,
    IaddImm,
    ImulImm,
    IaddCout,
    Select,
    Insertlane,
    Extractlane,
    Icmp,
    Fcmp,
    GlobalValue,
    SymbolValue,
    Load,
}

/// The shape of an instruction's payload.
#[derive(Clone, Copy, Debug, PartialEq, Eq, Hash, Structural)]
pub enum InstructionFormat {
    /// No operand.
    Nullary,
    /// One value.
    Unary,
    /// One integer immediate.
    UnaryImm,
    /// One 32-bit floating point immediate, held as its bits.
    UnaryIeee32,
    /// One 64-bit floating point immediate, held as its bits.
    UnaryIeee64,
    /// One value, split into two results.
    UnarySplit,
    /// Two values.
    Binary,
    /// A value and an integer immediate.
    BinaryImm,
    /// Two values, with a second result for the carry.
    BinaryOverflow,
    /// Three values.
    Ternary,
    /// Any number of values.
    MultiAry,
    /// A vector, a lane number and the value for that lane.
    InsertLane,
    /// A vector and a lane number.
    ExtractLane,
    /// Two integers and the condition to test them for.
    IntCompare,
    /// Two floating point numbers and the condition to test them for.
    FloatCompare,
    /// A destination block and the values for its arguments.
    Jump,
    /// A destination block, with the value to test in front of those for its arguments.
    Branch,
    /// The value to look up and the jump table to look it up in.
    BranchTable,
    /// An external function and the values for its arguments.
    Call,
    /// A signature, with the callee in front of the values for its arguments.
    IndirectCall,
    /// A global value.
    UnaryGlobalValue,
    /// An address, an offset from it, and what is known of the access.
    Load,
}

/// How the type of a result follows from the controlling type.
#[derive(Clone, Copy, Debug, PartialEq, Eq, Hash, Structural)]
pub enum ResultRule {
    /// The controlling type itself.
    Same,
    /// A boolean of one bit.
    Bool,
    /// The integer type of half the width.
    Half,
    /// The type of one lane.
    Lane,
}

impl ResultRule {
    pub open spec fn apply_spec(self, ctrl: Type) -> Type {
        match self {
            ResultRule::Same => ctrl,
            ResultRule::Bool => Type::B1,
            ResultRule::Half => ctrl.half_width_spec(),
            ResultRule::Lane => ctrl.lane_type_spec(),
        }
    }

    /// The type that the rule derives from the controlling type `ctrl`.
    pub fn apply(self, ctrl: Type) -> (t: Type)
        ensures
            t == self.apply_spec(ctrl),
    {
        match self {
            ResultRule::Same => ctrl,
            ResultRule::Bool => Type::B1,
            ResultRule::Half => ctrl.half_width(),
            ResultRule::Lane => ctrl.lane_type(),
        }
    }
}

/// What an opcode fixes about the results of its instructions.
#[derive(Clone, Copy, Debug, PartialEq, Eq, Hash, Structural)]
pub struct OpcodeConstraints {
    /// The number of results that every instruction of the opcode has.
    pub fixed: u8,
    /// The rule for the type of the first result.
    pub first: ResultRule,
    /// The rule for the type of the second result.
    pub second: ResultRule,
}

impl OpcodeConstraints {
    pub open spec fn fixed_results_spec(self) -> nat {
        self.fixed as nat
    }

    pub open spec fn result_type_spec(self, n: nat, ctrl: Type) -> Type {
        if n == 0 {
            self.first.apply_spec(ctrl)
        } else {
            self.second.apply_spec(ctrl)
        }
    }

    /// The number of results that every instruction of the opcode has,
    /// whatever its operands are.
    pub fn fixed_results(self) -> (n: usize)
        ensures
            n == self.fixed_results_spec(),
    {
        self.fixed as usize
    }

    /// The type of fixed result number `n` under the controlling type `ctrl`.
    pub fn result_type(self, n: usize, ctrl: Type) -> (t: Type)
        ensures
            t == self.result_type_spec(n as nat, ctrl),
    {
        if n == 0 {
            self.first.apply(ctrl)
        } else {
            self.second.apply(ctrl)
        }
    }
}

impl Opcode {
    /// The format of the payload that the opcode goes with.
    pub open spec fn format_spec(self) -> InstructionFormat {
        match self {
            Opcode::Jump => InstructionFormat::Jump,
            Opcode::Brz => InstructionFormat::Branch,
            Opcode::Brnz => InstructionFormat::Branch,
            Opcode::BrTable => InstructionFormat::BranchTable,
            Opcode::Trap => InstructionFormat::Nullary,
            Opcode::Return => InstructionFormat::MultiAry,
            Opcode::Call => InstructionFormat::Call,
            Opcode::CallIndirect => InstructionFormat::IndirectCall,
            Opcode::Nop => InstructionFormat::Nullary,
            Opcode::Iconst => InstructionFormat::UnaryImm,
            Opcode::F32const => InstructionFormat::UnaryIeee32,
            Opcode::F64const => InstructionFormat::UnaryIeee64,
            Opcode::Copy => InstructionFormat::Unary,
            Opcode::Bnot => InstructionFormat::Unary,
            Opcode::Isplit => InstructionFormat::UnarySplit,
            Opcode::Iadd => InstructionFormat::Binary,
            Opcode::Isub => InstructionFormat::Binary,
            Opcode::Imul => InstructionFormat::Binary,
            Opcode::Band => InstructionFormat::Binary,
            Opcode::Bor => InstructionFormat::Binary,
            Opcode::Bxor => InstructionFormat::Binary,
            Opcode::IaddImm => InstructionFormat::BinaryImm,
            Opcode::ImulImm => InstructionFormat::BinaryImm,
            Opcode::IaddCout => InstructionFormat::BinaryOverflow,
            Opcode::Select => InstructionFormat::Ternary,
            Opcode::Insertlane => InstructionFormat::InsertLane,
            Opcode::Extractlane => InstructionFormat::ExtractLane,
            Opcode::Icmp => InstructionFormat::IntCompare,
            Opcode::Fcmp => InstructionFormat::FloatCompare,
            Opcode::GlobalValue => InstructionFormat::UnaryGlobalValue,
            Opcode::SymbolValue => InstructionFormat::UnaryGlobalValue,
            Opcode::Load => InstructionFormat::Load,
        }
    }

    /// Whether an instruction of this opcode ends its block.
    pub open spec fn is_terminator_spec(self) -> bool {
        match self {
            Opcode::Jump | Opcode::Trap | Opcode::Return => true,
            _ => false,
        }
    }

    /// Whether an instruction of this opcode can pass control to another block.
    pub open spec fn is_branch_spec(self) -> bool {
        match self {
            Opcode::Jump | Opcode::Brz | Opcode::Brnz | Opcode::BrTable => true,
            _ => false,
        }
    }

    /// Whether an instruction of this opcode calls a function.
    pub open spec fn is_call_spec(self) -> bool {
        match self {
            Opcode::Call | Opcode::CallIndirect => true,
            _ => false,
        }
    }

    /// What the opcode fixes about the results.
    pub open spec fn constraints_spec(self) -> OpcodeConstraints {
        match self {
            Opcode::Jump | Opcode::Brz | Opcode::Brnz | Opcode::BrTable | Opcode::Trap | Opcode::Return | Opcode::Call | Opcode::CallIndirect | Opcode::Nop => OpcodeConstraints {
                fixed: 0,
                first: ResultRule::Same,
                second: ResultRule::Same,
            },
            Opcode::Iconst | Opcode::F32const | Opcode::F64const | Opcode::Copy | Opcode::Bnot | Opcode::Iadd | Opcode::Isub | Opcode::Imul | Opcode::Band | Opcode::Bor | Opcode::Bxor | Opcode::IaddImm | Opcode::ImulImm | Opcode::Select | Opcode::Insertlane | Opcode::GlobalValue | Opcode::SymbolValue | Opcode::Load => OpcodeConstraints {
                fixed: 1,
                first: ResultRule::Same,
                second: ResultRule::Same,
            },
            Opcode::Isplit => OpcodeConstraints {
                fixed: 2,
                first: ResultRule::Half,
                second: ResultRule::Half,
            },
            Opcode::IaddCout => OpcodeConstraints {
                fixed: 2,
                first: ResultRule::Same,
                second: ResultRule::Bool,
            },
            Opcode::Extractlane => OpcodeConstraints {
                fixed: 1,
                first: ResultRule::Lane,
                second: ResultRule::Lane,
            },
            Opcode::Icmp | Opcode::Fcmp => OpcodeConstraints {
                fixed: 1,
                first: ResultRule::Bool,
                second: ResultRule::Bool,
            },
        }
    }

    /// The name under which the opcode is written.
    pub open spec fn name(self) -> Seq<char> {
        match self {
            Opcode::Jump => "jump"@,
            Opcode::Brz => "brz"@,
            Opcode::Brnz => "brnz"@,
            Opcode::BrTable => "br_table"@,
            Opcode::Trap => "trap"@,
            Opcode::Return => "return"@,
            Opcode::Call => "call"@,
            Opcode::CallIndirect => "call_indirect"@,
            Opcode::Nop => "nop"@,
            Opcode::Iconst => "iconst"@,
            Opcode::F32const => "f32const"@,
            Opcode::F64const => "f64const"@,
            Opcode::Copy => "copy"@,
            Opcode::Bnot => "bnot"@,
            Opcode::Isplit => "isplit"@,
            Opcode::Iadd => "iadd"@,
            Opcode::Isub => "isub"@,
            Opcode::Imul => "imul"@,
            Opcode::Band => "band"@,
            Opcode::Bor => "bor"@,
            Opcode::Bxor => "bxor"@,
            Opcode::IaddImm => "iadd_imm"@,
            Opcode::ImulImm => "imul_imm"@,
            Opcode::IaddCout => "iadd_cout"@,
            Opcode::Select => "select"@,
            Opcode::Insertlane => "insertlane"@,
            Opcode::Extractlane => "extractlane"@,
            Opcode::Icmp => "icmp"@,
            Opcode::Fcmp => "fcmp"@,
            Opcode::GlobalValue => "global_value"@,
            Opcode::SymbolValue => "symbol_value"@,
            Opcode::Load => "load"@,
        }
    }

    /// The format of the payload that the opcode goes with.
    pub fn format(self) -> (f: InstructionFormat)
        ensures
            f == self.format_spec(),
    {
        match self {
            Opcode::Jump => InstructionFormat::Jump,
            Opcode::Brz => InstructionFormat::Branch,
            Opcode::Brnz => InstructionFormat::Branch,
            Opcode::BrTable => InstructionFormat::BranchTable,
            Opcode::Trap => InstructionFormat::Nullary,
            Opcode::Return => InstructionFormat::MultiAry,
            Opcode::Call => InstructionFormat::Call,
            Opcode::CallIndirect => InstructionFormat::IndirectCall,
            Opcode::Nop => InstructionFormat::Nullary,
            Opcode::Iconst => InstructionFormat::UnaryImm,
            Opcode::F32const => InstructionFormat::UnaryIeee32,
            Opcode::F64const => InstructionFormat::UnaryIeee64,
            Opcode::Copy => InstructionFormat::Unary,
            Opcode::Bnot => InstructionFormat::Unary,
            Opcode::Isplit => InstructionFormat::UnarySplit,
            Opcode::Iadd => InstructionFormat::Binary,
            Opcode::Isub => InstructionFormat::Binary,
            Opcode::Imul => InstructionFormat::Binary,
            Opcode::Band => InstructionFormat::Binary,
            Opcode::Bor => InstructionFormat::Binary,
            Opcode::Bxor => InstructionFormat::Binary,
            Opcode::IaddImm => InstructionFormat::BinaryImm,
            Opcode::ImulImm => InstructionFormat::BinaryImm,
            Opcode::IaddCout => InstructionFormat::BinaryOverflow,
            Opcode::Select => InstructionFormat::Ternary,
            Opcode::Insertlane => InstructionFormat::InsertLane,
            Opcode::Extractlane => InstructionFormat::ExtractLane,
            Opcode::Icmp => InstructionFormat::IntCompare,
            Opcode::Fcmp => InstructionFormat::FloatCompare,
            Opcode::GlobalValue => InstructionFormat::UnaryGlobalValue,
            Opcode::SymbolValue => InstructionFormat::UnaryGlobalValue,
            Opcode::Load => InstructionFormat::Load,
        }
    }

    /// Whether an instruction of this opcode ends its block.
    pub fn is_terminator(self) -> (b: bool)
        ensures
            b == self.is_terminator_spec(),
    {
        match self {
            Opcode::Jump | Opcode::Trap | Opcode::Return => true,
            _ => false,
        }
    }

    /// Whether an instruction of this opcode can pass control to another block.
    pub fn is_branch(self) -> (b: bool)
        ensures
            b == self.is_branch_spec(),
    {
        match self {
            Opcode::Jump | Opcode::Brz | Opcode::Brnz | Opcode::BrTable => true,
            _ => false,
        }
    }

    /// Whether an instruction of this opcode calls a function.
    pub fn is_call(self) -> (b: bool)
        ensures
            b == self.is_call_spec(),
    {
        match self {
            Opcode::Call | Opcode::CallIndirect => true,
            _ => false,
        }
    }

    /// What the opcode fixes about the results.
    pub fn constraints(self) -> (c: OpcodeConstraints)
        ensures
            c == self.constraints_spec(),
    {
        match self {
            Opcode::Jump | Opcode::Brz | Opcode::Brnz | Opcode::BrTable | Opcode::Trap | Opcode::Return | Opcode::Call | Opcode::CallIndirect | Opcode::Nop => OpcodeConstraints {
                fixed: 0,
                first: ResultRule::Same,
                second: ResultRule::Same,
            },
            Opcode::Iconst | Opcode::F32const | Opcode::F64const | Opcode::Copy | Opcode::Bnot | Opcode::Iadd | Opcode::Isub | Opcode::Imul | Opcode::Band | Opcode::Bor | Opcode::Bxor | Opcode::IaddImm | Opcode::ImulImm | Opcode::Select | Opcode::Insertlane | Opcode::GlobalValue | Opcode::SymbolValue | Opcode::Load => OpcodeConstraints {
                fixed: 1,
                first: ResultRule::Same,
                second: ResultRule::Same,
            },
            Opcode::Isplit => OpcodeConstraints {
                fixed: 2,
                first: ResultRule::Half,
                second: ResultRule::Half,
            },
            Opcode::IaddCout => OpcodeConstraints {
                fixed: 2,
                first: ResultRule::Same,
                second: ResultRule::Bool,
            },
            Opcode::Extractlane => OpcodeConstraints {
                fixed: 1,
                first: ResultRule::Lane,
                second: ResultRule::Lane,
            },
            Opcode::Icmp | Opcode::Fcmp => OpcodeConstraints {
                fixed: 1,
                first: ResultRule::Bool,
                second: ResultRule::Bool,
            },
        }
    }

    /// The name under which the opcode is written.
    pub fn to_text(self) -> (s: String)
        ensures
            s@ == self.name(),
    {
        let name = match self {
            Opcode::Jump => "jump",
            Opcode::Brz => "brz",
            Opcode::Brnz => "brnz",
            Opcode::BrTable => "br_table",
            Opcode::Trap => "trap",
            Opcode::Return => "return",
            Opcode::Call => "call",
            Opcode::CallIndirect => "call_indirect",
            Opcode::Nop => "nop",
            Opcode::Iconst => "iconst",
            Opcode::F32const => "f32const",
            Opcode::F64const => "f64const",
            Opcode::Copy => "copy",
            Opcode::Bnot => "bnot",
            Opcode::Isplit => "isplit",
            Opcode::Iadd => "iadd",
            Opcode::Isub => "isub",
            Opcode::Imul => "imul",
            Opcode::Band => "band",
            Opcode::Bor => "bor",
            Opcode::Bxor => "bxor",
            Opcode::IaddImm => "iadd_imm",
            Opcode::ImulImm => "imul_imm",
            Opcode::IaddCout => "iadd_cout",
            Opcode::Select => "select",
            Opcode::Insertlane => "insertlane",
            Opcode::Extractlane => "extractlane",
            Opcode::Icmp => "icmp",
            Opcode::Fcmp => "fcmp",
            Opcode::GlobalValue => "global_value",
            Opcode::SymbolValue => "symbol_value",
            Opcode::Load => "load",
        };
        String::from_str(name)
    }
}

/// The payload of an instruction: its opcode, its first type, and the
/// operands that its format has.
///
/// The first type is the type of the first result, and `Void` where the
/// instruction has no result.
#[allow(inconsistent_fields)]
#[derive(Clone, Copy, Debug, PartialEq, Eq, Hash)]
pub enum InstructionData {
    /// No operand.
    Nullary {
        opcode: Opcode,
        ty: Type,
    },
    /// One value.
    Unary {
        opcode: Opcode,
        ty: Type,
        arg: Value,
    },
    /// One integer immediate.
    UnaryImm {
        opcode: Opcode,
        ty: Type,
        imm: i64,
    },
    /// One 32-bit floating point immediate, held as its bits.
    UnaryIeee32 {
        opcode: Opcode,
        ty: Type,
        imm: u32,
    },
    /// One 64-bit floating point immediate, held as its bits.
    UnaryIeee64 {
        opcode: Opcode,
        ty: Type,
        imm: u64,
    },
    /// One value, split into two results.
    UnarySplit {
        opcode: Opcode,
        ty: Type,
        arg: Value,
    },
    /// Two values.
    Binary {
        opcode: Opcode,
        ty: Type,
        args: [Value; 2],
    },
    /// A value and an integer immediate.
    BinaryImm {
        opcode: Opcode,
        ty: Type,
        arg: Value,
        imm: i64,
    },
    /// Two values, with a second result for the carry.
    BinaryOverflow {
        opcode: Opcode,
        ty: Type,
        args: [Value; 2],
    },
    /// Three values.
    Ternary {
        opcode: Opcode,
        ty: Type,
        args: [Value; 3],
    },
    /// Any number of values.
    MultiAry {
        opcode: Opcode,
        ty: Type,
        args: ValueList,
    },
    /// A vector, a lane number and the value for that lane.
    InsertLane {
        opcode: Opcode,
        ty: Type,
        lane: u8,
        args: [Value; 2],
    },
    /// A vector and a lane number.
    ExtractLane {
        opcode: Opcode,
        ty: Type,
        lane: u8,
        arg: Value,
    },
    /// Two integers and the condition to test them for.
    IntCompare {
        opcode: Opcode,
        ty: Type,
        cond: IntCC,
        args: [Value; 2],
    },
    /// Two floating point numbers and the condition to test them for.
    FloatCompare {
        opcode: Opcode,
        ty: Type,
        cond: FloatCC,
        args: [Value; 2],
    },
    /// A destination block and the values for its arguments.
    Jump {
        opcode: Opcode,
        ty: Type,
        destination: Ebb,
        args: ValueList,
    },
    /// A destination block, with the value to test in front of those for its arguments.
    Branch {
        opcode: Opcode,
        ty: Type,
        destination: Ebb,
        args: ValueList,
    },
    /// The value to look up and the jump table to look it up in.
    BranchTable {
        opcode: Opcode,
        ty: Type,
        arg: Value,
        table: JumpTable,
    },
    /// An external function and the values for its arguments.
    Call {
        opcode: Opcode,
        ty: Type,
        func_ref: FuncRef,
        args: ValueList,
    },
    /// A signature, with the callee in front of the values for its arguments.
    IndirectCall {
        opcode: Opcode,
        ty: Type,
        sig_ref: SigRef,
        args: ValueList,
    },
    /// A global value.
    UnaryGlobalValue {
        opcode: Opcode,
        ty: Type,
        global_value: GlobalValue,
    },
    /// An address, an offset from it, and what is known of the access.
    Load {
        opcode: Opcode,
        ty: Type,
        flags: MemFlags,
        arg: Value,
        offset: i32,
    },
}

impl InstructionData {
    pub open spec fn opcode_spec(self) -> Opcode {
        match self {
            InstructionData::Nullary { opcode, .. } => opcode,
            InstructionData::Unary { opcode, .. } => opcode,
            InstructionData::UnaryImm { opcode, .. } => opcode,
            InstructionData::UnaryIeee32 { opcode, .. } => opcode,
            InstructionData::UnaryIeee64 { opcode, .. } => opcode,
            InstructionData::UnarySplit { opcode, .. } => opcode,
            InstructionData::Binary { opcode, .. } => opcode,
            InstructionData::BinaryImm { opcode, .. } => opcode,
            InstructionData::BinaryOverflow { opcode, .. } => opcode,
            InstructionData::Ternary { opcode, .. } => opcode,
            InstructionData::MultiAry { opcode, .. } => opcode,
            InstructionData::InsertLane { opcode, .. } => opcode,
            InstructionData::ExtractLane { opcode, .. } => opcode,
            InstructionData::IntCompare { opcode, .. } => opcode,
            InstructionData::FloatCompare { opcode, .. } => opcode,
            InstructionData::Jump { opcode, .. } => opcode,
            InstructionData::Branch { opcode, .. } => opcode,
            InstructionData::BranchTable { opcode, .. } => opcode,
            InstructionData::Call { opcode, .. } => opcode,
            InstructionData::IndirectCall { opcode, .. } => opcode,
            InstructionData::UnaryGlobalValue { opcode, .. } => opcode,
            InstructionData::Load { opcode, .. } => opcode,
        }
    }

    pub open spec fn first_type_spec(self) -> Type {
        match self {
            InstructionData::Nullary { ty, .. } => ty,
            InstructionData::Unary { ty, .. } => ty,
            InstructionData::UnaryImm { ty, .. } => ty,
            InstructionData::UnaryIeee32 { ty, .. } => ty,
            InstructionData::UnaryIeee64 { ty, .. } => ty,
            InstructionData::UnarySplit { ty, .. } => ty,
            InstructionData::Binary { ty, .. } => ty,
            InstructionData::BinaryImm { ty, .. } => ty,
            InstructionData::BinaryOverflow { ty, .. } => ty,
            InstructionData::Ternary { ty, .. } => ty,
            InstructionData::MultiAry { ty, .. } => ty,
            InstructionData::InsertLane { ty, .. } => ty,
            InstructionData::ExtractLane { ty, .. } => ty,
            InstructionData::IntCompare { ty, .. } => ty,
            InstructionData::FloatCompare { ty, .. } => ty,
            InstructionData::Jump { ty, .. } => ty,
            InstructionData::Branch { ty, .. } => ty,
            InstructionData::BranchTable { ty, .. } => ty,
            InstructionData::Call { ty, .. } => ty,
            InstructionData::IndirectCall { ty, .. } => ty,
            InstructionData::UnaryGlobalValue { ty, .. } => ty,
            InstructionData::Load { ty, .. } => ty,
        }
    }

    /// The format that the payload has, whatever its opcode asks for.
    pub open spec fn format_spec(self) -> InstructionFormat {
        match self {
            InstructionData::Nullary { .. } => InstructionFormat::Nullary,
            InstructionData::Unary { .. } => InstructionFormat::Unary,
            InstructionData::UnaryImm { .. } => InstructionFormat::UnaryImm,
            InstructionData::UnaryIeee32 { .. } => InstructionFormat::UnaryIeee32,
            InstructionData::UnaryIeee64 { .. } => InstructionFormat::UnaryIeee64,
            InstructionData::UnarySplit { .. } => InstructionFormat::UnarySplit,
            InstructionData::Binary { .. } => InstructionFormat::Binary,
            InstructionData::BinaryImm { .. } => InstructionFormat::BinaryImm,
            InstructionData::BinaryOverflow { .. } => InstructionFormat::BinaryOverflow,
            InstructionData::Ternary { .. } => InstructionFormat::Ternary,
            InstructionData::MultiAry { .. } => InstructionFormat::MultiAry,
            InstructionData::InsertLane { .. } => InstructionFormat::InsertLane,
            InstructionData::ExtractLane { .. } => InstructionFormat::ExtractLane,
            InstructionData::IntCompare { .. } => InstructionFormat::IntCompare,
            InstructionData::FloatCompare { .. } => InstructionFormat::FloatCompare,
            InstructionData::Jump { .. } => InstructionFormat::Jump,
            InstructionData::Branch { .. } => InstructionFormat::Branch,
            InstructionData::BranchTable { .. } => InstructionFormat::BranchTable,
            InstructionData::Call { .. } => InstructionFormat::Call,
            InstructionData::IndirectCall { .. } => InstructionFormat::IndirectCall,
            InstructionData::UnaryGlobalValue { .. } => InstructionFormat::UnaryGlobalValue,
            InstructionData::Load { .. } => InstructionFormat::Load,
        }
    }

    /// The same payload with `ty` for its first type.
    pub open spec fn with_first_type(self, ty: Type) -> InstructionData {
        match self {
            InstructionData::Nullary { opcode, ty: _ } => InstructionData::Nullary { opcode, ty },
            InstructionData::Unary { opcode, ty: _, arg } => InstructionData::Unary { opcode, ty, arg },
            InstructionData::UnaryImm { opcode, ty: _, imm } => InstructionData::UnaryImm { opcode, ty, imm },
            InstructionData::UnaryIeee32 { opcode, ty: _, imm } => InstructionData::UnaryIeee32 { opcode, ty, imm },
            InstructionData::UnaryIeee64 { opcode, ty: _, imm } => InstructionData::UnaryIeee64 { opcode, ty, imm },
            InstructionData::UnarySplit { opcode, ty: _, arg } => InstructionData::UnarySplit { opcode, ty, arg },
            InstructionData::Binary { opcode, ty: _, args } => InstructionData::Binary { opcode, ty, args },
            InstructionData::BinaryImm { opcode, ty: _, arg, imm } => InstructionData::BinaryImm { opcode, ty, arg, imm },
            InstructionData::BinaryOverflow { opcode, ty: _, args } => InstructionData::BinaryOverflow { opcode, ty, args },
            InstructionData::Ternary { opcode, ty: _, args } => InstructionData::Ternary { opcode, ty, args },
            InstructionData::MultiAry { opcode, ty: _, args } => InstructionData::MultiAry { opcode, ty, args },
            InstructionData::InsertLane { opcode, ty: _, lane, args } => InstructionData::InsertLane { opcode, ty, lane, args },
            InstructionData::ExtractLane { opcode, ty: _, lane, arg } => InstructionData::ExtractLane { opcode, ty, lane, arg },
            InstructionData::IntCompare { opcode, ty: _, cond, args } => InstructionData::IntCompare { opcode, ty, cond, args },
            InstructionData::FloatCompare { opcode, ty: _, cond, args } => InstructionData::FloatCompare { opcode, ty, cond, args },
            InstructionData::Jump { opcode, ty: _, destination, args } => InstructionData::Jump { opcode, ty, destination, args },
            InstructionData::Branch { opcode, ty: _, destination, args } => InstructionData::Branch { opcode, ty, destination, args },
            InstructionData::BranchTable { opcode, ty: _, arg, table } => InstructionData::BranchTable { opcode, ty, arg, table },
            InstructionData::Call { opcode, ty: _, func_ref, args } => InstructionData::Call { opcode, ty, func_ref, args },
            InstructionData::IndirectCall { opcode, ty: _, sig_ref, args } => InstructionData::IndirectCall { opcode, ty, sig_ref, args },
            InstructionData::UnaryGlobalValue { opcode, ty: _, global_value } => InstructionData::UnaryGlobalValue { opcode, ty, global_value },
            InstructionData::Load { opcode, ty: _, flags, arg, offset } => InstructionData::Load { opcode, ty, flags, arg, offset },
        }
    }

    /// The values that are held in the payload itself, in their order.
    pub open spec fn fixed_args_spec(self) -> Seq<Value> {
        match self {
            InstructionData::Nullary { .. } => Seq::empty(),
            InstructionData::Unary { arg, .. } => seq![arg],
            InstructionData::UnaryImm { .. } => Seq::empty(),
            InstructionData::UnaryIeee32 { .. } => Seq::empty(),
            InstructionData::UnaryIeee64 { .. } => Seq::empty(),
            InstructionData::UnarySplit { arg, .. } => seq![arg],
            InstructionData::Binary { args, .. } => args@,
            InstructionData::BinaryImm { arg, .. } => seq![arg],
            InstructionData::BinaryOverflow { args, .. } => args@,
            InstructionData::Ternary { args, .. } => args@,
            InstructionData::MultiAry { .. } => Seq::empty(),
            InstructionData::InsertLane { args, .. } => args@,
            InstructionData::ExtractLane { arg, .. } => seq![arg],
            InstructionData::IntCompare { args, .. } => args@,
            InstructionData::FloatCompare { args, .. } => args@,
            InstructionData::Jump { .. } => Seq::empty(),
            InstructionData::Branch { .. } => Seq::empty(),
            InstructionData::BranchTable { arg, .. } => seq![arg],
            InstructionData::Call { .. } => Seq::empty(),
            InstructionData::IndirectCall { .. } => Seq::empty(),
            InstructionData::UnaryGlobalValue { .. } => Seq::empty(),
            InstructionData::Load { arg, .. } => seq![arg],
        }
    }

    /// The list of values that the payload refers to, where its format has one.
    pub open spec fn value_list_spec(self) -> Option<ValueList> {
        match self {
            InstructionData::Nullary { .. } => None,
            InstructionData::Unary { .. } => None,
            InstructionData::UnaryImm { .. } => None,
            InstructionData::UnaryIeee32 { .. } => None,
            InstructionData::UnaryIeee64 { .. } => None,
            InstructionData::UnarySplit { .. } => None,
            InstructionData::Binary { .. } => None,
            InstructionData::BinaryImm { .. } => None,
            InstructionData::BinaryOverflow { .. } => None,
            InstructionData::Ternary { .. } => None,
            InstructionData::MultiAry { args, .. } => Some(args),
            InstructionData::InsertLane { .. } => None,
            InstructionData::ExtractLane { .. } => None,
            InstructionData::IntCompare { .. } => None,
            InstructionData::FloatCompare { .. } => None,
            InstructionData::Jump { args, .. } => Some(args),
            InstructionData::Branch { args, .. } => Some(args),
            InstructionData::BranchTable { .. } => None,
            InstructionData::Call { args, .. } => Some(args),
            InstructionData::IndirectCall { args, .. } => Some(args),
            InstructionData::UnaryGlobalValue { .. } => None,
            InstructionData::Load { .. } => None,
        }
    }

    /// The values that the instruction uses: those in the payload, then those
    /// of its list in `pool`.
    pub open spec fn arguments_spec(self, pool: Seq<Value>) -> Seq<Value> {
        match self.value_list_spec() {
            Some(list) => self.fixed_args_spec() + list.values_in(pool),
            None => self.fixed_args_spec(),
        }
    }

    /// The opcode.
    pub fn opcode(&self) -> (op: Opcode)
        ensures
            op == self.opcode_spec(),
    {
        match self {
            InstructionData::Nullary { opcode, .. } => *opcode,
            InstructionData::Unary { opcode, .. } => *opcode,
            InstructionData::UnaryImm { opcode, .. } => *opcode,
            InstructionData::UnaryIeee32 { opcode, .. } => *opcode,
            InstructionData::UnaryIeee64 { opcode, .. } => *opcode,
            InstructionData::UnarySplit { opcode, .. } => *opcode,
            InstructionData::Binary { opcode, .. } => *opcode,
            InstructionData::BinaryImm { opcode, .. } => *opcode,
            InstructionData::BinaryOverflow { opcode, .. } => *opcode,
            InstructionData::Ternary { opcode, .. } => *opcode,
            InstructionData::MultiAry { opcode, .. } => *opcode,
            InstructionData::InsertLane { opcode, .. } => *opcode,
            InstructionData::ExtractLane { opcode, .. } => *opcode,
            InstructionData::IntCompare { opcode, .. } => *opcode,
            InstructionData::FloatCompare { opcode, .. } => *opcode,
            InstructionData::Jump { opcode, .. } => *opcode,
            InstructionData::Branch { opcode, .. } => *opcode,
            InstructionData::BranchTable { opcode, .. } => *opcode,
            InstructionData::Call { opcode, .. } => *opcode,
            InstructionData::IndirectCall { opcode, .. } => *opcode,
            InstructionData::UnaryGlobalValue { opcode, .. } => *opcode,
            InstructionData::Load { opcode, .. } => *opcode,
        }
    }

    /// The first type: that of the first result, `Void` without results.
    pub fn first_type(&self) -> (ty: Type)
        ensures
            ty == self.first_type_spec(),
    {
        match self {
            InstructionData::Nullary { ty, .. } => *ty,
            InstructionData::Unary { ty, .. } => *ty,
            InstructionData::UnaryImm { ty, .. } => *ty,
            InstructionData::UnaryIeee32 { ty, .. } => *ty,
            InstructionData::UnaryIeee64 { ty, .. } => *ty,
            InstructionData::UnarySplit { ty, .. } => *ty,
            InstructionData::Binary { ty, .. } => *ty,
            InstructionData::BinaryImm { ty, .. } => *ty,
            InstructionData::BinaryOverflow { ty, .. } => *ty,
            InstructionData::Ternary { ty, .. } => *ty,
            InstructionData::MultiAry { ty, .. } => *ty,
            InstructionData::InsertLane { ty, .. } => *ty,
            InstructionData::ExtractLane { ty, .. } => *ty,
            InstructionData::IntCompare { ty, .. } => *ty,
            InstructionData::FloatCompare { ty, .. } => *ty,
            InstructionData::Jump { ty, .. } => *ty,
            InstructionData::Branch { ty, .. } => *ty,
            InstructionData::BranchTable { ty, .. } => *ty,
            InstructionData::Call { ty, .. } => *ty,
            InstructionData::IndirectCall { ty, .. } => *ty,
            InstructionData::UnaryGlobalValue { ty, .. } => *ty,
            InstructionData::Load { ty, .. } => *ty,
        }
    }

    /// The format that the payload has, whatever its opcode asks for.
    pub fn format(&self) -> (f: InstructionFormat)
        ensures
            f == self.format_spec(),
    {
        match self {
            InstructionData::Nullary { .. } => InstructionFormat::Nullary,
            InstructionData::Unary { .. } => InstructionFormat::Unary,
            InstructionData::UnaryImm { .. } => InstructionFormat::UnaryImm,
            InstructionData::UnaryIeee32 { .. } => InstructionFormat::UnaryIeee32,
            InstructionData::UnaryIeee64 { .. } => InstructionFormat::UnaryIeee64,
            InstructionData::UnarySplit { .. } => InstructionFormat::UnarySplit,
            InstructionData::Binary { .. } => InstructionFormat::Binary,
            InstructionData::BinaryImm { .. } => InstructionFormat::BinaryImm,
            InstructionData::BinaryOverflow { .. } => InstructionFormat::BinaryOverflow,
            InstructionData::Ternary { .. } => InstructionFormat::Ternary,
            InstructionData::MultiAry { .. } => InstructionFormat::MultiAry,
            InstructionData::InsertLane { .. } => InstructionFormat::InsertLane,
            InstructionData::ExtractLane { .. } => InstructionFormat::ExtractLane,
            InstructionData::IntCompare { .. } => InstructionFormat::IntCompare,
            InstructionData::FloatCompare { .. } => InstructionFormat::FloatCompare,
            InstructionData::Jump { .. } => InstructionFormat::Jump,
            InstructionData::Branch { .. } => InstructionFormat::Branch,
            InstructionData::BranchTable { .. } => InstructionFormat::BranchTable,
            InstructionData::Call { .. } => InstructionFormat::Call,
            InstructionData::IndirectCall { .. } => InstructionFormat::IndirectCall,
            InstructionData::UnaryGlobalValue { .. } => InstructionFormat::UnaryGlobalValue,
            InstructionData::Load { .. } => InstructionFormat::Load,
        }
    }

    /// Sets the first type and leaves the rest of the payload alone.
    pub fn set_first_type(&mut self, new_ty: Type)
        ensures
            *final(self) == old(self).with_first_type(new_ty),
    {
        let data = match *self {
            InstructionData::Nullary { opcode, ty: _ } => InstructionData::Nullary { opcode, ty: new_ty },
            InstructionData::Unary { opcode, ty: _, arg } => InstructionData::Unary { opcode, ty: new_ty, arg },
            InstructionData::UnaryImm { opcode, ty: _, imm } => InstructionData::UnaryImm { opcode, ty: new_ty, imm },
            InstructionData::UnaryIeee32 { opcode, ty: _, imm } => InstructionData::UnaryIeee32 { opcode, ty: new_ty, imm },
            InstructionData::UnaryIeee64 { opcode, ty: _, imm } => InstructionData::UnaryIeee64 { opcode, ty: new_ty, imm },
            InstructionData::UnarySplit { opcode, ty: _, arg } => InstructionData::UnarySplit { opcode, ty: new_ty, arg },
            InstructionData::Binary { opcode, ty: _, args } => InstructionData::Binary { opcode, ty: new_ty, args },
            InstructionData::BinaryImm { opcode, ty: _, arg, imm } => InstructionData::BinaryImm { opcode, ty: new_ty, arg, imm },
            InstructionData::BinaryOverflow { opcode, ty: _, args } => InstructionData::BinaryOverflow { opcode, ty: new_ty, args },
            InstructionData::Ternary { opcode, ty: _, args } => InstructionData::Ternary { opcode, ty: new_ty, args },
            InstructionData::MultiAry { opcode, ty: _, args } => InstructionData::MultiAry { opcode, ty: new_ty, args },
            InstructionData::InsertLane { opcode, ty: _, lane, args } => InstructionData::InsertLane { opcode, ty: new_ty, lane, args },
            InstructionData::ExtractLane { opcode, ty: _, lane, arg } => InstructionData::ExtractLane { opcode, ty: new_ty, lane, arg },
            InstructionData::IntCompare { opcode, ty: _, cond, args } => InstructionData::IntCompare { opcode, ty: new_ty, cond, args },
            InstructionData::FloatCompare { opcode, ty: _, cond, args } => InstructionData::FloatCompare { opcode, ty: new_ty, cond, args },
            InstructionData::Jump { opcode, ty: _, destination, args } => InstructionData::Jump { opcode, ty: new_ty, destination, args },
            InstructionData::Branch { opcode, ty: _, destination, args } => InstructionData::Branch { opcode, ty: new_ty, destination, args },
            InstructionData::BranchTable { opcode, ty: _, arg, table } => InstructionData::BranchTable { opcode, ty: new_ty, arg, table },
            InstructionData::Call { opcode, ty: _, func_ref, args } => InstructionData::Call { opcode, ty: new_ty, func_ref, args },
            InstructionData::IndirectCall { opcode, ty: _, sig_ref, args } => InstructionData::IndirectCall { opcode, ty: new_ty, sig_ref, args },
            InstructionData::UnaryGlobalValue { opcode, ty: _, global_value } => InstructionData::UnaryGlobalValue { opcode, ty: new_ty, global_value },
            InstructionData::Load { opcode, ty: _, flags, arg, offset } => InstructionData::Load { opcode, ty: new_ty, flags, arg, offset },
        };
        *self = data;
    }

    /// The list of values that the payload refers to, where its format has one.
    pub fn value_list(&self) -> (l: Option<ValueList>)
        ensures
            l == self.value_list_spec(),
    {
        match self {
            InstructionData::Nullary { .. } => None,
            InstructionData::Unary { .. } => None,
            InstructionData::UnaryImm { .. } => None,
            InstructionData::UnaryIeee32 { .. } => None,
            InstructionData::UnaryIeee64 { .. } => None,
            InstructionData::UnarySplit { .. } => None,
            InstructionData::Binary { .. } => None,
            InstructionData::BinaryImm { .. } => None,
            InstructionData::BinaryOverflow { .. } => None,
            InstructionData::Ternary { .. } => None,
            InstructionData::MultiAry { args, .. } => Some(*args),
            InstructionData::InsertLane { .. } => None,
            InstructionData::ExtractLane { .. } => None,
            InstructionData::IntCompare { .. } => None,
            InstructionData::FloatCompare { .. } => None,
            InstructionData::Jump { args, .. } => Some(*args),
            InstructionData::Branch { args, .. } => Some(*args),
            InstructionData::BranchTable { .. } => None,
            InstructionData::Call { args, .. } => Some(*args),
            InstructionData::IndirectCall { args, .. } => Some(*args),
            InstructionData::UnaryGlobalValue { .. } => None,
            InstructionData::Load { .. } => None,
        }
    }

    /// The values that the instruction uses: those in the payload, then those
    /// of its list in `pool`. A list that `pool` does not hold adds none.
    pub fn arguments(&self, pool: &ValueListPool) -> (args: Vec<Value>)
        ensures
            args@ == self.arguments_spec(pool@),
    {
        let mut out: Vec<Value> = Vec::new();
        match self {
            InstructionData::Nullary { .. } => {},
            InstructionData::Unary { arg, .. } => {
                out.push(*arg);
            },
            InstructionData::UnaryImm { .. } => {},
            InstructionData::UnaryIeee32 { .. } => {},
            InstructionData::UnaryIeee64 { .. } => {},
            InstructionData::UnarySplit { arg, .. } => {
                out.push(*arg);
            },
            InstructionData::Binary { args, .. } => {
                out.push(args[0]);
                out.push(args[1]);
            },
            InstructionData::BinaryImm { arg, .. } => {
                out.push(*arg);
            },
            InstructionData::BinaryOverflow { args, .. } => {
                out.push(args[0]);
                out.push(args[1]);
            },
            InstructionData::Ternary { args, .. } => {
                out.push(args[0]);
                out.push(args[1]);
                out.push(args[2]);
            },
            InstructionData::MultiAry { .. } => {},
            InstructionData::InsertLane { args, .. } => {
                out.push(args[0]);
                out.push(args[1]);
            },
            InstructionData::ExtractLane { arg, .. } => {
                out.push(*arg);
            },
            InstructionData::IntCompare { args, .. } => {
                out.push(args[0]);
                out.push(args[1]);
            },
            InstructionData::FloatCompare { args, .. } => {
                out.push(args[0]);
                out.push(args[1]);
            },
            InstructionData::Jump { .. } => {},
            InstructionData::Branch { .. } => {},
            InstructionData::BranchTable { arg, .. } => {
                out.push(*arg);
            },
            InstructionData::Call { .. } => {},
            InstructionData::IndirectCall { .. } => {},
            InstructionData::UnaryGlobalValue { .. } => {},
            InstructionData::Load { arg, .. } => {
                out.push(*arg);
            },
        }
        assert(out@ =~= self.fixed_args_spec());
        match self.value_list() {
            Some(list) => {
                let mut rest = list.to_vec(pool);
                out.append(&mut rest);
            },
            None => {},
        }
        out
    }
}

} // verus!
