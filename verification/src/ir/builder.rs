//! The payloads of the instructions that passes build.

use crate::ir::entities::{GlobalValue, Value};
use crate::ir::instructions::{InstructionData, Opcode};
use crate::ir::memflags::MemFlags;
use crate::ir::types::Type;
use vstd::prelude::*;

verus! {

/// The payload of `global_value`: the address or the value that the global
/// value `gv` stands for, as a value of type `ty`.
pub open spec fn global_value_data(ty: Type, gv: GlobalValue) -> InstructionData {
    InstructionData::UnaryGlobalValue { opcode: Opcode::GlobalValue, ty, global_value: gv }
}

/// The payload of `symbol_value`: the address of the symbol that the global
/// value `gv` names, as a value of type `ty`.
pub open spec fn symbol_value_data(ty: Type, gv: GlobalValue) -> InstructionData {
    InstructionData::UnaryGlobalValue { opcode: Opcode::SymbolValue, ty, global_value: gv }
}

/// The payload of `iadd_imm`: `x` plus the immediate `imm`, of type `ty`.
pub open spec fn iadd_imm_data(ty: Type, x: Value, imm: i64) -> InstructionData {
    InstructionData::BinaryImm { opcode: Opcode::IaddImm, ty, arg: x, imm }
}

/// The payload of `load`: what is loaded, as a value of type `ty`, from
/// `offset` bytes behind the address `p`.
pub open spec fn load_data(ty: Type, flags: MemFlags, p: Value, offset: i32) -> InstructionData {
    InstructionData::Load { opcode: Opcode::Load, ty, flags, arg: p, offset }
}

/// The payload of `iconst`: the integer `imm` as a value of type `ty`.
pub open spec fn iconst_data(ty: Type, imm: i64) -> InstructionData {
    InstructionData::UnaryImm { opcode: Opcode::Iconst, ty, imm }
}

impl InstructionData {
    /// The payload of `global_value`.
    pub fn global_value(ty: Type, gv: GlobalValue) -> (data: InstructionData)
        ensures
            data == global_value_data(ty, gv),
    {
        InstructionData::UnaryGlobalValue { opcode: Opcode::GlobalValue, ty, global_value: gv }
    }

    /// The payload of `symbol_value`.
    pub fn symbol_value(ty: Type, gv: GlobalValue) -> (data: InstructionData)
        ensures
            data == symbol_value_data(ty, gv),
    {
        InstructionData::UnaryGlobalValue { opcode: Opcode::SymbolValue, ty, global_value: gv }
    }

    /// The payload of `iadd_imm`.
    pub fn iadd_imm(ty: Type, x: Value, imm: i64) -> (data: InstructionData)
        ensures
            data == iadd_imm_data(ty, x, imm),
    {
        InstructionData::BinaryImm { opcode: Opcode::IaddImm, ty, arg: x, imm }
    }

    /// The payload of `load`.
    pub fn load(ty: Type, flags: MemFlags, p: Value, offset: i32) -> (data: InstructionData)
        ensures
            data == load_data(ty, flags, p, offset),
    {
        InstructionData::Load { opcode: Opcode::Load, ty, flags, arg: p, offset }
    }

    /// The payload of `iconst`.
    pub fn iconst(ty: Type, imm: i64) -> (data: InstructionData)
        ensures
            data == iconst_data(ty, imm),
    {
        InstructionData::UnaryImm { opcode: Opcode::Iconst, ty, imm }
    }
}

} // verus!
