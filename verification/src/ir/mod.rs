//! Representation of functions in the intermediate language.

pub mod builder;
pub mod condcodes;
pub mod dfg;
pub mod dfgview;
pub mod entities;
pub mod extfunc;
pub mod function;
pub mod globalvalue;
pub mod instructions;
pub mod jumptable;
pub mod layout;
pub mod layoutview;
pub mod memflags;
pub mod sideinfo;
pub mod stackslot;
pub mod types;
pub mod valuelist;
pub mod write;

pub use crate::ir::entities::{
    AnyEntity, Ebb, FuncRef, GlobalValue, Heap, Inst, JumpTable, SigRef, StackSlot, Table, Value,
};
pub use crate::ir::extfunc::{AbiParam, ArgumentPurpose, ExtFuncData, Signature};
pub use crate::ir::function::Function;
pub use crate::ir::globalvalue::GlobalValueData;
pub use crate::ir::instructions::{InstructionData, InstructionFormat, Opcode};
pub use crate::ir::dfg::{DataFlowGraph, ReplaceBuilder, ValueData, ValueDef};
pub use crate::ir::dfgview::DfgView;
pub use crate::ir::jumptable::JumpTableData;
pub use crate::ir::layout::Layout;
pub use crate::ir::layoutview::LayoutView;
pub use crate::ir::memflags::MemFlags;
pub use crate::ir::sideinfo::{Encoding, SourceLoc, ValueLoc};
pub use crate::ir::stackslot::{StackSlotData, StackSlotKind};
pub use crate::ir::types::Type;
pub use crate::ir::valuelist::{ValueList, ValueListPool};
