//! Writing instructions as text.
//!
//! An instruction is written as its results, an equals sign, its opcode with
//! its first type behind a dot, and its operands: `v2 = iadd_imm.i64 v1, 16`.
//! An instruction without results begins with its opcode, and one whose
//! first type is `Void` has no type behind the opcode: `jump ebb1, v2`.

use crate::ir::dfg::DataFlowGraph;
use crate::ir::dfgview::DfgView;
use crate::ir::entities::{Inst, Value};
use crate::ir::instructions::InstructionData;
use crate::ir::types::Type;
use crate::ir::valuelist::ValueListPool;
use crate::isa::TargetIsa;
use crate::text::{decimal, joined, push_decimal, push_joined, push_signed, signed_decimal, texts};
use vstd::prelude::*;
use vstd::string::StringExecFns;

verus! {

/// The names of the values `values`.
pub open spec fn value_names(values: Seq<Value>) -> Seq<Seq<char>> {
    Seq::new(values.len(), |i: int| values[i].name())
}

/// The operands of an instruction with the payload `data`, each as it is
/// written: values, blocks and other entities by their names, immediates as
/// decimal numerals, conditions by their names, and the flags of a memory
/// access that are set by theirs.
pub open spec fn operand_texts(data: InstructionData, pool: Seq<Value>) -> Seq<Seq<char>> {
    match data {
        InstructionData::Nullary { .. } => Seq::empty(),
        InstructionData::Unary { arg, .. } => seq![arg.name()],
        InstructionData::UnaryImm { imm, .. } => seq![signed_decimal(imm as int)],
        InstructionData::UnaryIeee32 { imm, .. } => seq![decimal(imm as nat)],
        InstructionData::UnaryIeee64 { imm, .. } => seq![decimal(imm as nat)],
        InstructionData::UnarySplit { arg, .. } => seq![arg.name()],
        InstructionData::Binary { args, .. } => seq![args[0].name(), args[1].name()],
        InstructionData::BinaryImm { arg, imm, .. } => seq![arg.name(), signed_decimal(imm as int)],
        InstructionData::BinaryOverflow { args, .. } => seq![args[0].name(), args[1].name()],
        InstructionData::Ternary { args, .. } => seq![
            args[0].name(),
            args[1].name(),
            args[2].name(),
        ],
        InstructionData::MultiAry { args, .. } => value_names(args.values_in(pool)),
        InstructionData::InsertLane { lane, args, .. } => seq![
            args[0].name(),
            decimal(lane as nat),
            args[1].name(),
        ],
        InstructionData::ExtractLane { lane, arg, .. } => seq![arg.name(), decimal(lane as nat)],
        InstructionData::IntCompare { cond, args, .. } => seq![
            cond.name(),
            args[0].name(),
            args[1].name(),
        ],
        InstructionData::FloatCompare { cond, args, .. } => seq![
            cond.name(),
            args[0].name(),
            args[1].name(),
        ],
        InstructionData::Jump { destination, args, .. } => seq![destination.name()] + value_names(
            args.values_in(pool),
        ),
        InstructionData::Branch { destination, args, .. } => seq![destination.name()] + value_names(
            args.values_in(pool),
        ),
        InstructionData::BranchTable { arg, table, .. } => seq![arg.name(), table.name()],
        InstructionData::Call { func_ref, args, .. } => seq![func_ref.name()] + value_names(
            args.values_in(pool),
        ),
        InstructionData::IndirectCall { sig_ref, args, .. } => seq![sig_ref.name()] + value_names(
            args.values_in(pool),
        ),
        InstructionData::UnaryGlobalValue { global_value, .. } => seq![global_value.name()],
        InstructionData::Load { flags, arg, offset, .. } => (if flags.notrap_spec() {
            seq!["notrap"@]
        } else {
            Seq::empty()
        }) + (if flags.aligned_spec() {
            seq!["aligned"@]
        } else {
            Seq::empty()
        }) + seq![arg.name(), signed_decimal(offset as int)],
    }
}

/// The opcode of `data` as it is written: its name, and its first type
/// behind a dot unless that is `Void`.
pub open spec fn opcode_text(data: InstructionData) -> Seq<char> {
    if data.first_type_spec() == Type::Void {
        data.opcode_spec().name()
    } else {
        data.opcode_spec().name() + "."@ + data.first_type_spec().name()
    }
}

/// The instruction `inst` as it is written.
pub open spec fn inst_text(dfg: DfgView, inst: Inst) -> Seq<char>
    recommends
        dfg.inst_is_valid(inst),
{
    let results = value_names(dfg.results_of(inst));
    let operands = operand_texts(dfg.data(inst), dfg.pool);
    (if results.len() > 0 {
        joined(results, ", "@) + " = "@
    } else {
        Seq::empty()
    }) + opcode_text(dfg.data(inst)) + (if operands.len() > 0 {
        " "@ + joined(operands, ", "@)
    } else {
        Seq::empty()
    })
}

/// The names of the values `values`, each as a string.
pub fn names_of(values: &Vec<Value>) -> (out: Vec<String>)
    ensures
        texts(out@) == value_names(values@),
{
    let mut out: Vec<String> = Vec::new();
    let mut i: usize = 0;
    while i < values.len()
        invariant
            i <= values@.len(),
            out@.len() == i,
            forall|j: int| 0 <= j < i ==> (#[trigger] out@[j])@ == values@[j].name(),
        decreases values@.len() - i,
    {
        out.push(values[i].to_text());
        i = i + 1;
    }
    proof {
        assert(texts(out@) =~= value_names(values@));
    }
    out
}

/// The decimal numeral of `n` as a string.
fn number(n: u128) -> (s: String)
    ensures
        s@ == decimal(n as nat),
{
    let mut s = String::new();
    push_decimal(&mut s, n);
    assert(s@ =~= decimal(n as nat));
    s
}

/// The decimal numeral of `n` as a string.
fn signed_number(n: i64) -> (s: String)
    ensures
        s@ == signed_decimal(n as int),
{
    let mut s = String::new();
    push_signed(&mut s, n);
    assert(s@ =~= signed_decimal(n as int));
    s
}

/// The operands of an instruction with the payload `data`, each as it is
/// written.
pub fn operands_of(data: &InstructionData, pool: &ValueListPool) -> (out: Vec<String>)
    ensures
        texts(out@) == operand_texts(*data, pool@),
{
    let mut out: Vec<String> = Vec::new();
    match data {
        InstructionData::Nullary { .. } => {},
        InstructionData::Unary { arg, .. } => {
            out.push(arg.to_text());
        },
        InstructionData::UnaryImm { imm, .. } => {
            out.push(signed_number(*imm));
        },
        InstructionData::UnaryIeee32 { imm, .. } => {
            out.push(number(*imm as u128));
        },
        InstructionData::UnaryIeee64 { imm, .. } => {
            out.push(number(*imm as u128));
        },
        InstructionData::UnarySplit { arg, .. } => {
            out.push(arg.to_text());
        },
        InstructionData::Binary { args, .. } => {
            out.push(args[0].to_text());
            out.push(args[1].to_text());
        },
        InstructionData::BinaryImm { arg, imm, .. } => {
            out.push(arg.to_text());
            out.push(signed_number(*imm));
        },
        InstructionData::BinaryOverflow { args, .. } => {
            out.push(args[0].to_text());
            out.push(args[1].to_text());
        },
        InstructionData::Ternary { args, .. } => {
            out.push(args[0].to_text());
            out.push(args[1].to_text());
            out.push(args[2].to_text());
        },
        InstructionData::MultiAry { args, .. } => {
            out = names_of(&args.to_vec(pool));
        },
        InstructionData::InsertLane { lane, args, .. } => {
            out.push(args[0].to_text());
            out.push(number(*lane as u128));
            out.push(args[1].to_text());
        },
        InstructionData::ExtractLane { lane, arg, .. } => {
            out.push(arg.to_text());
            out.push(number(*lane as u128));
        },
        InstructionData::IntCompare { cond, args, .. } => {
            out.push(cond.to_text());
            out.push(args[0].to_text());
            out.push(args[1].to_text());
        },
        InstructionData::FloatCompare { cond, args, .. } => {
            out.push(cond.to_text());
            out.push(args[0].to_text());
            out.push(args[1].to_text());
        },
        InstructionData::Jump { destination, args, .. } => {
            out.push(destination.to_text());
            let mut rest = names_of(&args.to_vec(pool));
            let ghost head = out@;
            let ghost tail = rest@;
            out.append(&mut rest);
            proof {
                assert(texts(out@) =~= texts(head) + texts(tail));
            }
        },
        InstructionData::Branch { destination, args, .. } => {
            out.push(destination.to_text());
            let mut rest = names_of(&args.to_vec(pool));
            let ghost head = out@;
            let ghost tail = rest@;
            out.append(&mut rest);
            proof {
                assert(texts(out@) =~= texts(head) + texts(tail));
            }
        },
        InstructionData::BranchTable { arg, table, .. } => {
            out.push(arg.to_text());
            out.push(table.to_text());
        },
        InstructionData::Call { func_ref, args, .. } => {
            out.push(func_ref.to_text());
            let mut rest = names_of(&args.to_vec(pool));
            let ghost head = out@;
            let ghost tail = rest@;
            out.append(&mut rest);
            proof {
                assert(texts(out@) =~= texts(head) + texts(tail));
            }
        },
        InstructionData::IndirectCall { sig_ref, args, .. } => {
            out.push(sig_ref.to_text());
            let mut rest = names_of(&args.to_vec(pool));
            let ghost head = out@;
            let ghost tail = rest@;
            out.append(&mut rest);
            proof {
                assert(texts(out@) =~= texts(head) + texts(tail));
            }
        },
        InstructionData::UnaryGlobalValue { global_value, .. } => {
            out.push(global_value.to_text());
        },
        InstructionData::Load { flags, arg, offset, .. } => {
            if flags.notrap() {
                out.push(String::from_str("notrap"));
            }
            if flags.aligned() {
                out.push(String::from_str("aligned"));
            }
            out.push(arg.to_text());
            out.push(signed_number(*offset as i64));
        },
    }
    proof {
        assert(texts(out@) =~= operand_texts(*data, pool@));
    }
    out
}

impl DataFlowGraph {
    /// The instruction `inst` as it is written. The target has no say in
    /// how: `isa` is there for a caller that has one at hand.
    pub fn display_inst(&self, inst: Inst, isa: Option<&TargetIsa>) -> (s: String)
        requires
            self@.inst_is_valid(inst),
        ensures
            s@ == inst_text(self@, inst),
    {
        let data = self.inst_data(inst);
        let results = names_of(&self.inst_results(inst));
        let operands = operands_of(data, self.value_lists());
        let mut s = String::new();
        if results.len() > 0 {
            push_joined(&mut s, &results, ", ");
            s.append(" = ");
        }
        s.append(data.opcode().to_text().as_str());
        if data.first_type() != Type::Void {
            s.append(".");
            s.append(data.first_type().to_text().as_str());
        }
        if operands.len() > 0 {
            s.append(" ");
            push_joined(&mut s, &operands, ", ");
        }
        proof {
            assert(s@ =~= inst_text(self@, inst));
        }
        s
    }
}

} // verus!
