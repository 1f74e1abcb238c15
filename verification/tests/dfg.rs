use cretonne::ir::condcodes::{FloatCC, IntCC};
use cretonne::ir::instructions::{InstructionData, Opcode};
use cretonne::ir::{GlobalValue, JumpTable, MemFlags};
use cretonne::ir::types;
use cretonne::ir::{
    AbiParam, DataFlowGraph, Ebb, ExtFuncData, FuncRef, Inst, SigRef, Signature, Value, ValueData,
    ValueDef,
};

fn iconst(dfg: &mut DataFlowGraph, imm: i64) -> (Inst, Value) {
    let inst = dfg.make_inst(InstructionData::iconst(types::I32, imm));
    dfg.make_inst_results(inst, types::I32);
    (inst, dfg.first_result(inst))
}

#[test]
fn new_graph_is_empty() {
    let dfg = DataFlowGraph::new();
    assert_eq!(dfg.num_insts(), 0);
    assert_eq!(dfg.num_ebbs(), 0);
    assert_eq!(dfg.num_values(), 0);
    assert!(!dfg.inst_is_valid(Inst::from_u32(0)));
    assert!(!dfg.ebb_is_valid(Ebb::from_u32(0)));
    assert!(!dfg.value_is_valid(Value::from_u32(0)));
    assert_eq!(dfg.value_lists().len(), 0);
    assert!(dfg.signatures().is_empty());
    assert!(dfg.ext_funcs().is_empty());
}

#[test]
fn make_inst_has_no_results_until_they_are_made() {
    let mut dfg = DataFlowGraph::new();
    let inst = dfg.make_inst(InstructionData::iconst(types::I64, 3));
    assert_eq!(inst, Inst::from_u32(0));
    assert!(dfg.inst_is_valid(inst));
    assert!(!dfg.has_results(inst));
    assert_eq!(dfg.num_results(inst), 0);
    assert_eq!(dfg.inst_results(inst), Vec::<Value>::new());
    assert_eq!(dfg.result_types(inst, types::I64), vec![types::I64]);

    assert_eq!(dfg.make_inst_results(inst, types::I64), 1);

    assert!(dfg.has_results(inst));
    let v = dfg.first_result(inst);
    assert_eq!(dfg.inst_results(inst), vec![v]);
    assert_eq!(dfg.value_def(v), ValueDef::Result(inst, 0));
    assert_eq!(dfg.value_type(v), types::I64);
    assert!(dfg.value_is_attached(v));
    assert_eq!(
        dfg.value_data(v),
        ValueData::Inst {
            ty: types::I64,
            num: 0,
            inst
        }
    );
}

#[test]
fn results_follow_the_opcode() {
    let mut dfg = DataFlowGraph::new();
    let (_, a) = iconst(&mut dfg, 1);
    let (_, b) = iconst(&mut dfg, 2);
    let add = dfg.make_inst(InstructionData::BinaryOverflow {
        opcode: Opcode::IaddCout,
        ty: types::VOID,
        args: [a, b],
    });
    assert_eq!(dfg.make_inst_results(add, types::I32), 2);
    let results = dfg.inst_results(add);
    assert_eq!(results.len(), 2);
    assert_eq!(dfg.value_type(results[0]), types::I32);
    assert_eq!(dfg.value_type(results[1]), types::B1);
    assert_eq!(dfg.value_def(results[1]), ValueDef::Result(add, 1));
    // The first type follows the first result.
    assert_eq!(dfg.inst_data(add).first_type(), types::I32);

    let ret = dfg.make_inst(InstructionData::MultiAry {
        opcode: Opcode::Return,
        ty: types::I32,
        args: cretonne::ir::ValueList::new(),
    });
    assert_eq!(dfg.make_inst_results(ret, types::I32), 0);
    assert_eq!(dfg.inst_data(ret).first_type(), types::VOID);
    assert!(!dfg.has_results(ret));
}

#[test]
fn call_results_follow_the_signature() {
    let mut dfg = DataFlowGraph::new();
    let mut sig = Signature::new();
    sig.return_types.push(AbiParam::new(types::F32));
    sig.return_types.push(AbiParam::new(types::I64));
    let sig_ref = dfg.import_signature(sig);
    assert_eq!(sig_ref, SigRef::from_u32(0));
    let func_ref = dfg.import_function(ExtFuncData {
        name: 1,
        signature: sig_ref,
    });
    assert_eq!(func_ref, FuncRef::from_u32(0));
    let args = dfg.make_value_list(&vec![]);
    let call = dfg.make_inst(InstructionData::Call {
        opcode: Opcode::Call,
        ty: types::VOID,
        func_ref,
        args,
    });
    assert_eq!(dfg.call_signature(call), Some(sig_ref));
    assert_eq!(dfg.make_inst_results(call, types::VOID), 2);
    let results = dfg.inst_results(call);
    assert_eq!(dfg.value_type(results[0]), types::F32);
    assert_eq!(dfg.value_type(results[1]), types::I64);
    assert_eq!(dfg.inst_data(call).first_type(), types::F32);

    let unknown = dfg.make_inst(InstructionData::Call {
        opcode: Opcode::Call,
        ty: types::VOID,
        func_ref: FuncRef::from_u32(5),
        args,
    });
    assert_eq!(dfg.call_signature(unknown), None);
    assert_eq!(dfg.make_inst_results(unknown, types::VOID), 0);

    let indirect = dfg.make_inst(InstructionData::IndirectCall {
        opcode: Opcode::CallIndirect,
        ty: types::VOID,
        sig_ref: SigRef::from_u32(9),
        args,
    });
    assert_eq!(dfg.call_signature(indirect), Some(SigRef::from_u32(9)));
    assert_eq!(dfg.make_inst_results(indirect, types::VOID), 0);

    let (plain, _) = iconst(&mut dfg, 0);
    assert_eq!(dfg.call_signature(plain), None);
}

#[test]
fn ebb_arguments_are_recorded_as_such() {
    let mut dfg = DataFlowGraph::new();
    let ebb0 = dfg.make_ebb();
    let ebb1 = dfg.make_ebb();
    assert_eq!(dfg.num_ebb_args(ebb0), 0);
    let a = dfg.append_ebb_arg(ebb0, types::I32);
    let b = dfg.append_ebb_arg(ebb1, types::F64);
    let c = dfg.append_ebb_arg(ebb0, types::B1);
    assert_eq!(dfg.ebb_args(ebb0), vec![a, c]);
    assert_eq!(dfg.ebb_args(ebb1), vec![b]);
    assert_eq!(dfg.value_def(a), ValueDef::Arg(ebb0, 0));
    assert_eq!(dfg.value_def(c), ValueDef::Arg(ebb0, 1));
    assert_eq!(dfg.value_def(b), ValueDef::Arg(ebb1, 0));
    assert_eq!(dfg.value_type(c), types::B1);
    assert!(dfg.value_is_attached(a));
    assert_eq!(dfg.num_values(), 3);
    for ebb in [ebb0, ebb1] {
        for (i, arg) in dfg.ebb_args(ebb).into_iter().enumerate() {
            assert_eq!(dfg.value_def(arg), ValueDef::Arg(ebb, i));
        }
    }
}

#[test]
fn aliases_resolve_to_their_target() {
    let mut dfg = DataFlowGraph::new();
    let (i0, v0) = iconst(&mut dfg, 10);
    let (i1, v1) = iconst(&mut dfg, 11);
    let (_, v2) = iconst(&mut dfg, 12);
    assert_eq!(dfg.resolve_aliases(v0), v0);

    dfg.clear_results(i0);
    assert!(!dfg.value_is_attached(v0));
    assert_eq!(dfg.inst_results(i0), Vec::<Value>::new());
    dfg.change_to_alias(v0, v1);

    assert_eq!(dfg.value_def(v0), ValueDef::Alias(v1));
    assert_eq!(dfg.resolve_aliases(v0), v1);
    assert_eq!(dfg.resolve_aliases(v1), v1);
    assert_eq!(dfg.value_type(v0), types::I32);

    // A chain: v0 -> v1 -> v2.
    dfg.clear_results(i1);
    dfg.change_to_alias(v1, v2);
    assert_eq!(dfg.value_def(v1), ValueDef::Alias(v2));
    assert_eq!(dfg.value_def(v0), ValueDef::Alias(v1));
    assert_eq!(dfg.resolve_aliases(v1), v2);
    assert_eq!(dfg.resolve_aliases(v0), v2);
    assert_eq!(dfg.resolve_aliases(v2), v2);
    assert!(!dfg.value_is_attached(v0));
}

#[test]
fn resolving_a_value_that_is_not_there_gives_it_back() {
    let dfg = DataFlowGraph::new();
    assert_eq!(dfg.resolve_aliases(Value::from_u32(4)), Value::from_u32(4));
}

#[test]
fn replace_keeps_the_result_and_its_uses() {
    let mut dfg = DataFlowGraph::new();
    let (ic, x) = iconst(&mut dfg, 1);
    let (target, old_result) = iconst(&mut dfg, 2);
    let user = dfg.make_inst(InstructionData::Unary {
        opcode: Opcode::Copy,
        ty: types::I32,
        arg: old_result,
    });
    dfg.make_inst_results(user, types::I32);
    let user_before = *dfg.inst_data(user);
    let values_before = dfg.num_values();

    let v = dfg.replace(target).iadd_imm(x, 40);

    assert_eq!(v, old_result);
    assert_eq!(dfg.first_result(target), old_result);
    assert_eq!(dfg.inst_results(target), vec![old_result]);
    assert_eq!(dfg.value_def(old_result), ValueDef::Result(target, 0));
    assert_eq!(
        *dfg.inst_data(target),
        InstructionData::BinaryImm {
            opcode: Opcode::IaddImm,
            ty: types::I32,
            arg: x,
            imm: 40
        }
    );
    assert_eq!(*dfg.inst_data(user), user_before);
    assert_eq!(*dfg.inst_data(ic), InstructionData::iconst(types::I32, 1));
    assert_eq!(dfg.num_values(), values_before);
}

#[test]
fn replace_gives_results_to_an_instruction_without() {
    let mut dfg = DataFlowGraph::new();
    let (_, x) = iconst(&mut dfg, 1);
    let bare = dfg.make_inst(InstructionData::Nullary {
        opcode: Opcode::Nop,
        ty: types::VOID,
    });
    let values_before = dfg.num_values();
    let v = dfg.replace(bare).iadd_imm(x, 5);
    assert_eq!(dfg.num_values(), values_before + 1);
    assert_eq!(dfg.inst_results(bare), vec![v]);
    assert_eq!(dfg.value_type(v), types::I32);
    assert_eq!(dfg.inst_data(bare).opcode(), Opcode::IaddImm);

    let other = dfg.replace(bare).build(InstructionData::iconst(types::I64, 0), types::I64);
    assert_eq!(other, bare);
    assert_eq!(dfg.inst_results(bare), vec![v]);
    assert_eq!(*dfg.inst_data(bare), InstructionData::iconst(types::I64, 0));
}

#[test]
fn value_lists_of_payloads_live_in_the_graph() {
    let mut dfg = DataFlowGraph::new();
    let (_, a) = iconst(&mut dfg, 1);
    let (_, b) = iconst(&mut dfg, 2);
    let list = dfg.make_value_list(&vec![a, b]);
    assert!(list.is_valid(dfg.value_lists()));
    assert_eq!(list.to_vec(dfg.value_lists()), vec![a, b]);
    let ret = dfg.make_inst(InstructionData::MultiAry {
        opcode: Opcode::Return,
        ty: types::VOID,
        args: list,
    });
    assert_eq!(dfg.inst_data(ret).arguments(dfg.value_lists()), vec![a, b]);
    // Later growth of the pool leaves the list alone.
    let ebb = dfg.make_ebb();
    dfg.append_ebb_arg(ebb, types::I32);
    dfg.append_ebb_arg(ebb, types::I32);
    assert_eq!(list.to_vec(dfg.value_lists()), vec![a, b]);
}

#[test]
fn instructions_are_written_with_results_opcode_and_operands() {
    let mut dfg = DataFlowGraph::new();
    let ebb0 = dfg.make_ebb();
    let v0 = dfg.append_ebb_arg(ebb0, types::I64);
    let (ic, v1) = iconst(&mut dfg, -7);
    assert_eq!(dfg.display_inst(ic, None), "v1 = iconst.i32 -7");

    let add = dfg.make_inst(InstructionData::iadd_imm(types::I64, v0, 16));
    assert_eq!(dfg.display_inst(add, None), "iadd_imm.i64 v0, 16");
    dfg.make_inst_results(add, types::I64);
    assert_eq!(dfg.display_inst(add, None), "v2 = iadd_imm.i64 v0, 16");

    let carry = dfg.make_inst(InstructionData::BinaryOverflow {
        opcode: Opcode::IaddCout,
        ty: types::VOID,
        args: [v0, v0],
    });
    dfg.make_inst_results(carry, types::I64);
    assert_eq!(dfg.display_inst(carry, None), "v3, v4 = iadd_cout.i64 v0, v0");

    let args = dfg.make_value_list(&vec![v1, v0]);
    let jump = dfg.make_inst(InstructionData::Jump {
        opcode: Opcode::Jump,
        ty: types::VOID,
        destination: ebb0,
        args,
    });
    assert_eq!(dfg.display_inst(jump, None), "jump ebb0, v1, v0");

    let trap = dfg.make_inst(InstructionData::Nullary {
        opcode: Opcode::Trap,
        ty: types::VOID,
    });
    assert_eq!(dfg.display_inst(trap, None), "trap");

    let ret = dfg.make_inst(InstructionData::MultiAry {
        opcode: Opcode::Return,
        ty: types::VOID,
        args: cretonne::ir::ValueList::new(),
    });
    assert_eq!(dfg.display_inst(ret, None), "return");

    let mut flags = MemFlags::new();
    flags.set_notrap();
    flags.set_aligned();
    let load = dfg.make_inst(InstructionData::load(types::I32, flags, v0, -8));
    assert_eq!(dfg.display_inst(load, None), "load.i32 notrap, aligned, v0, -8");
    let plain_load = dfg.make_inst(InstructionData::load(types::I32, MemFlags::new(), v0, 4));
    assert_eq!(dfg.display_inst(plain_load, None), "load.i32 v0, 4");

    let gv = dfg.make_inst(InstructionData::global_value(
        types::I64,
        GlobalValue::from_u32(3),
    ));
    assert_eq!(dfg.display_inst(gv, None), "global_value.i64 gv3");
    let sym = dfg.make_inst(InstructionData::symbol_value(
        types::I64,
        GlobalValue::from_u32(0),
    ));
    assert_eq!(dfg.display_inst(sym, None), "symbol_value.i64 gv0");

    let icmp = dfg.make_inst(InstructionData::IntCompare {
        opcode: Opcode::Icmp,
        ty: types::B1,
        cond: IntCC::SignedLessThan,
        args: [v0, v1],
    });
    assert_eq!(dfg.display_inst(icmp, None), "icmp.b1 slt, v0, v1");
    let fcmp = dfg.make_inst(InstructionData::FloatCompare {
        opcode: Opcode::Fcmp,
        ty: types::B1,
        cond: FloatCC::Unordered,
        args: [v0, v1],
    });
    assert_eq!(dfg.display_inst(fcmp, None), "fcmp.b1 uno, v0, v1");

    let lane = dfg.make_inst(InstructionData::InsertLane {
        opcode: Opcode::Insertlane,
        ty: types::I32X4,
        lane: 3,
        args: [v0, v1],
    });
    assert_eq!(dfg.display_inst(lane, None), "insertlane.i32x4 v0, 3, v1");
    let ext = dfg.make_inst(InstructionData::ExtractLane {
        opcode: Opcode::Extractlane,
        ty: types::I32,
        lane: 1,
        arg: v0,
    });
    assert_eq!(dfg.display_inst(ext, None), "extractlane.i32 v0, 1");

    let br = dfg.make_inst(InstructionData::BranchTable {
        opcode: Opcode::BrTable,
        ty: types::VOID,
        arg: v1,
        table: JumpTable::from_u32(2),
    });
    assert_eq!(dfg.display_inst(br, None), "br_table v1, jt2");
    let call = dfg.make_inst(InstructionData::Call {
        opcode: Opcode::Call,
        ty: types::VOID,
        func_ref: FuncRef::from_u32(1),
        args,
    });
    assert_eq!(dfg.display_inst(call, None), "call fn1, v1, v0");
    let indirect = dfg.make_inst(InstructionData::IndirectCall {
        opcode: Opcode::CallIndirect,
        ty: types::VOID,
        sig_ref: SigRef::from_u32(0),
        args: cretonne::ir::ValueList::new(),
    });
    assert_eq!(dfg.display_inst(indirect, None), "call_indirect sig0");
    let f = dfg.make_inst(InstructionData::UnaryIeee32 {
        opcode: Opcode::F32const,
        ty: types::F32,
        imm: 1065353216,
    });
    assert_eq!(dfg.display_inst(f, None), "f32const.f32 1065353216");
    let sel = dfg.make_inst(InstructionData::Ternary {
        opcode: Opcode::Select,
        ty: types::I32,
        args: [v1, v0, v1],
    });
    assert_eq!(dfg.display_inst(sel, None), "select.i32 v1, v0, v1");
    assert_eq!(IntCC::UnsignedGreaterThan.to_text(), "ugt");
    assert_eq!(FloatCC::GreaterThanOrEqual.to_text(), "ge");
}
