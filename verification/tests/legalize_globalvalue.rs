use cretonne::entity::EntityRef;
use cretonne::flowgraph::ControlFlowGraph;
use cretonne::ir::instructions::{InstructionData, Opcode};
use cretonne::ir::types;
use cretonne::ir::{
    AbiParam, ArgumentPurpose, Ebb, Function, GlobalValue, GlobalValueData, Inst, MemFlags,
    Signature, SourceLoc, Value, ValueDef,
};
use cretonne::isa::TargetIsa;
use cretonne::legalizer::expansion::{expand_global_values, find_global_value_inst};
use cretonne::legalizer::expand_global_value;
use cretonne::verify::verify_function;

struct Fixture {
    func: Function,
    ebb0: Ebb,
    vmctx: Value,
}

fn function_with_vmctx() -> Fixture {
    let mut sig = Signature::new();
    sig.params.push(AbiParam::new(types::I32));
    sig.params
        .push(AbiParam::special(types::I64, ArgumentPurpose::VMContext));
    let mut func = Function::with_signature(sig);
    let ebb0 = func.dfg.make_ebb();
    func.layout.append_ebb(ebb0);
    let _plain = func.dfg.append_ebb_arg(ebb0, types::I32);
    let vmctx = func.dfg.append_ebb_arg(ebb0, types::I64);
    Fixture { func, ebb0, vmctx }
}

fn add_global_value_inst(fx: &mut Fixture, ty: types::Type, gv: GlobalValue) -> (Inst, Value) {
    let inst = fx.func.dfg.make_inst(InstructionData::global_value(ty, gv));
    assert_eq!(fx.func.dfg.make_inst_results(inst, ty), 1);
    fx.func.layout.append_inst(inst, fx.ebb0);
    (inst, fx.func.dfg.first_result(inst))
}

fn count_global_value_insts(func: &Function) -> usize {
    let mut n = 0;
    for ebb in func.layout.ebbs() {
        for inst in func.layout.ebb_insts(ebb) {
            if func.dfg.inst_data(inst).opcode() == Opcode::GlobalValue {
                n += 1;
            }
        }
    }
    n
}

fn first_global_value_inst(func: &Function) -> Option<Inst> {
    for ebb in func.layout.ebbs() {
        for inst in func.layout.ebb_insts(ebb) {
            if func.dfg.inst_data(inst).opcode() == Opcode::GlobalValue {
                return Some(inst);
            }
        }
    }
    None
}

#[test]
fn special_param_finds_the_vmctx_argument() {
    let fx = function_with_vmctx();
    assert_eq!(
        fx.func.special_param(ArgumentPurpose::VMContext),
        Some(fx.vmctx)
    );
    assert_eq!(fx.func.special_param(ArgumentPurpose::Link), None);
    assert_eq!(fx.vmctx.to_text(), "v1");
}

#[test]
fn special_param_of_an_empty_function_is_none() {
    let func = Function::new();
    assert_eq!(func.special_param(ArgumentPurpose::VMContext), None);
}

#[test]
fn iadd_imm_of_vmctx_is_replaced_in_place() {
    let mut fx = function_with_vmctx();
    let gv0 = fx.func.global_values.push(GlobalValueData::VMContext);
    let gv1 = fx.func.global_values.push(GlobalValueData::IAddImm {
        base: gv0,
        offset: 16,
        global_type: types::I64,
    });
    let (inst, result) = add_global_value_inst(&mut fx, types::I64, gv1);
    let insts_before = fx.func.dfg.num_insts();
    let isa = TargetIsa::with_pointer_bits(64).unwrap();

    let mut cfg = ControlFlowGraph::with_function(&fx.func);
    expand_global_value(inst, &mut fx.func, &mut cfg, &isa);

    assert_eq!(
        *fx.func.dfg.inst_data(inst),
        InstructionData::BinaryImm {
            opcode: Opcode::IaddImm,
            ty: types::I64,
            arg: fx.vmctx,
            imm: 16,
        }
    );
    assert_eq!(fx.func.dfg.inst_results(inst), vec![result]);
    assert_eq!(fx.func.dfg.first_result(inst), result);
    assert_eq!(fx.func.dfg.value_def(result), ValueDef::Result(inst, 0));
    assert_eq!(fx.func.layout.ebb_insts(fx.ebb0), vec![inst]);
    assert_eq!(fx.func.dfg.num_insts(), insts_before);
    assert_eq!(count_global_value_insts(&fx.func), 0);
}

#[test]
fn iadd_imm_of_another_global_inserts_a_global_value_first() {
    let mut fx = function_with_vmctx();
    let gv0 = fx.func.global_values.push(GlobalValueData::Symbol {
        name: 7,
        offset: 0,
        colocated: false,
    });
    let gv1 = fx.func.global_values.push(GlobalValueData::IAddImm {
        base: gv0,
        offset: -4,
        global_type: types::I32,
    });
    let (inst, result) = add_global_value_inst(&mut fx, types::I32, gv1);
    let isa = TargetIsa::with_pointer_bits(32).unwrap();

    let mut cfg = ControlFlowGraph::with_function(&fx.func);
    expand_global_value(inst, &mut fx.func, &mut cfg, &isa);

    let insts = fx.func.layout.ebb_insts(fx.ebb0);
    assert_eq!(insts.len(), 2);
    assert_eq!(insts[1], inst);
    let fresh = insts[0];
    assert_eq!(
        *fx.func.dfg.inst_data(fresh),
        InstructionData::UnaryGlobalValue {
            opcode: Opcode::GlobalValue,
            ty: types::I32,
            global_value: gv0,
        }
    );
    let lhs = fx.func.dfg.first_result(fresh);
    assert_eq!(fx.func.dfg.value_type(lhs), types::I32);
    assert_eq!(
        *fx.func.dfg.inst_data(inst),
        InstructionData::BinaryImm {
            opcode: Opcode::IaddImm,
            ty: types::I32,
            arg: lhs,
            imm: -4,
        }
    );
    assert_eq!(fx.func.dfg.inst_results(inst), vec![result]);
}

#[test]
fn load_of_iadd_imm_on_64_bit_target() {
    let mut fx = function_with_vmctx();
    let gv0 = fx.func.global_values.push(GlobalValueData::VMContext);
    let gv1 = fx.func.global_values.push(GlobalValueData::IAddImm {
        base: gv0,
        offset: 64,
        global_type: types::I64,
    });
    let gv2 = fx.func.global_values.push(GlobalValueData::Load {
        base: gv1,
        offset: 8,
        global_type: types::I32,
    });
    let (inst, result) = add_global_value_inst(&mut fx, types::I32, gv2);
    fx.func.srclocs.set(inst, SourceLoc(99));
    let isa = TargetIsa::with_pointer_bits(64).unwrap();

    // One iteration.
    let mut cfg = ControlFlowGraph::with_function(&fx.func);
    expand_global_value(inst, &mut fx.func, &mut cfg, &isa);

    let insts = fx.func.layout.ebb_insts(fx.ebb0);
    assert_eq!(insts.len(), 2);
    assert_eq!(insts[1], inst);
    let fresh = insts[0];
    assert_eq!(
        *fx.func.dfg.inst_data(fresh),
        InstructionData::UnaryGlobalValue {
            opcode: Opcode::GlobalValue,
            ty: types::I64,
            global_value: gv1,
        }
    );
    assert_eq!(fx.func.srclocs.get(fresh), SourceLoc(99));
    let base_addr = fx.func.dfg.first_result(fresh);
    assert_eq!(fx.func.dfg.value_type(base_addr), types::I64);
    let mut flags = MemFlags::new();
    flags.set_notrap();
    flags.set_aligned();
    assert_eq!(
        *fx.func.dfg.inst_data(inst),
        InstructionData::Load {
            opcode: Opcode::Load,
            ty: types::I32,
            flags,
            arg: base_addr,
            offset: 8,
        }
    );
    assert_eq!(fx.func.dfg.inst_results(inst), vec![result]);
    assert_eq!(count_global_value_insts(&fx.func), 1);

    // The fixed point.
    let mut rounds = 0;
    while let Some(next) = first_global_value_inst(&fx.func) {
        expand_global_value(next, &mut fx.func, &mut cfg, &isa);
        rounds += 1;
        assert!(rounds < 10);
    }
    assert_eq!(rounds, 1);
    assert_eq!(count_global_value_insts(&fx.func), 0);
    assert_eq!(
        *fx.func.dfg.inst_data(fresh),
        InstructionData::BinaryImm {
            opcode: Opcode::IaddImm,
            ty: types::I64,
            arg: fx.vmctx,
            imm: 64,
        }
    );
    assert_eq!(fx.func.layout.ebb_insts(fx.ebb0), vec![fresh, inst]);
}

#[test]
fn load_of_vmctx_uses_the_parameter() {
    let mut fx = function_with_vmctx();
    let gv0 = fx.func.global_values.push(GlobalValueData::VMContext);
    let gv1 = fx.func.global_values.push(GlobalValueData::Load {
        base: gv0,
        offset: -8,
        global_type: types::I64,
    });
    let (inst, result) = add_global_value_inst(&mut fx, types::I64, gv1);
    let isa = TargetIsa::with_pointer_bits(64).unwrap();

    let mut cfg = ControlFlowGraph::with_function(&fx.func);
    expand_global_value(inst, &mut fx.func, &mut cfg, &isa);

    match *fx.func.dfg.inst_data(inst) {
        InstructionData::Load {
            opcode,
            ty,
            flags,
            arg,
            offset,
        } => {
            assert_eq!(opcode, Opcode::Load);
            assert_eq!(ty, types::I64);
            assert!(flags.notrap());
            assert!(flags.aligned());
            assert_eq!(arg, fx.vmctx);
            assert_eq!(offset, -8);
        }
        ref other => panic!("not a load: {:?}", other),
    }
    assert_eq!(fx.func.dfg.inst_results(inst), vec![result]);
    assert_eq!(fx.func.layout.ebb_insts(fx.ebb0), vec![inst]);
}

#[test]
fn vmctx_becomes_an_alias_and_leaves_the_layout() {
    let mut fx = function_with_vmctx();
    let gv0 = fx.func.global_values.push(GlobalValueData::VMContext);
    let (inst, result) = add_global_value_inst(&mut fx, types::I64, gv0);
    let ret = fx.func.dfg.make_inst(InstructionData::MultiAry {
        opcode: Opcode::Return,
        ty: types::VOID,
        args: cretonne::ir::ValueList::new(),
    });
    fx.func.layout.append_inst(ret, fx.ebb0);
    let isa = TargetIsa::with_pointer_bits(64).unwrap();

    let mut cfg = ControlFlowGraph::with_function(&fx.func);
    expand_global_value(inst, &mut fx.func, &mut cfg, &isa);

    assert_eq!(fx.func.layout.ebb_insts(fx.ebb0), vec![ret]);
    assert_eq!(fx.func.layout.inst_ebb(inst), None);
    assert_eq!(fx.func.dfg.inst_results(inst), Vec::<Value>::new());
    assert_eq!(fx.func.dfg.value_def(result), ValueDef::Alias(fx.vmctx));
    assert_eq!(fx.func.dfg.resolve_aliases(result), fx.vmctx);
    assert_eq!(fx.func.dfg.value_type(result), types::I64);
    assert_eq!(verify_function(&fx.func), Ok(()));
}

#[test]
fn symbol_becomes_a_symbol_value_of_pointer_type() {
    let mut fx = function_with_vmctx();
    let gv0 = fx.func.global_values.push(GlobalValueData::Symbol {
        name: 3,
        offset: 0,
        colocated: true,
    });
    let (inst, result) = add_global_value_inst(&mut fx, types::I32, gv0);
    let isa = TargetIsa::with_pointer_bits(32).unwrap();

    let mut cfg = ControlFlowGraph::with_function(&fx.func);
    expand_global_value(inst, &mut fx.func, &mut cfg, &isa);

    assert_eq!(
        *fx.func.dfg.inst_data(inst),
        InstructionData::UnaryGlobalValue {
            opcode: Opcode::SymbolValue,
            ty: types::I32,
            global_value: gv0,
        }
    );
    assert_eq!(fx.func.dfg.inst_results(inst), vec![result]);
    assert_eq!(fx.func.layout.ebb_insts(fx.ebb0), vec![inst]);
    assert_eq!(result.index(), 2);
}

#[test]
fn target_pointer_types() {
    assert_eq!(
        TargetIsa::with_pointer_bits(16).unwrap().pointer_type(),
        types::I16
    );
    assert_eq!(
        TargetIsa::with_pointer_bits(32).unwrap().pointer_type(),
        types::I32
    );
    assert_eq!(
        TargetIsa::with_pointer_bits(64).unwrap().pointer_type(),
        types::I64
    );
    assert_eq!(TargetIsa::with_pointer_bits(64).unwrap().pointer_bits(), 64);
    assert_eq!(TargetIsa::with_pointer_bits(8), None);
    assert_eq!(TargetIsa::with_pointer_bits(0), None);
}

#[test]
fn expanding_all_global_values_comes_to_an_end() {
    let mut fx = function_with_vmctx();
    let gv0 = fx.func.global_values.push(GlobalValueData::VMContext);
    let gv1 = fx.func.global_values.push(GlobalValueData::Load {
        base: gv0,
        offset: 16,
        global_type: types::I64,
    });
    let gv2 = fx.func.global_values.push(GlobalValueData::IAddImm {
        base: gv1,
        offset: 4,
        global_type: types::I64,
    });
    let gv3 = fx.func.global_values.push(GlobalValueData::Load {
        base: gv2,
        offset: 0,
        global_type: types::I32,
    });
    let sym = fx.func.global_values.push(GlobalValueData::Symbol {
        name: 1,
        offset: 0,
        colocated: false,
    });
    let (deep, deep_result) = add_global_value_inst(&mut fx, types::I32, gv3);
    let (plain, plain_result) = add_global_value_inst(&mut fx, types::I64, sym);
    let (ctx, ctx_result) = add_global_value_inst(&mut fx, types::I64, gv0);
    let isa = TargetIsa::with_pointer_bits(64).unwrap();
    assert_eq!(find_global_value_inst(&fx.func), Some(deep));

    let mut cfg = ControlFlowGraph::with_function(&fx.func);
    let count = expand_global_values(&mut fx.func, &mut cfg, &isa);

    // gv3 takes three expansions (itself, gv2, gv1), the others one each.
    assert_eq!(count, 5);
    assert_eq!(find_global_value_inst(&fx.func), None);
    assert_eq!(count_global_value_insts(&fx.func), 0);
    let insts = fx.func.layout.ebb_insts(fx.ebb0);
    assert_eq!(insts.len(), 4);
    assert_eq!(insts[2], deep);
    assert_eq!(insts[3], plain);
    assert_eq!(fx.func.layout.inst_ebb(ctx), None);
    assert_eq!(fx.func.dfg.resolve_aliases(ctx_result), fx.vmctx);
    assert_eq!(fx.func.dfg.inst_results(deep), vec![deep_result]);
    assert_eq!(fx.func.dfg.inst_results(plain), vec![plain_result]);
    assert_eq!(fx.func.dfg.inst_data(insts[0]).opcode(), Opcode::Load);
    assert_eq!(fx.func.dfg.inst_data(insts[1]).opcode(), Opcode::IaddImm);
    assert_eq!(fx.func.dfg.inst_data(deep).opcode(), Opcode::Load);
    assert_eq!(fx.func.dfg.inst_data(plain).opcode(), Opcode::SymbolValue);
    assert_eq!(
        fx.func.dfg.inst_data(insts[0]).arguments(fx.func.dfg.value_lists()),
        vec![fx.vmctx]
    );
    assert_eq!(
        fx.func.dfg.inst_data(insts[1]).arguments(fx.func.dfg.value_lists()),
        vec![fx.func.dfg.first_result(insts[0])]
    );
    assert_eq!(
        fx.func.dfg.inst_data(deep).arguments(fx.func.dfg.value_lists()),
        vec![fx.func.dfg.first_result(insts[1])]
    );
}

#[test]
fn nothing_to_expand() {
    let mut fx = function_with_vmctx();
    let isa = TargetIsa::with_pointer_bits(32).unwrap();
    let mut cfg = ControlFlowGraph::new();
    assert_eq!(expand_global_values(&mut fx.func, &mut cfg, &isa), 0);
    assert!(!cfg.is_valid());
    assert_eq!(fx.func.layout.ebb_insts(fx.ebb0), Vec::<Inst>::new());
}

#[test]
fn expansion_leaves_the_control_flow_alone() {
    let mut fx = function_with_vmctx();
    let ebb1 = fx.func.dfg.make_ebb();
    fx.func.layout.append_ebb(ebb1);
    let gv0 = fx.func.global_values.push(GlobalValueData::Symbol {
        name: 0,
        offset: 0,
        colocated: false,
    });
    let gv1 = fx.func.global_values.push(GlobalValueData::Load {
        base: gv0,
        offset: 0,
        global_type: types::I64,
    });
    let (inst, _) = add_global_value_inst(&mut fx, types::I64, gv1);
    let jump = fx.func.dfg.make_inst(InstructionData::Jump {
        opcode: Opcode::Jump,
        ty: types::VOID,
        destination: ebb1,
        args: cretonne::ir::ValueList::new(),
    });
    fx.func.layout.append_inst(jump, fx.ebb0);
    let isa = TargetIsa::with_pointer_bits(64).unwrap();
    let mut cfg = ControlFlowGraph::with_function(&fx.func);
    assert!(cfg.is_valid());
    assert_eq!(cfg.predecessors(ebb1), vec![(fx.ebb0, jump)]);

    expand_global_value(inst, &mut fx.func, &mut cfg, &isa);

    assert_eq!(cfg.predecessors(ebb1), vec![(fx.ebb0, jump)]);
    let again = ControlFlowGraph::with_function(&fx.func);
    assert_eq!(again.predecessors(ebb1), cfg.predecessors(ebb1));
    assert_eq!(again.successors(fx.ebb0), cfg.successors(fx.ebb0));
    assert_eq!(again.predecessors(fx.ebb0), Vec::<(Ebb, Inst)>::new());
}
