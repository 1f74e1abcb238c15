use cretonne::ir::instructions::{InstructionData, Opcode};
use cretonne::ir::types;
use cretonne::ir::{
    AbiParam, AnyEntity, Ebb, ExtFuncData, FuncRef, Function, GlobalValue, GlobalValueData, Inst,
    JumpTable, JumpTableData, SigRef, Signature, Value, ValueList,
};
use cretonne::verify::{verify_function, verify_global_values, Error, Verifier};

fn assert_err_with_msg(r: Result<(), Error>, msg: &str) {
    match r {
        Ok(_) => panic!("Expected an error!"),
        Err(Error { message, .. }) => {
            if !message.contains(msg) {
                panic!("'{}' did not contain the substring '{}'", message, msg);
            }
        }
    }
}

fn err(location: AnyEntity, message: &str) -> Result<(), Error> {
    Err(Error {
        location,
        message: message.to_string(),
    })
}

fn function_with_ebb() -> (Function, Ebb) {
    let mut func = Function::new();
    let ebb0 = func.dfg.make_ebb();
    func.layout.append_ebb(ebb0);
    (func, ebb0)
}

fn append(func: &mut Function, ebb: Ebb, data: InstructionData, ctrl: types::Type) -> Inst {
    let inst = func.dfg.make_inst(data);
    func.dfg.make_inst_results(inst, ctrl);
    func.layout.append_inst(inst, ebb);
    inst
}

fn ret(func: &mut Function, ebb: Ebb) -> Inst {
    append(
        func,
        ebb,
        InstructionData::MultiAry {
            opcode: Opcode::Return,
            ty: types::VOID,
            args: ValueList::new(),
        },
        types::VOID,
    )
}

#[test]
fn empty() {
    let func = Function::new();
    let verifier = Verifier::new(&func);
    assert_eq!(verifier.run(), Ok(()));
}

#[test]
fn bad_instruction_format() {
    let mut func = Function::new();
    let ebb0 = func.dfg.make_ebb();
    func.layout.append_ebb(ebb0);
    let nullary_with_bad_opcode = func.dfg.make_inst(InstructionData::Nullary {
        opcode: Opcode::Jump,
        ty: types::VOID,
    });
    func.layout.append_inst(nullary_with_bad_opcode, ebb0);
    let verifier = Verifier::new(&func);
    assert_err_with_msg(verifier.run(), "instruction format");
}

#[test]
fn empty_function_verifies() {
    assert_eq!(verify_function(&Function::new()), Ok(()));
}

#[test]
fn bad_instruction_format_is_reported_at_the_instruction() {
    let (mut func, ebb0) = function_with_ebb();
    let bad = func.dfg.make_inst(InstructionData::Nullary {
        opcode: Opcode::Jump,
        ty: types::VOID,
    });
    func.layout.append_inst(bad, ebb0);
    assert_eq!(
        verify_function(&func),
        err(
            AnyEntity::Inst(bad),
            "instruction opcode doesn't match instruction format"
        )
    );
    assert_eq!(
        Verifier::new(&func).instruction_integrity(bad),
        verify_function(&func)
    );
    assert_eq!(
        verify_function(&func).unwrap_err().to_text(),
        "inst0: instruction opcode doesn't match instruction format"
    );
}

#[test]
fn missing_terminator() {
    let (mut func, ebb0) = function_with_ebb();
    let ic = append(
        &mut func,
        ebb0,
        InstructionData::iconst(types::I32, 1),
        types::I32,
    );
    assert_err_with_msg(verify_function(&func), "does not end in a terminator");
    assert_eq!(
        verify_function(&func),
        err(
            AnyEntity::Ebb(ebb0),
            "block does not end in a terminator instruction!"
        )
    );
    assert_eq!(
        Verifier::new(&func).ebb_integrity(ebb0, ic),
        verify_function(&func)
    );
}

#[test]
fn misplaced_terminator() {
    let (mut func, ebb0) = function_with_ebb();
    let r = ret(&mut func, ebb0);
    append(
        &mut func,
        ebb0,
        InstructionData::iconst(types::I32, 1),
        types::I32,
    );
    let found = verify_function(&func);
    assert_err_with_msg(verify_function(&func), "terminator");
    assert_err_with_msg(verify_function(&func), "before the end of");
    assert_eq!(
        found,
        err(
            AnyEntity::Inst(r),
            "a terminator instruction was encountered before the end of ebb0"
        )
    );
}

#[test]
fn well_formed_function_verifies() {
    let (mut func, ebb0) = function_with_ebb();
    let ebb1 = func.dfg.make_ebb();
    func.layout.append_ebb(ebb1);
    let x = func.dfg.append_ebb_arg(ebb1, types::I32);
    let ic = append(
        &mut func,
        ebb0,
        InstructionData::iconst(types::I32, 1),
        types::I32,
    );
    let one = func.dfg.first_result(ic);
    let args = func.dfg.make_value_list(&vec![one]);
    let jump = append(
        &mut func,
        ebb0,
        InstructionData::Jump {
            opcode: Opcode::Jump,
            ty: types::VOID,
            destination: ebb1,
            args,
        },
        types::VOID,
    );
    append(
        &mut func,
        ebb1,
        InstructionData::Binary {
            opcode: Opcode::Iadd,
            ty: types::I32,
            args: [x, x],
        },
        types::I32,
    );
    let r = ret(&mut func, ebb1);

    assert_eq!(verify_function(&func), Ok(()));

    // What a verified function is known to satisfy, seen on this one.
    for ebb in func.layout.ebbs() {
        let insts = func.layout.ebb_insts(ebb);
        let last = *insts.last().unwrap();
        for &inst in &insts {
            let data = func.dfg.inst_data(inst);
            assert_eq!(data.opcode().is_terminator(), inst == last);
            assert_eq!(func.layout.inst_ebb(inst), Some(ebb));
            assert_eq!(data.opcode().format(), data.format());
            let total = data.opcode().constraints().fixed_results();
            assert_eq!(func.dfg.num_results(inst), total);
            if total == 0 {
                assert_eq!(data.first_type(), types::VOID);
            }
            for arg in data.arguments(func.dfg.value_lists()) {
                assert!(func.dfg.value_is_valid(arg));
            }
        }
    }
    assert_eq!(func.layout.last_inst(ebb0), Some(jump));
    assert_eq!(func.layout.last_inst(ebb1), Some(r));
}

#[test]
fn void_instruction_with_a_type() {
    let (mut func, ebb0) = function_with_ebb();
    let trap = func.dfg.make_inst(InstructionData::Nullary {
        opcode: Opcode::Trap,
        ty: types::I32,
    });
    func.layout.append_inst(trap, ebb0);
    assert_eq!(
        verify_function(&func),
        err(
            AnyEntity::Inst(trap),
            "instruction expected to have NULL return value, found i32"
        )
    );
}

#[test]
fn wrong_number_of_results() {
    let (mut func, ebb0) = function_with_ebb();
    let ic = func.dfg.make_inst(InstructionData::iconst(types::I32, 1));
    func.layout.append_inst(ic, ebb0);
    ret(&mut func, ebb0);
    assert_eq!(
        verify_function(&func),
        err(AnyEntity::Inst(ic), "expected 1 result values, found 0")
    );
}

#[test]
fn wrong_number_of_call_results() {
    let (mut func, ebb0) = function_with_ebb();
    let mut sig = Signature::new();
    sig.return_types.push(AbiParam::new(types::I32));
    sig.return_types.push(AbiParam::new(types::I32));
    let sig_ref = func.dfg.import_signature(sig);
    let func_ref = func.dfg.import_function(ExtFuncData {
        name: 0,
        signature: sig_ref,
    });
    let call = func.dfg.make_inst(InstructionData::Call {
        opcode: Opcode::Call,
        ty: types::VOID,
        func_ref,
        args: ValueList::new(),
    });
    func.layout.append_inst(call, ebb0);
    ret(&mut func, ebb0);
    assert_eq!(
        verify_function(&func),
        err(AnyEntity::Inst(call), "expected 2 result values, found 0")
    );
    func.dfg.make_inst_results(call, types::VOID);
    assert_eq!(verify_function(&func), Ok(()));
}

#[test]
fn invalid_value_reference() {
    let (mut func, ebb0) = function_with_ebb();
    let copy = append(
        &mut func,
        ebb0,
        InstructionData::Unary {
            opcode: Opcode::Copy,
            ty: types::I32,
            arg: Value::from_u32(17),
        },
        types::I32,
    );
    ret(&mut func, ebb0);
    assert_eq!(
        verify_function(&func),
        err(AnyEntity::Inst(copy), "invalid value reference v17")
    );
    assert_eq!(
        Verifier::new(&func).verify_value(copy, Value::from_u32(17)),
        verify_function(&func)
    );
    assert_eq!(
        Verifier::new(&func).verify_value(copy, Value::from_u32(0)),
        Ok(())
    );
    assert_eq!(
        Verifier::new(&func).verify_entity_references(copy),
        verify_function(&func)
    );
}

#[test]
fn invalid_value_in_a_list_comes_before_an_invalid_block() {
    let (mut func, ebb0) = function_with_ebb();
    let args = func.dfg.make_value_list(&vec![Value::from_u32(5)]);
    let jump = append(
        &mut func,
        ebb0,
        InstructionData::Jump {
            opcode: Opcode::Jump,
            ty: types::VOID,
            destination: Ebb::from_u32(3),
            args,
        },
        types::VOID,
    );
    assert_eq!(
        verify_function(&func),
        err(AnyEntity::Inst(jump), "invalid value reference v5")
    );
}

#[test]
fn invalid_ebb_reference() {
    let (mut func, ebb0) = function_with_ebb();
    let jump = append(
        &mut func,
        ebb0,
        InstructionData::Jump {
            opcode: Opcode::Jump,
            ty: types::VOID,
            destination: Ebb::from_u32(3),
            args: ValueList::new(),
        },
        types::VOID,
    );
    assert_eq!(
        verify_function(&func),
        err(AnyEntity::Inst(jump), "invalid ebb reference ebb3")
    );
    assert_eq!(Verifier::new(&func).verify_ebb(jump, ebb0), Ok(()));
}

#[test]
fn invalid_ebb_comes_before_an_invalid_value_list() {
    let (mut func, ebb0) = function_with_ebb();
    let mut other = cretonne::ir::DataFlowGraph::new();
    let foreign = other.make_value_list(&vec![Value::from_u32(0), Value::from_u32(1)]);
    let cond = append(
        &mut func,
        ebb0,
        InstructionData::iconst(types::I32, 0),
        types::I32,
    );
    let _ = cond;
    let branch = append(
        &mut func,
        ebb0,
        InstructionData::Branch {
            opcode: Opcode::Brnz,
            ty: types::VOID,
            destination: Ebb::from_u32(9),
            args: foreign,
        },
        types::VOID,
    );
    ret(&mut func, ebb0);
    assert_eq!(
        verify_function(&func),
        err(AnyEntity::Inst(branch), "invalid ebb reference ebb9")
    );
}

#[test]
fn invalid_value_list_reference() {
    let (mut func, ebb0) = function_with_ebb();
    let mut other = cretonne::ir::DataFlowGraph::new();
    let foreign = other.make_value_list(&vec![Value::from_u32(0), Value::from_u32(1)]);
    let r = append(
        &mut func,
        ebb0,
        InstructionData::MultiAry {
            opcode: Opcode::Return,
            ty: types::VOID,
            args: foreign,
        },
        types::VOID,
    );
    assert_eq!(
        verify_function(&func),
        err(
            AnyEntity::Inst(r),
            "invalid value list reference list(0, 2)"
        )
    );
    assert_eq!(
        Verifier::new(&func).verify_value_list(r, &ValueList::new()),
        Ok(())
    );
}

#[test]
fn invalid_function_reference() {
    let (mut func, ebb0) = function_with_ebb();
    let call = append(
        &mut func,
        ebb0,
        InstructionData::Call {
            opcode: Opcode::Call,
            ty: types::VOID,
            func_ref: FuncRef::from_u32(4),
            args: ValueList::new(),
        },
        types::VOID,
    );
    ret(&mut func, ebb0);
    assert_eq!(
        verify_function(&func),
        err(AnyEntity::Inst(call), "invalid function reference fn4")
    );
}

#[test]
fn invalid_signature_reference() {
    let (mut func, ebb0) = function_with_ebb();
    let call = append(
        &mut func,
        ebb0,
        InstructionData::IndirectCall {
            opcode: Opcode::CallIndirect,
            ty: types::VOID,
            sig_ref: SigRef::from_u32(2),
            args: ValueList::new(),
        },
        types::VOID,
    );
    ret(&mut func, ebb0);
    assert_eq!(
        verify_function(&func),
        err(AnyEntity::Inst(call), "invalid signature reference sig2")
    );
    let sig_ref = func.dfg.import_signature(Signature::new());
    assert_eq!(Verifier::new(&func).verify_sig_ref(call, sig_ref), Ok(()));
    assert_eq!(
        Verifier::new(&func).verify_func_ref(call, FuncRef::from_u32(0)),
        err(AnyEntity::Inst(call), "invalid function reference fn0")
    );
}

#[test]
fn invalid_jump_table_reference() {
    let (mut func, ebb0) = function_with_ebb();
    let ic = append(
        &mut func,
        ebb0,
        InstructionData::iconst(types::I32, 0),
        types::I32,
    );
    let x = func.dfg.first_result(ic);
    let br = append(
        &mut func,
        ebb0,
        InstructionData::BranchTable {
            opcode: Opcode::BrTable,
            ty: types::VOID,
            arg: x,
            table: JumpTable::from_u32(0),
        },
        types::VOID,
    );
    ret(&mut func, ebb0);
    assert_eq!(
        verify_function(&func),
        err(AnyEntity::Inst(br), "invalid jump table reference jt0")
    );
    let mut table = JumpTableData::new();
    table.push_entry(ebb0);
    assert_eq!(table.len(), 1);
    assert_eq!(table.get_entry(0), Some(ebb0));
    assert_eq!(table.get_entry(1), None);
    let jt = func.jump_tables.push(table);
    assert_eq!(Verifier::new(&func).verify_jump_table(br, jt), Ok(()));
    assert_eq!(verify_function(&func), Ok(()));
}

#[test]
fn first_finding_in_program_order_wins() {
    let (mut func, ebb0) = function_with_ebb();
    let ebb1 = func.dfg.make_ebb();
    func.layout.append_ebb(ebb1);
    // ebb1 lacks a terminator, but ebb0 comes first with a bad format.
    append(
        &mut func,
        ebb1,
        InstructionData::iconst(types::I32, 0),
        types::I32,
    );
    let bad = func.dfg.make_inst(InstructionData::Nullary {
        opcode: Opcode::Return,
        ty: types::VOID,
    });
    func.layout.append_inst(bad, ebb0);
    assert_eq!(
        verify_function(&func),
        err(
            AnyEntity::Inst(bad),
            "instruction opcode doesn't match instruction format"
        )
    );
}

#[test]
fn global_value_chains() {
    let mut func = Function::new();
    assert_eq!(verify_global_values(&func), Ok(()));
    let gv0 = func.global_values.push(GlobalValueData::VMContext);
    let gv1 = func.global_values.push(GlobalValueData::IAddImm {
        base: gv0,
        offset: 8,
        global_type: types::I64,
    });
    let _gv2 = func.global_values.push(GlobalValueData::Load {
        base: gv1,
        offset: 0,
        global_type: types::I64,
    });
    assert_eq!(verify_global_values(&func), Ok(()));
    assert_eq!(GlobalValueData::VMContext.base(), None);
    assert_eq!(func.global_values.get(gv1).base(), Some(gv0));

    // A global value that is its own base.
    let gv3 = func.global_values.push(GlobalValueData::Load {
        base: GlobalValue::from_u32(3),
        offset: 0,
        global_type: types::I64,
    });
    assert_eq!(
        verify_global_values(&func),
        err(
            AnyEntity::GlobalValue(gv3),
            "the chain of bases does not end"
        )
    );
}

#[test]
fn global_value_circle_and_missing_base() {
    let mut func = Function::new();
    let a = GlobalValue::from_u32(0);
    let b = GlobalValue::from_u32(1);
    func.global_values.push(GlobalValueData::IAddImm {
        base: b,
        offset: 1,
        global_type: types::I32,
    });
    func.global_values.push(GlobalValueData::IAddImm {
        base: a,
        offset: 1,
        global_type: types::I32,
    });
    assert_eq!(
        verify_global_values(&func),
        err(AnyEntity::GlobalValue(a), "the chain of bases does not end")
    );

    let mut func = Function::new();
    func.global_values.push(GlobalValueData::Symbol {
        name: 0,
        offset: 0,
        colocated: false,
    });
    let dangling = func.global_values.push(GlobalValueData::Load {
        base: GlobalValue::from_u32(40),
        offset: 0,
        global_type: types::I32,
    });
    assert_eq!(
        verify_global_values(&func),
        err(
            AnyEntity::GlobalValue(dangling),
            "the chain of bases does not end"
        )
    );
}
