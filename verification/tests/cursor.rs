use cretonne::cursor::{CursorPosition, FuncCursor};
use cretonne::ir::instructions::{InstructionData, Opcode};
use cretonne::ir::types;
use cretonne::ir::{Ebb, Function, GlobalValueData, Inst, SourceLoc, Value};

fn function_with_ebb() -> (Function, Ebb) {
    let mut func = Function::new();
    let ebb0 = func.dfg.make_ebb();
    func.layout.append_ebb(ebb0);
    (func, ebb0)
}

#[test]
fn a_new_cursor_points_nowhere() {
    let (mut func, ebb0) = function_with_ebb();
    let mut pos = FuncCursor::new(&mut func);
    assert_eq!(pos.position(), CursorPosition::Nowhere);
    assert_eq!(pos.current_inst(), None);
    pos.goto_top(ebb0);
    assert_eq!(pos.position(), CursorPosition::Before(ebb0));
    pos.goto_bottom(ebb0);
    assert_eq!(pos.position(), CursorPosition::After(ebb0));
    pos.goto_inst(Inst::from_u32(3));
    assert_eq!(pos.position(), CursorPosition::At(Inst::from_u32(3)));
    assert_eq!(pos.current_inst(), Some(Inst::from_u32(3)));
}

#[test]
fn building_at_the_bottom_appends() {
    let (mut func, ebb0) = function_with_ebb();
    let mut pos = FuncCursor::new(&mut func).at_bottom(ebb0);
    let first = pos
        .ins()
        .build(InstructionData::iconst(types::I32, 1), types::I32);
    let second = pos
        .ins()
        .build(InstructionData::iconst(types::I64, 2), types::I64);
    assert_eq!(pos.position(), CursorPosition::After(ebb0));
    assert_eq!(func.layout.ebb_insts(ebb0), vec![first, second]);
    assert_eq!(func.dfg.num_results(first), 1);
    assert_eq!(
        func.dfg.value_type(func.dfg.first_result(second)),
        types::I64
    );
    assert_eq!(func.srclocs.get(first), SourceLoc(0));
}

#[test]
fn building_at_an_instruction_goes_in_front_of_it() {
    let (mut func, ebb0) = function_with_ebb();
    let gv = func.global_values.push(GlobalValueData::VMContext);
    let anchor = func.dfg.make_inst(InstructionData::Nullary {
        opcode: Opcode::Trap,
        ty: types::VOID,
    });
    func.layout.append_inst(anchor, ebb0);
    func.srclocs.set(anchor, SourceLoc(7));
    let values_before = func.dfg.num_values();

    let mut pos = FuncCursor::new(&mut func).at_inst(anchor);
    pos.use_srcloc(anchor);
    let v = pos.ins().global_value(types::I64, gv);
    assert_eq!(pos.position(), CursorPosition::At(anchor));

    assert_eq!(v, Value::from_u32(values_before as u32));
    let insts = func.layout.ebb_insts(ebb0);
    assert_eq!(insts.len(), 2);
    assert_eq!(insts[1], anchor);
    assert_eq!(func.dfg.first_result(insts[0]), v);
    assert_eq!(func.dfg.value_type(v), types::I64);
    assert_eq!(
        *func.dfg.inst_data(insts[0]),
        InstructionData::global_value(types::I64, gv)
    );
    assert_eq!(func.srclocs.get(insts[0]), SourceLoc(7));
    assert!(SourceLoc(0).is_default());
    assert!(!SourceLoc(7).is_default());
}

#[test]
fn insert_inst_puts_an_existing_instruction_at_the_cursor() {
    let (mut func, ebb0) = function_with_ebb();
    let a = func.dfg.make_inst(InstructionData::iconst(types::I32, 1));
    let b = func.dfg.make_inst(InstructionData::iconst(types::I32, 2));
    let mut pos = FuncCursor::new(&mut func).at_bottom(ebb0);
    pos.insert_inst(a);
    pos.goto_inst(a);
    pos.insert_inst(b);
    assert_eq!(func.layout.ebb_insts(ebb0), vec![b, a]);
}
