use cretonne::flowgraph::ControlFlowGraph;
use cretonne::ir::instructions::{InstructionData, Opcode};
use cretonne::ir::types;
use cretonne::ir::{Ebb, Function, Inst, JumpTable, JumpTableData, ValueList};

fn append(func: &mut Function, ebb: Ebb, data: InstructionData) -> Inst {
    let inst = func.dfg.make_inst(data);
    func.layout.append_inst(inst, ebb);
    inst
}

fn jump(destination: Ebb) -> InstructionData {
    InstructionData::Jump {
        opcode: Opcode::Jump,
        ty: types::VOID,
        destination,
        args: ValueList::new(),
    }
}

fn brnz(destination: Ebb) -> InstructionData {
    InstructionData::Branch {
        opcode: Opcode::Brnz,
        ty: types::VOID,
        destination,
        args: ValueList::new(),
    }
}

#[test]
fn a_new_graph_is_not_valid() {
    let cfg = ControlFlowGraph::new();
    assert!(!cfg.is_valid());
    assert_eq!(cfg.predecessors(Ebb::from_u32(0)), vec![]);
    assert_eq!(cfg.successors(Ebb::from_u32(0)), vec![]);
}

#[test]
fn the_graph_of_an_empty_function_has_no_edges() {
    let func = Function::new();
    let cfg = ControlFlowGraph::with_function(&func);
    assert!(cfg.is_valid());
    assert_eq!(cfg.predecessors(Ebb::from_u32(0)), vec![]);
}

#[test]
fn branches_and_jumps_are_edges() {
    let mut func = Function::new();
    let ebb0 = func.dfg.make_ebb();
    let ebb1 = func.dfg.make_ebb();
    let ebb2 = func.dfg.make_ebb();
    func.layout.append_ebb(ebb0);
    func.layout.append_ebb(ebb1);
    func.layout.append_ebb(ebb2);
    let br_0_2 = append(&mut func, ebb0, brnz(ebb2));
    let jmp_0_1 = append(&mut func, ebb0, jump(ebb1));
    let br_1_1 = append(&mut func, ebb1, brnz(ebb1));
    let jmp_1_2 = append(&mut func, ebb1, jump(ebb2));
    append(
        &mut func,
        ebb2,
        InstructionData::MultiAry {
            opcode: Opcode::Return,
            ty: types::VOID,
            args: ValueList::new(),
        },
    );

    let mut cfg = ControlFlowGraph::new();
    cfg.compute(&func);

    assert!(cfg.is_valid());
    assert_eq!(cfg.predecessors(ebb0), vec![]);
    assert_eq!(cfg.predecessors(ebb1), vec![(ebb0, jmp_0_1), (ebb1, br_1_1)]);
    assert_eq!(cfg.predecessors(ebb2), vec![(ebb0, br_0_2), (ebb1, jmp_1_2)]);
    assert_eq!(cfg.successors(ebb0), vec![ebb2, ebb1]);
    assert_eq!(cfg.successors(ebb1), vec![ebb1, ebb2]);
    assert_eq!(cfg.successors(ebb2), vec![]);

    cfg.clear();
    assert!(!cfg.is_valid());
    assert_eq!(cfg.predecessors(ebb1), vec![]);
}

#[test]
fn jump_table_entries_are_edges() {
    let mut func = Function::new();
    let ebb0 = func.dfg.make_ebb();
    let ebb1 = func.dfg.make_ebb();
    let ebb2 = func.dfg.make_ebb();
    func.layout.append_ebb(ebb0);
    func.layout.append_ebb(ebb1);
    func.layout.append_ebb(ebb2);
    let x = func.dfg.append_ebb_arg(ebb0, types::I32);
    let mut table = JumpTableData::new();
    table.push_entry(ebb2);
    table.push_entry(ebb1);
    table.push_entry(ebb2);
    let jt = func.jump_tables.push(table);
    let br = append(
        &mut func,
        ebb0,
        InstructionData::BranchTable {
            opcode: Opcode::BrTable,
            ty: types::VOID,
            arg: x,
            table: jt,
        },
    );
    let lost = append(
        &mut func,
        ebb0,
        InstructionData::BranchTable {
            opcode: Opcode::BrTable,
            ty: types::VOID,
            arg: x,
            table: JumpTable::from_u32(9),
        },
    );
    let _ = lost;
    let cfg = ControlFlowGraph::with_function(&func);
    assert_eq!(cfg.successors(ebb0), vec![ebb2, ebb1, ebb2]);
    assert_eq!(cfg.predecessors(ebb2), vec![(ebb0, br), (ebb0, br)]);
    assert_eq!(cfg.predecessors(ebb1), vec![(ebb0, br)]);
}
