use cretonne::entity::{EntityRef, PrimaryMap, SecondaryMap};
use cretonne::ir::condcodes::IntCC;
use cretonne::ir::instructions::{InstructionData, InstructionFormat, Opcode, ResultRule};
use cretonne::ir::types;
use cretonne::ir::{
    AnyEntity, Ebb, FuncRef, GlobalValue, Heap, Inst, JumpTable, SigRef, StackSlot, Table, Type,
    Value, ValueList, ValueListPool,
};
use cretonne::text::{numbered, push_decimal, push_joined, push_signed};

#[test]
fn handles_are_written_with_their_prefix_and_number() {
    assert_eq!(Ebb::from_u32(3).to_text(), "ebb3");
    assert_eq!(Inst::from_u32(42).to_text(), "inst42");
    assert_eq!(Value::from_u32(17).to_text(), "v17");
    assert_eq!(SigRef::from_u32(0).to_text(), "sig0");
    assert_eq!(FuncRef::from_u32(9).to_text(), "fn9");
    assert_eq!(GlobalValue::from_u32(120).to_text(), "gv120");
    assert_eq!(Heap::from_u32(1).to_text(), "heap1");
    assert_eq!(Table::from_u32(2).to_text(), "table2");
    assert_eq!(StackSlot::from_u32(10).to_text(), "ss10");
    assert_eq!(JumpTable::from_u32(4294967295).to_text(), "jt4294967295");
}

#[test]
fn any_entity_is_written_as_its_handle() {
    assert_eq!(AnyEntity::Function.to_text(), "function");
    assert_eq!(AnyEntity::Ebb(Ebb::from_u32(3)).to_text(), "ebb3");
    assert_eq!(AnyEntity::Inst(Inst::from_u32(42)).to_text(), "inst42");
    assert_eq!(AnyEntity::Value(Value::from_u32(17)).to_text(), "v17");
    assert_eq!(AnyEntity::StackSlot(StackSlot::from_u32(1)).to_text(), "ss1");
    assert_eq!(
        AnyEntity::GlobalValue(GlobalValue::from_u32(5)).to_text(),
        "gv5"
    );
    assert_eq!(AnyEntity::JumpTable(JumpTable::from_u32(6)).to_text(), "jt6");
    assert_eq!(AnyEntity::FuncRef(FuncRef::from_u32(7)).to_text(), "fn7");
    assert_eq!(AnyEntity::SigRef(SigRef::from_u32(8)).to_text(), "sig8");
    assert_eq!(AnyEntity::Heap(Heap::from_u32(0)).to_text(), "heap0");
    assert_eq!(AnyEntity::Table(Table::from_u32(0)).to_text(), "table0");
}

#[test]
fn handles_keep_their_number() {
    let v = Value::new(12);
    assert_eq!(v.index(), 12);
    assert_eq!(v.as_u32(), 12);
    assert_eq!(v, Value::from_u32(12));
    assert_ne!(v, Value::from_u32(13));
}

#[test]
fn decimal_numerals() {
    assert_eq!(numbered("", 0), "0");
    assert_eq!(numbered("", 7), "7");
    assert_eq!(numbered("", 10), "10");
    assert_eq!(numbered("x", 1234567890), "x1234567890");
    assert_eq!(
        numbered("", u128::MAX),
        "340282366920938463463374607431768211455"
    );
    let mut s = String::from("n=");
    push_decimal(&mut s, 905);
    assert_eq!(s, "n=905");
}

#[test]
fn primary_map_hands_out_handles_in_order() {
    let mut m: PrimaryMap<Ebb, u32> = PrimaryMap::new();
    assert!(m.is_empty());
    assert_eq!(m.next_key(), Ebb::from_u32(0));
    let k0 = m.push(12);
    let k1 = m.push(33);
    assert_eq!(k0, Ebb::from_u32(0));
    assert_eq!(k1, Ebb::from_u32(1));
    assert_eq!(m.len(), 2);
    assert!(!m.is_empty());
    assert!(m.is_valid(k0));
    assert!(m.is_valid(k1));
    assert!(!m.is_valid(Ebb::from_u32(2)));
    assert_eq!(*m.get(k0), 12);
    assert_eq!(*m.get(k1), 33);
    m.set(k0, 5);
    assert_eq!(*m.get(k0), 5);
    assert_eq!(*m.get(k1), 33);
    assert_eq!(m.next_key(), Ebb::from_u32(2));
    assert_eq!(m.keys(), vec![k0, k1]);
    assert_eq!(PrimaryMap::<Ebb, u32>::new().keys(), Vec::<Ebb>::new());
}

#[test]
fn secondary_map_reads_default_until_written() {
    let mut m: SecondaryMap<Inst, u32> = SecondaryMap::with_default(7);
    assert_eq!(m.get(Inst::from_u32(0)), 7);
    assert_eq!(m.get(Inst::from_u32(1000)), 7);
    m.set(Inst::from_u32(3), 1);
    assert_eq!(m.get(Inst::from_u32(3)), 1);
    assert_eq!(m.get(Inst::from_u32(2)), 7);
    assert_eq!(m.get(Inst::from_u32(4)), 7);
    m.set(Inst::from_u32(1), 9);
    assert_eq!(m.get(Inst::from_u32(1)), 9);
    assert_eq!(m.get(Inst::from_u32(3)), 1);
}

#[test]
fn type_names_and_lanes() {
    assert_eq!(types::VOID.to_text(), "void");
    assert_eq!(types::B1.to_text(), "b1");
    assert_eq!(types::I32.to_text(), "i32");
    assert_eq!(types::F64.to_text(), "f64");
    assert_eq!(types::I32X4.to_text(), "i32x4");
    assert_eq!(types::F64X2.to_text(), "f64x2");
    assert!(types::VOID.is_void());
    assert!(!types::I8.is_void());
    assert!(types::I8X16.is_vector());
    assert!(!types::I64.is_vector());
    assert_eq!(types::I16X8.lane_type(), types::I16);
    assert_eq!(types::F32.lane_type(), types::F32);
    assert_eq!(types::I16X8.lane_count(), 8);
    assert_eq!(types::I64X2.lane_count(), 2);
    assert_eq!(types::B1.lane_count(), 1);
    assert_eq!(types::B1.lane_bits(), 1);
    assert_eq!(types::I8X16.lane_bits(), 8);
    assert_eq!(types::F64.lane_bits(), 64);
    assert_eq!(types::VOID.lane_bits(), 0);
    assert_eq!(types::I64.half_width(), types::I32);
    assert_eq!(types::I32X4.half_width(), types::I16X8);
    assert_eq!(types::I8.half_width(), types::VOID);
    assert_eq!(types::F64.half_width(), types::VOID);
    assert_eq!(Type::I32, types::I32);
}

#[test]
fn opcodes_know_their_format_and_results() {
    assert_eq!(Opcode::Jump.format(), InstructionFormat::Jump);
    assert_eq!(Opcode::Brz.format(), InstructionFormat::Branch);
    assert_eq!(Opcode::Return.format(), InstructionFormat::MultiAry);
    assert_eq!(Opcode::Iconst.format(), InstructionFormat::UnaryImm);
    assert_eq!(Opcode::IaddImm.format(), InstructionFormat::BinaryImm);
    assert_eq!(
        Opcode::GlobalValue.format(),
        InstructionFormat::UnaryGlobalValue
    );
    assert_eq!(
        Opcode::SymbolValue.format(),
        InstructionFormat::UnaryGlobalValue
    );
    assert_eq!(Opcode::Load.format(), InstructionFormat::Load);
    assert!(Opcode::Jump.is_terminator());
    assert!(Opcode::Return.is_terminator());
    assert!(Opcode::Trap.is_terminator());
    assert!(!Opcode::Brz.is_terminator());
    assert!(!Opcode::Iconst.is_terminator());
    assert!(Opcode::Brnz.is_branch());
    assert!(Opcode::BrTable.is_branch());
    assert!(!Opcode::Return.is_branch());
    assert!(Opcode::Call.is_call());
    assert!(Opcode::CallIndirect.is_call());
    assert!(!Opcode::Iadd.is_call());
    assert_eq!(Opcode::Jump.constraints().fixed_results(), 0);
    assert_eq!(Opcode::Iadd.constraints().fixed_results(), 1);
    assert_eq!(Opcode::IaddCout.constraints().fixed_results(), 2);
    assert_eq!(Opcode::Isplit.constraints().fixed_results(), 2);
    assert_eq!(
        Opcode::IaddCout.constraints().result_type(0, types::I32),
        types::I32
    );
    assert_eq!(
        Opcode::IaddCout.constraints().result_type(1, types::I32),
        types::B1
    );
    assert_eq!(
        Opcode::Icmp.constraints().result_type(0, types::I64),
        types::B1
    );
    assert_eq!(
        Opcode::Isplit.constraints().result_type(1, types::I64),
        types::I32
    );
    assert_eq!(
        Opcode::Extractlane.constraints().result_type(0, types::F32X4),
        types::F32
    );
    assert_eq!(ResultRule::Half.apply(types::I16), types::I8);
    assert_eq!(Opcode::IaddImm.to_text(), "iadd_imm");
    assert_eq!(Opcode::GlobalValue.to_text(), "global_value");
    assert_eq!(IntCC::Equal.inverse(), IntCC::NotEqual);
    assert_eq!(
        IntCC::UnsignedLessThan.inverse(),
        IntCC::UnsignedGreaterThanOrEqual
    );
}

#[test]
fn instruction_data_accessors() {
    let v0 = Value::from_u32(0);
    let v1 = Value::from_u32(1);
    let mut data = InstructionData::Binary {
        opcode: Opcode::Iadd,
        ty: types::I32,
        args: [v0, v1],
    };
    assert_eq!(data.opcode(), Opcode::Iadd);
    assert_eq!(data.first_type(), types::I32);
    assert_eq!(data.format(), InstructionFormat::Binary);
    assert_eq!(data.value_list(), None);
    let pool = ValueListPool::new();
    assert_eq!(data.arguments(&pool), vec![v0, v1]);
    data.set_first_type(types::I64);
    assert_eq!(
        data,
        InstructionData::Binary {
            opcode: Opcode::Iadd,
            ty: types::I64,
            args: [v0, v1],
        }
    );
    assert_eq!(
        InstructionData::iconst(types::I32, -5),
        InstructionData::UnaryImm {
            opcode: Opcode::Iconst,
            ty: types::I32,
            imm: -5
        }
    );
}

#[test]
fn value_lists_live_in_the_pool() {
    let mut pool = ValueListPool::new();
    let v = |n: u32| Value::from_u32(n);
    let mut a = ValueList::new();
    assert!(a.is_valid(&pool));
    assert!(a.is_empty(&pool));
    assert_eq!(a.first(&pool), None);
    assert_eq!(a.push(v(1), &mut pool), 0);
    assert_eq!(a.push(v(2), &mut pool), 1);
    let mut b = ValueList::new();
    assert_eq!(b.push(v(7), &mut pool), 0);
    // `a` no longer ends the pool: it moves when it grows.
    let snapshot = a;
    assert_eq!(a.push(v(3), &mut pool), 2);
    assert_eq!(a.to_vec(&pool), vec![v(1), v(2), v(3)]);
    assert_eq!(snapshot.to_vec(&pool), vec![v(1), v(2)]);
    assert_eq!(b.to_vec(&pool), vec![v(7)]);
    assert_eq!(a.len(&pool), 3);
    assert_eq!(a.get(1, &pool), Some(v(2)));
    assert_eq!(a.get(3, &pool), None);
    assert_eq!(a.first(&pool), Some(v(1)));
    let c = ValueList::from_vec(&vec![v(4), v(5)], &mut pool);
    assert_eq!(c.to_vec(&pool), vec![v(4), v(5)]);
    assert_eq!(pool.len(), 8);

    // A list of another pool does not lie within a fresh one.
    let fresh = ValueListPool::new();
    assert!(!c.is_valid(&fresh));
    assert_eq!(c.to_vec(&fresh), Vec::<Value>::new());
    assert_eq!(c.len(&fresh), 0);
    assert_eq!(c.to_text(), "list(6, 2)");

    let call = InstructionData::Call {
        opcode: Opcode::Call,
        ty: types::VOID,
        func_ref: FuncRef::from_u32(0),
        args: c,
    };
    assert_eq!(call.value_list(), Some(c));
    assert_eq!(call.arguments(&pool), vec![v(4), v(5)]);
    assert_eq!(call.arguments(&fresh), Vec::<Value>::new());
    let branch = InstructionData::BranchTable {
        opcode: Opcode::BrTable,
        ty: types::VOID,
        arg: v(9),
        table: JumpTable::from_u32(0),
    };
    assert_eq!(branch.arguments(&pool), vec![v(9)]);
}

#[test]
fn signed_numerals_and_joining() {
    let mut s = String::new();
    push_signed(&mut s, 0);
    s.push(' ');
    push_signed(&mut s, -1);
    s.push(' ');
    push_signed(&mut s, i64::MIN);
    s.push(' ');
    push_signed(&mut s, i64::MAX);
    assert_eq!(s, "0 -1 -9223372036854775808 9223372036854775807");

    let mut s = String::from("[");
    push_joined(&mut s, &vec![], ", ");
    assert_eq!(s, "[");
    push_joined(&mut s, &vec!["a".to_string()], ", ");
    assert_eq!(s, "[a");
    push_joined(
        &mut s,
        &vec!["b".to_string(), "".to_string(), "c".to_string()],
        "; ",
    );
    assert_eq!(s, "[ab; ; c");
}
