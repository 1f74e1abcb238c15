use cretonne::ir::{Ebb, Inst, Layout};

fn ebb(n: u32) -> Ebb {
    Ebb::from_u32(n)
}

fn inst(n: u32) -> Inst {
    Inst::from_u32(n)
}

#[test]
fn new_layout_is_empty() {
    let layout = Layout::new();
    assert_eq!(layout.ebbs(), Vec::<Ebb>::new());
    assert_eq!(layout.entry_block(), None);
    assert_eq!(layout.last_ebb(), None);
    assert!(!layout.is_ebb_inserted(ebb(0)));
    assert_eq!(layout.inst_ebb(inst(0)), None);
    assert_eq!(layout.ebb_insts(ebb(0)), Vec::<Inst>::new());
    assert_eq!(layout.first_inst(ebb(0)), None);
    assert_eq!(layout.last_inst(ebb(0)), None);
}

#[test]
fn appended_ebbs_are_listed_once_in_insertion_order() {
    let mut layout = Layout::new();
    layout.append_ebb(ebb(2));
    assert_eq!(layout.ebbs(), vec![ebb(2)]);
    layout.append_ebb(ebb(0));
    layout.append_ebb(ebb(5));
    assert_eq!(layout.ebbs(), vec![ebb(2), ebb(0), ebb(5)]);
    assert_eq!(layout.entry_block(), Some(ebb(2)));
    assert_eq!(layout.last_ebb(), Some(ebb(5)));
    assert!(layout.is_ebb_inserted(ebb(2)));
    assert!(layout.is_ebb_inserted(ebb(0)));
    assert!(layout.is_ebb_inserted(ebb(5)));
    assert!(!layout.is_ebb_inserted(ebb(1)));
    assert_eq!(layout.next_ebb(ebb(2)), Some(ebb(0)));
    assert_eq!(layout.next_ebb(ebb(0)), Some(ebb(5)));
    assert_eq!(layout.next_ebb(ebb(5)), None);
    assert_eq!(layout.next_ebb(ebb(1)), None);
}

#[test]
fn append_three_insts_and_remove_the_second() {
    let mut layout = Layout::new();
    layout.append_ebb(ebb(0));
    layout.append_inst(inst(1), ebb(0));
    layout.append_inst(inst(2), ebb(0));
    layout.append_inst(inst(3), ebb(0));
    assert_eq!(layout.ebb_insts(ebb(0)), vec![inst(1), inst(2), inst(3)]);
    assert_eq!(layout.inst_ebb(inst(2)), Some(ebb(0)));

    layout.remove_inst(inst(2));

    assert_eq!(layout.ebb_insts(ebb(0)), vec![inst(1), inst(3)]);
    assert_eq!(layout.inst_ebb(inst(2)), None);
    assert_eq!(layout.inst_ebb(inst(1)), Some(ebb(0)));
    assert_eq!(layout.inst_ebb(inst(3)), Some(ebb(0)));
    assert_eq!(layout.next_inst(inst(1)), Some(inst(3)));
    assert_eq!(layout.prev_inst(inst(3)), Some(inst(1)));
    assert_eq!(layout.next_inst(inst(2)), None);
    assert_eq!(layout.prev_inst(inst(2)), None);
}

#[test]
fn every_listed_inst_belongs_to_its_ebb() {
    let mut layout = Layout::new();
    layout.append_ebb(ebb(0));
    layout.append_ebb(ebb(1));
    layout.append_inst(inst(4), ebb(1));
    layout.append_inst(inst(0), ebb(0));
    layout.append_inst(inst(7), ebb(1));
    layout.append_inst(inst(2), ebb(0));
    for e in layout.ebbs() {
        for i in layout.ebb_insts(e) {
            assert_eq!(layout.inst_ebb(i), Some(e));
        }
    }
    assert_eq!(layout.ebb_insts(ebb(0)), vec![inst(0), inst(2)]);
    assert_eq!(layout.ebb_insts(ebb(1)), vec![inst(4), inst(7)]);
    assert_eq!(layout.first_inst(ebb(1)), Some(inst(4)));
    assert_eq!(layout.last_inst(ebb(1)), Some(inst(7)));
    assert_eq!(layout.first_inst(ebb(0)), Some(inst(0)));
    assert_eq!(layout.last_inst(ebb(0)), Some(inst(2)));
}

#[test]
fn insert_inst_goes_in_front() {
    let mut layout = Layout::new();
    layout.append_ebb(ebb(0));
    layout.append_inst(inst(0), ebb(0));
    layout.insert_inst_before(inst(1), inst(0));
    assert_eq!(layout.ebb_insts(ebb(0)), vec![inst(1), inst(0)]);
    assert_eq!(layout.first_inst(ebb(0)), Some(inst(1)));
    layout.insert_inst_before(inst(2), inst(0));
    assert_eq!(layout.ebb_insts(ebb(0)), vec![inst(1), inst(2), inst(0)]);
    assert_eq!(layout.prev_inst(inst(0)), Some(inst(2)));
    assert_eq!(layout.prev_inst(inst(2)), Some(inst(1)));
    assert_eq!(layout.prev_inst(inst(1)), None);
    assert_eq!(layout.next_inst(inst(1)), Some(inst(2)));
    assert_eq!(layout.next_inst(inst(2)), Some(inst(0)));
    assert_eq!(layout.next_inst(inst(0)), None);
    assert_eq!(layout.inst_ebb(inst(2)), Some(ebb(0)));
    assert_eq!(layout.last_inst(ebb(0)), Some(inst(0)));
}

#[test]
fn removing_the_ends_of_a_block() {
    let mut layout = Layout::new();
    layout.append_ebb(ebb(0));
    layout.append_inst(inst(0), ebb(0));
    layout.append_inst(inst(1), ebb(0));
    layout.append_inst(inst(2), ebb(0));
    layout.remove_inst(inst(0));
    assert_eq!(layout.ebb_insts(ebb(0)), vec![inst(1), inst(2)]);
    assert_eq!(layout.first_inst(ebb(0)), Some(inst(1)));
    layout.remove_inst(inst(2));
    assert_eq!(layout.ebb_insts(ebb(0)), vec![inst(1)]);
    assert_eq!(layout.last_inst(ebb(0)), Some(inst(1)));
    layout.remove_inst(inst(1));
    assert_eq!(layout.ebb_insts(ebb(0)), Vec::<Inst>::new());
    assert_eq!(layout.first_inst(ebb(0)), None);
    assert_eq!(layout.last_inst(ebb(0)), None);
    // A removed instruction can be put back.
    layout.append_inst(inst(2), ebb(0));
    assert_eq!(layout.ebb_insts(ebb(0)), vec![inst(2)]);
    assert_eq!(layout.inst_ebb(inst(2)), Some(ebb(0)));
}

#[test]
fn insert_inst_after_goes_behind() {
    let mut layout = Layout::new();
    layout.append_ebb(ebb(0));
    layout.append_inst(inst(0), ebb(0));
    layout.insert_inst_after(inst(1), inst(0));
    assert_eq!(layout.ebb_insts(ebb(0)), vec![inst(0), inst(1)]);
    assert_eq!(layout.last_inst(ebb(0)), Some(inst(1)));
    layout.insert_inst_after(inst(2), inst(0));
    assert_eq!(layout.ebb_insts(ebb(0)), vec![inst(0), inst(2), inst(1)]);
    assert_eq!(layout.inst_ebb(inst(2)), Some(ebb(0)));
    assert_eq!(layout.next_inst(inst(0)), Some(inst(2)));
    assert_eq!(layout.prev_inst(inst(1)), Some(inst(2)));
}

#[test]
fn program_order_within_a_block() {
    let mut layout = Layout::new();
    layout.append_ebb(ebb(0));
    layout.append_ebb(ebb(1));
    layout.append_inst(inst(0), ebb(0));
    layout.append_inst(inst(1), ebb(0));
    layout.append_inst(inst(2), ebb(0));
    layout.append_inst(inst(3), ebb(1));
    assert!(layout.inst_is_before(inst(0), inst(1)));
    assert!(layout.inst_is_before(inst(0), inst(2)));
    assert!(layout.inst_is_before(inst(1), inst(2)));
    assert!(!layout.inst_is_before(inst(1), inst(0)));
    assert!(!layout.inst_is_before(inst(2), inst(0)));
    assert!(!layout.inst_is_before(inst(1), inst(1)));
    assert!(!layout.inst_is_before(inst(0), inst(3)));
    assert!(!layout.inst_is_before(inst(3), inst(0)));
    assert!(!layout.inst_is_before(inst(0), inst(9)));
    assert!(!layout.inst_is_before(inst(9), inst(0)));
}
