//! Jump tables.

use crate::ir::entities::Ebb;
use vstd::prelude::*;

verus! {

/// The targets of an indexed branch; an entry may be left without a target.
#[derive(Clone, Debug, PartialEq, Eq, Hash)]
pub struct JumpTableData {
    table: Vec<Option<Ebb>>,
}

impl View for JumpTableData {
    type V = Seq<Option<Ebb>>;

    closed spec fn view(&self) -> Seq<Option<Ebb>> {
        self.table@
    }
}

impl JumpTableData {
    /// A table without entries.
    pub fn new() -> (t: JumpTableData)
        ensures
            t@ == Seq::<Option<Ebb>>::empty(),
    {
        JumpTableData { table: Vec::new() }
    }

    /// The number of entries.
    pub fn len(&self) -> (n: usize)
        ensures
            n == self@.len(),
    {
        self.table.len()
    }

    /// Adds an entry with the target `dest`.
    pub fn push_entry(&mut self, dest: Ebb)
        ensures
            final(self)@ == old(self)@.push(Some(dest)),
    {
        self.table.push(Some(dest));
    }

    /// The target of entry `idx`, if the table has that entry and it has one.
    pub fn get_entry(&self, idx: usize) -> (e: Option<Ebb>)
        ensures
            e == if idx < self@.len() {
                self@[idx as int]
            } else {
                None
            },
    {
        if idx < self.table.len() {
            self.table[idx]
        } else {
            None
        }
    }
}

} // verus!
