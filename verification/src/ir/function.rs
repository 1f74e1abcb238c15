//! A function: the unit that passes work on.

use crate::entity::{PrimaryMap, SecondaryMap};
use crate::ir::dfg::DataFlowGraph;
use crate::ir::dfgview::DfgView;
use crate::ir::entities::{Ebb, GlobalValue, Inst, JumpTable, StackSlot, Value};
use crate::ir::extfunc::{first_with_purpose, AbiParam, ArgumentPurpose, Signature};
use crate::ir::globalvalue::GlobalValueData;
use crate::ir::jumptable::JumpTableData;
use crate::ir::layout::Layout;
use crate::ir::layoutview::{after_at, LayoutView};
use crate::ir::sideinfo::{Encoding, SourceLoc, ValueLoc};
use crate::ir::stackslot::StackSlotData;
use vstd::prelude::*;

verus! {

/// A function in the intermediate language: its instructions and values,
/// their order in the program, and the tables that they refer to.
pub struct Function {
    /// What the function takes and returns.
    pub signature: Signature,
    /// The slots of the stack frame.
    pub stack_slots: PrimaryMap<StackSlot, StackSlotData>,
    /// The global values.
    pub global_values: PrimaryMap<GlobalValue, GlobalValueData>,
    /// The jump tables.
    pub jump_tables: PrimaryMap<JumpTable, JumpTableData>,
    /// The instructions, blocks and values.
    pub dfg: DataFlowGraph,
    /// The order of the blocks and of the instructions in them.
    pub layout: Layout,
    /// Where in the source each instruction came from.
    pub srclocs: SecondaryMap<Inst, SourceLoc>,
    /// Where each value lives once registers are assigned.
    pub locations: SecondaryMap<Value, ValueLoc>,
    /// The encoding of each instruction.
    pub encodings: SecondaryMap<Inst, Encoding>,
    /// The offset of each block in the emitted code.
    pub offsets: SecondaryMap<Ebb, u32>,
}

impl Function {
    /// The invariant of a function: the graph and the layout are
    /// well-formed, and the layout holds blocks and instructions of the graph
    /// only.
    pub open spec fn wf(&self) -> bool {
        &&& self.dfg.wf()
        &&& self.layout.wf()
        &&& forall|ebb: Ebb| #[trigger] self.layout@.has_ebb(ebb) ==> self.dfg@.ebb_is_valid(ebb)
        &&& forall|inst: Inst, ebb: Ebb| #[trigger]
            self.layout@.stands_in(inst, ebb) ==> self.dfg@.inst_is_valid(inst)
    }

    /// The value that carries `purpose` into the function: the argument of
    /// the first block at the position of the first parameter of that purpose.
    pub open spec fn special_param_spec(&self, purpose: ArgumentPurpose) -> Option<Value> {
        match after_at(self.layout@.ebbs, -1) {
            Some(entry) => match first_with_purpose(self.signature.params@, purpose) {
                Some(i) => if i < self.dfg@.args_of(entry).len() {
                    Some(self.dfg@.args_of(entry)[i])
                } else {
                    None
                },
                None => None,
            },
            None => None,
        }
    }

    /// A function without blocks, which takes and returns nothing: its
    /// graph, its layout and its tables hold nothing, and nothing is
    /// recorded yet about any instruction, value or block.
    pub fn new() -> (func: Function)
        ensures
            func.wf(),
            func.dfg@ == (DfgView {
                insts: Seq::empty(),
                results: Seq::empty(),
                ebbs: Seq::empty(),
                values: Seq::empty(),
                pool: Seq::empty(),
                signatures: Seq::empty(),
                ext_funcs: Seq::empty(),
            }),
            func.layout@ == (LayoutView { ebbs: Seq::empty(), insts: Map::empty() }),
            func.signature.params@ == Seq::<AbiParam>::empty(),
            func.signature.return_types@ == Seq::<AbiParam>::empty(),
            func.stack_slots@ == Seq::<StackSlotData>::empty(),
            func.global_values@ == Seq::<GlobalValueData>::empty(),
            func.jump_tables@ == Seq::<JumpTableData>::empty(),
            forall|inst: Inst| #[trigger] func.srclocs.at(inst) == SourceLoc(0),
            forall|v: Value| #[trigger] func.locations.at(v) == ValueLoc::Unassigned,
            forall|inst: Inst|
                #[trigger] func.encodings.at(inst) == (Encoding { recipe: 0, bits: 0 }),
            forall|ebb: Ebb| #[trigger] func.offsets.at(ebb) == 0,
    {
        Function {
            signature: Signature::new(),
            stack_slots: PrimaryMap::new(),
            global_values: PrimaryMap::new(),
            jump_tables: PrimaryMap::new(),
            dfg: DataFlowGraph::new(),
            layout: Layout::new(),
            srclocs: SecondaryMap::with_default(SourceLoc(0)),
            locations: SecondaryMap::with_default(ValueLoc::Unassigned),
            encodings: SecondaryMap::with_default(Encoding { recipe: 0, bits: 0 }),
            offsets: SecondaryMap::with_default(0),
        }
    }

    /// A function without blocks that has the signature `signature`.
    pub fn with_signature(signature: Signature) -> (func: Function)
        ensures
            func.wf(),
            func.signature == signature,
            func.layout@.ebbs.len() == 0,
            func.dfg@.insts.len() == 0,
            func.dfg@.ebbs.len() == 0,
            func.dfg@.values.len() == 0,
            func.global_values@.len() == 0,
            func.jump_tables@.len() == 0,
            func.stack_slots@.len() == 0,
    {
        let mut func = Function::new();
        func.signature = signature;
        func
    }

    /// The value that carries `purpose` into the function, if the signature
    /// has a parameter of that purpose and the first block has an argument
    /// at its position.
    pub fn special_param(&self, purpose: ArgumentPurpose) -> (v: Option<Value>)
        requires
            self.wf(),
        ensures
            v == self.special_param_spec(purpose),
    {
        match self.layout.entry_block() {
            Some(entry) => {
                proof {
                    assert(self.layout@.ebbs[0] == entry);
                    assert(self.layout@.has_ebb(entry));
                }
                match self.signature.special_param_index(purpose) {
                    Some(i) => {
                        let args = self.dfg.ebb_args(entry);
                        if i < args.len() {
                            Some(args[i])
                        } else {
                            None
                        }
                    },
                    None => None,
                }
            },
            None => None,
        }
    }
}

} // verus!
