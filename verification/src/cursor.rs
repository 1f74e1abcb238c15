//! A cursor: a position in a function, at which a pass inserts instructions.

use crate::entity::EntityRef;
use crate::ir::builder::global_value_data;
use crate::ir::dfgview::DfgView;
use crate::ir::entities::{Ebb, GlobalValue, Inst, Value};
use crate::ir::function::Function;
use crate::ir::instructions::InstructionData;
use crate::ir::layoutview::LayoutView;
use crate::ir::sideinfo::SourceLoc;
use crate::ir::types::Type;
use vstd::prelude::*;

verus! {

/// Where a cursor points.
#[derive(Clone, Copy, Debug, PartialEq, Eq, Structural)]
pub enum CursorPosition {
    /// Nowhere: nothing can be inserted.
    Nowhere,
    /// At the instruction: what is inserted goes in front of it.
    At(Inst),
    /// In front of the first instruction of the block: nothing can be
    /// inserted before the cursor has moved.
    Before(Ebb),
    /// Behind the last instruction of the block: what is inserted goes to
    /// the end of the block.
    After(Ebb),
}

/// Whether an instruction can be inserted at `pos`.
pub open spec fn can_insert_at(layout: LayoutView, pos: CursorPosition) -> bool {
    match pos {
        CursorPosition::At(cur) => layout.has_inst(cur),
        CursorPosition::After(ebb) => layout.has_ebb(ebb),
        _ => false,
    }
}

/// The layout after `inst` was inserted at `pos`.
pub open spec fn inserted_at(layout: LayoutView, pos: CursorPosition, inst: Inst) -> LayoutView {
    match pos {
        CursorPosition::At(cur) => layout.with_inst_before(inst, cur),
        CursorPosition::After(ebb) => layout.with_inst_appended(inst, ebb),
        _ => layout,
    }
}

/// Whether `after` has the tables of `before`: the signature, the stack
/// slots, the global values, the jump tables, and what is recorded of the
/// places, the encodings and the offsets.
pub open spec fn same_tables(before: &Function, after: &Function) -> bool {
    &&& after.signature == before.signature
    &&& after.stack_slots == before.stack_slots
    &&& after.global_values == before.global_values
    &&& after.jump_tables == before.jump_tables
    &&& after.locations == before.locations
    &&& after.encodings == before.encodings
    &&& after.offsets == before.offsets
}

/// Whether the source locations of `after` are those of `before`, but for
/// `inst`, which has the location `srcloc` unless that is the default.
pub open spec fn srclocs_after(
    before: &Function,
    after: &Function,
    inst: Inst,
    srcloc: SourceLoc,
) -> bool {
    &&& after.srclocs.at(inst) == if srcloc == SourceLoc(0) {
        before.srclocs.at(inst)
    } else {
        srcloc
    }
    &&& forall|x: Inst| x != inst ==> #[trigger] after.srclocs.at(x) == before.srclocs.at(x)
}

/// The graph after an instruction with the payload `data` was added and
/// got its results.
pub open spec fn with_built_inst(
    dfg: DfgView,
    data: InstructionData,
    ctrl: Type,
    pool: Seq<Value>,
) -> DfgView {
    dfg.with_inst_added(data).with_fresh_results(
        Inst::with_idx(dfg.insts.len()),
        ctrl,
        pool,
    )
}

/// A position in a function, with the function itself.
pub struct FuncCursor<'f> {
    /// Where the cursor points.
    pub pos: CursorPosition,
    /// The source location that inserted instructions get.
    pub srcloc: SourceLoc,
    /// The function.
    pub func: &'f mut Function,
}

/// Inserts an instruction at the position of a cursor.
pub struct InsertBuilder<'c, 'f> {
    /// The cursor that says where.
    pub pos: &'c mut FuncCursor<'f>,
}

impl<'f> FuncCursor<'f> {
    /// A cursor for `func` that points nowhere.
    pub fn new(func: &'f mut Function) -> (c: FuncCursor<'f>)
        ensures
            c.pos == CursorPosition::Nowhere,
            c.srcloc == SourceLoc(0),
            *c.func == *old(func),
            *final(c.func) == *final(func),
    {
        FuncCursor { pos: CursorPosition::Nowhere, srcloc: SourceLoc(0), func }
    }

    /// The same cursor, pointing at `inst`.
    pub fn at_inst(self, inst: Inst) -> (c: FuncCursor<'f>)
        ensures
            c.pos == CursorPosition::At(inst),
            c.srcloc == self.srcloc,
            *c.func == *old(self.func),
            *final(c.func) == *final(self.func),
    {
        FuncCursor { pos: CursorPosition::At(inst), srcloc: self.srcloc, func: self.func }
    }

    /// The same cursor, pointing behind the last instruction of `ebb`.
    pub fn at_bottom(self, ebb: Ebb) -> (c: FuncCursor<'f>)
        ensures
            c.pos == CursorPosition::After(ebb),
            c.srcloc == self.srcloc,
            *c.func == *old(self.func),
            *final(c.func) == *final(self.func),
    {
        FuncCursor { pos: CursorPosition::After(ebb), srcloc: self.srcloc, func: self.func }
    }

    /// Where the cursor points.
    pub fn position(&self) -> (pos: CursorPosition)
        ensures
            pos == self.pos,
    {
        self.pos
    }

    /// Points the cursor at `inst`.
    pub fn goto_inst(&mut self, inst: Inst)
        ensures
            final(self).pos == CursorPosition::At(inst),
            final(self).srcloc == old(self).srcloc,
            *final(self).func == *old(self).func,
            *final(final(self).func) == *final(old(self).func),
    {
        self.pos = CursorPosition::At(inst);
    }

    /// Points the cursor in front of the first instruction of `ebb`.
    pub fn goto_top(&mut self, ebb: Ebb)
        ensures
            final(self).pos == CursorPosition::Before(ebb),
            final(self).srcloc == old(self).srcloc,
            *final(self).func == *old(self).func,
            *final(final(self).func) == *final(old(self).func),
    {
        self.pos = CursorPosition::Before(ebb);
    }

    /// Points the cursor behind the last instruction of `ebb`.
    pub fn goto_bottom(&mut self, ebb: Ebb)
        ensures
            final(self).pos == CursorPosition::After(ebb),
            final(self).srcloc == old(self).srcloc,
            *final(self).func == *old(self).func,
            *final(final(self).func) == *final(old(self).func),
    {
        self.pos = CursorPosition::After(ebb);
    }

    /// The instruction that the cursor points at, if it points at one.
    pub fn current_inst(&self) -> (inst: Option<Inst>)
        ensures
            inst == match self.pos {
                CursorPosition::At(i) => Some(i),
                _ => None,
            },
    {
        match self.pos {
            CursorPosition::At(i) => Some(i),
            _ => None,
        }
    }

    /// Gives the instructions that are inserted from now on the source
    /// location of `inst`.
    pub fn use_srcloc(&mut self, inst: Inst)
        ensures
            final(self).pos == old(self).pos,
            final(self).srcloc == old(self).func.srclocs.at(inst),
            *final(self).func == *old(self).func,
            *final(final(self).func) == *final(old(self).func),
    {
        self.srcloc = self.func.srclocs.get(inst);
    }

    /// Puts `inst`, an instruction of the graph that is not in the layout,
    /// where the cursor points. The cursor stays where it is.
    pub fn insert_inst(&mut self, inst: Inst)
        requires
            old(self).func.wf(),
            can_insert_at(old(self).func.layout@, old(self).pos),
            old(self).func.dfg@.inst_is_valid(inst),
            !old(self).func.layout@.has_inst(inst),
        ensures
            final(self).pos == old(self).pos,
            final(self).srcloc == old(self).srcloc,
            final(self).func.wf(),
            final(self).func.layout@ == inserted_at(old(self).func.layout@, old(self).pos, inst),
            final(self).func.dfg == old(self).func.dfg,
            final(self).func.srclocs == old(self).func.srclocs,
            same_tables(old(self).func, final(self).func),
            *final(final(self).func) == *final(old(self).func),
    {
        let ghost before = self.func.layout@;
        match self.pos {
            CursorPosition::At(cur) => {
                proof {
                    before.lemma_with_inst_before(inst, cur);
                }
                self.func.layout.insert_inst_before(inst, cur);
            },
            CursorPosition::After(ebb) => {
                proof {
                    before.lemma_with_inst_appended(inst, ebb);
                }
                self.func.layout.append_inst(inst, ebb);
            },
            _ => {},
        }
        proof {
            let after = self.func.layout@;
            assert forall|e: Ebb| #[trigger] after.has_ebb(e) implies self.func.dfg@.ebb_is_valid(
                e,
            ) by {
                assert(before.has_ebb(e));
            }
            assert forall|x: Inst, e: Ebb| #[trigger]
                after.stands_in(x, e) implies self.func.dfg@.inst_is_valid(x) by {
                if x != inst {
                    assert(before.stands_in(x, e));
                }
            }
        }
    }

    /// A builder that inserts an instruction where the cursor points.
    pub fn ins(&mut self) -> (b: InsertBuilder<'_, 'f>)
        ensures
            *b.pos == *old(self),
            *final(self) == *final(b.pos),
    {
        InsertBuilder { pos: self }
    }
}

impl<'c, 'f> InsertBuilder<'c, 'f> {
    /// Adds an instruction with the payload `data` to the function, gives it
    /// the results that `data` asks for under the controlling type
    /// `ctrl_typevar`, and puts it where the cursor points. The instruction
    /// gets the source location of the cursor, unless that is the default.
    pub fn build(self, data: InstructionData, ctrl_typevar: Type) -> (inst: Inst)
        requires
            old(self.pos).func.wf(),
            can_insert_at(old(self.pos).func.layout@, old(self.pos).pos),
            old(self.pos).func.dfg@.insts.len() < u32::MAX,
            old(self.pos).func.dfg@.values.len() + old(self.pos).func.dfg@.total_results_for(data)
                <= u32::MAX,
        ensures
            inst.idx() == old(self.pos).func.dfg@.insts.len(),
            final(self.pos).pos == old(self.pos).pos,
            final(self.pos).srcloc == old(self.pos).srcloc,
            final(self.pos).func.wf(),
            old(self.pos).func.dfg@.pool.is_prefix_of(final(self.pos).func.dfg@.pool),
            final(self.pos).func.dfg@ == with_built_inst(
                old(self.pos).func.dfg@,
                data,
                ctrl_typevar,
                final(self.pos).func.dfg@.pool,
            ),
            final(self.pos).func.layout@ == inserted_at(
                old(self.pos).func.layout@,
                old(self.pos).pos,
                inst,
            ),
            srclocs_after(old(self.pos).func, final(self.pos).func, inst, old(self.pos).srcloc),
            same_tables(old(self.pos).func, final(self.pos).func),
            *final(final(self.pos).func) == *final(old(self.pos).func),
    {
        let ghost before = *self.pos.func;
        let inst = self.pos.func.dfg.make_inst(data);
        proof {
            Inst::lemma_with_idx(before.dfg@.insts.len());
            Inst::lemma_idx_injective(inst, Inst::with_idx(before.dfg@.insts.len()));
        }
        self.pos.func.dfg.make_inst_results(inst, ctrl_typevar);
        if !self.pos.srcloc.is_default() {
            self.pos.func.srclocs.set(inst, self.pos.srcloc);
        }
        proof {
            if before.layout@.has_inst(inst) {
                let e = choose|e: Ebb| #[trigger] before.layout@.stands_in(inst, e);
                assert(before.layout@.stands_in(inst, e));
            }
            assert forall|e: Ebb| #[trigger]
                self.pos.func.layout@.has_ebb(e) implies self.pos.func.dfg@.ebb_is_valid(e) by {
                assert(before.layout@.has_ebb(e));
            }
            assert forall|x: Inst, e: Ebb| #[trigger]
                self.pos.func.layout@.stands_in(x, e) implies self.pos.func.dfg@.inst_is_valid(
                x,
            ) by {
                assert(before.layout@.stands_in(x, e));
            }
        }
        self.pos.insert_inst(inst);
        inst
    }

    /// Inserts a `global_value` of the global value `gv`, of type `ty`, and
    /// returns its result.
    pub fn global_value(self, ty: Type, gv: GlobalValue) -> (v: Value)
        requires
            old(self.pos).func.wf(),
            can_insert_at(old(self.pos).func.layout@, old(self.pos).pos),
            old(self.pos).func.dfg@.insts.len() < u32::MAX,
            old(self.pos).func.dfg@.values.len() < u32::MAX,
        ensures
            v == Value::with_idx(old(self.pos).func.dfg@.values.len()),
            v.idx() == old(self.pos).func.dfg@.values.len(),
            final(self.pos).func.dfg@.value_is_valid(v),
            final(self.pos).func.dfg@.value(v).ty_spec() == ty,
            final(self.pos).pos == old(self.pos).pos,
            final(self.pos).srcloc == old(self.pos).srcloc,
            final(self.pos).func.wf(),
            old(self.pos).func.dfg@.pool.is_prefix_of(final(self.pos).func.dfg@.pool),
            final(self.pos).func.dfg@ == with_built_inst(
                old(self.pos).func.dfg@,
                global_value_data(ty, gv),
                ty,
                final(self.pos).func.dfg@.pool,
            ),
            final(self.pos).func.layout@ == inserted_at(
                old(self.pos).func.layout@,
                old(self.pos).pos,
                Inst::with_idx(old(self.pos).func.dfg@.insts.len()),
            ),
            srclocs_after(
                old(self.pos).func,
                final(self.pos).func,
                Inst::with_idx(old(self.pos).func.dfg@.insts.len()),
                old(self.pos).srcloc,
            ),
            same_tables(old(self.pos).func, final(self.pos).func),
            *final(final(self.pos).func) == *final(old(self.pos).func),
    {
        let ghost n = self.pos.func.dfg@.insts.len();
        let ghost base = self.pos.func.dfg@.values.len();
        let pos = self.pos;
        let inst = InsertBuilder { pos }.build(InstructionData::global_value(ty, gv), ty);
        proof {
            Inst::lemma_with_idx(n);
            Inst::lemma_idx_injective(inst, Inst::with_idx(n));
            Value::lemma_with_idx(base);
        }
        let v = pos.func.dfg.first_result(inst);
        proof {
            Value::lemma_idx_injective(v, Value::with_idx(base));
        }
        v
    }
}

} // verus!
