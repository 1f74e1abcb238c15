//! Legalization of global values.
//!
//! `expand_global_value` turns a `global_value` instruction into code that
//! depends on the kind of global value that it refers to.

use crate::cursor::{same_tables, srclocs_after, with_built_inst, FuncCursor};
use crate::entity::EntityRef;
use crate::flowgraph::{
    branch_targets, edges_of_insts, flow_edges, lemma_edges_inserted, lemma_edges_removed,
    lemma_edges_same_blocks, lemma_edges_same_targets, ControlFlowGraph,
};
use crate::ir::builder::{global_value_data, iadd_imm_data, load_data, symbol_value_data};
use crate::ir::dfg::ValueData;
use crate::ir::dfgview::DfgView;
use crate::ir::entities::{Ebb, GlobalValue, Inst, Value};
use crate::ir::extfunc::{first_with_purpose, lemma_first_with_purpose, ArgumentPurpose};
use crate::ir::function::Function;
use crate::ir::globalvalue::GlobalValueData;
use crate::ir::instructions::{InstructionData, Opcode};
use crate::ir::memflags::MemFlags;
use crate::ir::sideinfo::SourceLoc;
use crate::ir::types::Type;
use crate::isa::TargetIsa;
use vstd::prelude::*;

verus! {

/// The global value that `inst` refers to, where `inst` is a `global_value`
/// instruction.
pub open spec fn global_value_of(func: &Function, inst: Inst) -> Option<GlobalValue> {
    match func.dfg@.data(inst) {
        InstructionData::UnaryGlobalValue { opcode: Opcode::GlobalValue, global_value, .. } => Some(
            global_value,
        ),
        _ => None,
    }
}

/// Whether the base `base` of a global value can be made a value of `func`:
/// it is a global value of `func`; where it is the context pointer, `func`
/// has a parameter for that; and where it is not, `func` has room for one
/// more instruction and one more value.
pub open spec fn base_in_reach(func: &Function, base: GlobalValue) -> bool {
    &&& func.global_values.contains(base)
    &&& if func.global_values.at(base) is VMContext {
        func.special_param_spec(ArgumentPurpose::VMContext).is_some()
    } else {
        func.dfg@.insts.len() < u32::MAX && func.dfg@.values.len() < u32::MAX
    }
}

/// Whether `inst` can be expanded: it is a `global_value` instruction in the
/// layout of `func`, with one result, that refers to a global value of
/// `func` whose base, if it has one, is in reach; and where it refers to the
/// context pointer, `func` has a parameter for that.
pub open spec fn can_expand(func: &Function, inst: Inst) -> bool {
    &&& func.layout@.has_inst(inst)
    &&& func.dfg@.results_of(inst).len() == 1
    &&& global_value_of(func, inst) matches Some(gv)
    &&& func.global_values.contains(gv)
    &&& match func.global_values.at(gv) {
        GlobalValueData::VMContext => func.special_param_spec(ArgumentPurpose::VMContext).is_some(),
        GlobalValueData::IAddImm { base, .. } => base_in_reach(func, base),
        GlobalValueData::Load { base, .. } => base_in_reach(func, base),
        GlobalValueData::Symbol { .. } => true,
    }
}

/// What the expansion of a reference to the context pointer leaves: the
/// result of `inst` is another name for the parameter that carries the
/// context pointer, and `inst` is gone from the layout.
pub open spec fn vmctx_expanded(before: &Function, after: &Function, inst: Inst) -> bool {
    let vmctx = before.special_param_spec(ArgumentPurpose::VMContext).unwrap();
    let result = before.dfg@.results_of(inst)[0];
    &&& after.dfg@ == (DfgView {
        results: before.dfg@.results.update(inst.idx() as int, Seq::empty()),
        values: before.dfg@.values.update(
            result.idx() as int,
            ValueData::Alias { ty: before.dfg@.value(vmctx).ty_spec(), target: vmctx },
        ),
        ..before.dfg@
    })
    &&& after.layout@ == before.layout@.without_inst(inst)
    &&& after.srclocs == before.srclocs
}

/// What the expansion of `inst` leaves where the global value has the base
/// `base`: `inst` has the payload that `payload` makes of the value of the
/// base, and keeps its result and its place.
///
/// Where the base is the context pointer, its value is the parameter that
/// carries it, and nothing else changes. Otherwise its value is the result
/// of a new `global_value` instruction of type `base_type` that refers to
/// `base`, stands in front of `inst`, and has the source location `srcloc`.
pub open spec fn based_expanded(
    before: &Function,
    after: &Function,
    inst: Inst,
    base: GlobalValue,
    base_type: Type,
    srcloc: SourceLoc,
    payload: spec_fn(Value) -> InstructionData,
) -> bool {
    if before.global_values.at(base) is VMContext {
        let vmctx = before.special_param_spec(ArgumentPurpose::VMContext).unwrap();
        &&& after.dfg@ == before.dfg@.with_data(inst, payload(vmctx))
        &&& after.layout@ == before.layout@
        &&& after.srclocs == before.srclocs
    } else {
        let new_inst = Inst::with_idx(before.dfg@.insts.len());
        let new_value = Value::with_idx(before.dfg@.values.len());
        &&& before.dfg@.pool.is_prefix_of(after.dfg@.pool)
        &&& after.dfg@ == with_built_inst(
            before.dfg@,
            global_value_data(base_type, base),
            base_type,
            after.dfg@.pool,
        ).with_data(inst, payload(new_value))
        &&& after.layout@ == before.layout@.with_inst_before(new_inst, inst)
        &&& srclocs_after(before, after, new_inst, srcloc)
    }
}

/// What the expansion of a reference to a symbol leaves: `inst` is a
/// `symbol_value` of the pointer type `ptr_ty`, and keeps its result and its
/// place.
pub open spec fn symbol_expanded(
    before: &Function,
    after: &Function,
    inst: Inst,
    gv: GlobalValue,
    ptr_ty: Type,
) -> bool {
    &&& after.dfg@ == before.dfg@.with_data(inst, symbol_value_data(ptr_ty, gv))
    &&& after.layout@ == before.layout@
    &&& after.srclocs == before.srclocs
}

/// Whether `after` is what the expansion of `inst` makes of `before` for a
/// target that has `ptr_ty` for its pointer type.
pub open spec fn expands_to(before: &Function, after: &Function, inst: Inst, ptr_ty: Type) -> bool {
    let gv = global_value_of(before, inst).unwrap();
    &&& same_tables(before, after)
    &&& match before.global_values.at(gv) {
        GlobalValueData::VMContext => vmctx_expanded(before, after, inst),
        GlobalValueData::IAddImm { base, offset, global_type } => based_expanded(
            before,
            after,
            inst,
            base,
            global_type,
            SourceLoc(0),
            |lhs: Value| iadd_imm_data(
                if before.global_values.at(base) is VMContext {
                    before.dfg@.value(lhs).ty_spec()
                } else {
                    global_type
                },
                lhs,
                offset,
            ),
        ),
        GlobalValueData::Load { base, offset, global_type } => based_expanded(
            before,
            after,
            inst,
            base,
            ptr_ty,
            before.srclocs.at(inst),
            |base_addr: Value|
                load_data(global_type, MemFlags::with_flags(true, true), base_addr, offset),
        ),
        GlobalValueData::Symbol { .. } => symbol_expanded(before, after, inst, gv, ptr_ty),
    }
}

/// Expands the `global_value` instruction `inst` according to the kind of
/// the global value that it refers to.
///
/// - The context pointer: the result of `inst` becomes an alias of the
///   parameter that carries the context pointer, and `inst` leaves the layout.
/// - A global value plus an offset: `inst` becomes an `iadd_imm` of the value
///   of the base.
/// - What is loaded from a global value: `inst` becomes a `load`, which does
///   not trap and is aligned, from the value of the base.
/// - A symbol: `inst` becomes a `symbol_value`.
///
/// The value of a base that is the context pointer is the parameter that
/// carries it. The value of another base is the result of a `global_value`
/// instruction that is inserted in front of `inst`, to be expanded in turn.
///
/// The expansion adds and removes no branch: the control flow graph `cfg` is
/// the graph of the function after the expansion if it was before.
pub fn expand_global_value(
    inst: Inst,
    func: &mut Function,
    cfg: &mut ControlFlowGraph,
    isa: &TargetIsa,
)
    requires
        old(func).wf(),
        can_expand(old(func), inst),
    ensures
        final(func).wf(),
        expands_to(old(func), final(func), inst, isa.pointer_type_spec()),
        *final(cfg) == *old(cfg),
        flow_edges(final(func)) == flow_edges(old(func)),
{
    let ghost before = *func;

    // Unpack the instruction.
    let gv = match *func.dfg.inst_data(inst) {
        InstructionData::UnaryGlobalValue { global_value, .. } => global_value,
        // No other format is a `global_value` instruction.
        _ => {
            return ;
        },
    };

    match *func.global_values.get(gv) {
        GlobalValueData::VMContext => vmctx_addr(inst, func),
        GlobalValueData::IAddImm { base, offset, global_type } => iadd_imm_addr(
            inst,
            func,
            base,
            offset,
            global_type,
        ),
        GlobalValueData::Load { base, offset, global_type } => load_addr(
            inst,
            func,
            base,
            offset,
            global_type,
            isa,
        ),
        GlobalValueData::Symbol { .. } => symbol(inst, func, gv, isa),
    }
    proof {
        lemma_expansion_keeps_flow(&before, &*func, inst, isa.pointer_type_spec());
    }
}

/// Expand a `global_value` instruction for a vmctx global.
fn vmctx_addr(inst: Inst, func: &mut Function)
    requires
        old(func).wf(),
        old(func).layout@.has_inst(inst),
        old(func).dfg@.results_of(inst).len() == 1,
        old(func).special_param_spec(ArgumentPurpose::VMContext).is_some(),
    ensures
        final(func).wf(),
        same_tables(old(func), final(func)),
        vmctx_expanded(old(func), final(func), inst),
{
    proof {
        old(func).layout@.lemma_inst_pos(inst);
    }
    // Get the value representing the `vmctx` argument.
    let vmctx = match func.special_param(ArgumentPurpose::VMContext) {
        Some(v) => v,
        None => {
            return ;
        },
    };

    // Replace the `global_value` instruction's value with an alias to the vmctx arg.
    let result = func.dfg.first_result(inst);
    proof {
        let dfg = func.dfg@;
        lemma_special_param_valid(&*func, ArgumentPurpose::VMContext);
        assert(dfg.is_result(dfg.results[inst.idx() as int][0], inst.idx() as int, 0));
    }
    func.dfg.clear_results(inst);
    proof {
        let dfg = func.dfg@;
        assert forall|n: nat| #[trigger] dfg.walk(vmctx, n) != result by {
            dfg.lemma_walk_stays(vmctx, n);
        }
        match dfg.value(result) {
            ValueData::Inst { inst: owner, .. } => {
                Inst::lemma_idx_injective(owner, inst);
            },
            _ => {},
        }
    }
    func.dfg.change_to_alias(result, vmctx);
    proof {
        func.layout@.lemma_without_inst(inst);
    }
    func.layout.remove_inst(inst);
    proof {
        assert forall|e: Ebb| #[trigger] func.layout@.has_ebb(e) implies func.dfg@.ebb_is_valid(
            e,
        ) by {
            assert(old(func).layout@.has_ebb(e));
        }
        assert forall|x: Inst, e: Ebb| #[trigger]
            func.layout@.stands_in(x, e) implies func.dfg@.inst_is_valid(x) by {
            assert(old(func).layout@.stands_in(x, e));
        }
    }
}

/// Expand a `global_value` instruction for an iadd_imm global.
fn iadd_imm_addr(inst: Inst, func: &mut Function, base: GlobalValue, offset: i64, global_type: Type)
    requires
        old(func).wf(),
        old(func).layout@.has_inst(inst),
        old(func).dfg@.results_of(inst).len() == 1,
        base_in_reach(old(func), base),
    ensures
        final(func).wf(),
        same_tables(old(func), final(func)),
        based_expanded(
            old(func),
            final(func),
            inst,
            base,
            global_type,
            SourceLoc(0),
            |lhs: Value| iadd_imm_data(
                if old(func).global_values.at(base) is VMContext {
                    old(func).dfg@.value(lhs).ty_spec()
                } else {
                    global_type
                },
                lhs,
                offset,
            ),
        ),
{
    proof {
        old(func).layout@.lemma_inst_pos(inst);
    }
    let mut pos = FuncCursor::new(func).at_inst(inst);

    // Get the value for the lhs. For tidiness, expand VMContext here so that we avoid
    // `vmctx_addr` which creates an otherwise unneeded value alias.
    let lhs = if let GlobalValueData::VMContext = *pos.func.global_values.get(base) {
        match pos.func.special_param(ArgumentPurpose::VMContext) {
            Some(v) => {
                proof {
                    lemma_special_param_valid(&*pos.func, ArgumentPurpose::VMContext);
                }
                v
            },
            None => {
                return ;
            },
        }
    } else {
        let v = pos.ins().global_value(global_type, base);
        proof {
            lemma_built_keeps(
                old(func).dfg@,
                global_value_data(global_type, base),
                global_type,
                pos.func.dfg@.pool,
                inst,
            );
        }
        v
    };

    // Simply replace the `global_value` instruction with an `iadd_imm`, reusing the result value.
    pos.func.dfg.replace(inst).iadd_imm(lhs, offset);
    proof {
        lemma_wf_with_graph_of(&*old(func), &*pos.func);
    }
}

/// Expand a `global_value` instruction for a load global.
fn load_addr(
    inst: Inst,
    func: &mut Function,
    base: GlobalValue,
    offset: i32,
    global_type: Type,
    isa: &TargetIsa,
)
    requires
        old(func).wf(),
        old(func).layout@.has_inst(inst),
        old(func).dfg@.results_of(inst).len() == 1,
        base_in_reach(old(func), base),
    ensures
        final(func).wf(),
        same_tables(old(func), final(func)),
        based_expanded(
            old(func),
            final(func),
            inst,
            base,
            isa.pointer_type_spec(),
            old(func).srclocs.at(inst),
            |base_addr: Value|
                load_data(global_type, MemFlags::with_flags(true, true), base_addr, offset),
        ),
{
    proof {
        old(func).layout@.lemma_inst_pos(inst);
    }
    // We need to load a pointer from the `base` global value, so insert a new `global_value`
    // instruction. This depends on the iterative legalization loop. Note that the IR verifier
    // detects any cycles in the `load` globals.
    let ptr_ty = isa.pointer_type();
    let mut pos = FuncCursor::new(func).at_inst(inst);
    pos.use_srcloc(inst);

    // Get the value for the base. For tidiness, expand VMContext here so that we avoid
    // `vmctx_addr` which creates an otherwise unneeded value alias.
    let base_addr = if let GlobalValueData::VMContext = *pos.func.global_values.get(base) {
        match pos.func.special_param(ArgumentPurpose::VMContext) {
            Some(v) => {
                proof {
                    lemma_special_param_valid(&*pos.func, ArgumentPurpose::VMContext);
                }
                v
            },
            None => {
                return ;
            },
        }
    } else {
        let v = pos.ins().global_value(ptr_ty, base);
        proof {
            lemma_built_keeps(
                old(func).dfg@,
                global_value_data(ptr_ty, base),
                ptr_ty,
                pos.func.dfg@.pool,
                inst,
            );
        }
        v
    };

    // Global-value loads are always notrap and aligned.
    let mut mflags = MemFlags::new();
    mflags.set_notrap();
    mflags.set_aligned();

    // Perform the load.
    pos.func.dfg.replace(inst).load(global_type, mflags, base_addr, offset);
    proof {
        lemma_wf_with_graph_of(&*old(func), &*pos.func);
    }
}

/// Expand a `global_value` instruction for a symbolic name global.
fn symbol(inst: Inst, func: &mut Function, gv: GlobalValue, isa: &TargetIsa)
    requires
        old(func).wf(),
        old(func).layout@.has_inst(inst),
        old(func).dfg@.results_of(inst).len() == 1,
    ensures
        final(func).wf(),
        same_tables(old(func), final(func)),
        symbol_expanded(old(func), final(func), inst, gv, isa.pointer_type_spec()),
{
    proof {
        old(func).layout@.lemma_inst_pos(inst);
    }
    let ptr_ty = isa.pointer_type();
    func.dfg.replace(inst).symbol_value(ptr_ty, gv);
    proof {
        lemma_wf_with_graph_of(&*old(func), &*func);
    }
}

/// The value that carries a purpose into a function is a value of the
/// function.
pub proof fn lemma_special_param_valid(func: &Function, purpose: ArgumentPurpose)
    requires
        func.wf(),
        func.special_param_spec(purpose).is_some(),
    ensures
        func.dfg@.value_is_valid(func.special_param_spec(purpose).unwrap()),
        func.dfg@.value(func.special_param_spec(purpose).unwrap()) is Arg,
        func.dfg@.alias_of(func.special_param_spec(purpose).unwrap()).is_none(),
{
    lemma_first_with_purpose(func.signature.params@, purpose);
    let dfg = func.dfg@;
    assert(func.layout@.ebbs.len() > 0);
    let entry = func.layout@.ebbs[0];
    assert(func.layout@.has_ebb(entry));
    assert(dfg.ebb_is_valid(entry));
    let at = first_with_purpose(func.signature.params@, purpose).unwrap();
    assert(0 <= at < dfg.args_of(entry).len());
    assert(dfg.is_arg(dfg.ebbs[entry.idx() as int][at], entry.idx() as int, at));
}

/// Building a new instruction leaves the instructions that were there as
/// they were, with their results.
pub proof fn lemma_built_keeps(
    dfg: DfgView,
    data: InstructionData,
    ctrl: Type,
    pool: Seq<Value>,
    inst: Inst,
)
    requires
        dfg.wf(),
        dfg.inst_is_valid(inst),
    ensures
        with_built_inst(dfg, data, ctrl, pool).inst_is_valid(inst),
        with_built_inst(dfg, data, ctrl, pool).data(inst) == dfg.data(inst),
        with_built_inst(dfg, data, ctrl, pool).results_of(inst) == dfg.results_of(inst),
{
    Inst::lemma_with_idx(dfg.insts.len());
}

/// A function stays well-formed when its graph is replaced by a well-formed
/// one that holds the blocks and instructions of the layout.
pub proof fn lemma_wf_with_graph_of(before: &Function, after: &Function)
    requires
        before.layout.wf(),
        after.layout == before.layout || after.layout.wf(),
        after.dfg.wf(),
        forall|e: Ebb| #[trigger]
            after.layout@.has_ebb(e) ==> after.dfg@.ebb_is_valid(e),
        forall|x: Inst, e: Ebb| #[trigger]
            after.layout@.stands_in(x, e) ==> after.dfg@.inst_is_valid(x),
    ensures
        after.wf(),
{
}

/// An expansion changes no edge of the control flow: neither the
/// instruction that is expanded nor the one that is inserted passes control
/// to a block.
pub proof fn lemma_expansion_keeps_flow(
    before: &Function,
    after: &Function,
    inst: Inst,
    ptr_ty: Type,
)
    requires
        before.wf(),
        can_expand(before, inst),
        expands_to(before, after, inst, ptr_ty),
    ensures
        flow_edges(after) == flow_edges(before),
{
    let gv = global_value_of(before, inst).unwrap();
    let n = before.dfg@.insts.len();
    let fresh = Inst::with_idx(n);
    Inst::lemma_with_idx(n);
    before.layout@.lemma_inst_pos(inst);
    let home = before.layout@.inst_ebb(inst).unwrap();
    let at = before.layout@.inst_pos(inst);
    assert(before.dfg@.inst_is_valid(inst));
    let inserts = match before.global_values.at(gv) {
        GlobalValueData::IAddImm { base, .. } => !(before.global_values.at(base) is VMContext),
        GlobalValueData::Load { base, .. } => !(before.global_values.at(base) is VMContext),
        _ => false,
    };
    let removes = before.global_values.at(gv) is VMContext;
    assert(branch_targets(before, inst).len() == 0);
    assert(after.layout@.ebbs == before.layout@.ebbs);
    let ebbs = before.layout@.ebbs;
    assert forall|k: int| 0 <= k < ebbs.len() implies edges_of_insts(
        after,
        #[trigger] ebbs[k],
        after.layout@.insts_of(ebbs[k]),
    ) == edges_of_insts(before, ebbs[k], before.layout@.insts_of(ebbs[k])) by {
        let e = ebbs[k];
        let list = before.layout@.insts_of(e);
        assert(before.layout@.has_ebb(e));
        assert forall|j: int| 0 <= j < list.len() implies branch_targets(
            after,
            #[trigger] list[j],
        ) == branch_targets(before, list[j]) by {
            let x = list[j];
            assert(before.layout@.stands_in(x, e));
            assert(before.dfg@.inst_is_valid(x));
            if x.idx() == inst.idx() {
                Inst::lemma_idx_injective(x, inst);
                assert(branch_targets(after, inst).len() == 0);
                assert(branch_targets(after, inst) =~= branch_targets(before, inst));
            } else {
                assert(after.dfg@.data(x) == before.dfg@.data(x));
            }
        }
        lemma_edges_same_targets(before, after, e, list);
        if e == home {
            if inserts {
                assert(after.layout@.insts_of(e) == list.insert(at, fresh));
                assert(branch_targets(after, fresh).len() == 0);
                lemma_edges_inserted(after, e, list, at, fresh);
            } else if removes {
                assert(after.layout@.insts_of(e) == list.remove(at));
                lemma_edges_removed(before, e, list, at);
                let shorter = list.remove(at);
                assert forall|j: int| 0 <= j < shorter.len() implies branch_targets(
                    after,
                    #[trigger] shorter[j],
                ) == branch_targets(before, shorter[j]) by {
                    let i = if j < at { j } else { j + 1 };
                    assert(shorter[j] == list[i]);
                }
                lemma_edges_same_targets(before, after, e, shorter);
            }
        } else {
            assert(after.layout@.insts_of(e) == list);
        }
    }
    lemma_edges_same_blocks(before, after, ebbs);
}

} // verus!
