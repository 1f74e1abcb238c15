//! Expanding every global value of a function.
//!
//! An expansion may insert a `global_value` instruction for the base of the
//! global value that it expands, which is expanded in turn. The work comes to
//! an end because the chains of bases do: what is left to do is measured by
//! the depths of the global values that the layout still refers to, and
//! every expansion makes it less.

use crate::cursor::same_tables;
use crate::entity::EntityRef;
use crate::flowgraph::{flow_edges, ControlFlowGraph};
use crate::ir::builder::global_value_data;
use crate::ir::entities::{Ebb, GlobalValue, Inst};
use crate::ir::extfunc::ArgumentPurpose;
use crate::ir::function::Function;
use crate::ir::globalvalue::{
    bases_end, chain_ends, depth, lemma_base_is_nearer, GlobalValueData,
};
use crate::ir::instructions::{InstructionData, Opcode};
use crate::ir::types::Type;
use crate::isa::TargetIsa;
use crate::legalizer::globalvalue::{can_expand, expand_global_value, expands_to, global_value_of};
use vstd::prelude::*;

verus! {

/// The sum of the weights `w` of the numbers below `n`.
pub open spec fn sum_below(w: spec_fn(int) -> nat, n: nat) -> nat
    decreases n,
{
    if n == 0 {
        0
    } else {
        sum_below(w, (n - 1) as nat) + w(n - 1)
    }
}

/// Two sums that differ in the weight of one number differ by as much.
pub proof fn lemma_sum_one_differs(
    w: spec_fn(int) -> nat,
    v: spec_fn(int) -> nat,
    n: nat,
    at: int,
)
    requires
        forall|j: int| 0 <= j < n && j != at ==> #[trigger] w(j) == v(j),
    ensures
        0 <= at < n ==> sum_below(v, n) + w(at) == sum_below(w, n) + v(at),
        !(0 <= at < n) ==> sum_below(v, n) == sum_below(w, n),
    decreases n,
{
    if n > 0 {
        lemma_sum_one_differs(w, v, (n - 1) as nat, at);
    }
}

/// A sum is no less than any of its terms.
pub proof fn lemma_sum_at_least(w: spec_fn(int) -> nat, n: nat, at: int)
    requires
        0 <= at < n,
    ensures
        sum_below(w, n) >= w(at),
    decreases n,
{
    if at < n - 1 {
        lemma_sum_at_least(w, (n - 1) as nat, at);
    }
}

/// What is left to do for instruction number `i`: nothing, unless it is a
/// `global_value` instruction in the layout; then one more than the depth
/// of the global value that it refers to.
pub open spec fn pending_weight(func: &Function, i: int) -> nat {
    let inst = Inst::with_idx(i as nat);
    if func.layout@.has_inst(inst) {
        match global_value_of(func, inst) {
            Some(gv) => depth(func.global_values@, gv) + 1,
            None => 0,
        }
    } else {
        0
    }
}

/// What is left to do for the function: the sum of what is left to do for
/// its instructions. Every expansion makes it less.
pub open spec fn pending_work(func: &Function) -> nat {
    sum_below(|i: int| pending_weight(func, i), func.dfg@.insts.len())
}

/// Whether nothing stands in the way of expanding the `global_value`
/// instructions of the layout: each has one result and refers to a global
/// value of the function, and the function has a parameter for the context
/// pointer if a global value is the context pointer.
pub open spec fn expandable(func: &Function) -> bool {
    &&& forall|inst: Inst|
        func.layout@.has_inst(inst) && (#[trigger] global_value_of(func, inst)).is_some()
            ==> func.dfg@.results_of(inst).len() == 1 && func.global_values.contains(
            global_value_of(func, inst).unwrap(),
        )
    &&& func.special_param_spec(ArgumentPurpose::VMContext).is_some() || forall|gv: GlobalValue|
        func.global_values.contains(gv) ==> !(#[trigger] func.global_values.at(gv) is VMContext)
}

/// Whether no `global_value` instruction stands in the layout.
pub open spec fn none_left(func: &Function) -> bool {
    forall|inst: Inst|
        func.layout@.has_inst(inst) ==> (#[trigger] global_value_of(func, inst)).is_none()
}

/// The first `global_value` instruction in the layout, if there is one.
pub fn find_global_value_inst(func: &Function) -> (found: Option<Inst>)
    requires
        func.wf(),
    ensures
        match found {
            Some(inst) => func.layout@.has_inst(inst) && global_value_of(func, inst).is_some(),
            None => none_left(func),
        },
{
    let ebbs = func.layout.ebbs();
    let mut a: usize = 0;
    while a < ebbs.len()
        invariant
            func.wf(),
            a <= ebbs@.len(),
            ebbs@ == func.layout@.ebbs,
            forall|k: int, j: int|
                0 <= k < a && 0 <= j < func.layout@.insts_of(ebbs@[k]).len() ==> global_value_of(
                    func,
                    #[trigger] func.layout@.insts_of(ebbs@[k])[j],
                ).is_none(),
        decreases ebbs@.len() - a,
    {
        let ebb = ebbs[a];
        let insts = func.layout.ebb_insts(ebb);
        proof {
            assert(func.layout@.has_ebb(ebb));
        }
        let mut b: usize = 0;
        while b < insts.len()
            invariant
                func.wf(),
                func.layout@.has_ebb(ebb),
                b <= insts@.len(),
                insts@ == func.layout@.insts_of(ebb),
                forall|j: int|
                    0 <= j < b ==> global_value_of(func, #[trigger] insts@[j]).is_none(),
            decreases insts@.len() - b,
        {
            let inst = insts[b];
            proof {
                assert(insts@.contains(inst));
                assert(func.layout@.stands_in(inst, ebb));
            }
            match func.dfg.inst_data(inst) {
                InstructionData::UnaryGlobalValue { opcode, .. } => {
                    if *opcode == Opcode::GlobalValue {
                        return Some(inst);
                    }
                },
                _ => {},
            }
            b = b + 1;
        }
        a = a + 1;
    }
    proof {
        assert forall|inst: Inst| func.layout@.has_inst(inst) implies (#[trigger] global_value_of(
            func,
            inst,
        )).is_none() by {
            let e = choose|e: Ebb| #[trigger] func.layout@.stands_in(inst, e);
            assert(func.layout@.stands_in(inst, e));
            let k = ebbs@.index_of(e);
            let j = func.layout@.insts_of(e).index_of(inst);
            assert(func.layout@.insts_of(ebbs@[k])[j] == inst);
        }
    }
    None
}

/// Expands the `global_value` instructions of the function, and those that
/// the expansions insert, until none is left in the layout. Returns the
/// number of expansions.
///
/// The chains of bases of the global values must end; so does the work: an
/// expansion removes one reference to a global value and adds at most one
/// to its base, which is nearer to the end of its chain.
pub fn expand_global_values(
    func: &mut Function,
    cfg: &mut ControlFlowGraph,
    isa: &TargetIsa,
) -> (count: usize)
    requires
        old(func).wf(),
        bases_end(old(func).global_values@),
        expandable(old(func)),
        old(func).dfg@.insts.len() + pending_work(old(func)) <= u32::MAX,
        old(func).dfg@.values.len() + pending_work(old(func)) <= u32::MAX,
    ensures
        final(func).wf(),
        none_left(final(func)),
        same_tables(old(func), final(func)),
        count <= pending_work(old(func)),
        final(func).layout@.ebbs == old(func).layout@.ebbs,
        *final(cfg) == *old(cfg),
        flow_edges(final(func)) == flow_edges(old(func)),
{
    let mut count: usize = 0;
    let ghost start = pending_work(&*func);
    loop
        invariant
            func.wf(),
            bases_end(func.global_values@),
            expandable(&*func),
            func.dfg@.insts.len() + pending_work(&*func) <= u32::MAX,
            func.dfg@.values.len() + pending_work(&*func) <= u32::MAX,
            same_tables(old(func), &*func),
            func.layout@.ebbs == old(func).layout@.ebbs,
            start == pending_work(old(func)),
            start <= u32::MAX,
            count + pending_work(&*func) <= start,
            *cfg == *old(cfg),
            flow_edges(&*func) == flow_edges(old(func)),
        ensures
            none_left(&*func),
        decreases pending_work(&*func),
    {
        let ghost before = *func;
        match find_global_value_inst(&*func) {
            None => {
                break ;
            },
            Some(inst) => {
                proof {
                    lemma_can_expand(&*func, inst);
                }
                expand_global_value(inst, func, cfg, isa);
                proof {
                    lemma_expansion_lessens(&before, &*func, inst, isa.pointer_type_spec());
                    lemma_expansion_keeps_blocks(&before, &*func, inst, isa.pointer_type_spec());
                }
                count = count + 1;
            },
        }
    }
    count
}

/// A `global_value` instruction of a function whose `global_value`
/// instructions are ready, whose chains of bases end, and which has room
/// for what is left to do, can be expanded.
pub proof fn lemma_can_expand(func: &Function, inst: Inst)
    requires
        func.wf(),
        bases_end(func.global_values@),
        expandable(func),
        func.layout@.has_inst(inst),
        global_value_of(func, inst).is_some(),
        func.dfg@.insts.len() + pending_work(func) <= u32::MAX,
        func.dfg@.values.len() + pending_work(func) <= u32::MAX,
    ensures
        can_expand(func, inst),
        pending_work(func) > 0,
{
    let gvs = func.global_values@;
    let gv = global_value_of(func, inst).unwrap();
    assert(chain_ends(gvs, gv));
    match func.global_values.at(gv).base_spec() {
        Some(base) => {
            lemma_base_is_nearer(gvs, gv, base);
        },
        None => {},
    }
    func.layout@.lemma_inst_pos(inst);
    assert(func.dfg@.inst_is_valid(inst));
    Inst::lemma_with_idx(inst.idx());
    Inst::lemma_idx_injective(Inst::with_idx(inst.idx()), inst);
    let w = |i: int| pending_weight(func, i);
    assert(w(inst.idx() as int) >= 1);
    lemma_sum_at_least(w, func.dfg@.insts.len(), inst.idx() as int);
}

/// An instruction is in the layout after another was put in front of a
/// third exactly if it is that other one or was in the layout before.
pub proof fn lemma_has_inst_after_insert(func: &Function, fresh: Inst, before: Inst, x: Inst)
    requires
        func.layout@.wf(),
        func.layout@.has_inst(before),
    ensures
        func.layout@.with_inst_before(fresh, before).has_inst(x) <==> x == fresh
            || func.layout@.has_inst(x),
{
    let l = func.layout@;
    let after = l.with_inst_before(fresh, before);
    l.lemma_with_inst_before(fresh, before);
    if after.has_inst(x) {
        let e = choose|e: Ebb| #[trigger] after.stands_in(x, e);
        assert(after.stands_in(x, e));
    }
    if l.has_inst(x) {
        let e = choose|e: Ebb| #[trigger] l.stands_in(x, e);
        assert(after.stands_in(x, e));
    }
}

/// An instruction is in the layout after another was taken out exactly if
/// it is not that other one and was in the layout before.
pub proof fn lemma_has_inst_after_remove(func: &Function, gone: Inst, x: Inst)
    requires
        func.layout@.wf(),
        func.layout@.has_inst(gone),
    ensures
        func.layout@.without_inst(gone).has_inst(x) <==> x != gone && func.layout@.has_inst(x),
{
    let l = func.layout@;
    let after = l.without_inst(gone);
    l.lemma_without_inst(gone);
    if after.has_inst(x) {
        let e = choose|e: Ebb| #[trigger] after.stands_in(x, e);
        assert(after.stands_in(x, e));
    }
    if l.has_inst(x) && x != gone {
        let e = choose|e: Ebb| #[trigger] l.stands_in(x, e);
        assert(after.stands_in(x, e));
    }
}

/// An expansion leaves less to do, leaves a function whose `global_value`
/// instructions can be expanded in turn, and adds no more than one
/// instruction and one value.
pub proof fn lemma_expansion_lessens(before: &Function, after: &Function, inst: Inst, ptr_ty: Type)
    requires
        before.wf(),
        after.wf(),
        can_expand(before, inst),
        expands_to(before, after, inst, ptr_ty),
        bases_end(before.global_values@),
        expandable(before),
    ensures
        pending_work(after) < pending_work(before),
        expandable(after),
        after.global_values == before.global_values,
        after.dfg@.insts.len() <= before.dfg@.insts.len() + 1,
        after.dfg@.values.len() <= before.dfg@.values.len() + 1,
        after.dfg@.insts.len() + pending_work(after) <= before.dfg@.insts.len() + pending_work(
            before,
        ),
        after.dfg@.values.len() + pending_work(after) <= before.dfg@.values.len() + pending_work(
            before,
        ),
{
    let gvs = before.global_values@;
    let gv = global_value_of(before, inst).unwrap();
    let n = before.dfg@.insts.len();
    let i0 = inst.idx() as int;
    let wb = |i: int| pending_weight(before, i);
    let wa = |i: int| pending_weight(after, i);
    before.layout@.lemma_inst_pos(inst);
    assert(before.dfg@.inst_is_valid(inst));
    Inst::lemma_with_idx(inst.idx());
    Inst::lemma_idx_injective(Inst::with_idx(inst.idx()), inst);
    assert(chain_ends(gvs, gv));
    assert(wb(i0) == depth(gvs, gv) + 1);
    let fresh = Inst::with_idx(n);
    Inst::lemma_with_idx(n);
    let inserts = match before.global_values.at(gv) {
        GlobalValueData::IAddImm { base, .. } => !(before.global_values.at(base) is VMContext),
        GlobalValueData::Load { base, .. } => !(before.global_values.at(base) is VMContext),
        _ => false,
    };
    assert(before.special_param_spec(ArgumentPurpose::VMContext) == after.special_param_spec(
        ArgumentPurpose::VMContext,
    )) by {
        if inserts {
            before.layout@.lemma_with_inst_before(fresh, inst);
        }
        if before.global_values.at(gv) is VMContext {
            before.layout@.lemma_without_inst(inst);
        }
    }
    assert forall|j: int| 0 <= j < n && j != i0 implies #[trigger] wb(j) == wa(j) by {
        let x = Inst::with_idx(j as nat);
        Inst::lemma_with_idx(j as nat);
        if inserts {
            lemma_has_inst_after_insert(before, fresh, inst, x);
        }
        if before.global_values.at(gv) is VMContext {
            lemma_has_inst_after_remove(before, inst, x);
        }
        assert(after.dfg@.data(x) == before.dfg@.data(x));
    }
    assert(wa(i0) == 0) by {
        if before.global_values.at(gv) is VMContext {
            lemma_has_inst_after_remove(before, inst, inst);
        }
    }
    lemma_sum_one_differs(wb, wa, n, i0);
    if inserts {
        let base = before.global_values.at(gv).base_spec().unwrap();
        lemma_base_is_nearer(gvs, gv, base);
        lemma_has_inst_after_insert(before, fresh, inst, fresh);
        assert(after.dfg@.data(fresh) == global_value_data(
            after.dfg@.data(fresh).first_type_spec(),
            base,
        ));
        assert(wa(n as int) == depth(gvs, base) + 1);
        assert(sum_below(wa, n + 1) == sum_below(wa, n) + wa(n as int));
    }
    assert forall|x: Inst|
        after.layout@.has_inst(x) && (#[trigger] global_value_of(after, x)).is_some()
            implies after.dfg@.results_of(x).len() == 1 && after.global_values.contains(
        global_value_of(after, x).unwrap(),
    ) by {
        if inserts {
            lemma_has_inst_after_insert(before, fresh, inst, x);
        }
        if before.global_values.at(gv) is VMContext {
            lemma_has_inst_after_remove(before, inst, x);
        }
        if x.idx() == i0 {
            Inst::lemma_idx_injective(x, inst);
        } else if inserts && x.idx() == n {
            Inst::lemma_idx_injective(x, fresh);
            let base = before.global_values.at(gv).base_spec().unwrap();
            lemma_base_is_nearer(gvs, gv, base);
        } else {
            assert(before.layout@.has_inst(x));
            let e = choose|e: Ebb| #[trigger] before.layout@.stands_in(x, e);
            assert(before.layout@.stands_in(x, e));
            assert(before.dfg@.inst_is_valid(x));
            assert(after.dfg@.data(x) == before.dfg@.data(x));
            assert(global_value_of(before, x).is_some());
        }
    }
}

/// An expansion leaves the blocks of the layout as they were.
pub proof fn lemma_expansion_keeps_blocks(
    before: &Function,
    after: &Function,
    inst: Inst,
    ptr_ty: Type,
)
    requires
        before.wf(),
        can_expand(before, inst),
        expands_to(before, after, inst, ptr_ty),
    ensures
        after.layout@.ebbs == before.layout@.ebbs,
{
}

} // verus!
