//! The control flow graph: which instructions pass control to which blocks.
//!
//! An edge of the graph leads from a jump or a branch to a block that it
//! names, or from an indexed branch to a block in its jump table. The graph
//! is computed from a function and is not kept up to date by the function:
//! a pass that adds or removes branches computes it anew.

use crate::ir::entities::{Ebb, Inst};
use crate::ir::function::Function;
use crate::ir::instructions::InstructionData;
use crate::ir::jumptable::JumpTableData;
use vstd::prelude::*;

verus! {

/// An edge: the instruction `inst` of the block `from` may pass control to
/// the block `to`.
#[derive(Clone, Copy, Debug, PartialEq, Eq, Structural)]
pub struct Edge {
    pub from: Ebb,
    pub inst: Inst,
    pub to: Ebb,
}

/// The targets that the entries of a jump table have, in their order.
pub open spec fn table_targets(entries: Seq<Option<Ebb>>) -> Seq<Ebb>
    decreases entries.len(),
{
    if entries.len() == 0 {
        Seq::empty()
    } else {
        match entries.last() {
            Some(e) => table_targets(entries.drop_last()).push(e),
            None => table_targets(entries.drop_last()),
        }
    }
}

/// The blocks that `inst` may pass control to: the destination of a jump or
/// a branch, and the targets in the jump table of an indexed branch that
/// refers to a jump table of the function.
pub open spec fn branch_targets(func: &Function, inst: Inst) -> Seq<Ebb> {
    match func.dfg@.data(inst) {
        InstructionData::Jump { destination, .. } => seq![destination],
        InstructionData::Branch { destination, .. } => seq![destination],
        InstructionData::BranchTable { table, .. } => if func.jump_tables.contains(table) {
            table_targets(func.jump_tables.at(table)@)
        } else {
            Seq::empty()
        },
        _ => Seq::empty(),
    }
}

/// The edges that lead from `inst`, which stands in `ebb`, to `targets`.
pub open spec fn edges_to(ebb: Ebb, inst: Inst, targets: Seq<Ebb>) -> Seq<Edge> {
    Seq::new(targets.len(), |k: int| Edge { from: ebb, inst, to: targets[k] })
}

/// The edges that lead from the instructions `insts` of `ebb`.
pub open spec fn edges_of_insts(func: &Function, ebb: Ebb, insts: Seq<Inst>) -> Seq<Edge>
    decreases insts.len(),
{
    if insts.len() == 0 {
        Seq::empty()
    } else {
        edges_of_insts(func, ebb, insts.drop_last()) + edges_to(
            ebb,
            insts.last(),
            branch_targets(func, insts.last()),
        )
    }
}

/// The edges that lead from the blocks `ebbs`.
pub open spec fn edges_of_ebbs(func: &Function, ebbs: Seq<Ebb>) -> Seq<Edge>
    decreases ebbs.len(),
{
    if ebbs.len() == 0 {
        Seq::empty()
    } else {
        edges_of_ebbs(func, ebbs.drop_last()) + edges_of_insts(
            func,
            ebbs.last(),
            func.layout@.insts_of(ebbs.last()),
        )
    }
}

/// The edges of the function, in the order of the program.
pub open spec fn flow_edges(func: &Function) -> Seq<Edge> {
    edges_of_ebbs(func, func.layout@.ebbs)
}

/// Where the edges among `edges` that lead to `ebb` come from.
pub open spec fn predecessors_in(edges: Seq<Edge>, ebb: Ebb) -> Seq<(Ebb, Inst)>
    decreases edges.len(),
{
    if edges.len() == 0 {
        Seq::empty()
    } else if edges.last().to == ebb {
        predecessors_in(edges.drop_last(), ebb).push((edges.last().from, edges.last().inst))
    } else {
        predecessors_in(edges.drop_last(), ebb)
    }
}

/// Where the edges among `edges` that come from `ebb` lead to.
pub open spec fn successors_in(edges: Seq<Edge>, ebb: Ebb) -> Seq<Ebb>
    decreases edges.len(),
{
    if edges.len() == 0 {
        Seq::empty()
    } else if edges.last().from == ebb {
        successors_in(edges.drop_last(), ebb).push(edges.last().to)
    } else {
        successors_in(edges.drop_last(), ebb)
    }
}

/// The control flow graph of a function.
pub struct ControlFlowGraph {
    edges: Vec<Edge>,
    valid: bool,
}

impl View for ControlFlowGraph {
    type V = Seq<Edge>;

    closed spec fn view(&self) -> Seq<Edge> {
        self.edges@
    }
}

impl ControlFlowGraph {
    /// Whether the graph was computed from a function.
    pub closed spec fn is_valid_spec(&self) -> bool {
        self.valid
    }

    /// A graph without edges, which is not computed from any function yet.
    pub fn new() -> (cfg: ControlFlowGraph)
        ensures
            !cfg.is_valid_spec(),
            cfg@ == Seq::<Edge>::empty(),
    {
        ControlFlowGraph { edges: Vec::new(), valid: false }
    }

    /// The graph of `func`.
    pub fn with_function(func: &Function) -> (cfg: ControlFlowGraph)
        requires
            func.wf(),
        ensures
            cfg.is_valid_spec(),
            cfg@ == flow_edges(func),
    {
        let mut cfg = ControlFlowGraph::new();
        cfg.compute(func);
        cfg
    }

    /// Forgets the edges.
    pub fn clear(&mut self)
        ensures
            !final(self).is_valid_spec(),
            final(self)@ == Seq::<Edge>::empty(),
    {
        self.edges = Vec::new();
        self.valid = false;
    }

    /// Whether the graph was computed from a function.
    pub fn is_valid(&self) -> (b: bool)
        ensures
            b == self.is_valid_spec(),
    {
        self.valid
    }

    /// Computes the graph of `func`.
    pub fn compute(&mut self, func: &Function)
        requires
            func.wf(),
        ensures
            final(self).is_valid_spec(),
            final(self)@ == flow_edges(func),
    {
        self.edges = Vec::new();
        self.valid = true;
        let ebbs = func.layout.ebbs();
        let mut a: usize = 0;
        while a < ebbs.len()
            invariant
                func.wf(),
                self.valid,
                a <= ebbs@.len(),
                ebbs@ == func.layout@.ebbs,
                self.edges@ == edges_of_ebbs(func, ebbs@.subrange(0, a as int)),
            decreases ebbs@.len() - a,
        {
            let ebb = ebbs[a];
            let insts = func.layout.ebb_insts(ebb);
            let ghost done = self.edges@;
            proof {
                assert(func.layout@.has_ebb(ebb));
            }
            let mut b: usize = 0;
            while b < insts.len()
                invariant
                    func.wf(),
                    self.valid,
                    func.layout@.has_ebb(ebb),
                    b <= insts@.len(),
                    insts@ == func.layout@.insts_of(ebb),
                    self.edges@ == done + edges_of_insts(func, ebb, insts@.subrange(0, b as int)),
                decreases insts@.len() - b,
            {
                let inst = insts[b];
                let ghost before = self.edges@;
                proof {
                    assert(insts@.contains(inst));
                    assert(func.layout@.stands_in(inst, ebb));
                    let upto = insts@.subrange(0, b + 1);
                    assert(upto.drop_last() =~= insts@.subrange(0, b as int));
                    assert(upto.last() == inst);
                }
                match func.dfg.inst_data(inst) {
                    InstructionData::Jump { destination, .. } => {
                        self.edges.push(Edge { from: ebb, inst, to: *destination });
                        proof {
                            assert(self.edges@ =~= before + edges_to(
                                ebb,
                                inst,
                                branch_targets(func, inst),
                            ));
                        }
                    },
                    InstructionData::Branch { destination, .. } => {
                        self.edges.push(Edge { from: ebb, inst, to: *destination });
                        proof {
                            assert(self.edges@ =~= before + edges_to(
                                ebb,
                                inst,
                                branch_targets(func, inst),
                            ));
                        }
                    },
                    InstructionData::BranchTable { table, .. } => {
                        if func.jump_tables.is_valid(*table) {
                            let jt = func.jump_tables.get(*table);
                            self.push_table_edges(ebb, inst, jt);
                        } else {
                            proof {
                                assert(self.edges@ =~= before + edges_to(
                                    ebb,
                                    inst,
                                    branch_targets(func, inst),
                                ));
                            }
                        }
                    },
                    _ => {
                        proof {
                            assert(self.edges@ =~= before + edges_to(
                                ebb,
                                inst,
                                branch_targets(func, inst),
                            ));
                        }
                    },
                }
                b = b + 1;
                proof {
                    assert(self.edges@ =~= done + edges_of_insts(
                        func,
                        ebb,
                        insts@.subrange(0, b as int),
                    ));
                }
            }
            proof {
                assert(insts@.subrange(0, insts@.len() as int) =~= insts@);
                let upto = ebbs@.subrange(0, a + 1);
                assert(upto.drop_last() =~= ebbs@.subrange(0, a as int));
                assert(upto.last() == ebb);
            }
            a = a + 1;
        }
        proof {
            assert(ebbs@.subrange(0, ebbs@.len() as int) =~= ebbs@);
        }
    }

    /// Adds the edges from `inst` to the targets of the jump table `jt`.
    fn push_table_edges(&mut self, ebb: Ebb, inst: Inst, jt: &JumpTableData)
        ensures
            final(self).valid == old(self).valid,
            final(self).edges@ == old(self).edges@ + edges_to(ebb, inst, table_targets(jt@)),
    {
        let mut k: usize = 0;
        while k < jt.len()
            invariant
                k <= jt@.len(),
                self.valid == old(self).valid,
                self.edges@ == old(self).edges@ + edges_to(
                    ebb,
                    inst,
                    table_targets(jt@.subrange(0, k as int)),
                ),
            decreases jt@.len() - k,
        {
            let ghost before = self.edges@;
            proof {
                let upto = jt@.subrange(0, k + 1);
                assert(upto.drop_last() =~= jt@.subrange(0, k as int));
                assert(upto.last() == jt@[k as int]);
            }
            match jt.get_entry(k) {
                Some(to) => {
                    self.edges.push(Edge { from: ebb, inst, to });
                },
                None => {},
            }
            k = k + 1;
            proof {
                assert(self.edges@ =~= old(self).edges@ + edges_to(
                    ebb,
                    inst,
                    table_targets(jt@.subrange(0, k as int)),
                ));
            }
        }
        proof {
            assert(jt@.subrange(0, jt@.len() as int) =~= jt@);
        }
    }

    /// The instructions that may pass control to `ebb`, each with its
    /// block, in the order of the program.
    pub fn predecessors(&self, ebb: Ebb) -> (out: Vec<(Ebb, Inst)>)
        ensures
            out@ == predecessors_in(self@, ebb),
    {
        let mut out: Vec<(Ebb, Inst)> = Vec::new();
        let mut i: usize = 0;
        while i < self.edges.len()
            invariant
                i <= self.edges@.len(),
                out@ == predecessors_in(self.edges@.subrange(0, i as int), ebb),
            decreases self.edges@.len() - i,
        {
            proof {
                let upto = self.edges@.subrange(0, i + 1);
                assert(upto.drop_last() =~= self.edges@.subrange(0, i as int));
                assert(upto.last() == self.edges@[i as int]);
            }
            let e = self.edges[i];
            if e.to == ebb {
                out.push((e.from, e.inst));
            }
            i = i + 1;
        }
        proof {
            assert(self.edges@.subrange(0, self.edges@.len() as int) =~= self.edges@);
        }
        out
    }

    /// The blocks that the instructions of `ebb` may pass control to, in the
    /// order of the program.
    pub fn successors(&self, ebb: Ebb) -> (out: Vec<Ebb>)
        ensures
            out@ == successors_in(self@, ebb),
    {
        let mut out: Vec<Ebb> = Vec::new();
        let mut i: usize = 0;
        while i < self.edges.len()
            invariant
                i <= self.edges@.len(),
                out@ == successors_in(self.edges@.subrange(0, i as int), ebb),
            decreases self.edges@.len() - i,
        {
            proof {
                let upto = self.edges@.subrange(0, i + 1);
                assert(upto.drop_last() =~= self.edges@.subrange(0, i as int));
                assert(upto.last() == self.edges@[i as int]);
            }
            let e = self.edges[i];
            if e.from == ebb {
                out.push(e.to);
            }
            i = i + 1;
        }
        proof {
            assert(self.edges@.subrange(0, self.edges@.len() as int) =~= self.edges@);
        }
        out
    }
}


/// The edges from a list of instructions depend on where its instructions
/// may pass control to, and on nothing else.
pub proof fn lemma_edges_same_targets(
    before: &Function,
    after: &Function,
    ebb: Ebb,
    insts: Seq<Inst>,
)
    requires
        forall|j: int|
            0 <= j < insts.len() ==> branch_targets(after, #[trigger] insts[j]) == branch_targets(
                before,
                insts[j],
            ),
    ensures
        edges_of_insts(after, ebb, insts) == edges_of_insts(before, ebb, insts),
    decreases insts.len(),
{
    if insts.len() > 0 {
        let rest = insts.drop_last();
        assert forall|j: int| 0 <= j < rest.len() implies branch_targets(
            after,
            #[trigger] rest[j],
        ) == branch_targets(before, rest[j]) by {
            assert(rest[j] == insts[j]);
        }
        lemma_edges_same_targets(before, after, ebb, rest);
        assert(insts.last() == insts[insts.len() - 1]);
    }
}

/// An instruction that passes control nowhere adds no edge where it is
/// inserted.
pub proof fn lemma_edges_inserted(func: &Function, ebb: Ebb, insts: Seq<Inst>, at: int, inst: Inst)
    requires
        0 <= at <= insts.len(),
        branch_targets(func, inst).len() == 0,
    ensures
        edges_of_insts(func, ebb, insts.insert(at, inst)) == edges_of_insts(func, ebb, insts),
    decreases insts.len(),
{
    let longer = insts.insert(at, inst);
    if at == insts.len() {
        assert(longer.drop_last() =~= insts);
        assert(longer.last() == inst);
        assert(edges_to(ebb, inst, branch_targets(func, inst)) =~= Seq::<Edge>::empty());
    } else {
        assert(longer.drop_last() =~= insts.drop_last().insert(at, inst));
        assert(longer.last() == insts.last());
        lemma_edges_inserted(func, ebb, insts.drop_last(), at, inst);
    }
}

/// An instruction that passes control nowhere takes no edge with it where
/// it is removed.
pub proof fn lemma_edges_removed(func: &Function, ebb: Ebb, insts: Seq<Inst>, at: int)
    requires
        0 <= at < insts.len(),
        branch_targets(func, insts[at]).len() == 0,
    ensures
        edges_of_insts(func, ebb, insts.remove(at)) == edges_of_insts(func, ebb, insts),
    decreases insts.len(),
{
    let shorter = insts.remove(at);
    if at == insts.len() - 1 {
        assert(shorter =~= insts.drop_last());
        assert(edges_to(ebb, insts.last(), branch_targets(func, insts.last()))
            =~= Seq::<Edge>::empty());
    } else {
        assert(shorter.drop_last() =~= insts.drop_last().remove(at));
        assert(shorter.last() == insts.last());
        assert(insts.drop_last()[at] == insts[at]);
        lemma_edges_removed(func, ebb, insts.drop_last(), at);
    }
}

/// Two functions whose blocks have the same edges have the same edges.
pub proof fn lemma_edges_same_blocks(before: &Function, after: &Function, ebbs: Seq<Ebb>)
    requires
        forall|k: int|
            0 <= k < ebbs.len() ==> edges_of_insts(
                after,
                #[trigger] ebbs[k],
                after.layout@.insts_of(ebbs[k]),
            ) == edges_of_insts(before, ebbs[k], before.layout@.insts_of(ebbs[k])),
    ensures
        edges_of_ebbs(after, ebbs) == edges_of_ebbs(before, ebbs),
    decreases ebbs.len(),
{
    if ebbs.len() > 0 {
        let rest = ebbs.drop_last();
        assert forall|k: int| 0 <= k < rest.len() implies edges_of_insts(
            after,
            #[trigger] rest[k],
            after.layout@.insts_of(rest[k]),
        ) == edges_of_insts(before, rest[k], before.layout@.insts_of(rest[k])) by {
            assert(rest[k] == ebbs[k]);
        }
        lemma_edges_same_blocks(before, after, rest);
        assert(ebbs.last() == ebbs[ebbs.len() - 1]);
    }
}

} // verus!
