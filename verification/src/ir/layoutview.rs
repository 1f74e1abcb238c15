//! The layout as a mathematical value, and what holds of it.
//!
//! The contracts of `Layout` speak of a `LayoutView`: the blocks of the
//! program as a sequence, and the instructions of each block as a sequence.
//! Here are the well-formedness of such a value, what appending, inserting
//! and removing make of it, and the laws of these.

use crate::ir::entities::{Ebb, Inst};
use vstd::prelude::*;

verus! {

/// The layout as a mathematical value.
pub struct LayoutView {
    /// The blocks of the program, in their order.
    pub ebbs: Seq<Ebb>,
    /// The instructions of each of those blocks, in their order.
    pub insts: Map<Ebb, Seq<Inst>>,
}

/// The element in front of position `k` of `s`, if there is one.
pub open spec fn before_at<A>(s: Seq<A>, k: int) -> Option<A> {
    if 0 < k <= s.len() {
        Some(s[k - 1])
    } else {
        None
    }
}

/// The element behind position `k` of `s`, if there is one.
pub open spec fn after_at<A>(s: Seq<A>, k: int) -> Option<A> {
    if -1 <= k < s.len() - 1 {
        Some(s[k + 1])
    } else {
        None
    }
}

impl LayoutView {
    /// The instructions of `ebb`; none for a block that is not in the layout.
    pub open spec fn insts_of(self, ebb: Ebb) -> Seq<Inst> {
        if self.insts.dom().contains(ebb) {
            self.insts[ebb]
        } else {
            Seq::empty()
        }
    }

    /// Whether `ebb` is in the layout.
    pub open spec fn has_ebb(self, ebb: Ebb) -> bool {
        self.ebbs.contains(ebb)
    }

    /// Whether `inst` stands in `ebb`.
    pub open spec fn stands_in(self, inst: Inst, ebb: Ebb) -> bool {
        self.ebbs.contains(ebb) && self.insts_of(ebb).contains(inst)
    }

    /// Whether `inst` is in the layout.
    pub open spec fn has_inst(self, inst: Inst) -> bool {
        exists|ebb: Ebb| #[trigger] self.stands_in(inst, ebb)
    }

    /// The block that `inst` stands in, if it is in the layout.
    pub open spec fn inst_ebb(self, inst: Inst) -> Option<Ebb> {
        if self.has_inst(inst) {
            Some(choose|ebb: Ebb| #[trigger] self.stands_in(inst, ebb))
        } else {
            None
        }
    }

    /// The position of `inst` in its block.
    pub open spec fn inst_pos(self, inst: Inst) -> int
        recommends
            self.has_inst(inst),
    {
        self.insts_of(self.inst_ebb(inst).unwrap()).index_of(inst)
    }

    /// The layout with `ebb` behind its last block.
    pub open spec fn with_ebb_appended(self, ebb: Ebb) -> LayoutView {
        LayoutView { ebbs: self.ebbs.push(ebb), insts: self.insts.insert(ebb, Seq::empty()) }
    }

    /// The layout with `inst` behind the last instruction of `ebb`.
    pub open spec fn with_inst_appended(self, inst: Inst, ebb: Ebb) -> LayoutView {
        LayoutView { insts: self.insts.insert(ebb, self.insts_of(ebb).push(inst)), ..self }
    }

    /// The layout with `inst` in front of `before`.
    pub open spec fn with_inst_before(self, inst: Inst, before: Inst) -> LayoutView
        recommends
            self.has_inst(before),
    {
        let ebb = self.inst_ebb(before).unwrap();
        LayoutView {
            insts: self.insts.insert(ebb, self.insts_of(ebb).insert(self.inst_pos(before), inst)),
            ..self
        }
    }

    /// The layout with `inst` behind `after`.
    pub open spec fn with_inst_after(self, inst: Inst, after: Inst) -> LayoutView
        recommends
            self.has_inst(after),
    {
        let ebb = self.inst_ebb(after).unwrap();
        LayoutView {
            insts: self.insts.insert(
                ebb,
                self.insts_of(ebb).insert(self.inst_pos(after) + 1, inst),
            ),
            ..self
        }
    }

    /// The layout without `inst`.
    pub open spec fn without_inst(self, inst: Inst) -> LayoutView
        recommends
            self.has_inst(inst),
    {
        let ebb = self.inst_ebb(inst).unwrap();
        LayoutView {
            insts: self.insts.insert(ebb, self.insts_of(ebb).remove(self.inst_pos(inst))),
            ..self
        }
    }

    /// What holds of every layout: no block and no instruction stands in the
    /// program twice.
    pub open spec fn wf(self) -> bool {
        &&& self.ebbs.no_duplicates()
        &&& forall|ebb: Ebb| self.insts.dom().contains(ebb) <==> self.ebbs.contains(ebb)
        &&& forall|ebb: Ebb| (#[trigger] self.insts_of(ebb)).no_duplicates()
        &&& forall|inst: Inst, a: Ebb, b: Ebb|
            #[trigger] self.stands_in(inst, a) && #[trigger] self.stands_in(inst, b) ==> a == b
    }

    /// Where `inst` stands in its block, and that its block is in the layout.
    pub proof fn lemma_inst_pos(self, inst: Inst)
        requires
            self.wf(),
            self.has_inst(inst),
        ensures
            self.inst_ebb(inst).is_some(),
            self.stands_in(inst, self.inst_ebb(inst).unwrap()),
            0 <= self.inst_pos(inst) < self.insts_of(self.inst_ebb(inst).unwrap()).len(),
            self.insts_of(self.inst_ebb(inst).unwrap())[self.inst_pos(inst)] == inst,
    {
        let e = choose|e: Ebb| #[trigger] self.stands_in(inst, e);
        assert(self.stands_in(inst, e));
    }

    /// Putting an instruction in front of another adds it to the layout and
    /// moves no other instruction to another block.
    pub proof fn lemma_with_inst_before(self, inst: Inst, before: Inst)
        requires
            self.wf(),
            self.has_inst(before),
        ensures
            self.with_inst_before(inst, before).ebbs == self.ebbs,
            self.with_inst_before(inst, before).stands_in(inst, self.inst_ebb(before).unwrap()),
            forall|x: Inst, e: Ebb| #[trigger]
                self.with_inst_before(inst, before).stands_in(x, e) ==> (x == inst && e
                    == self.inst_ebb(before).unwrap()) || self.stands_in(x, e),
            forall|x: Inst, e: Ebb| #[trigger]
                self.stands_in(x, e) ==> self.with_inst_before(inst, before).stands_in(x, e),
    {
        self.lemma_inst_pos(before);
        let ebb = self.inst_ebb(before).unwrap();
        let list = self.insts_of(ebb);
        let p = self.inst_pos(before);
        let after = self.with_inst_before(inst, before);
        let new_list = list.insert(p, inst);
        assert(after.insts_of(ebb) == new_list);
        assert(new_list[p] == inst);
        assert forall|x: Inst, e: Ebb| #[trigger] after.stands_in(x, e) implies (x == inst && e
            == ebb) || self.stands_in(x, e) by {
            if e == ebb {
                let j = new_list.index_of(x);
                if j < p {
                    assert(list[j] == x);
                } else if j > p {
                    assert(list[j - 1] == x);
                }
            }
        }
        assert forall|x: Inst, e: Ebb| #[trigger] self.stands_in(x, e) implies after.stands_in(
            x,
            e,
        ) by {
            if e == ebb {
                let j = list.index_of(x);
                if j < p {
                    assert(new_list[j] == x);
                } else {
                    assert(new_list[j + 1] == x);
                }
            }
        }
    }

    /// Putting an instruction at the end of a block adds it to the layout
    /// and moves no other instruction to another block.
    pub proof fn lemma_with_inst_appended(self, inst: Inst, ebb: Ebb)
        requires
            self.wf(),
            self.has_ebb(ebb),
        ensures
            self.with_inst_appended(inst, ebb).ebbs == self.ebbs,
            self.with_inst_appended(inst, ebb).stands_in(inst, ebb),
            forall|x: Inst, e: Ebb| #[trigger]
                self.with_inst_appended(inst, ebb).stands_in(x, e) ==> (x == inst && e == ebb)
                    || self.stands_in(x, e),
            forall|x: Inst, e: Ebb| #[trigger]
                self.stands_in(x, e) ==> self.with_inst_appended(inst, ebb).stands_in(x, e),
    {
        let list = self.insts_of(ebb);
        let after = self.with_inst_appended(inst, ebb);
        let new_list = list.push(inst);
        assert(after.insts_of(ebb) == new_list);
        assert(new_list[list.len() as int] == inst);
        assert forall|x: Inst, e: Ebb| #[trigger] after.stands_in(x, e) implies (x == inst && e
            == ebb) || self.stands_in(x, e) by {
            if e == ebb {
                let j = new_list.index_of(x);
                if j < list.len() {
                    assert(list[j] == x);
                }
            }
        }
        assert forall|x: Inst, e: Ebb| #[trigger] self.stands_in(x, e) implies after.stands_in(
            x,
            e,
        ) by {
            if e == ebb {
                let j = list.index_of(x);
                assert(new_list[j] == x);
            }
        }
    }

    /// Taking an instruction out of the layout moves no other instruction.
    pub proof fn lemma_without_inst(self, inst: Inst)
        requires
            self.wf(),
            self.has_inst(inst),
        ensures
            self.without_inst(inst).ebbs == self.ebbs,
            forall|x: Inst, e: Ebb| #[trigger]
                self.without_inst(inst).stands_in(x, e) ==> x != inst && self.stands_in(x, e),
            forall|x: Inst, e: Ebb| #[trigger]
                self.stands_in(x, e) && x != inst ==> self.without_inst(inst).stands_in(x, e),
    {
        self.lemma_inst_pos(inst);
        let ebb = self.inst_ebb(inst).unwrap();
        let list = self.insts_of(ebb);
        let p = self.inst_pos(inst);
        let after = self.without_inst(inst);
        let new_list = list.remove(p);
        assert(after.insts_of(ebb) == new_list);
        assert forall|x: Inst, e: Ebb| #[trigger] after.stands_in(x, e) implies x != inst
            && self.stands_in(x, e) by {
            if e == ebb {
                let j = new_list.index_of(x);
                let i = if j < p { j } else { j + 1 };
                assert(list[i] == x);
                assert(list[i] != list[p]);
            } else {
                if x == inst {
                    assert(self.stands_in(inst, e));
                }
            }
        }
        assert forall|x: Inst, e: Ebb| #[trigger] self.stands_in(x, e) && x != inst
            implies after.stands_in(x, e) by {
            if e == ebb {
                let i = list.index_of(x);
                if i < p {
                    assert(new_list[i] == x);
                } else {
                    assert(new_list[i - 1] == x);
                }
            }
        }
    }

    /// An instruction stands in the block that `inst_ebb` gives for it, and
    /// in no other.
    pub proof fn lemma_inst_ebb(self, inst: Inst, ebb: Ebb)
        requires
            self.wf(),
        ensures
            self.stands_in(inst, ebb) <==> self.inst_ebb(inst) == Some(ebb),
    {
        if self.stands_in(inst, ebb) {
            let e = choose|e: Ebb| #[trigger] self.stands_in(inst, e);
            assert(self.stands_in(inst, e));
        }
    }

    /// Every instruction that the layout lists in a block belongs to that
    /// block.
    pub proof fn lemma_containment(self, ebb: Ebb, j: int)
        requires
            self.wf(),
            self.has_ebb(ebb),
            0 <= j < self.insts_of(ebb).len(),
        ensures
            self.inst_ebb(self.insts_of(ebb)[j]) == Some(ebb),
    {
        let inst = self.insts_of(ebb)[j];
        assert(self.stands_in(inst, ebb));
        self.lemma_inst_ebb(inst, ebb);
    }

    /// A block that is appended to the layout is listed once, behind the
    /// blocks that were there, which keep their order.
    pub proof fn lemma_appended_ebb_listed_once(self, ebb: Ebb)
        requires
            self.wf(),
            !self.has_ebb(ebb),
        ensures
            self.with_ebb_appended(ebb).wf(),
            self.with_ebb_appended(ebb).ebbs == self.ebbs.push(ebb),
            self.with_ebb_appended(ebb).ebbs.no_duplicates(),
            self.with_ebb_appended(ebb).ebbs.last() == ebb,
            self.with_ebb_appended(ebb).insts_of(ebb) == Seq::<Inst>::empty(),
            forall|k: int|
                0 <= k < self.with_ebb_appended(ebb).ebbs.len() ==> (self.with_ebb_appended(
                    ebb,
                ).ebbs[k] == ebb <==> k == self.ebbs.len()),
    {
        let after = self.with_ebb_appended(ebb);
        let n = self.ebbs.len() as int;
        assert forall|k: int| 0 <= k < after.ebbs.len() implies (after.ebbs[k] == ebb <==> k
            == n) by {
            if k < n {
                assert(self.ebbs.contains(self.ebbs[k]));
            }
        }
        assert forall|e: Ebb| after.insts.dom().contains(e) <==> after.ebbs.contains(e) by {
            assert(after.ebbs[n] == ebb);
            if self.ebbs.contains(e) {
                let k = self.ebbs.index_of(e);
                assert(after.ebbs[k] == e);
            }
            if after.ebbs.contains(e) && e != ebb {
                let k = after.ebbs.index_of(e);
                assert(self.ebbs[k] == e);
            }
        }
        assert forall|e: Ebb| (#[trigger] after.insts_of(e)).no_duplicates() by {
            assert(self.insts_of(e).no_duplicates());
        }
        assert forall|inst: Inst, a: Ebb, b: Ebb| #[trigger]
            after.stands_in(inst, a) && #[trigger] after.stands_in(inst, b) implies a == b by {
            assert(self.insts.dom().contains(a) <==> self.ebbs.contains(a));
            assert(self.insts.dom().contains(b) <==> self.ebbs.contains(b));
            assert(self.stands_in(inst, a));
            assert(self.stands_in(inst, b));
        }
    }

    /// An instruction that is appended to a block is its last instruction,
    /// and the only one that is new to the layout.
    pub proof fn lemma_appended_inst(self, inst: Inst, ebb: Ebb)
        requires
            self.wf(),
            self.has_ebb(ebb),
            !self.has_inst(inst),
        ensures
            self.with_inst_appended(inst, ebb).wf(),
            self.with_inst_appended(inst, ebb).ebbs == self.ebbs,
            self.with_inst_appended(inst, ebb).insts_of(ebb) == self.insts_of(ebb).push(inst),
            self.with_inst_appended(inst, ebb).inst_ebb(inst) == Some(ebb),
            self.with_inst_appended(inst, ebb).inst_pos(inst) == self.insts_of(ebb).len(),
            forall|x: Inst|
                #[trigger] self.with_inst_appended(inst, ebb).has_inst(x) <==> x == inst
                    || self.has_inst(x),
    {
        let after = self.with_inst_appended(inst, ebb);
        let list = self.insts_of(ebb);
        self.lemma_with_inst_appended(inst, ebb);
        assert forall|e: Ebb| after.insts.dom().contains(e) <==> after.ebbs.contains(e) by {
            assert(self.insts.dom().contains(e) <==> self.ebbs.contains(e));
        }
        if list.contains(inst) {
            assert(self.stands_in(inst, ebb));
        }
        assert forall|e: Ebb| (#[trigger] after.insts_of(e)).no_duplicates() by {
            assert(self.insts_of(e).no_duplicates());
        }
        assert forall|x: Inst, a: Ebb, b: Ebb| #[trigger]
            after.stands_in(x, a) && #[trigger] after.stands_in(x, b) implies a == b by {
            if x == inst {
                if a != ebb {
                    assert(self.stands_in(x, a));
                }
                if b != ebb {
                    assert(self.stands_in(x, b));
                }
            } else {
                assert(self.stands_in(x, a));
                assert(self.stands_in(x, b));
            }
        }
        assert(after.stands_in(inst, ebb));
        after.lemma_inst_ebb(inst, ebb);
        assert(after.insts_of(ebb)[list.len() as int] == inst);
        assert forall|x: Inst| #[trigger] after.has_inst(x) <==> x == inst || self.has_inst(
            x,
        ) by {
            if after.has_inst(x) {
                let e = choose|e: Ebb| #[trigger] after.stands_in(x, e);
                assert(after.stands_in(x, e));
            }
            if self.has_inst(x) {
                let e = choose|e: Ebb| #[trigger] self.stands_in(x, e);
                assert(after.stands_in(x, e));
            }
        }
    }

    /// An instruction that is taken out of the layout is in it no more; its
    /// block holds the others as before.
    pub proof fn lemma_removed_inst(self, inst: Inst)
        requires
            self.wf(),
            self.has_inst(inst),
        ensures
            !self.without_inst(inst).has_inst(inst),
            self.without_inst(inst).inst_ebb(inst).is_none(),
            self.without_inst(inst).insts_of(self.inst_ebb(inst).unwrap()) == self.insts_of(
                self.inst_ebb(inst).unwrap(),
            ).remove(self.inst_pos(inst)),
    {
        self.lemma_inst_pos(inst);
        self.lemma_without_inst(inst);
        let after = self.without_inst(inst);
        if after.has_inst(inst) {
            let e = choose|e: Ebb| #[trigger] after.stands_in(inst, e);
            assert(after.stands_in(inst, e));
        }
    }

    /// Three instructions are appended to a block, and the second is taken
    /// out again: the block ends in the first and the third, in that order,
    /// and the second is in no block.
    pub proof fn lemma_append_three_remove_second(
        self,
        ebb: Ebb,
        first: Inst,
        second: Inst,
        third: Inst,
    )
        requires
            self.wf(),
            self.has_ebb(ebb),
            !self.has_inst(first),
            !self.has_inst(second),
            !self.has_inst(third),
            first != second,
            first != third,
            second != third,
        ensures
            ({
                let full = self.with_inst_appended(first, ebb).with_inst_appended(
                    second,
                    ebb,
                ).with_inst_appended(third, ebb);
                &&& full.insts_of(ebb) == self.insts_of(ebb).push(first).push(second).push(third)
                &&& full.without_inst(second).insts_of(ebb) == self.insts_of(ebb).push(
                    first,
                ).push(third)
                &&& full.without_inst(second).inst_ebb(second).is_none()
            }),
    {
        let one = self.with_inst_appended(first, ebb);
        self.lemma_appended_inst(first, ebb);
        assert(!one.has_inst(second));
        let two = one.with_inst_appended(second, ebb);
        one.lemma_appended_inst(second, ebb);
        assert(!two.has_inst(third));
        let full = two.with_inst_appended(third, ebb);
        two.lemma_appended_inst(third, ebb);
        assert(full.has_inst(second));
        let list = self.insts_of(ebb);
        let n = list.len() as int;
        assert(full.insts_of(ebb)[n + 1] == second);
        assert(full.stands_in(second, ebb));
        full.lemma_inst_ebb(second, ebb);
        full.lemma_inst_pos(second);
        assert(full.inst_pos(second) == n + 1);
        full.lemma_removed_inst(second);
        assert(full.insts_of(ebb).remove(n + 1) =~= list.push(first).push(third));
    }

    /// Whether `a` stands in front of `b` in one block.
    pub open spec fn is_before(self, a: Inst, b: Inst) -> bool {
        &&& self.has_inst(a)
        &&& self.has_inst(b)
        &&& self.inst_ebb(a) == self.inst_ebb(b)
        &&& self.inst_pos(a) < self.inst_pos(b)
    }
}

} // verus!
