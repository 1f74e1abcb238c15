//! The layout: where the blocks and the instructions of a function stand in
//! the program.
//!
//! The layout orders the blocks of a function, and within each block its
//! instructions. It knows blocks and instructions by their handles only. Both
//! orders are doubly linked lists that run through side tables, so that an
//! instruction is inserted and removed, and the block of an instruction is
//! found, in constant time.

use crate::entity::SecondaryMap;
use crate::ir::entities::{Ebb, Inst};
use crate::ir::layoutview::{after_at, before_at, LayoutView};
use vstd::prelude::*;

verus! {

/// The links of a block.
#[derive(Clone, Copy, Debug, PartialEq, Eq)]
pub struct EbbNode {
    prev: Option<Ebb>,
    next: Option<Ebb>,
    first_inst: Option<Inst>,
    last_inst: Option<Inst>,
}

/// The links of an instruction.
#[derive(Clone, Copy, Debug, PartialEq, Eq)]
pub struct InstNode {
    ebb: Option<Ebb>,
    prev: Option<Inst>,
    next: Option<Inst>,
}

/// The order of the blocks of a function, and of the instructions in each.
pub struct Layout {
    ebbs: SecondaryMap<Ebb, EbbNode>,
    insts: SecondaryMap<Inst, InstNode>,
    first_ebb: Option<Ebb>,
    last_ebb: Option<Ebb>,
    order: Ghost<Seq<Ebb>>,
    members: Ghost<Map<Ebb, Seq<Inst>>>,
}

impl View for Layout {
    type V = LayoutView;

    closed spec fn view(&self) -> LayoutView {
        LayoutView { ebbs: self.order@, insts: self.members@ }
    }
}

impl Layout {
    /// The links of a block that is not in the layout.
    pub closed spec fn loose_ebb() -> EbbNode {
        EbbNode { prev: None, next: None, first_inst: None, last_inst: None }
    }

    /// The links of an instruction that is not in the layout.
    pub closed spec fn loose_inst() -> InstNode {
        InstNode { ebb: None, prev: None, next: None }
    }

    /// Whether the links of the instructions `s` make them the list of `ebb`.
    pub closed spec fn linked(&self, ebb: Ebb, s: Seq<Inst>) -> bool {
        &&& self.ebbs.at(ebb).first_inst == after_at(s, -1)
        &&& self.ebbs.at(ebb).last_inst == before_at(s, s.len() as int)
        &&& forall|j: int|
            0 <= j < s.len() ==> #[trigger] self.insts.at(s[j]) == (InstNode {
                ebb: Some(ebb),
                prev: before_at(s, j),
                next: after_at(s, j),
            })
    }

    /// What ties the links to the orders that they stand for.
    pub closed spec fn inv(&self) -> bool {
        &&& self.first_ebb == after_at(self.order@, -1)
        &&& self.last_ebb == before_at(self.order@, self.order@.len() as int)
        &&& forall|k: int|
            0 <= k < self.order@.len() ==> (#[trigger] self.ebbs.at(self.order@[k])).prev
                == before_at(self.order@, k) && self.ebbs.at(self.order@[k]).next == after_at(
                self.order@,
                k,
            )
        &&& forall|e: Ebb|
            !self.order@.contains(e) ==> #[trigger] self.ebbs.at(e) == Self::loose_ebb()
        &&& forall|e: Ebb|
            self.order@.contains(e) ==> #[trigger] self.linked(e, self@.insts_of(e))
        &&& forall|i: Inst|
            (#[trigger] self.insts.at(i)).ebb matches Some(e) ==> self@.stands_in(i, e)
        &&& forall|i: Inst|
            (#[trigger] self.insts.at(i)).ebb.is_none() ==> self.insts.at(i) == Self::loose_inst()
    }

    /// The invariant of the layout.
    pub open spec fn wf(&self) -> bool {
        self.inv() && self@.wf()
    }

    /// A layout without blocks.
    pub fn new() -> (l: Layout)
        ensures
            l.wf(),
            l@ == (LayoutView { ebbs: Seq::empty(), insts: Map::empty() }),
    {
        let l = Layout {
            ebbs: SecondaryMap::with_default(
                EbbNode { prev: None, next: None, first_inst: None, last_inst: None },
            ),
            insts: SecondaryMap::with_default(InstNode { ebb: None, prev: None, next: None }),
            first_ebb: None,
            last_ebb: None,
            order: Ghost(Seq::empty()),
            members: Ghost(Map::empty()),
        };
        l
    }

    /// Whether `ebb` is in the layout.
    pub fn is_ebb_inserted(&self, ebb: Ebb) -> (b: bool)
        requires
            self.wf(),
        ensures
            b == self@.has_ebb(ebb),
    {
        let node = self.ebbs.get(ebb);
        proof {
            if self.order@.contains(ebb) {
                let k = self.order@.index_of(ebb);
                assert(self.ebbs.at(self.order@[k]).prev == before_at(self.order@, k));
            }
        }
        node.prev.is_some() || self.first_ebb == Some(ebb)
    }

    /// The block that `inst` stands in, if it is in the layout.
    pub fn inst_ebb(&self, inst: Inst) -> (e: Option<Ebb>)
        requires
            self.wf(),
        ensures
            e == self@.inst_ebb(inst),
    {
        let node = self.insts.get(inst);
        proof {
            match node.ebb {
                Some(e) => {
                    self@.lemma_inst_ebb(inst, e);
                },
                None => {
                    if self@.has_inst(inst) {
                        let e = choose|e: Ebb| #[trigger] self@.stands_in(inst, e);
                        let s = self@.insts_of(e);
                        assert(self.linked(e, s));
                        let j = s.index_of(inst);
                        assert(self.insts.at(s[j]).ebb == Some(e));
                    }
                },
            }
        }
        node.ebb
    }

    /// The first block of the program, if there is one.
    pub fn entry_block(&self) -> (e: Option<Ebb>)
        requires
            self.wf(),
        ensures
            e == after_at(self@.ebbs, -1),
    {
        self.first_ebb
    }

    /// The last block of the program, if there is one.
    pub fn last_ebb(&self) -> (e: Option<Ebb>)
        requires
            self.wf(),
        ensures
            e == before_at(self@.ebbs, self@.ebbs.len() as int),
    {
        self.last_ebb
    }

    /// The first instruction of `ebb`, if it has one.
    pub fn first_inst(&self, ebb: Ebb) -> (i: Option<Inst>)
        requires
            self.wf(),
        ensures
            i == after_at(self@.insts_of(ebb), -1),
    {
        proof {
            if self.order@.contains(ebb) {
                assert(self.linked(ebb, self@.insts_of(ebb)));
            } else {
                assert(self.ebbs.at(ebb) == Self::loose_ebb());
            }
        }
        self.ebbs.get(ebb).first_inst
    }

    /// The last instruction of `ebb`, if it has one.
    pub fn last_inst(&self, ebb: Ebb) -> (i: Option<Inst>)
        requires
            self.wf(),
        ensures
            i == before_at(self@.insts_of(ebb), self@.insts_of(ebb).len() as int),
    {
        proof {
            if self.order@.contains(ebb) {
                assert(self.linked(ebb, self@.insts_of(ebb)));
            } else {
                assert(self.ebbs.at(ebb) == Self::loose_ebb());
            }
        }
        self.ebbs.get(ebb).last_inst
    }

    /// The block behind `ebb` in the program, if there is one.
    pub fn next_ebb(&self, ebb: Ebb) -> (e: Option<Ebb>)
        requires
            self.wf(),
        ensures
            e == if self@.has_ebb(ebb) {
                after_at(self@.ebbs, self@.ebbs.index_of(ebb))
            } else {
                None
            },
    {
        proof {
            if self.order@.contains(ebb) {
                let k = self.order@.index_of(ebb);
                assert(self.ebbs.at(self.order@[k]).next == after_at(self.order@, k));
            } else {
                assert(self.ebbs.at(ebb) == Self::loose_ebb());
            }
        }
        self.ebbs.get(ebb).next
    }

    /// The links of an instruction are those that its place in its block
    /// asks for.
    proof fn lemma_node(&self, inst: Inst)
        requires
            self.wf(),
        ensures
            self.insts.at(inst) == if self@.has_inst(inst) {
                InstNode {
                    ebb: self@.inst_ebb(inst),
                    prev: before_at(
                        self@.insts_of(self@.inst_ebb(inst).unwrap()),
                        self@.inst_pos(inst),
                    ),
                    next: after_at(
                        self@.insts_of(self@.inst_ebb(inst).unwrap()),
                        self@.inst_pos(inst),
                    ),
                }
            } else {
                Self::loose_inst()
            },
            self@.has_inst(inst) ==> self@.stands_in(inst, self@.inst_ebb(inst).unwrap()) && 0
                <= self@.inst_pos(inst) < self@.insts_of(self@.inst_ebb(inst).unwrap()).len()
                && self@.insts_of(self@.inst_ebb(inst).unwrap())[self@.inst_pos(inst)] == inst,
    {
        if self@.has_inst(inst) {
            let e = choose|e: Ebb| #[trigger] self@.stands_in(inst, e);
            let s = self@.insts_of(e);
            assert(self.linked(e, s));
            let j = s.index_of(inst);
            assert(self.insts.at(s[j]).ebb == Some(e));
        } else {
            match self.insts.at(inst).ebb {
                Some(e) => {
                    assert(self@.stands_in(inst, e));
                },
                None => {},
            }
        }
    }

    /// The instruction behind `inst` in its block, if there is one.
    pub fn next_inst(&self, inst: Inst) -> (i: Option<Inst>)
        requires
            self.wf(),
        ensures
            i == if self@.has_inst(inst) {
                after_at(self@.insts_of(self@.inst_ebb(inst).unwrap()), self@.inst_pos(inst))
            } else {
                None
            },
    {
        proof {
            self.lemma_node(inst);
        }
        self.insts.get(inst).next
    }

    /// The instruction in front of `inst` in its block, if there is one.
    pub fn prev_inst(&self, inst: Inst) -> (i: Option<Inst>)
        requires
            self.wf(),
        ensures
            i == if self@.has_inst(inst) {
                before_at(self@.insts_of(self@.inst_ebb(inst).unwrap()), self@.inst_pos(inst))
            } else {
                None
            },
    {
        proof {
            self.lemma_node(inst);
        }
        self.insts.get(inst).prev
    }

    /// The blocks of the program, in their order.
    pub fn ebbs(&self) -> (out: Vec<Ebb>)
        requires
            self.wf(),
        ensures
            out@ == self@.ebbs,
    {
        let mut out: Vec<Ebb> = Vec::new();
        let mut cur = self.first_ebb;
        loop
            invariant
                self.wf(),
                out@.len() <= self.order@.len(),
                out@ == self.order@.subrange(0, out@.len() as int),
                cur == after_at(self.order@, out@.len() - 1),
            ensures
                out@ == self@.ebbs,
            decreases self.order@.len() - out@.len(),
        {
            match cur {
                Some(e) => {
                    let ghost k = out@.len() as int;
                    proof {
                        assert(self.ebbs.at(self.order@[k]).next == after_at(self.order@, k));
                    }
                    out.push(e);
                    cur = self.ebbs.get(e).next;
                    proof {
                        assert(out@ =~= self.order@.subrange(0, k + 1));
                    }
                },
                None => {
                    proof {
                        assert(out@ =~= self.order@);
                    }
                    break ;
                },
            }
        }
        out
    }

    /// The instructions of `ebb`, in their order.
    pub fn ebb_insts(&self, ebb: Ebb) -> (out: Vec<Inst>)
        requires
            self.wf(),
        ensures
            out@ == self@.insts_of(ebb),
    {
        let mut out: Vec<Inst> = Vec::new();
        let ghost s = self@.insts_of(ebb);
        let mut cur = self.first_inst(ebb);
        if !self.is_ebb_inserted(ebb) {
            proof {
                assert(s =~= Seq::empty());
            }
            return out;
        }
        loop
            invariant
                self.wf(),
                self.order@.contains(ebb),
                s == self@.insts_of(ebb),
                out@.len() <= s.len(),
                out@ == s.subrange(0, out@.len() as int),
                cur == after_at(s, out@.len() - 1),
            ensures
                out@ == s,
            decreases s.len() - out@.len(),
        {
            match cur {
                Some(i) => {
                    let ghost k = out@.len() as int;
                    proof {
                        assert(self.linked(ebb, s));
                        assert(self.insts.at(s[k]).next == after_at(s, k));
                    }
                    out.push(i);
                    cur = self.insts.get(i).next;
                    proof {
                        assert(out@ =~= s.subrange(0, k + 1));
                    }
                },
                None => {
                    proof {
                        assert(out@ =~= s);
                    }
                    break ;
                },
            }
        }
        out
    }

    /// Puts `ebb` behind the last block of the program. It has no
    /// instruction yet.
    pub fn append_ebb(&mut self, ebb: Ebb)
        requires
            old(self).wf(),
            !old(self)@.has_ebb(ebb),
        ensures
            final(self).wf(),
            final(self)@ == old(self)@.with_ebb_appended(ebb),
    {
        let ghost pre = *self;
        let node = EbbNode { prev: self.last_ebb, next: None, first_inst: None, last_inst: None };
        match self.last_ebb {
            Some(last) => {
                let mut ln = self.ebbs.get(last);
                ln.next = Some(ebb);
                self.ebbs.set(last, ln);
            },
            None => {
                self.first_ebb = Some(ebb);
            },
        }
        self.ebbs.set(ebb, node);
        self.last_ebb = Some(ebb);
        self.order = Ghost(self.order@.push(ebb));
        self.members = Ghost(self.members@.insert(ebb, Seq::empty()));
        proof {
            let n = pre.order@.len() as int;
            assert forall|k: int| 0 <= k < self.order@.len() implies (#[trigger] self.ebbs.at(
                self.order@[k],
            )).prev == before_at(self.order@, k) && self.ebbs.at(self.order@[k]).next == after_at(
                self.order@,
                k,
            ) by {
                if k < n {
                    assert(pre.ebbs.at(pre.order@[k]).prev == before_at(pre.order@, k));
                    assert(pre.order@.contains(pre.order@[k]));
                }
            }
            assert forall|e: Ebb| !self.order@.contains(e) implies #[trigger] self.ebbs.at(e)
                == Self::loose_ebb() by {
                assert(self.order@[n] == ebb);
                if pre.order@.contains(e) {
                    let k = pre.order@.index_of(e);
                    assert(self.order@[k] == e);
                }
                assert(pre.ebbs.at(e) == Self::loose_ebb());
                if n > 0 {
                    assert(self.order@[n - 1] == pre.order@[n - 1]);
                }
            }
            assert forall|e: Ebb| self.order@.contains(e) implies #[trigger] self.linked(
                e,
                self@.insts_of(e),
            ) by {
                if e == ebb {
                } else {
                    let k = self.order@.index_of(e);
                    assert(pre.order@[k] == e);
                    assert(pre.linked(e, pre@.insts_of(e)));
                }
            }
            assert forall|i: Inst| (#[trigger] self.insts.at(i)).ebb matches Some(e)
                ==> self@.stands_in(i, e) by {
                match self.insts.at(i).ebb {
                    Some(e) => {
                        assert(pre@.stands_in(i, e));
                        let k = pre.order@.index_of(e);
                        assert(self.order@[k] == e);
                    },
                    None => {},
                }
            }
            assert forall|e: Ebb| self@.insts.dom().contains(e) <==> self@.ebbs.contains(e) by {
                assert(self.order@[n] == ebb);
                if pre.order@.contains(e) {
                    let k = pre.order@.index_of(e);
                    assert(self.order@[k] == e);
                }
            }
            assert forall|e: Ebb| (#[trigger] self@.insts_of(e)).no_duplicates() by {
                assert(pre@.insts_of(e).no_duplicates());
            }
            assert forall|inst: Inst, a: Ebb, b: Ebb| #[trigger]
                self@.stands_in(inst, a) && #[trigger] self@.stands_in(inst, b) implies a == b by {
                assert(pre@.stands_in(inst, a));
                assert(pre@.stands_in(inst, b));
            }
        }
    }

    /// The layout stays well-formed when the instructions of one block are
    /// linked anew: `after` differs from `self` in the list of `ebb`, which
    /// is `list` now, and in the links that make it so.
    proof fn lemma_relinked(&self, after: &Layout, ebb: Ebb, list: Seq<Inst>)
        requires
            self.wf(),
            self.order@.contains(ebb),
            after.order@ == self.order@,
            after.members@ == self.members@.insert(ebb, list),
            after.first_ebb == self.first_ebb,
            after.last_ebb == self.last_ebb,
            forall|e: Ebb| e != ebb ==> #[trigger] after.ebbs.at(e) == self.ebbs.at(e),
            after.ebbs.at(ebb).prev == self.ebbs.at(ebb).prev,
            after.ebbs.at(ebb).next == self.ebbs.at(ebb).next,
            after.linked(ebb, list),
            list.no_duplicates(),
            forall|x: Inst|
                list.contains(x) ==> self@.insts_of(ebb).contains(x) || !(#[trigger] self@.has_inst(
                    x,
                )),
            forall|x: Inst|
                self@.insts_of(ebb).contains(x) && !list.contains(x) ==> #[trigger] after.insts.at(
                    x,
                ) == Self::loose_inst(),
            forall|x: Inst|
                !self@.insts_of(ebb).contains(x) && !list.contains(x) ==> #[trigger] after.insts.at(
                    x,
                ) == self.insts.at(x),
        ensures
            after.wf(),
    {
        let old_list = self@.insts_of(ebb);
        assert forall|e: Ebb| after@.insts_of(e) == if e == ebb {
            list
        } else {
            self@.insts_of(e)
        } by {}
        assert forall|k: int| 0 <= k < after.order@.len() implies (#[trigger] after.ebbs.at(
            after.order@[k],
        )).prev == before_at(after.order@, k) && after.ebbs.at(after.order@[k]).next == after_at(
            after.order@,
            k,
        ) by {
            assert(self.ebbs.at(self.order@[k]).prev == before_at(self.order@, k));
        }
        assert forall|e: Ebb| !after.order@.contains(e) implies #[trigger] after.ebbs.at(e)
            == Self::loose_ebb() by {
            assert(self.ebbs.at(e) == Self::loose_ebb());
        }
        assert forall|e: Ebb| after.order@.contains(e) implies #[trigger] after.linked(
            e,
            after@.insts_of(e),
        ) by {
            if e != ebb {
                let se = self@.insts_of(e);
                assert(self.linked(e, se));
                assert forall|j: int| 0 <= j < se.len() implies #[trigger] after.insts.at(se[j])
                    == (InstNode { ebb: Some(e), prev: before_at(se, j), next: after_at(se, j) }) by {
                    let x = se[j];
                    assert(self.insts.at(se[j]).ebb == Some(e));
                    assert(self@.stands_in(x, e));
                    if old_list.contains(x) {
                        assert(self@.stands_in(x, ebb));
                    }
                    if list.contains(x) {
                        assert(self@.has_inst(x));
                    }
                }
            }
        }
        assert forall|i: Inst| (#[trigger] after.insts.at(i)).ebb matches Some(e)
            ==> after@.stands_in(i, e) by {
            match after.insts.at(i).ebb {
                Some(e) => {
                    if list.contains(i) {
                        let j = list.index_of(i);
                        assert(after.insts.at(list[j]).ebb == Some(ebb));
                    } else if old_list.contains(i) {
                    } else {
                        assert(self@.stands_in(i, e));
                    }
                },
                None => {},
            }
        }
        assert forall|i: Inst| (#[trigger] after.insts.at(i)).ebb.is_none() implies after.insts.at(
            i,
        ) == Self::loose_inst() by {
            if list.contains(i) {
                let j = list.index_of(i);
                assert(after.insts.at(list[j]).ebb == Some(ebb));
            } else if old_list.contains(i) {
            } else {
                assert(self.insts.at(i).ebb.is_none());
            }
        }
        assert forall|e: Ebb| (#[trigger] after@.insts_of(e)).no_duplicates() by {
            assert(self@.insts_of(e).no_duplicates());
        }
        assert forall|inst: Inst, a: Ebb, b: Ebb| #[trigger]
            after@.stands_in(inst, a) && #[trigger] after@.stands_in(inst, b) implies a == b by {
            if a != ebb && b != ebb {
                assert(self@.stands_in(inst, a));
                assert(self@.stands_in(inst, b));
            } else if a != ebb {
                assert(self@.stands_in(inst, a));
                assert(self@.has_inst(inst));
                if old_list.contains(inst) {
                    assert(self@.stands_in(inst, ebb));
                }
            } else if b != ebb {
                assert(self@.stands_in(inst, b));
                assert(self@.has_inst(inst));
                if old_list.contains(inst) {
                    assert(self@.stands_in(inst, ebb));
                }
            }
        }
        assert forall|e: Ebb| after@.insts.dom().contains(e) <==> after@.ebbs.contains(e) by {
            assert(self@.insts.dom().contains(e) <==> self@.ebbs.contains(e));
        }
    }

    /// Puts `inst` behind the last instruction of `ebb`.
    pub fn append_inst(&mut self, inst: Inst, ebb: Ebb)
        requires
            old(self).wf(),
            old(self)@.has_ebb(ebb),
            !old(self)@.has_inst(inst),
        ensures
            final(self).wf(),
            final(self)@ == old(self)@.with_inst_appended(inst, ebb),
    {
        let ghost pre = *self;
        let ghost list = self@.insts_of(ebb);
        let ghost n = list.len() as int;
        proof {
            assert(self.linked(ebb, list));
            self.lemma_node(inst);
            if list.contains(inst) {
                assert(self@.stands_in(inst, ebb));
            }
        }
        let mut en = self.ebbs.get(ebb);
        let node = InstNode { ebb: Some(ebb), prev: en.last_inst, next: None };
        match en.last_inst {
            Some(last) => {
                let mut ln = self.insts.get(last);
                ln.next = Some(inst);
                self.insts.set(last, ln);
            },
            None => {
                en.first_inst = Some(inst);
            },
        }
        en.last_inst = Some(inst);
        self.ebbs.set(ebb, en);
        self.insts.set(inst, node);
        self.members = Ghost(self.members@.insert(ebb, list.push(inst)));
        proof {
            let new_list = list.push(inst);
            assert forall|j: int| 0 <= j < new_list.len() implies #[trigger] self.insts.at(
                new_list[j],
            ) == (InstNode {
                ebb: Some(ebb),
                prev: before_at(new_list, j),
                next: after_at(new_list, j),
            }) by {
                if j < n {
                    assert(pre.insts.at(list[j]) == (InstNode {
                        ebb: Some(ebb),
                        prev: before_at(list, j),
                        next: after_at(list, j),
                    }));
                    assert(list.contains(list[j]));
                    if j < n - 1 {
                        assert(list[j] != list[n - 1]);
                    }
                }
            }
            assert(new_list.no_duplicates());
            assert forall|x: Inst| new_list.contains(x) implies list.contains(x) || !(
            #[trigger] pre@.has_inst(x)) by {
                let j = new_list.index_of(x);
                if j < n {
                    assert(list[j] == x);
                }
            }
            assert forall|x: Inst| !list.contains(x) && !new_list.contains(x)
                implies #[trigger] self.insts.at(x) == pre.insts.at(x) by {
                assert(new_list[n] == inst);
                if n > 0 {
                    assert(list.contains(list[n - 1]));
                }
            }
            assert forall|x: Inst| list.contains(x) && !new_list.contains(x)
                implies #[trigger] self.insts.at(x) == Self::loose_inst() by {
                let j = list.index_of(x);
                assert(new_list[j] == x);
            }
            pre.lemma_relinked(&*self, ebb, new_list);
        }
    }

    /// Puts `inst` in front of `before`, in the block of `before`.
    pub fn insert_inst_before(&mut self, inst: Inst, before: Inst)
        requires
            old(self).wf(),
            old(self)@.has_inst(before),
            !old(self)@.has_inst(inst),
        ensures
            final(self).wf(),
            final(self)@ == old(self)@.with_inst_before(inst, before),
    {
        let ghost pre = *self;
        proof {
            self.lemma_node(before);
            self.lemma_node(inst);
        }
        let mut bn = self.insts.get(before);
        let ebb = match bn.ebb {
            Some(e) => e,
            None => {
                return ;
            },
        };
        let ghost list = self@.insts_of(ebb);
        let ghost n = list.len() as int;
        let ghost p = self@.inst_pos(before);
        proof {
            assert(self.linked(ebb, list));
            if list.contains(inst) {
                assert(self@.stands_in(inst, ebb));
            }
        }
        let node = InstNode { ebb: Some(ebb), prev: bn.prev, next: Some(before) };
        match bn.prev {
            Some(prev) => {
                let mut pn = self.insts.get(prev);
                pn.next = Some(inst);
                self.insts.set(prev, pn);
            },
            None => {
                let mut en = self.ebbs.get(ebb);
                en.first_inst = Some(inst);
                self.ebbs.set(ebb, en);
            },
        }
        bn.prev = Some(inst);
        self.insts.set(before, bn);
        self.insts.set(inst, node);
        self.members = Ghost(self.members@.insert(ebb, list.insert(p, inst)));
        proof {
            let new_list = list.insert(p, inst);
            assert forall|j: int| 0 <= j < new_list.len() implies #[trigger] self.insts.at(
                new_list[j],
            ) == (InstNode {
                ebb: Some(ebb),
                prev: before_at(new_list, j),
                next: after_at(new_list, j),
            }) by {
                if j < p {
                    assert(new_list[j] == list[j]);
                    assert(pre.insts.at(list[j]).ebb == Some(ebb));
                    assert(list.contains(list[j]));
                    assert(list[j] != list[p]);
                    if j < p - 1 {
                        assert(list[j] != list[p - 1]);
                    }
                } else if j > p {
                    assert(new_list[j] == list[j - 1]);
                    assert(pre.insts.at(list[j - 1]).ebb == Some(ebb));
                    assert(list.contains(list[j - 1]));
                    if j - 1 > p {
                        assert(list[j - 1] != list[p]);
                    }
                    if p > 0 {
                        assert(list[j - 1] != list[p - 1]);
                    }
                }
            }
            assert forall|a: int, b: int| 0 <= a < b < new_list.len() implies new_list[a]
                != new_list[b] by {
                let ia = if a < p { a } else { a - 1 };
                let ib = if b < p { b } else { b - 1 };
                if a != p && b != p {
                    assert(list[ia] != list[ib]);
                } else if a == p {
                    assert(list.contains(list[ib]));
                } else {
                    assert(list.contains(list[ia]));
                }
            }
            assert(new_list.no_duplicates());
            assert forall|x: Inst| new_list.contains(x) implies list.contains(x) || !(
            #[trigger] pre@.has_inst(x)) by {
                let j = new_list.index_of(x);
                if j < p {
                    assert(list[j] == x);
                } else if j > p {
                    assert(list[j - 1] == x);
                }
            }
            assert forall|x: Inst| !list.contains(x) && !new_list.contains(x)
                implies #[trigger] self.insts.at(x) == pre.insts.at(x) by {
                assert(new_list[p] == inst);
                assert(list.contains(list[p]));
                if p > 0 {
                    assert(list.contains(list[p - 1]));
                }
            }
            assert forall|x: Inst| list.contains(x) && !new_list.contains(x)
                implies #[trigger] self.insts.at(x) == Self::loose_inst() by {
                let j = list.index_of(x);
                if j < p {
                    assert(new_list[j] == x);
                } else {
                    assert(new_list[j + 1] == x);
                }
            }
            pre.lemma_relinked(&*self, ebb, new_list);
        }
    }

    /// Takes `inst` out of the layout. The instructions around it close up.
    #[verifier::rlimit(60)]
    pub fn remove_inst(&mut self, inst: Inst)
        requires
            old(self).wf(),
            old(self)@.has_inst(inst),
        ensures
            final(self).wf(),
            final(self)@ == old(self)@.without_inst(inst),
            !final(self)@.has_inst(inst),
    {
        let ghost pre = *self;
        proof {
            self.lemma_node(inst);
        }
        let node = self.insts.get(inst);
        let ebb = match node.ebb {
            Some(e) => e,
            None => {
                return ;
            },
        };
        let ghost list = self@.insts_of(ebb);
        let ghost n = list.len() as int;
        let ghost p = self@.inst_pos(inst);
        proof {
            assert(self.linked(ebb, list));
        }
        let mut en = self.ebbs.get(ebb);
        match node.prev {
            Some(prev) => {
                let mut pn = self.insts.get(prev);
                pn.next = node.next;
                self.insts.set(prev, pn);
            },
            None => {
                en.first_inst = node.next;
            },
        }
        match node.next {
            Some(next) => {
                let mut nn = self.insts.get(next);
                nn.prev = node.prev;
                self.insts.set(next, nn);
            },
            None => {
                en.last_inst = node.prev;
            },
        }
        self.ebbs.set(ebb, en);
        self.insts.set(inst, InstNode { ebb: None, prev: None, next: None });
        self.members = Ghost(self.members@.insert(ebb, list.remove(p)));
        proof {
            let new_list = list.remove(p);
            assert forall|j: int| 0 <= j < new_list.len() implies #[trigger] self.insts.at(
                new_list[j],
            ) == (InstNode {
                ebb: Some(ebb),
                prev: before_at(new_list, j),
                next: after_at(new_list, j),
            }) by {
                let i = if j < p { j } else { j + 1 };
                assert(new_list[j] == list[i]);
                assert(pre.insts.at(list[i]).ebb == Some(ebb));
                assert(list[i] != list[p]);
                if p > 0 && i != p - 1 {
                    assert(list[i] != list[p - 1]);
                }
                if p < n - 1 && i != p + 1 {
                    assert(list[i] != list[p + 1]);
                }
            }
            assert forall|a: int, b: int| 0 <= a < b < new_list.len() implies new_list[a]
                != new_list[b] by {
                let ia = if a < p { a } else { a + 1 };
                let ib = if b < p { b } else { b + 1 };
                assert(list[ia] != list[ib]);
            }
            assert(new_list.no_duplicates());
            assert forall|x: Inst| new_list.contains(x) implies list.contains(x) by {
                let j = new_list.index_of(x);
                let i = if j < p { j } else { j + 1 };
                assert(list[i] == x);
            }
            assert forall|x: Inst| list.contains(x) && !new_list.contains(x) implies x == inst by {
                let i = list.index_of(x);
                if i < p {
                    assert(new_list[i] == x);
                } else if i > p {
                    assert(new_list[i - 1] == x);
                }
            }
            assert forall|x: Inst| !list.contains(x) && !new_list.contains(x)
                implies #[trigger] self.insts.at(x) == pre.insts.at(x) by {
                assert(list.contains(list[p]));
                if p > 0 {
                    assert(list.contains(list[p - 1]));
                }
                if p < n - 1 {
                    assert(list.contains(list[p + 1]));
                }
            }
            pre.lemma_relinked(&*self, ebb, new_list);
            if self@.has_inst(inst) {
                let e = choose|e: Ebb| #[trigger] self@.stands_in(inst, e);
                if e == ebb {
                    let j = new_list.index_of(inst);
                    let i = if j < p { j } else { j + 1 };
                    assert(list[i] == inst);
                } else {
                    assert(pre@.stands_in(inst, e));
                    assert(pre@.stands_in(inst, ebb));
                }
            }
        }
    }

    /// Puts `inst` behind `after`, in the block of `after`.
    pub fn insert_inst_after(&mut self, inst: Inst, after: Inst)
        requires
            old(self).wf(),
            old(self)@.has_inst(after),
            !old(self)@.has_inst(inst),
        ensures
            final(self).wf(),
            final(self)@ == old(self)@.with_inst_after(inst, after),
    {
        proof {
            self@.lemma_inst_pos(after);
        }
        let ghost ebb = self@.inst_ebb(after).unwrap();
        let ghost list = self@.insts_of(ebb);
        let ghost p = self@.inst_pos(after);
        match self.next_inst(after) {
            Some(next) => {
                proof {
                    assert(list.contains(next));
                    assert(self@.stands_in(next, ebb));
                    self@.lemma_inst_ebb(next, ebb);
                    self@.lemma_inst_pos(next);
                }
                self.insert_inst_before(inst, next);
            },
            None => {
                match self.inst_ebb(after) {
                    Some(e) => {
                        self.append_inst(inst, e);
                        proof {
                            assert(list.push(inst) =~= list.insert(p + 1, inst));
                        }
                    },
                    None => {},
                }
            },
        }
    }

    /// Whether `a` stands in front of `b` in one block.
    pub fn inst_is_before(&self, a: Inst, b: Inst) -> (r: bool)
        requires
            self.wf(),
        ensures
            r == self@.is_before(a, b),
    {
        let ebb = match self.inst_ebb(a) {
            Some(e) => e,
            None => {
                return false;
            },
        };
        if self.inst_ebb(b) != Some(ebb) {
            return false;
        }
        proof {
            self@.lemma_inst_pos(a);
            self@.lemma_inst_pos(b);
        }
        let ghost list = self@.insts_of(ebb);
        let ghost pa = self@.inst_pos(a);
        let ghost pb = self@.inst_pos(b);
        let ghost mut k: int = pa + 1;
        let mut cur = self.next_inst(a);
        loop
            invariant
                self.wf(),
                self.order@.contains(ebb),
                list == self@.insts_of(ebb),
                list.no_duplicates(),
                self@.has_inst(a),
                self@.has_inst(b),
                self@.inst_ebb(a) == Some(ebb),
                self@.inst_ebb(b) == Some(ebb),
                pa == self@.inst_pos(a),
                pb == self@.inst_pos(b),
                0 <= pa < list.len(),
                0 <= pb < list.len(),
                list[pb] == b,
                pa < k <= list.len(),
                cur == after_at(list, k - 1),
                forall|j: int| pa < j < k ==> list[j] != b,
            decreases list.len() - k,
        {
            match cur {
                None => {
                    return false;
                },
                Some(i) => {
                    if i == b {
                        proof {
                            assert(list[k] == list[pb]);
                        }
                        return true;
                    }
                    proof {
                        assert(self.linked(ebb, list));
                        assert(self.insts.at(list[k]).next == after_at(list, k));
                        k = k + 1;
                    }
                    cur = self.insts.get(i).next;
                },
            }
        }
    }
}

} // verus!
