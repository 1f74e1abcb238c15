//! The data flow graph as a mathematical value, and what holds of it.
//!
//! The contracts of `DataFlowGraph` speak of a `DfgView`: the payloads of the
//! instructions, the results and arguments as sequences of values, and what
//! is recorded about each value. Here are the well-formedness of such a
//! value, the walk along aliases, and the laws of both.

use crate::entity::EntityRef;
use crate::ir::dfg::{ValueData, ValueDef};
use crate::ir::entities::{Ebb, Inst, SigRef, Value};
use crate::ir::extfunc::{AbiParam, ExtFuncData, Signature};
use crate::ir::instructions::InstructionData;
use crate::ir::types::Type;
use vstd::prelude::*;

verus! {

/// The data flow graph as a mathematical value.
pub struct DfgView {
    /// The payload of each instruction.
    pub insts: Seq<InstructionData>,
    /// The results that are attached to each instruction.
    pub results: Seq<Seq<Value>>,
    /// The formal arguments of each block.
    pub ebbs: Seq<Seq<Value>>,
    /// What is recorded about each value.
    pub values: Seq<ValueData>,
    /// The pool that the value lists in the payloads point into.
    pub pool: Seq<Value>,
    /// The signatures that calls refer to.
    pub signatures: Seq<Signature>,
    /// The external functions that calls refer to.
    pub ext_funcs: Seq<ExtFuncData>,
}

impl DfgView {
    pub open spec fn inst_is_valid(self, inst: Inst) -> bool {
        inst.idx() < self.insts.len()
    }

    pub open spec fn ebb_is_valid(self, ebb: Ebb) -> bool {
        ebb.idx() < self.ebbs.len()
    }

    pub open spec fn value_is_valid(self, v: Value) -> bool {
        v.idx() < self.values.len()
    }

    /// The payload of `inst`.
    pub open spec fn data(self, inst: Inst) -> InstructionData
        recommends
            self.inst_is_valid(inst),
    {
        self.insts[inst.idx() as int]
    }

    /// The results attached to `inst`; none for an instruction that the
    /// graph does not hold.
    pub open spec fn results_of(self, inst: Inst) -> Seq<Value> {
        if inst.idx() < self.results.len() {
            self.results[inst.idx() as int]
        } else {
            Seq::empty()
        }
    }

    /// The formal arguments of `ebb`; none for a block that the graph does
    /// not hold.
    pub open spec fn args_of(self, ebb: Ebb) -> Seq<Value> {
        if self.ebb_is_valid(ebb) {
            self.ebbs[ebb.idx() as int]
        } else {
            Seq::empty()
        }
    }

    /// What is recorded about `v`.
    pub open spec fn value(self, v: Value) -> ValueData
        recommends
            self.value_is_valid(v),
    {
        self.values[v.idx() as int]
    }

    /// The values that `inst` uses.
    pub open spec fn arguments_of(self, inst: Inst) -> Seq<Value>
        recommends
            self.inst_is_valid(inst),
    {
        self.data(inst).arguments_spec(self.pool)
    }

    /// Whether `v` is recorded as result number `k` of instruction number `i`.
    pub open spec fn is_result(self, v: Value, i: int, k: int) -> bool {
        &&& self.value_is_valid(v)
        &&& self.value(v) matches ValueData::Inst { inst, num, .. }
        &&& inst.idx() == i
        &&& num == k
    }

    /// Whether `v` is recorded as argument number `k` of block number `e`.
    pub open spec fn is_arg(self, v: Value, e: int, k: int) -> bool {
        &&& self.value_is_valid(v)
        &&& self.value(v) matches ValueData::Arg { ebb, num, .. }
        &&& ebb.idx() == e
        &&& num == k
    }

    /// Whether `v` is in the list of results or of arguments that it is
    /// recorded to belong to.
    pub open spec fn is_attached(self, v: Value) -> bool {
        self.value_is_valid(v) && match self.value(v) {
            ValueData::Inst { inst, num, .. } => num < self.results_of(inst).len()
                && self.results_of(inst)[num as int] == v,
            ValueData::Arg { ebb, num, .. } => num < self.args_of(ebb).len() && self.args_of(
                ebb,
            )[num as int] == v,
            ValueData::Alias { .. } => false,
        }
    }

    /// The value that `v` is another name for, if it is an alias.
    pub open spec fn alias_of(self, v: Value) -> Option<Value> {
        if self.value_is_valid(v) {
            match self.value(v) {
                ValueData::Alias { target, .. } => Some(target),
                _ => None,
            }
        } else {
            None
        }
    }

    /// Whether `v`, if it is an alias, names a value of the graph.
    pub open spec fn alias_ok(self, v: Value) -> bool {
        match self.alias_of(v) {
            Some(t) => self.value_is_valid(t),
            None => true,
        }
    }

    /// The value that is reached from `v` after `n` steps along the alias
    /// relation; a value that is no alias is where the walk stays.
    pub open spec fn walk(self, v: Value, n: nat) -> Value
        decreases n,
    {
        if n == 0 {
            v
        } else {
            match self.alias_of(v) {
                Some(t) => self.walk(t, (n - 1) as nat),
                None => v,
            }
        }
    }

    /// Whether the walk along the alias relation from `from` comes by `v`.
    pub open spec fn walk_meets(self, from: Value, v: Value) -> bool {
        exists|n: nat| #[trigger] self.walk(from, n) == v
    }

    /// The value that is no alias at the end of the walk from `v`, if the
    /// walk reaches one within `fuel` steps.
    pub open spec fn follow(self, v: Value, fuel: nat) -> Option<Value>
        decreases fuel,
    {
        match self.alias_of(v) {
            None => Some(v),
            Some(t) => if fuel == 0 {
                None
            } else {
                self.follow(t, (fuel - 1) as nat)
            },
        }
    }

    /// Whether the walk along the alias relation from `v` comes to an end.
    pub open spec fn chain_ends(self, v: Value) -> bool {
        exists|n: nat| (#[trigger] self.follow(v, n)).is_some()
    }

    /// The value that `v` stands for: the one that is no alias at the end of
    /// the walk from `v`.
    pub open spec fn resolve(self, v: Value) -> Value
        recommends
            self.chain_ends(v),
    {
        self.follow(v, choose|n: nat| (#[trigger] self.follow(v, n)).is_some()).unwrap()
    }

    /// The signature that a call with the payload `data` is made with, where
    /// `data` is a call whose callee the graph knows.
    pub open spec fn call_signature_for(self, data: InstructionData) -> Option<SigRef> {
        match data {
            InstructionData::Call { func_ref, .. } => if func_ref.idx() < self.ext_funcs.len() {
                Some(self.ext_funcs[func_ref.idx() as int].signature)
            } else {
                None
            },
            InstructionData::IndirectCall { sig_ref, .. } => Some(sig_ref),
            _ => None,
        }
    }

    /// What a call with the payload `data` returns, by its signature;
    /// nothing where `data` is no call or its signature is not known to the
    /// graph.
    pub open spec fn returns_for(self, data: InstructionData) -> Seq<AbiParam> {
        match self.call_signature_for(data) {
            Some(sig) => if sig.idx() < self.signatures.len() {
                self.signatures[sig.idx() as int].return_types@
            } else {
                Seq::empty()
            },
            None => Seq::empty(),
        }
    }

    /// The number of results that the opcode and the signature of an
    /// instruction with the payload `data` ask for.
    pub open spec fn total_results_for(self, data: InstructionData) -> nat {
        data.opcode_spec().constraints_spec().fixed_results_spec() + self.returns_for(data).len()
    }

    /// The type of result number `k` of an instruction with the payload
    /// `data`, under the controlling type `ctrl`.
    pub open spec fn result_type_for(self, data: InstructionData, k: nat, ctrl: Type) -> Type {
        let c = data.opcode_spec().constraints_spec();
        if k < c.fixed_results_spec() {
            c.result_type_spec(k, ctrl)
        } else {
            self.returns_for(data)[k - c.fixed_results_spec()].value_type
        }
    }

    /// The signature that the call `inst` is made with.
    pub open spec fn call_signature_of(self, inst: Inst) -> Option<SigRef>
        recommends
            self.inst_is_valid(inst),
    {
        self.call_signature_for(self.data(inst))
    }

    /// What the call `inst` returns, by its signature.
    pub open spec fn returns_of(self, inst: Inst) -> Seq<AbiParam>
        recommends
            self.inst_is_valid(inst),
    {
        self.returns_for(self.data(inst))
    }

    /// The number of results that the opcode and the signature of `inst` ask for.
    pub open spec fn total_results(self, inst: Inst) -> nat
        recommends
            self.inst_is_valid(inst),
    {
        self.total_results_for(self.data(inst))
    }

    /// The type of result number `k` of `inst` under the controlling type `ctrl`.
    pub open spec fn result_type(self, inst: Inst, k: nat, ctrl: Type) -> Type
        recommends
            self.inst_is_valid(inst),
    {
        self.result_type_for(self.data(inst), k, ctrl)
    }

    /// What holds of every data flow graph: lists of results and of
    /// arguments hold values that are recorded as such, an alias is another
    /// name for a value of the graph, and no walk along aliases runs in a
    /// circle.
    pub open spec fn wf(self) -> bool {
        &&& self.insts.len() <= u32::MAX
        &&& self.ebbs.len() <= u32::MAX
        &&& self.values.len() <= u32::MAX
        &&& self.results.len() == self.insts.len()
        &&& forall|i: int, k: int|
            0 <= i < self.results.len() && 0 <= k < self.results[i].len() ==> self.is_result(
                #[trigger] self.results[i][k],
                i,
                k,
            )
        &&& forall|e: int, k: int|
            0 <= e < self.ebbs.len() && 0 <= k < self.ebbs[e].len() ==> self.is_arg(
                #[trigger] self.ebbs[e][k],
                e,
                k,
            )
        &&& forall|v: Value| #[trigger] self.alias_ok(v)
        &&& forall|v: Value| #[trigger] self.chain_ends(v)
        &&& self.results_fit()
    }

    /// Whether no instruction has more results than its opcode and its
    /// signature ask for.
    pub open spec fn results_fit(self) -> bool {
        forall|inst: Inst|
            self.inst_is_valid(inst) ==> (#[trigger] self.results_of(inst)).len()
                <= self.total_results(inst)
    }

    /// No instruction has more results than asked for in a graph that
    /// differs from one of which that holds only in instructions that have no
    /// result or exactly those asked for.
    pub proof fn lemma_fit_kept(self, after: DfgView)
        requires
            self.results_fit(),
            after.signatures == self.signatures,
            after.ext_funcs == self.ext_funcs,
            after.results.len() == after.insts.len(),
            self.results.len() == self.insts.len(),
            forall|i: int|
                0 <= i < after.insts.len() ==> (#[trigger] after.results[i]).len() == 0 || (
                after.results[i].len() == after.total_results_for(after.insts[i])) || (i
                    < self.insts.len() && after.results[i] == self.results[i] && after.insts[i]
                    == self.insts[i]),
        ensures
            after.results_fit(),
    {
        assert forall|inst: Inst| after.inst_is_valid(inst) implies (#[trigger] after.results_of(
            inst,
        )).len() <= after.total_results(inst) by {
            let i = inst.idx() as int;
            if after.results[i].len() != 0 && after.results[i].len() != after.total_results_for(
                after.insts[i],
            ) {
                assert(self.results_of(inst).len() <= self.total_results(inst));
            }
        }
    }

    /// No instruction has more results than asked for after signatures or
    /// external functions were added: what is asked for can only grow.
    pub proof fn lemma_fit_imported(self, after: DfgView)
        requires
            self.results_fit(),
            after.insts == self.insts,
            after.results == self.results,
            self.signatures.is_prefix_of(after.signatures),
            self.ext_funcs.is_prefix_of(after.ext_funcs),
        ensures
            after.results_fit(),
    {
        assert forall|inst: Inst| after.inst_is_valid(inst) implies (#[trigger] after.results_of(
            inst,
        )).len() <= after.total_results(inst) by {
            assert(self.results_of(inst).len() <= self.total_results(inst));
            let data = self.data(inst);
            match self.call_signature_for(data) {
                Some(sig) => {
                    assert(after.call_signature_for(data) == Some(sig));
                    if sig.idx() < self.signatures.len() {
                        assert(after.signatures[sig.idx() as int] == self.signatures[sig.idx() as int]);
                    }
                },
                None => {},
            }
        }
    }

    /// A graph that differs from a well-formed one in no value and in no
    /// list of results or arguments is well-formed.
    pub proof fn lemma_wf_kept(self, after: DfgView)
        requires
            self.wf(),
            after.insts.len() == self.insts.len(),
            after.results == self.results,
            after.ebbs == self.ebbs,
            after.values == self.values,
            after.results_fit(),
        ensures
            after.wf(),
            forall|v: Value| after.resolve(v) == self.resolve(v),
            forall|a: Value, b: Value| self.walk_meets(a, b) == after.walk_meets(a, b),
    {
        self.lemma_same_resolve(after);
        assert forall|v: Value| #[trigger] after.alias_ok(v) by {
            assert(self.alias_ok(v));
        }
        assert forall|v: Value| #[trigger] after.chain_ends(v) by {
            assert(self.chain_ends(v));
        }
        assert forall|i: int, k: int|
            0 <= i < after.results.len() && 0 <= k < after.results[i].len() implies after.is_result(
            #[trigger] after.results[i][k],
            i,
            k,
        ) by {
            assert(self.is_result(self.results[i][k], i, k));
        }
        assert forall|e: int, k: int|
            0 <= e < after.ebbs.len() && 0 <= k < after.ebbs[e].len() implies after.is_arg(
            #[trigger] after.ebbs[e][k],
            e,
            k,
        ) by {
            assert(self.is_arg(self.ebbs[e][k], e, k));
        }
    }

    /// More fuel does not change where a walk ends.
    pub proof fn lemma_follow_more(self, v: Value, n: nat, m: nat)
        requires
            self.follow(v, n).is_some(),
            n <= m,
        ensures
            self.follow(v, m) == self.follow(v, n),
        decreases n,
    {
        match self.alias_of(v) {
            None => {},
            Some(t) => {
                self.lemma_follow_more(t, (n - 1) as nat, (m - 1) as nat);
            },
        }
    }

    /// A value that is no alias stands for itself.
    pub proof fn lemma_resolve_end(self, v: Value)
        requires
            self.alias_of(v).is_none(),
        ensures
            self.chain_ends(v),
            self.resolve(v) == v,
    {
        assert(self.follow(v, 0).is_some());
    }

    /// An alias stands for what the value it names stands for.
    pub proof fn lemma_resolve_step(self, v: Value, t: Value)
        requires
            self.alias_of(v) == Some(t),
            self.chain_ends(v),
        ensures
            self.chain_ends(t),
            self.resolve(v) == self.resolve(t),
    {
        let n = choose|n: nat| (#[trigger] self.follow(v, n)).is_some();
        assert(self.follow(t, (n - 1) as nat) == self.follow(v, n));
        let m = choose|m: nat| (#[trigger] self.follow(t, m)).is_some();
        if m <= n - 1 {
            self.lemma_follow_more(t, m, (n - 1) as nat);
        } else {
            self.lemma_follow_more(t, (n - 1) as nat, m);
        }
    }

    /// With `fuel` that suffices, `follow` gives what `v` stands for.
    pub proof fn lemma_follow_is_resolve(self, v: Value, fuel: nat)
        requires
            self.follow(v, fuel).is_some(),
        ensures
            self.follow(v, fuel) == Some(self.resolve(v)),
    {
        let n = choose|n: nat| (#[trigger] self.follow(v, n)).is_some();
        if n <= fuel {
            self.lemma_follow_more(v, n, fuel);
        } else {
            self.lemma_follow_more(v, fuel, n);
        }
    }

    /// What a value stands for is no alias.
    pub proof fn lemma_resolve_is_no_alias(self, v: Value, fuel: nat)
        requires
            self.follow(v, fuel).is_some(),
        ensures
            self.alias_of(self.follow(v, fuel).unwrap()).is_none(),
        decreases fuel,
    {
        match self.alias_of(v) {
            None => {},
            Some(t) => {
                self.lemma_resolve_is_no_alias(t, (fuel - 1) as nat);
            },
        }
    }

    /// The alias relation decides where every walk goes.
    pub proof fn lemma_same_aliases(self, other: DfgView, v: Value, n: nat)
        requires
            forall|x: Value| self.alias_of(x) == other.alias_of(x),
        ensures
            self.follow(v, n) == other.follow(v, n),
            self.walk(v, n) == other.walk(v, n),
        decreases n,
    {
        if n > 0 {
            match self.alias_of(v) {
                None => {},
                Some(t) => {
                    self.lemma_same_aliases(other, t, (n - 1) as nat);
                },
            }
        }
    }

    /// Two graphs with one alias relation agree on what every value stands for.
    pub proof fn lemma_same_resolve(self, other: DfgView)
        requires
            forall|x: Value| self.alias_of(x) == other.alias_of(x),
        ensures
            forall|v: Value| self.chain_ends(v) == other.chain_ends(v),
            forall|v: Value| self.resolve(v) == other.resolve(v),
            forall|a: Value, b: Value| self.walk_meets(a, b) == other.walk_meets(a, b),
    {
        assert forall|v: Value, n: nat| self.follow(v, n) == other.follow(v, n) && self.walk(v, n)
            == other.walk(v, n) by {
            self.lemma_same_aliases(other, v, n);
        }
        assert forall|v: Value| self.chain_ends(v) == other.chain_ends(v) by {
            if self.chain_ends(v) {
                let n = choose|n: nat| (#[trigger] self.follow(v, n)).is_some();
                assert(other.follow(v, n).is_some());
            }
            if other.chain_ends(v) {
                let n = choose|n: nat| (#[trigger] other.follow(v, n)).is_some();
                assert(self.follow(v, n).is_some());
            }
        }
        assert forall|v: Value| self.resolve(v) == other.resolve(v) by {
            let n1 = choose|n: nat| (#[trigger] self.follow(v, n)).is_some();
            let n2 = choose|n: nat| (#[trigger] other.follow(v, n)).is_some();
            if self.chain_ends(v) {
                assert(self.follow(v, n1).is_some());
                assert(other.follow(v, n2).is_some());
                assert(self.follow(v, n2).is_some());
                self.lemma_follow_is_resolve(v, n2);
            } else {
                assert(self.follow(v, n1).is_none());
                assert(other.follow(v, n2).is_none());
            }
        }
        assert forall|a: Value, b: Value| self.walk_meets(a, b) == other.walk_meets(a, b) by {
            if self.walk_meets(a, b) {
                let n = choose|n: nat| #[trigger] self.walk(a, n) == b;
                assert(other.walk(a, n) == b);
            }
            if other.walk_meets(a, b) {
                let n = choose|n: nat| #[trigger] other.walk(a, n) == b;
                assert(self.walk(a, n) == b);
            }
        }
    }

    /// A graph stays well-formed when values that are no aliases are added
    /// to it, lists are added or emptied, and at most one list of results
    /// and one list of arguments are replaced by lists that hold values
    /// recorded as theirs.
    pub proof fn lemma_wf_grown(self, after: DfgView, inst_at: int, ebb_at: int)
        requires
            self.wf(),
            after.insts.len() <= u32::MAX,
            after.ebbs.len() <= u32::MAX,
            after.values.len() <= u32::MAX,
            after.results.len() == after.insts.len(),
            self.values.is_prefix_of(after.values),
            forall|j: int|
                self.values.len() <= j < after.values.len() ==> !(
                #[trigger] after.values[j] is Alias),
            forall|i: int|
                0 <= i < after.results.len() ==> i == inst_at || (#[trigger] after.results[i]).len()
                    == 0 || (i < self.results.len() && after.results[i] == self.results[i]),
            forall|e: int|
                0 <= e < after.ebbs.len() ==> e == ebb_at || (#[trigger] after.ebbs[e]).len() == 0
                    || (e < self.ebbs.len() && after.ebbs[e] == self.ebbs[e]),
            forall|k: int|
                0 <= inst_at < after.results.len() && 0 <= k < after.results[inst_at].len()
                    ==> after.is_result(#[trigger] after.results[inst_at][k], inst_at, k),
            forall|k: int|
                0 <= ebb_at < after.ebbs.len() && 0 <= k < after.ebbs[ebb_at].len() ==> after.is_arg(
                    #[trigger] after.ebbs[ebb_at][k],
                    ebb_at,
                    k,
                ),
            after.results_fit(),
        ensures
            after.wf(),
            forall|v: Value| after.resolve(v) == self.resolve(v),
            forall|a: Value, b: Value| self.walk_meets(a, b) == after.walk_meets(a, b),
            forall|v: Value| self.alias_of(v) == after.alias_of(v),
    {
        assert forall|x: Value| self.alias_of(x) == after.alias_of(x) by {
            if self.value_is_valid(x) {
                assert(after.values[x.idx() as int] == self.values[x.idx() as int]);
            } else if after.value_is_valid(x) {
                assert(!(after.values[x.idx() as int] is Alias));
            }
        }
        self.lemma_same_resolve(after);
        assert forall|v: Value| #[trigger] after.alias_ok(v) by {
            assert(self.alias_ok(v));
        }
        assert forall|v: Value| #[trigger] after.chain_ends(v) by {
            assert(self.chain_ends(v));
        }
        assert forall|i: int, k: int|
            0 <= i < after.results.len() && 0 <= k < after.results[i].len() implies after.is_result(
            #[trigger] after.results[i][k],
            i,
            k,
        ) by {
            if i != inst_at {
                let x = self.results[i][k];
                assert(self.is_result(x, i, k));
                assert(after.values[x.idx() as int] == self.values[x.idx() as int]);
            }
        }
        assert forall|e: int, k: int|
            0 <= e < after.ebbs.len() && 0 <= k < after.ebbs[e].len() implies after.is_arg(
            #[trigger] after.ebbs[e][k],
            e,
            k,
        ) by {
            if e != ebb_at {
                let x = self.ebbs[e][k];
                assert(self.is_arg(x, e, k));
                assert(after.values[x.idx() as int] == self.values[x.idx() as int]);
            }
        }
    }

    /// A value that is no alias is where every walk from it stays.
    pub proof fn lemma_walk_stays(self, v: Value, n: nat)
        requires
            self.alias_of(v).is_none(),
        ensures
            self.walk(v, n) == v,
    {
    }

    /// The walk from the value that an alias names is the rest of the walk
    /// from the alias.
    pub proof fn lemma_walk_rest(self, v: Value, t: Value, dest: Value)
        requires
            self.alias_of(v) == Some(t),
            !self.walk_meets(v, dest),
        ensures
            !self.walk_meets(t, dest),
    {
        if self.walk_meets(t, dest) {
            let n = choose|n: nat| #[trigger] self.walk(t, n) == dest;
            assert(self.walk(v, n + 1) == dest);
        }
    }

    /// Making `dest` an alias changes nothing for a walk that does not come
    /// by `dest`.
    pub proof fn lemma_alias_elsewhere(self, after: DfgView, dest: Value, x: Value, fuel: nat)
        requires
            after.values.len() == self.values.len(),
            forall|y: Value| y != dest ==> self.alias_of(y) == after.alias_of(y),
            !self.walk_meets(x, dest),
        ensures
            after.follow(x, fuel) == self.follow(x, fuel),
        decreases fuel,
    {
        assert(self.walk(x, 0) == x);
        match self.alias_of(x) {
            None => {},
            Some(t) => {
                if fuel > 0 {
                    self.lemma_walk_rest(x, t, dest);
                    self.lemma_alias_elsewhere(after, dest, t, (fuel - 1) as nat);
                }
            },
        }
    }

    /// After `dest` was made an alias of `src`, whose walk ends within
    /// `src_fuel` steps and does not come by `dest`, a walk that ended
    /// within `fuel` steps ends within `fuel + src_fuel + 1`.
    pub proof fn lemma_alias_added(
        self,
        after: DfgView,
        dest: Value,
        src: Value,
        src_fuel: nat,
        x: Value,
        fuel: nat,
    )
        requires
            after.values.len() == self.values.len(),
            forall|y: Value| y != dest ==> self.alias_of(y) == after.alias_of(y),
            after.alias_of(dest) == Some(src),
            !self.walk_meets(src, dest),
            self.follow(src, src_fuel).is_some(),
            self.follow(x, fuel).is_some(),
        ensures
            after.follow(x, fuel + src_fuel + 1).is_some(),
            after.follow(dest, src_fuel + 1) == self.follow(src, src_fuel),
        decreases fuel,
    {
        self.lemma_alias_elsewhere(after, dest, src, src_fuel);
        assert(after.follow(dest, src_fuel + 1) == after.follow(src, src_fuel));
        if x == dest {
            after.lemma_follow_more(dest, src_fuel + 1, fuel + src_fuel + 1);
        } else {
            match self.alias_of(x) {
                None => {},
                Some(t) => {
                    self.lemma_alias_added(after, dest, src, src_fuel, t, (fuel - 1) as nat);
                    assert(after.follow(x, fuel + src_fuel + 1) == after.follow(
                        t,
                        (fuel + src_fuel) as nat,
                    ));
                },
            }
        }
    }

    /// The graph after `inst` got the results that its opcode and its
    /// signature ask for, as fresh values, with `pool` for its pool.
    pub open spec fn with_fresh_results(self, inst: Inst, ctrl: Type, pool: Seq<Value>) -> DfgView
        recommends
            self.inst_is_valid(inst),
    {
        let n = self.total_results(inst);
        let first = if n > 0 {
            self.result_type(inst, 0, ctrl)
        } else {
            Type::Void
        };
        DfgView {
            insts: self.insts.update(inst.idx() as int, self.data(inst).with_first_type(first)),
            results: self.results.update(
                inst.idx() as int,
                Seq::new(n, |k: int| Value::with_idx((self.values.len() + k) as nat)),
            ),
            values: self.values + Seq::new(
                n,
                |k: int|
                    ValueData::Inst { ty: self.result_type(inst, k as nat, ctrl), num: k as usize, inst },
            ),
            pool,
            ..self
        }
    }

    /// The graph with one more instruction, which has the payload `data` and
    /// no result yet.
    pub open spec fn with_inst_added(self, data: InstructionData) -> DfgView {
        DfgView {
            insts: self.insts.push(data),
            results: self.results.push(Seq::empty()),
            ..self
        }
    }

    /// The graph with `data` for the payload of `inst`.
    pub open spec fn with_data(self, inst: Inst, data: InstructionData) -> DfgView
        recommends
            self.inst_is_valid(inst),
    {
        DfgView { insts: self.insts.update(inst.idx() as int, data), ..self }
    }

    /// The graph after the payload of `inst` was replaced by `data`: the
    /// results that were attached stay, and an instruction without any gets
    /// those that `data` asks for.
    pub open spec fn with_replaced(
        self,
        inst: Inst,
        data: InstructionData,
        ctrl: Type,
        pool: Seq<Value>,
    ) -> DfgView
        recommends
            self.inst_is_valid(inst),
    {
        if self.results_of(inst).len() > 0 {
            self.with_data(inst, data)
        } else {
            self.with_data(inst, data).with_fresh_results(inst, ctrl, pool)
        }
    }

    /// Every formal argument of a block is recorded as an argument of that
    /// block, and every result of an instruction as a result of that
    /// instruction, each at its position.
    pub proof fn lemma_ssa_shape(self, ebb: Ebb, inst: Inst, k: int)
        requires
            self.wf(),
        ensures
            0 <= k < self.args_of(ebb).len() ==> self.value_is_valid(self.args_of(ebb)[k])
                && self.value(self.args_of(ebb)[k]).def_spec() == ValueDef::Arg(ebb, k as usize),
            0 <= k < self.results_of(inst).len() ==> self.value_is_valid(self.results_of(inst)[k])
                && self.value(self.results_of(inst)[k]).def_spec() == ValueDef::Result(
                inst,
                k as usize,
            ),
    {
        if 0 <= k < self.args_of(ebb).len() {
            let e = ebb.idx() as int;
            assert(self.is_arg(self.ebbs[e][k], e, k));
            match self.value(self.args_of(ebb)[k]) {
                ValueData::Arg { ebb: owner, .. } => {
                    Ebb::lemma_idx_injective(owner, ebb);
                },
                _ => {},
            }
        }
        if 0 <= k < self.results_of(inst).len() {
            let i = inst.idx() as int;
            assert(self.is_result(self.results[i][k], i, k));
            match self.value(self.results_of(inst)[k]) {
                ValueData::Inst { inst: owner, .. } => {
                    Inst::lemma_idx_injective(owner, inst);
                },
                _ => {},
            }
        }
    }

    /// A walk that comes back to where it began never ends.
    proof fn lemma_circle_never_ends(self, v: Value, n: nat, fuel: nat)
        requires
            n > 0,
            self.walk(v, n) == v,
            self.alias_of(v).is_some(),
        ensures
            self.follow(v, fuel).is_none(),
        decreases fuel,
    {
        self.lemma_circle_step(v, v, n, fuel);
    }

    /// From `x`, `fuel` steps do not reach the end of a walk that is back at
    /// the alias `v` after `n` more steps.
    proof fn lemma_circle_step(self, v: Value, x: Value, n: nat, fuel: nat)
        requires
            self.walk(x, n) == v,
            self.alias_of(v).is_some(),
            exists|m: nat| m > 0 && #[trigger] self.walk(v, m) == v,
        ensures
            self.follow(x, fuel).is_none(),
        decreases fuel, n,
    {
        match self.alias_of(x) {
            None => {
                self.lemma_walk_stays(x, n);
            },
            Some(t) => {
                if fuel > 0 {
                    if n > 0 {
                        self.lemma_circle_step(v, t, (n - 1) as nat, (fuel - 1) as nat);
                    } else {
                        let m = choose|m: nat| m > 0 && #[trigger] self.walk(v, m) == v;
                        self.lemma_circle_step(v, t, (m - 1) as nat, (fuel - 1) as nat);
                    }
                }
            },
        }
    }

    /// The alias relation has no circle: no walk along aliases comes back to
    /// the alias that it began at.
    pub proof fn lemma_aliases_acyclic(self, v: Value, n: nat)
        requires
            self.wf(),
            self.alias_of(v).is_some(),
            n > 0,
        ensures
            self.walk(v, n) != v,
    {
        if self.walk(v, n) == v {
            assert(self.chain_ends(v));
            let fuel = choose|fuel: nat| (#[trigger] self.follow(v, fuel)).is_some();
            self.lemma_circle_never_ends(v, n, fuel);
        }
    }

    /// Every value stands for a value that is no alias, and that is a value
    /// of the graph if the first one is.
    pub proof fn lemma_resolve_ends(self, v: Value)
        requires
            self.wf(),
        ensures
            self.alias_of(self.resolve(v)).is_none(),
            self.value_is_valid(v) ==> self.value_is_valid(self.resolve(v)),
    {
        assert(self.chain_ends(v));
        let fuel = choose|fuel: nat| (#[trigger] self.follow(v, fuel)).is_some();
        self.lemma_resolve_is_no_alias(v, fuel);
        self.lemma_follow_valid(v, fuel);
    }

    /// Where a walk from a value of the graph ends is a value of the graph.
    proof fn lemma_follow_valid(self, v: Value, fuel: nat)
        requires
            self.wf(),
            self.follow(v, fuel).is_some(),
        ensures
            self.value_is_valid(v) ==> self.value_is_valid(self.follow(v, fuel).unwrap()),
        decreases fuel,
    {
        match self.alias_of(v) {
            None => {},
            Some(t) => {
                assert(self.alias_ok(v));
                self.lemma_follow_valid(t, (fuel - 1) as nat);
            },
        }
    }

    /// The graph in which `dest` is another name for `src`.
    pub open spec fn with_alias(self, dest: Value, src: Value) -> DfgView
        recommends
            self.value_is_valid(dest),
            self.value_is_valid(src),
    {
        DfgView {
            values: self.values.update(
                dest.idx() as int,
                ValueData::Alias { ty: self.value(src).ty_spec(), target: src },
            ),
            ..self
        }
    }

    /// After a value was made an alias, it is reported as an alias of the
    /// value that it was given, it stands for what that value stood for, and
    /// that is no alias.
    pub proof fn lemma_alias_resolves(self, dest: Value, src: Value)
        requires
            self.wf(),
            self.value_is_valid(dest),
            self.value_is_valid(src),
            !self.is_attached(dest),
            !self.walk_meets(src, dest),
        ensures
            self.with_alias(dest, src).wf(),
            self.with_alias(dest, src).value(dest).def_spec() == ValueDef::Alias(src),
            self.with_alias(dest, src).resolve(dest) == self.resolve(src),
            self.with_alias(dest, src).alias_of(self.resolve(src)).is_none(),
            forall|x: Value|
                !self.walk_meets(x, dest) ==> #[trigger] self.with_alias(dest, src).resolve(x)
                    == self.resolve(x),
    {
        let pre = self;
        let post = self.with_alias(dest, src);
        pre.lemma_fit_kept(post);
        assert forall|y: Value| y != dest implies pre.alias_of(y) == post.alias_of(y) by {
            if y.idx() == dest.idx() {
                Value::lemma_idx_injective(y, dest);
            }
        }
        assert(pre.chain_ends(src));
        let src_fuel = choose|n: nat| (#[trigger] pre.follow(src, n)).is_some();
        assert forall|x: Value| #[trigger] post.chain_ends(x) by {
            assert(pre.chain_ends(x));
            let fuel = choose|n: nat| (#[trigger] pre.follow(x, n)).is_some();
            pre.lemma_alias_added(post, dest, src, src_fuel, x, fuel);
        }
        pre.lemma_alias_added(post, dest, src, src_fuel, src, src_fuel);
        post.lemma_follow_is_resolve(dest, src_fuel + 1);
        pre.lemma_follow_is_resolve(src, src_fuel);
        post.lemma_resolve_is_no_alias(dest, src_fuel + 1);
        assert forall|x: Value| !pre.walk_meets(x, dest) implies #[trigger] post.resolve(x)
            == pre.resolve(x) by {
            assert(pre.chain_ends(x));
            let fuel = choose|n: nat| (#[trigger] pre.follow(x, n)).is_some();
            pre.lemma_alias_elsewhere(post, dest, x, fuel);
            post.lemma_follow_is_resolve(x, fuel);
            pre.lemma_follow_is_resolve(x, fuel);
        }
        assert forall|v: Value| #[trigger] post.alias_ok(v) by {
            assert(pre.alias_ok(v));
            if v != dest {
                assert(pre.alias_of(v) == post.alias_of(v));
            }
        }
        assert forall|i: int, k: int|
            0 <= i < post.results.len() && 0 <= k < post.results[i].len() implies post.is_result(
            #[trigger] post.results[i][k],
            i,
            k,
        ) by {
            let x = pre.results[i][k];
            assert(pre.is_result(x, i, k));
            if x.idx() == dest.idx() {
                Value::lemma_idx_injective(x, dest);
            }
        }
        assert forall|e: int, k: int|
            0 <= e < post.ebbs.len() && 0 <= k < post.ebbs[e].len() implies post.is_arg(
            #[trigger] post.ebbs[e][k],
            e,
            k,
        ) by {
            let x = pre.ebbs[e][k];
            assert(pre.is_arg(x, e, k));
            if x.idx() == dest.idx() {
                Value::lemma_idx_injective(x, dest);
            }
        }
    }

    /// Replacing the payload of an instruction that has results leaves it
    /// its results, and leaves every value and every other instruction as
    /// they were: what used the results uses them still.
    pub proof fn lemma_replace_keeps_results(
        self,
        inst: Inst,
        data: InstructionData,
        ctrl: Type,
        pool: Seq<Value>,
    )
        requires
            self.inst_is_valid(inst),
            self.results_of(inst).len() > 0,
        ensures
            self.with_replaced(inst, data, ctrl, pool).results == self.results,
            self.with_replaced(inst, data, ctrl, pool).results_of(inst)[0] == self.results_of(
                inst,
            )[0],
            self.with_replaced(inst, data, ctrl, pool).values == self.values,
            self.with_replaced(inst, data, ctrl, pool).data(inst) == data,
            forall|other: Inst|
                self.inst_is_valid(other) && other != inst ==> #[trigger] self.with_replaced(
                    inst,
                    data,
                    ctrl,
                    pool,
                ).data(other) == self.data(other),
    {
        assert forall|other: Inst| self.inst_is_valid(other) && other != inst
            implies #[trigger] self.with_replaced(inst, data, ctrl, pool).data(other) == self.data(
            other,
        ) by {
            if other.idx() == inst.idx() {
                Inst::lemma_idx_injective(other, inst);
            }
        }
    }
}

} // verus!
