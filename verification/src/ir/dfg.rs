//! The data flow graph: the instructions of a function and the values that
//! they define and use.

use crate::entity::{EntityRef, PrimaryMap, SecondaryMap};
use crate::ir::dfgview::DfgView;
use crate::ir::entities::{Ebb, FuncRef, Inst, SigRef, Value};
use crate::ir::extfunc::{ExtFuncData, Signature};
use crate::ir::builder::{global_value_data, iadd_imm_data, load_data, symbol_value_data};
use crate::ir::entities::GlobalValue;
use crate::ir::instructions::InstructionData;
use crate::ir::memflags::MemFlags;
use crate::ir::types::Type;
use crate::ir::valuelist::{ValueList, ValueListPool};
use vstd::prelude::*;

verus! {

/// What is recorded about a value.
#[derive(Clone, Copy, Debug, PartialEq, Eq, Hash, Structural)]
pub enum ValueData {
    /// Result number `num` of the instruction `inst`.
    Inst { ty: Type, num: usize, inst: Inst },
    /// Argument number `num` of the block `ebb`.
    Arg { ty: Type, num: usize, ebb: Ebb },
    /// Another name for the value `target`.
    Alias { ty: Type, target: Value },
}

/// Where a value is defined.
#[derive(Clone, Copy, Debug, PartialEq, Eq, Hash, Structural)]
pub enum ValueDef {
    /// It is a result of an instruction.
    Result(Inst, usize),
    /// It is an argument of a block.
    Arg(Ebb, usize),
    /// It is another name for a value.
    Alias(Value),
}

impl ValueData {
    pub open spec fn ty_spec(self) -> Type {
        match self {
            ValueData::Inst { ty, .. } => ty,
            ValueData::Arg { ty, .. } => ty,
            ValueData::Alias { ty, .. } => ty,
        }
    }

    pub open spec fn def_spec(self) -> ValueDef {
        match self {
            ValueData::Inst { inst, num, .. } => ValueDef::Result(inst, num),
            ValueData::Arg { ebb, num, .. } => ValueDef::Arg(ebb, num),
            ValueData::Alias { target, .. } => ValueDef::Alias(target),
        }
    }
}

/// The instructions, blocks and values of a function; it owns them all.
///
/// The graph says which values an instruction uses and defines. It does not
/// say where an instruction stands in the program.
pub struct DataFlowGraph {
    insts: PrimaryMap<Inst, InstructionData>,
    results: SecondaryMap<Inst, ValueList>,
    ebbs: PrimaryMap<Ebb, ValueList>,
    value_lists: ValueListPool,
    values: PrimaryMap<Value, ValueData>,
    signatures: PrimaryMap<SigRef, Signature>,
    ext_funcs: PrimaryMap<FuncRef, ExtFuncData>,
}

impl View for DataFlowGraph {
    type V = DfgView;

    closed spec fn view(&self) -> DfgView {
        DfgView {
            insts: self.insts@,
            results: Seq::new(
                self.insts@.len(),
                |i: int| self.results.at_index(i as nat).values_in(self.value_lists@),
            ),
            ebbs: Seq::new(
                self.ebbs@.len(),
                |e: int| self.ebbs@[e].values_in(self.value_lists@),
            ),
            values: self.values@,
            pool: self.value_lists@,
            signatures: self.signatures@,
            ext_funcs: self.ext_funcs@,
        }
    }
}

impl DataFlowGraph {
    /// What holds of the lists that the graph keeps of its own: they lie
    /// within the pool.
    pub closed spec fn inv(&self) -> bool {
        &&& forall|i: nat| (#[trigger] self.results.at_index(i)).is_valid_in(self.value_lists@)
        &&& forall|i: nat|
            i >= self.insts@.len() ==> (#[trigger] self.results.at_index(i)).len_spec() == 0
        &&& forall|e: int|
            0 <= e < self.ebbs@.len() ==> (#[trigger] self.ebbs@[e]).is_valid_in(
                self.value_lists@,
            )
    }

    /// The invariant of the graph.
    pub open spec fn wf(&self) -> bool {
        self.inv() && self@.wf()
    }

    /// A graph without instructions, blocks or values.
    pub fn new() -> (dfg: DataFlowGraph)
        ensures
            dfg.wf(),
            dfg@ == (DfgView {
                insts: Seq::empty(),
                results: Seq::empty(),
                ebbs: Seq::empty(),
                values: Seq::empty(),
                pool: Seq::empty(),
                signatures: Seq::empty(),
                ext_funcs: Seq::empty(),
            }),
    {
        let dfg = DataFlowGraph {
            insts: PrimaryMap::new(),
            results: SecondaryMap::with_default(ValueList::new()),
            ebbs: PrimaryMap::new(),
            value_lists: ValueListPool::new(),
            values: PrimaryMap::new(),
            signatures: PrimaryMap::new(),
            ext_funcs: PrimaryMap::new(),
        };
        proof {
            assert(dfg@.results =~= Seq::empty());
            assert(dfg@.ebbs =~= Seq::empty());
            assert forall|v: Value| #[trigger] dfg@.chain_ends(v) by {
                dfg@.lemma_resolve_end(v);
            }
        }
        dfg
    }

    /// The number of instructions.
    pub fn num_insts(&self) -> (n: usize)
        ensures
            n == self@.insts.len(),
    {
        self.insts.len()
    }

    /// The number of blocks.
    pub fn num_ebbs(&self) -> (n: usize)
        ensures
            n == self@.ebbs.len(),
    {
        self.ebbs.len()
    }

    /// The number of values.
    pub fn num_values(&self) -> (n: usize)
        ensures
            n == self@.values.len(),
    {
        self.values.len()
    }

    /// Whether `inst` names an instruction of the graph.
    pub fn inst_is_valid(&self, inst: Inst) -> (b: bool)
        ensures
            b == self@.inst_is_valid(inst),
    {
        self.insts.is_valid(inst)
    }

    /// Whether `ebb` names a block of the graph.
    pub fn ebb_is_valid(&self, ebb: Ebb) -> (b: bool)
        ensures
            b == self@.ebb_is_valid(ebb),
    {
        self.ebbs.is_valid(ebb)
    }

    /// Whether `v` names a value of the graph.
    pub fn value_is_valid(&self, v: Value) -> (b: bool)
        ensures
            b == self@.value_is_valid(v),
    {
        self.values.is_valid(v)
    }

    /// The pool that the value lists in the payloads point into.
    pub fn value_lists(&self) -> (pool: &ValueListPool)
        ensures
            pool@ == self@.pool,
    {
        &self.value_lists
    }

    /// The signatures that calls refer to.
    pub fn signatures(&self) -> (sigs: &PrimaryMap<SigRef, Signature>)
        ensures
            sigs@ == self@.signatures,
    {
        &self.signatures
    }

    /// The external functions that calls refer to.
    pub fn ext_funcs(&self) -> (funcs: &PrimaryMap<FuncRef, ExtFuncData>)
        ensures
            funcs@ == self@.ext_funcs,
    {
        &self.ext_funcs
    }

    /// The payload of `inst`.
    pub fn inst_data(&self, inst: Inst) -> (data: &InstructionData)
        requires
            self@.inst_is_valid(inst),
        ensures
            *data == self@.data(inst),
    {
        self.insts.get(inst)
    }

    /// What is recorded about `v`.
    pub fn value_data(&self, v: Value) -> (data: ValueData)
        requires
            self@.value_is_valid(v),
        ensures
            data == self@.value(v),
    {
        *self.values.get(v)
    }

    /// Where `v` is defined. An alias is not followed: it is reported as one.
    pub fn value_def(&self, v: Value) -> (def: ValueDef)
        requires
            self@.value_is_valid(v),
        ensures
            def == self@.value(v).def_spec(),
    {
        match *self.values.get(v) {
            ValueData::Inst { inst, num, .. } => ValueDef::Result(inst, num),
            ValueData::Arg { ebb, num, .. } => ValueDef::Arg(ebb, num),
            ValueData::Alias { target, .. } => ValueDef::Alias(target),
        }
    }

    /// The type of `v`.
    pub fn value_type(&self, v: Value) -> (ty: Type)
        requires
            self@.value_is_valid(v),
        ensures
            ty == self@.value(v).ty_spec(),
    {
        match *self.values.get(v) {
            ValueData::Inst { ty, .. } => ty,
            ValueData::Arg { ty, .. } => ty,
            ValueData::Alias { ty, .. } => ty,
        }
    }

    /// The formal arguments of `ebb`, in their order.
    pub fn ebb_args(&self, ebb: Ebb) -> (args: Vec<Value>)
        requires
            self@.ebb_is_valid(ebb),
        ensures
            args@ == self@.args_of(ebb),
    {
        self.ebbs.get(ebb).to_vec(&self.value_lists)
    }

    /// The number of formal arguments of `ebb`.
    pub fn num_ebb_args(&self, ebb: Ebb) -> (n: usize)
        requires
            self@.ebb_is_valid(ebb),
        ensures
            n == self@.args_of(ebb).len(),
    {
        self.ebbs.get(ebb).len(&self.value_lists)
    }

    /// The results attached to `inst`, in their order.
    pub fn inst_results(&self, inst: Inst) -> (results: Vec<Value>)
        requires
            self@.inst_is_valid(inst),
        ensures
            results@ == self@.results_of(inst),
    {
        self.results.get(inst).to_vec(&self.value_lists)
    }

    /// The number of results attached to `inst`.
    pub fn num_results(&self, inst: Inst) -> (n: usize)
        requires
            self@.inst_is_valid(inst),
        ensures
            n == self@.results_of(inst).len(),
    {
        self.results.get(inst).len(&self.value_lists)
    }

    /// Whether `inst` has a result attached.
    pub fn has_results(&self, inst: Inst) -> (b: bool)
        requires
            self@.inst_is_valid(inst),
        ensures
            b == (self@.results_of(inst).len() > 0),
    {
        !self.results.get(inst).is_empty(&self.value_lists)
    }

    /// The first result of `inst`.
    pub fn first_result(&self, inst: Inst) -> (v: Value)
        requires
            self@.inst_is_valid(inst),
            self@.results_of(inst).len() > 0,
        ensures
            v == self@.results_of(inst)[0],
    {
        match self.results.get(inst).first(&self.value_lists) {
            Some(v) => v,
            None => Value::new(0),
        }
    }

    /// Whether `v` is in the list of results or of arguments that it is
    /// recorded to belong to.
    pub fn value_is_attached(&self, v: Value) -> (b: bool)
        requires
            self.wf(),
            self@.value_is_valid(v),
        ensures
            b == self@.is_attached(v),
    {
        match *self.values.get(v) {
            ValueData::Inst { inst, num, .. } => {
                match self.results.get(inst).get(num, &self.value_lists) {
                    Some(x) => {
                        proof {
                            if inst.idx() >= self.insts@.len() {
                                assert(self.results.at_index(inst.idx()).len_spec() == 0);
                            }
                        }
                        x == v
                    },
                    None => false,
                }
            },
            ValueData::Arg { ebb, num, .. } => {
                if self.ebbs.is_valid(ebb) {
                    match self.ebbs.get(ebb).get(num, &self.value_lists) {
                        Some(x) => x == v,
                        None => false,
                    }
                } else {
                    false
                }
            },
            ValueData::Alias { .. } => false,
        }
    }

    /// The signature that the call `inst` is made with: that of the external
    /// function for a direct call whose callee the graph knows, the one
    /// named in the payload for an indirect call, and none otherwise.
    pub fn call_signature(&self, inst: Inst) -> (sig: Option<SigRef>)
        requires
            self@.inst_is_valid(inst),
        ensures
            sig == self@.call_signature_of(inst),
    {
        match self.insts.get(inst) {
            InstructionData::Call { func_ref, .. } => {
                if self.ext_funcs.is_valid(*func_ref) {
                    Some(self.ext_funcs.get(*func_ref).signature)
                } else {
                    None
                }
            },
            InstructionData::IndirectCall { sig_ref, .. } => Some(*sig_ref),
            _ => None,
        }
    }

    /// The value that `v` stands for: `v` itself unless it is an alias, else
    /// what the value that it names stands for.
    pub fn resolve_aliases(&self, v: Value) -> (r: Value)
        requires
            self.wf(),
        ensures
            r == self@.resolve(v),
            self@.alias_of(r).is_none(),
            self@.value_is_valid(v) ==> self@.value_is_valid(r),
    {
        let mut cur = v;
        let ghost mut fuel: nat = 0;
        proof {
            assert(self@.chain_ends(v));
            fuel = choose|n: nat| (#[trigger] self@.follow(v, n)).is_some();
            self@.lemma_follow_is_resolve(v, fuel);
        }
        loop
            invariant
                self.wf(),
                self@.follow(cur, fuel) == Some(self@.resolve(v)),
                self@.value_is_valid(v) ==> self@.value_is_valid(cur),
            decreases fuel,
        {
            if !self.values.is_valid(cur) {
                return cur;
            }
            match *self.values.get(cur) {
                ValueData::Alias { target, .. } => {
                    proof {
                        assert(self@.alias_of(cur) == Some(target));
                        assert(self@.alias_ok(cur));
                        fuel = (fuel - 1) as nat;
                    }
                    cur = target;
                },
                _ => {
                    return cur;
                },
            }
        }
    }

    /// The lists that the graph keeps of its own hold in a grown pool what
    /// they held before.
    proof fn lemma_lists_kept(&self, pool: Seq<Value>)
        requires
            self.inv(),
            self.value_lists@.is_prefix_of(pool),
        ensures
            forall|i: nat|
                (#[trigger] self.results.at_index(i)).is_valid_in(pool) && self.results.at_index(
                    i,
                ).values_in(pool) == self.results.at_index(i).values_in(self.value_lists@),
            forall|e: int|
                0 <= e < self.ebbs@.len() ==> (#[trigger] self.ebbs@[e]).is_valid_in(pool)
                    && self.ebbs@[e].values_in(pool) == self.ebbs@[e].values_in(self.value_lists@),
    {
        assert forall|i: nat|
            (#[trigger] self.results.at_index(i)).is_valid_in(pool) && self.results.at_index(
                i,
            ).values_in(pool) == self.results.at_index(i).values_in(self.value_lists@) by {
            self.results.at_index(i).lemma_pool_grows(self.value_lists@, pool);
        }
        assert forall|e: int| 0 <= e < self.ebbs@.len() implies (#[trigger] self.ebbs@[e]).is_valid_in(
            pool,
        ) && self.ebbs@[e].values_in(pool) == self.ebbs@[e].values_in(self.value_lists@) by {
            self.ebbs@[e].lemma_pool_grows(self.value_lists@, pool);
        }
    }

    /// Adds an instruction with the payload `data`. It has no result yet.
    pub fn make_inst(&mut self, data: InstructionData) -> (inst: Inst)
        requires
            old(self).wf(),
            old(self)@.insts.len() < u32::MAX,
        ensures
            final(self).wf(),
            inst.idx() == old(self)@.insts.len(),
            final(self)@ == old(self)@.with_inst_added(data),
    {
        let inst = self.insts.push(data);
        proof {
            assert(self.results.at_index(inst.idx()).len_spec() == 0);
            assert(self@.results =~~= old(self)@.results.push(Seq::empty()));
            assert(self@.ebbs =~~= old(self)@.ebbs);
            old(self)@.lemma_fit_kept(self@);
            old(self)@.lemma_wf_grown(self@, -1, -1);
        }
        inst
    }

    /// Adds a block. It has no argument yet.
    pub fn make_ebb(&mut self) -> (ebb: Ebb)
        requires
            old(self).wf(),
            old(self)@.ebbs.len() < u32::MAX,
        ensures
            final(self).wf(),
            ebb.idx() == old(self)@.ebbs.len(),
            final(self)@ == (DfgView {
                ebbs: old(self)@.ebbs.push(Seq::empty()),
                ..old(self)@
            }),
    {
        let ebb = self.ebbs.push(ValueList::new());
        proof {
            assert(self@.results =~~= old(self)@.results);
            assert(self@.ebbs =~~= old(self)@.ebbs.push(Seq::empty()));
            old(self)@.lemma_fit_kept(self@);
            old(self)@.lemma_wf_grown(self@, -1, -1);
        }
        ebb
    }

    /// Adds the signature `sig`.
    pub fn import_signature(&mut self, sig: Signature) -> (r: SigRef)
        requires
            old(self).wf(),
            old(self)@.signatures.len() < u32::MAX,
        ensures
            final(self).wf(),
            r.idx() == old(self)@.signatures.len(),
            final(self)@ == (DfgView {
                signatures: old(self)@.signatures.push(sig),
                ..old(self)@
            }),
    {
        let r = self.signatures.push(sig);
        proof {
            assert(self@.results =~~= old(self)@.results);
            assert(self@.ebbs =~~= old(self)@.ebbs);
            old(self)@.lemma_fit_imported(self@);
            old(self)@.lemma_wf_kept(self@);
        }
        r
    }

    /// Adds the external function `func`.
    pub fn import_function(&mut self, func: ExtFuncData) -> (r: FuncRef)
        requires
            old(self).wf(),
            old(self)@.ext_funcs.len() < u32::MAX,
        ensures
            final(self).wf(),
            r.idx() == old(self)@.ext_funcs.len(),
            final(self)@ == (DfgView {
                ext_funcs: old(self)@.ext_funcs.push(func),
                ..old(self)@
            }),
    {
        let r = self.ext_funcs.push(func);
        proof {
            assert(self@.results =~~= old(self)@.results);
            assert(self@.ebbs =~~= old(self)@.ebbs);
            old(self)@.lemma_fit_imported(self@);
            old(self)@.lemma_wf_kept(self@);
        }
        r
    }

    /// Puts `values` into the pool as a list for the payload of an
    /// instruction. The pool grows; nothing else changes.
    pub fn make_value_list(&mut self, values: &Vec<Value>) -> (list: ValueList)
        requires
            old(self).wf(),
        ensures
            final(self).wf(),
            list.is_valid_in(final(self)@.pool),
            list.values_in(final(self)@.pool) == values@,
            old(self)@.pool.is_prefix_of(final(self)@.pool),
            final(self)@ == (DfgView { pool: final(self)@.pool, ..old(self)@ }),
    {
        let list = ValueList::from_vec(values, &mut self.value_lists);
        proof {
            old(self).lemma_lists_kept(self.value_lists@);
            assert(self@.results =~~= old(self)@.results);
            assert(self@.ebbs =~~= old(self)@.ebbs);
            old(self)@.lemma_fit_kept(self@);
            old(self)@.lemma_wf_kept(self@);
        }
        list
    }

    /// Appends a formal argument of type `ty` to `ebb`, as a fresh value.
    pub fn append_ebb_arg(&mut self, ebb: Ebb, ty: Type) -> (v: Value)
        requires
            old(self).wf(),
            old(self)@.ebb_is_valid(ebb),
            old(self)@.values.len() < u32::MAX,
        ensures
            final(self).wf(),
            v.idx() == old(self)@.values.len(),
            old(self)@.pool.is_prefix_of(final(self)@.pool),
            final(self)@ == (DfgView {
                ebbs: old(self)@.ebbs.update(ebb.idx() as int, old(self)@.args_of(ebb).push(v)),
                values: old(self)@.values.push(
                    ValueData::Arg { ty, num: old(self)@.args_of(ebb).len() as usize, ebb },
                ),
                pool: final(self)@.pool,
                ..old(self)@
            }),
    {
        let mut list = *self.ebbs.get(ebb);
        let num = list.len(&self.value_lists);
        let v = self.values.push(ValueData::Arg { ty, num, ebb });
        list.push(v, &mut self.value_lists);
        self.ebbs.set(ebb, list);
        proof {
            let pre = old(self)@;
            old(self).lemma_lists_kept(self.value_lists@);
            assert(self@.results =~~= pre.results);
            assert(self@.ebbs =~~= pre.ebbs.update(ebb.idx() as int, pre.args_of(ebb).push(v)));
            let e = ebb.idx() as int;
            assert forall|k: int| 0 <= k < self@.ebbs[e].len() implies self@.is_arg(
                #[trigger] self@.ebbs[e][k],
                e,
                k,
            ) by {
                if k < num {
                    let x = pre.ebbs[e][k];
                    assert(pre.is_arg(x, e, k));
                    assert(self@.values[x.idx() as int] == pre.values[x.idx() as int]);
                }
            }
            pre.lemma_fit_kept(self@);
            pre.lemma_wf_grown(self@, -1, e);
        }
        v
    }

    /// Detaches the results of `inst`. The values stay in the graph, and
    /// stay recorded as what they were.
    pub fn clear_results(&mut self, inst: Inst)
        requires
            old(self).wf(),
            old(self)@.inst_is_valid(inst),
        ensures
            final(self).wf(),
            final(self)@ == (DfgView {
                results: old(self)@.results.update(inst.idx() as int, Seq::empty()),
                ..old(self)@
            }),
    {
        self.results.set(inst, ValueList::new());
        proof {
            let pre = old(self)@;
            assert(self@.results =~~= pre.results.update(inst.idx() as int, Seq::empty()));
            assert(self@.ebbs =~~= pre.ebbs);
            pre.lemma_fit_kept(self@);
            pre.lemma_wf_grown(self@, -1, -1);
        }
    }

    /// Makes `dest` another name for `src`. From now on `dest` stands for
    /// what `src` stands for.
    ///
    /// `dest` must be detached, and the walk along aliases from `src` must
    /// not come by `dest`: else a value would be an alias of itself.
    pub fn change_to_alias(&mut self, dest: Value, src: Value)
        requires
            old(self).wf(),
            old(self)@.value_is_valid(dest),
            old(self)@.value_is_valid(src),
            !old(self)@.is_attached(dest),
            !old(self)@.walk_meets(src, dest),
        ensures
            final(self).wf(),
            final(self)@ == old(self)@.with_alias(dest, src),
            final(self)@.value(dest).def_spec() == ValueDef::Alias(src),
            final(self)@.resolve(dest) == old(self)@.resolve(src),
            forall|x: Value|
                !old(self)@.walk_meets(x, dest) ==> #[trigger] final(self)@.resolve(x) == old(self)@.resolve(x),
    {
        let ty = self.value_type(src);
        self.values.set(dest, ValueData::Alias { ty, target: src });
        proof {
            assert(self@.results =~~= old(self)@.results);
            assert(self@.ebbs =~~= old(self)@.ebbs);
            assert(self@ == old(self)@.with_alias(dest, src));
            old(self)@.lemma_alias_resolves(dest, src);
        }
    }

    /// The types of the results that the opcode and the signature of `inst`
    /// ask for, under the controlling type `ctrl`.
    pub fn result_types(&self, inst: Inst, ctrl: Type) -> (types: Vec<Type>)
        requires
            self@.inst_is_valid(inst),
        ensures
            types@.len() == self@.total_results(inst),
            forall|k: int|
                0 <= k < types@.len() ==> #[trigger] types@[k] == self@.result_type(
                    inst,
                    k as nat,
                    ctrl,
                ),
    {
        let c = self.insts.get(inst).opcode().constraints();
        let fixed = c.fixed_results();
        let mut types: Vec<Type> = Vec::new();
        let mut k: usize = 0;
        while k < fixed
            invariant
                k <= fixed,
                fixed == c.fixed_results_spec(),
                types@.len() == k,
                forall|j: int|
                    0 <= j < k ==> #[trigger] types@[j] == c.result_type_spec(j as nat, ctrl),
            decreases fixed - k,
        {
            types.push(c.result_type(k, ctrl));
            k = k + 1;
        }
        match self.call_signature(inst) {
            Some(sig) => {
                if self.signatures.is_valid(sig) {
                    let rets = &self.signatures.get(sig).return_types;
                    let mut j: usize = 0;
                    while j < rets.len()
                        invariant
                            j <= rets@.len(),
                            rets@ == self@.returns_of(inst),
                            fixed == c.fixed_results_spec(),
                            c == self@.data(inst).opcode_spec().constraints_spec(),
                            types@.len() == fixed + j,
                            forall|i: int|
                                0 <= i < types@.len() ==> #[trigger] types@[i]
                                    == self@.result_type(inst, i as nat, ctrl),
                        decreases rets@.len() - j,
                    {
                        types.push(rets[j].value_type);
                        j = j + 1;
                    }
                }
            },
            None => {},
        }
        types
    }

    /// Gives `inst` the results that its opcode and its signature ask for,
    /// as fresh values, and returns their number. Results that were attached
    /// before are detached. The first type of `inst` becomes the type of the
    /// first result, or `Void` where there is none.
    pub fn make_inst_results(&mut self, inst: Inst, ctrl_typevar: Type) -> (n: usize)
        requires
            old(self).wf(),
            old(self)@.inst_is_valid(inst),
            old(self)@.values.len() + old(self)@.total_results(inst) <= u32::MAX,
        ensures
            final(self).wf(),
            n == old(self)@.total_results(inst),
            old(self)@.pool.is_prefix_of(final(self)@.pool),
            final(self)@ == old(self)@.with_fresh_results(inst, ctrl_typevar, final(self)@.pool),
    {
        let types = self.result_types(inst, ctrl_typevar);
        let n = types.len();
        let ghost base = self.values@.len();
        let mut list = ValueList::new();
        let mut k: usize = 0;
        while k < n
            invariant
                k <= n,
                n == types@.len(),
                base == old(self).values@.len(),
                base + n <= u32::MAX,
                self.insts == old(self).insts,
                self.ebbs == old(self).ebbs,
                self.results == old(self).results,
                self.signatures == old(self).signatures,
                self.ext_funcs == old(self).ext_funcs,
                old(self).value_lists@.is_prefix_of(self.value_lists@),
                list.is_valid_in(self.value_lists@),
                list.values_in(self.value_lists@) == Seq::new(
                    k as nat,
                    |j: int| Value::with_idx((base + j) as nat),
                ),
                self.values@ == old(self).values@ + Seq::new(
                    k as nat,
                    |j: int| ValueData::Inst { ty: types@[j], num: j as usize, inst },
                ),
            decreases n - k,
        {
            let ghost held = list.values_in(self.value_lists@);
            let ghost vals = self.values@;
            let v = self.values.push(ValueData::Inst { ty: types[k], num: k, inst });
            proof {
                Value::lemma_with_idx((base + k) as nat);
                Value::lemma_idx_injective(v, Value::with_idx((base + k) as nat));
            }
            list.push(v, &mut self.value_lists);
            k = k + 1;
            proof {
                assert(list.values_in(self.value_lists@) =~= Seq::new(
                    k as nat,
                    |j: int| Value::with_idx((base + j) as nat),
                ));
                assert(self.values@ =~= old(self).values@ + Seq::new(
                    k as nat,
                    |j: int| ValueData::Inst { ty: types@[j], num: j as usize, inst },
                ));
            }
        }
        self.results.set(inst, list);
        let first = if n > 0 {
            types[0]
        } else {
            Type::Void
        };
        let mut data = *self.insts.get(inst);
        data.set_first_type(first);
        self.insts.set(inst, data);
        proof {
            let pre = old(self)@;
            let post = self@;
            let want = pre.with_fresh_results(inst, ctrl_typevar, post.pool);
            let i = inst.idx() as int;
            old(self).lemma_lists_kept(self.value_lists@);
            assert(post.values =~= want.values);
            assert(post.results[i] =~= want.results[i]);
            assert(post.results =~~= want.results);
            assert(post.ebbs =~~= want.ebbs);
            assert(post.insts =~= want.insts);
            assert forall|k: int| 0 <= k < post.results[i].len() implies post.is_result(
                #[trigger] post.results[i][k],
                i,
                k,
            ) by {
                Value::lemma_with_idx((base + k) as nat);
                assert(post.values[base + k] == ValueData::Inst {
                    ty: types@[k],
                    num: k as usize,
                    inst,
                });
            }
            assert forall|j: int| pre.values.len() <= j < post.values.len() implies !(
            #[trigger] post.values[j] is Alias) by {
                assert(post.values[j] == ValueData::Inst {
                    ty: types@[j - base],
                    num: (j - base) as usize,
                    inst,
                });
            }
            pre.lemma_fit_kept(post);
            pre.lemma_wf_grown(post, i, -1);
        }
        n
    }

    /// Replaces the payload of `inst` by `data` and keeps its place among the
    /// instructions. The results that are attached to `inst` stay its
    /// results, so that what uses them uses the new instruction; it is for
    /// the caller to see that `data` asks for as many. An instruction
    /// without results gets those that `data` asks for under the controlling
    /// type `ctrl_typevar`.
    pub fn replace_inst(&mut self, inst: Inst, data: InstructionData, ctrl_typevar: Type)
        requires
            old(self).wf(),
            old(self)@.inst_is_valid(inst),
            old(self)@.results_of(inst).len() > 0 ==> old(self)@.results_of(inst).len() == old(self)@.total_results_for(data),
            old(self)@.results_of(inst).len() == 0 ==> old(self)@.values.len() + old(self)@.total_results_for(data) <= u32::MAX,
        ensures
            final(self).wf(),
            old(self)@.pool.is_prefix_of(final(self)@.pool),
            final(self)@ == old(self)@.with_replaced(inst, data, ctrl_typevar, final(self)@.pool),
            final(self)@.results_of(inst).len() > 0 ==> final(self)@.results_of(inst).len() == final(self)@.total_results(inst),
            old(self)@.results_of(inst).len() > 0 ==> final(self)@.pool == old(self)@.pool,
    {
        self.insts.set(inst, data);
        proof {
            let pre = old(self)@;
            assert(self@.results =~~= pre.results);
            assert(self@.ebbs =~~= pre.ebbs);
            pre.lemma_fit_kept(self@);
            pre.lemma_wf_kept(self@);
            assert(self@ == pre.with_data(inst, data));
        }
        if !self.has_results(inst) {
            self.make_inst_results(inst, ctrl_typevar);
        }
    }

    /// A builder that overwrites `inst`.
    pub fn replace(&mut self, inst: Inst) -> (b: ReplaceBuilder<'_>)
        ensures
            b.inst == inst,
            *b.dfg == *old(self),
            *final(self) == *final(b.dfg),
    {
        ReplaceBuilder { dfg: self, inst }
    }
}

/// Overwrites an instruction in place: it puts a new payload where the old
/// one was, and the instruction keeps its results and its place in the
/// program.
pub struct ReplaceBuilder<'f> {
    /// The graph that holds the instruction.
    pub dfg: &'f mut DataFlowGraph,
    /// The instruction to overwrite.
    pub inst: Inst,
}

impl<'f> ReplaceBuilder<'f> {
    /// Overwrites the instruction with `data`, as `replace_inst` does, and
    /// returns it.
    pub fn build(self, data: InstructionData, ctrl_typevar: Type) -> (inst: Inst)
        requires
            old(self.dfg).wf(),
            old(self.dfg)@.inst_is_valid(self.inst),
            old(self.dfg)@.results_of(self.inst).len() > 0 ==> old(self.dfg)@.results_of(
                self.inst,
            ).len() == old(self.dfg)@.total_results_for(data),
            old(self.dfg)@.results_of(self.inst).len() == 0 ==> old(self.dfg)@.values.len() + old(self.dfg)@.total_results_for(data) <= u32::MAX,
        ensures
            inst == self.inst,
            final(self.dfg).wf(),
            old(self.dfg)@.pool.is_prefix_of(final(self.dfg)@.pool),
            final(self.dfg)@ == old(self.dfg)@.with_replaced(
                self.inst,
                data,
                ctrl_typevar,
                final(self.dfg)@.pool,
            ),
            final(self.dfg)@.results_of(inst).len() > 0 ==> final(self.dfg)@.results_of(inst).len()
                == final(self.dfg)@.total_results(inst),
            old(self.dfg)@.results_of(inst).len() > 0 ==> final(self.dfg)@.pool == old(self.dfg)@.pool,
    {
        self.dfg.replace_inst(self.inst, data, ctrl_typevar);
        self.inst
    }

    /// Overwrites the instruction with one whose payload `data` asks for a
    /// single result, and returns that result.
    fn build_one(self, data: InstructionData, ctrl_typevar: Type) -> (v: Value)
        requires
            old(self.dfg).wf(),
            old(self.dfg)@.inst_is_valid(self.inst),
            old(self.dfg)@.total_results_for(data) == 1,
            old(self.dfg)@.results_of(self.inst).len() <= 1,
            old(self.dfg)@.results_of(self.inst).len() == 0 ==> old(self.dfg)@.values.len()
                < u32::MAX,
        ensures
            final(self.dfg).wf(),
            old(self.dfg)@.pool.is_prefix_of(final(self.dfg)@.pool),
            final(self.dfg)@ == old(self.dfg)@.with_replaced(
                self.inst,
                data,
                ctrl_typevar,
                final(self.dfg)@.pool,
            ),
            final(self.dfg)@.results_of(self.inst).len() == 1,
            v == final(self.dfg)@.results_of(self.inst)[0],
            old(self.dfg)@.results_of(self.inst).len() > 0 ==> final(self.dfg)@.pool == old(self.dfg)@.pool,
    {
        let inst = self.inst;
        self.dfg.replace_inst(inst, data, ctrl_typevar);
        self.dfg.first_result(inst)
    }

    /// Makes the instruction an `iadd_imm`: `x` plus the immediate `imm`.
    /// Returns the result.
    pub fn iadd_imm(self, x: Value, imm: i64) -> (v: Value)
        requires
            old(self.dfg).wf(),
            old(self.dfg)@.inst_is_valid(self.inst),
            old(self.dfg)@.value_is_valid(x),
            old(self.dfg)@.results_of(self.inst).len() <= 1,
            old(self.dfg)@.results_of(self.inst).len() == 0 ==> old(self.dfg)@.values.len()
                < u32::MAX,
        ensures
            final(self.dfg).wf(),
            old(self.dfg)@.pool.is_prefix_of(final(self.dfg)@.pool),
            final(self.dfg)@ == old(self.dfg)@.with_replaced(
                self.inst,
                iadd_imm_data(old(self.dfg)@.value(x).ty_spec(), x, imm),
                old(self.dfg)@.value(x).ty_spec(),
                final(self.dfg)@.pool,
            ),
            final(self.dfg)@.results_of(self.inst).len() == 1,
            v == final(self.dfg)@.results_of(self.inst)[0],
            old(self.dfg)@.results_of(self.inst).len() > 0 ==> final(self.dfg)@.pool == old(self.dfg)@.pool,
    {
        let ty = self.dfg.value_type(x);
        self.build_one(InstructionData::iadd_imm(ty, x, imm), ty)
    }

    /// Makes the instruction a `load` of a value of type `ty` from `offset`
    /// bytes behind the address `p`. Returns the result.
    pub fn load(self, ty: Type, flags: MemFlags, p: Value, offset: i32) -> (v: Value)
        requires
            old(self.dfg).wf(),
            old(self.dfg)@.inst_is_valid(self.inst),
            old(self.dfg)@.results_of(self.inst).len() <= 1,
            old(self.dfg)@.results_of(self.inst).len() == 0 ==> old(self.dfg)@.values.len()
                < u32::MAX,
        ensures
            final(self.dfg).wf(),
            old(self.dfg)@.pool.is_prefix_of(final(self.dfg)@.pool),
            final(self.dfg)@ == old(self.dfg)@.with_replaced(
                self.inst,
                load_data(ty, flags, p, offset),
                ty,
                final(self.dfg)@.pool,
            ),
            final(self.dfg)@.results_of(self.inst).len() == 1,
            v == final(self.dfg)@.results_of(self.inst)[0],
            old(self.dfg)@.results_of(self.inst).len() > 0 ==> final(self.dfg)@.pool == old(self.dfg)@.pool,
    {
        self.build_one(InstructionData::load(ty, flags, p, offset), ty)
    }

    /// Makes the instruction a `symbol_value` of the global value `gv`, of
    /// type `ty`. Returns the result.
    pub fn symbol_value(self, ty: Type, gv: GlobalValue) -> (v: Value)
        requires
            old(self.dfg).wf(),
            old(self.dfg)@.inst_is_valid(self.inst),
            old(self.dfg)@.results_of(self.inst).len() <= 1,
            old(self.dfg)@.results_of(self.inst).len() == 0 ==> old(self.dfg)@.values.len()
                < u32::MAX,
        ensures
            final(self.dfg).wf(),
            old(self.dfg)@.pool.is_prefix_of(final(self.dfg)@.pool),
            final(self.dfg)@ == old(self.dfg)@.with_replaced(
                self.inst,
                symbol_value_data(ty, gv),
                ty,
                final(self.dfg)@.pool,
            ),
            final(self.dfg)@.results_of(self.inst).len() == 1,
            v == final(self.dfg)@.results_of(self.inst)[0],
            old(self.dfg)@.results_of(self.inst).len() > 0 ==> final(self.dfg)@.pool == old(self.dfg)@.pool,
    {
        self.build_one(InstructionData::symbol_value(ty, gv), ty)
    }

    /// Makes the instruction a `global_value` of the global value `gv`, of
    /// type `ty`. Returns the result.
    pub fn global_value(self, ty: Type, gv: GlobalValue) -> (v: Value)
        requires
            old(self.dfg).wf(),
            old(self.dfg)@.inst_is_valid(self.inst),
            old(self.dfg)@.results_of(self.inst).len() <= 1,
            old(self.dfg)@.results_of(self.inst).len() == 0 ==> old(self.dfg)@.values.len()
                < u32::MAX,
        ensures
            final(self.dfg).wf(),
            old(self.dfg)@.pool.is_prefix_of(final(self.dfg)@.pool),
            final(self.dfg)@ == old(self.dfg)@.with_replaced(
                self.inst,
                global_value_data(ty, gv),
                ty,
                final(self.dfg)@.pool,
            ),
            final(self.dfg)@.results_of(self.inst).len() == 1,
            v == final(self.dfg)@.results_of(self.inst)[0],
            old(self.dfg)@.results_of(self.inst).len() > 0 ==> final(self.dfg)@.pool == old(self.dfg)@.pool,
    {
        self.build_one(InstructionData::global_value(ty, gv), ty)
    }
}

} // verus!
