//! A verifier that tells whether a function is built as it should be.
//!
//! For every instruction of every block in the layout it checks:
//!
//! Block integrity
//!
//! - A terminator stands at the end of its block, and nowhere else.
//! - The last instruction of a block is a terminator.
//! - An instruction belongs to the block that the layout lists it in.
//! - A formal argument of a block is recorded as an argument of that block.
//!
//! Instruction integrity
//!
//! - The format of the payload is the one that the opcode asks for.
//! - An instruction has as many results as its opcode and its signature ask
//!   for, and one without results has `Void` for its first type.
//! - Every value, block, signature, external function, value list and jump
//!   table that the instruction refers to exists.
//!
//! The first finding ends the run. In a well-formed function the third and
//! the fourth check of block integrity find nothing, and neither does the
//! check of the results in the last check of instruction integrity: the
//! layout and the data flow graph keep those properties by themselves.

use crate::entity::EntityRef;
use crate::ir::dfg::ValueDef;
use crate::ir::dfgview::DfgView;
use crate::ir::entities::{
    AnyEntity, Ebb, FuncRef, GlobalValue, Inst, JumpTable, SigRef, Value,
};
use crate::ir::function::Function;
use crate::ir::globalvalue::{bases_end, chain_ends, depth_within, GlobalValueData};
use crate::ir::instructions::InstructionData;
use crate::ir::types::Type;
use crate::ir::valuelist::ValueList;
use crate::text::{decimal, push_decimal};
use vstd::prelude::*;
use vstd::string::StringExecFns;

verus! {

/// A finding of the verifier.
#[derive(Debug, PartialEq, Eq)]
pub struct Error {
    /// The entity that the finding is about.
    pub location: AnyEntity,
    /// What was found.
    pub message: String,
}

/// A finding as a mathematical value.
pub struct ErrorView {
    pub location: AnyEntity,
    pub message: Seq<char>,
}

impl View for Error {
    type V = ErrorView;

    open spec fn view(&self) -> ErrorView {
        ErrorView { location: self.location, message: self.message@ }
    }
}

impl Error {
    /// The finding in one line: the entity, a colon, and the message.
    pub fn to_text(&self) -> (s: String)
        ensures
            s@ == self.location.name() + ": "@ + self.message@,
    {
        let mut s = self.location.to_text();
        s.append(": ");
        s.append(self.message.as_str());
        s
    }
}

/// The finding about `inst` that says `message`.
pub open spec fn at_inst(inst: Inst, message: Seq<char>) -> Option<ErrorView> {
    Some(ErrorView { location: AnyEntity::Inst(inst), message })
}

/// Whether `inst` is the last instruction of `ebb`.
pub open spec fn is_last_inst(func: &Function, ebb: Ebb, inst: Inst) -> bool {
    let insts = func.layout@.insts_of(ebb);
    insts.len() > 0 && insts.last() == inst
}

/// What the check of block integrity finds for `inst` in `ebb`.
pub open spec fn ebb_integrity_error(func: &Function, ebb: Ebb, inst: Inst) -> Option<ErrorView> {
    let is_terminator = func.dfg@.data(inst).opcode_spec().is_terminator_spec();
    let is_last = is_last_inst(func, ebb, inst);
    if is_terminator && !is_last {
        at_inst(
            inst,
            "a terminator instruction was encountered before the end of "@ + ebb.name(),
        )
    } else if is_last && !is_terminator {
        Some(
            ErrorView {
                location: AnyEntity::Ebb(ebb),
                message: "block does not end in a terminator instruction!"@,
            },
        )
    } else {
        None
    }
}

/// The first of `values` that is no value of the graph.
pub open spec fn first_invalid_value(dfg: DfgView, values: Seq<Value>) -> Option<Value>
    decreases values.len(),
{
    if values.len() == 0 {
        None
    } else if !dfg.value_is_valid(values[0]) {
        Some(values[0])
    } else {
        first_invalid_value(dfg, values.subrange(1, values.len() as int))
    }
}

/// What the check of the value `v` that `inst` refers to finds.
pub open spec fn value_error(func: &Function, inst: Inst, v: Value) -> Option<ErrorView> {
    if func.dfg@.value_is_valid(v) {
        None
    } else {
        at_inst(inst, "invalid value reference "@ + v.name())
    }
}

/// What the check of the block `e` that `inst` refers to finds.
pub open spec fn ebb_error(func: &Function, inst: Inst, e: Ebb) -> Option<ErrorView> {
    if func.dfg@.ebb_is_valid(e) {
        None
    } else {
        at_inst(inst, "invalid ebb reference "@ + e.name())
    }
}

/// What the check of the signature `s` that `inst` refers to finds.
pub open spec fn sig_ref_error(func: &Function, inst: Inst, s: SigRef) -> Option<ErrorView> {
    if s.idx() < func.dfg@.signatures.len() {
        None
    } else {
        at_inst(inst, "invalid signature reference "@ + s.name())
    }
}

/// What the check of the external function `f` that `inst` refers to finds.
pub open spec fn func_ref_error(func: &Function, inst: Inst, f: FuncRef) -> Option<ErrorView> {
    if f.idx() < func.dfg@.ext_funcs.len() {
        None
    } else {
        at_inst(inst, "invalid function reference "@ + f.name())
    }
}

/// What the check of the value list `l` that `inst` refers to finds.
pub open spec fn value_list_error(func: &Function, inst: Inst, l: ValueList) -> Option<ErrorView> {
    if l.is_valid_in(func.dfg@.pool) {
        None
    } else {
        at_inst(inst, "invalid value list reference "@ + l.name())
    }
}

/// What the check of the jump table `j` that `inst` refers to finds.
pub open spec fn jump_table_error(func: &Function, inst: Inst, j: JumpTable) -> Option<ErrorView> {
    if func.jump_tables.contains(j) {
        None
    } else {
        at_inst(inst, "invalid jump table reference "@ + j.name())
    }
}

/// The first of two findings.
pub open spec fn or_else(first: Option<ErrorView>, second: Option<ErrorView>) -> Option<ErrorView> {
    match first {
        Some(e) => Some(e),
        None => second,
    }
}

/// What the check of the entities in the payload of `inst` finds, the
/// values apart.
pub open spec fn payload_error(func: &Function, inst: Inst) -> Option<ErrorView> {
    match func.dfg@.data(inst) {
        InstructionData::MultiAry { args, .. } => value_list_error(func, inst, args),
        InstructionData::Jump { destination, args, .. } => or_else(
            ebb_error(func, inst, destination),
            value_list_error(func, inst, args),
        ),
        InstructionData::Branch { destination, args, .. } => or_else(
            ebb_error(func, inst, destination),
            value_list_error(func, inst, args),
        ),
        InstructionData::BranchTable { table, .. } => jump_table_error(func, inst, table),
        InstructionData::Call { func_ref, args, .. } => or_else(
            func_ref_error(func, inst, func_ref),
            value_list_error(func, inst, args),
        ),
        InstructionData::IndirectCall { sig_ref, args, .. } => or_else(
            sig_ref_error(func, inst, sig_ref),
            value_list_error(func, inst, args),
        ),
        _ => None,
    }
}

/// What the check of the entities that `inst` refers to finds: the first
/// value among its arguments that does not exist, else what is wrong with
/// the rest of its payload.
pub open spec fn entity_references_error(func: &Function, inst: Inst) -> Option<ErrorView> {
    match first_invalid_value(func.dfg@, func.dfg@.arguments_of(inst)) {
        Some(v) => value_error(func, inst, v),
        None => payload_error(func, inst),
    }
}

/// What the check of instruction integrity finds for `inst`.
pub open spec fn instruction_integrity_error(func: &Function, inst: Inst) -> Option<ErrorView> {
    let data = func.dfg@.data(inst);
    let total = func.dfg@.total_results(inst);
    let got = func.dfg@.results_of(inst).len();
    if data.opcode_spec().format_spec() != data.format_spec() {
        at_inst(inst, "instruction opcode doesn't match instruction format"@)
    } else if total == 0 && data.first_type_spec() != Type::Void {
        at_inst(
            inst,
            "instruction expected to have NULL return value, found "@
                + data.first_type_spec().name(),
        )
    } else if total != 0 && got != total {
        at_inst(
            inst,
            "expected "@ + decimal(total) + " result values, found "@ + decimal(got),
        )
    } else {
        entity_references_error(func, inst)
    }
}

/// What the verifier finds for `inst` in `ebb`.
pub open spec fn inst_error(func: &Function, ebb: Ebb, inst: Inst) -> Option<ErrorView> {
    or_else(ebb_integrity_error(func, ebb, inst), instruction_integrity_error(func, inst))
}

/// The first finding for the instructions `insts` of `ebb`.
pub open spec fn first_error_in(func: &Function, ebb: Ebb, insts: Seq<Inst>) -> Option<ErrorView>
    decreases insts.len(),
{
    if insts.len() == 0 {
        None
    } else {
        or_else(
            inst_error(func, ebb, insts[0]),
            first_error_in(func, ebb, insts.subrange(1, insts.len() as int)),
        )
    }
}

/// The first finding for the blocks `ebbs`.
pub open spec fn first_error(func: &Function, ebbs: Seq<Ebb>) -> Option<ErrorView>
    decreases ebbs.len(),
{
    if ebbs.len() == 0 {
        None
    } else {
        or_else(
            first_error_in(func, ebbs[0], func.layout@.insts_of(ebbs[0])),
            first_error(func, ebbs.subrange(1, ebbs.len() as int)),
        )
    }
}

/// What the verifier finds for `func`: the first finding in the order of the
/// program, or nothing.
pub open spec fn verdict(func: &Function) -> Option<ErrorView> {
    first_error(func, func.layout@.ebbs)
}

/// Whether `r` reports the finding `found`, or none where there is none.
pub open spec fn reports(r: Result<(), Error>, found: Option<ErrorView>) -> bool {
    match r {
        Ok(_) => found.is_none(),
        Err(e) => found == Some(e@),
    }
}

/// The verifier of one function.
pub struct Verifier<'a> {
    /// The function to verify.
    pub func: &'a Function,
}

/// Verifies `func`: returns the first finding in the order of the program,
/// and `Ok` where there is none.
pub fn verify_function(func: &Function) -> (r: Result<(), Error>)
    requires
        func.wf(),
    ensures
        reports(r, verdict(func)),
{
    Verifier::new(func).run()
}

impl<'a> Verifier<'a> {
    /// A verifier of `func`.
    pub fn new(func: &'a Function) -> (v: Verifier<'a>)
        ensures
            v.func == func,
    {
        Verifier { func }
    }

    /// Checks that `inst` is at the end of `ebb` exactly if it is a
    /// terminator, that it belongs to `ebb`, and that the arguments of `ebb`
    /// are recorded as such.
    ///
    /// The layout of a well-formed function lists an instruction in its own
    /// block only, and its graph records the arguments of a block as such:
    /// the last two checks find nothing, and a finding is about the
    /// terminator.
    pub fn ebb_integrity(&self, ebb: Ebb, inst: Inst) -> (r: Result<(), Error>)
        requires
            self.func.wf(),
            self.func.layout@.stands_in(inst, ebb),
        ensures
            reports(r, ebb_integrity_error(self.func, ebb, inst)),
    {
        let is_terminator = self.func.dfg.inst_data(inst).opcode().is_terminator();
        let is_last_inst = self.func.layout.last_inst(ebb) == Some(inst);

        if is_terminator && !is_last_inst {
            // Terminating instructions only occur at the end of blocks.
            let mut message = String::from_str(
                "a terminator instruction was encountered before the end of ",
            );
            message.append(ebb.to_text().as_str());
            return Err(Error { location: AnyEntity::Inst(inst), message });
        }
        if is_last_inst && !is_terminator {
            return Err(
                Error {
                    location: AnyEntity::Ebb(ebb),
                    message: String::from_str("block does not end in a terminator instruction!"),
                },
            );
        }
        // Instructions belong to the correct ebb.

        let inst_ebb = self.func.layout.inst_ebb(inst);
        proof {
            self.func.layout@.lemma_inst_ebb(inst, ebb);
        }
        if inst_ebb != Some(ebb) {
            let mut message = String::from_str("should belong to ");
            message.append(ebb.to_text().as_str());
            message.append(" not ");
            match inst_ebb {
                Some(other) => {
                    message.append("Some(");
                    message.append(other.to_text().as_str());
                    message.append(")");
                },
                None => {
                    message.append("None");
                },
            }
            return Err(Error { location: AnyEntity::Inst(inst), message });
        }
        // Arguments belong to the correct ebb.

        proof {
            assert(self.func.layout@.has_ebb(ebb));
        }
        let args = self.func.dfg.ebb_args(ebb);
        let mut i: usize = 0;
        while i < args.len()
            invariant
                self.func.wf(),
                self.func.dfg@.ebb_is_valid(ebb),
                args@ == self.func.dfg@.args_of(ebb),
                i <= args@.len(),
            decreases args@.len() - i,
        {
            let arg = args[i];
            proof {
                assert(self.func.dfg@.is_arg(
                    self.func.dfg@.ebbs[ebb.idx() as int][i as int],
                    ebb.idx() as int,
                    i as int,
                ));
            }
            match self.func.dfg.value_def(arg) {
                ValueDef::Arg(arg_ebb, _) => {
                    if ebb != arg_ebb {
                        proof {
                            Ebb::lemma_idx_injective(ebb, arg_ebb);
                        }
                        let mut message = String::from_str("does not belong to ");
                        message.append(ebb.to_text().as_str());
                        return Err(Error { location: AnyEntity::Value(arg), message });
                    }
                },
                _ => {
                    return Err(
                        Error {
                            location: AnyEntity::Value(arg),
                            message: String::from_str("expected an argument, found a result"),
                        },
                    );
                },
            }
            i = i + 1;
        }

        Ok(())
    }

    /// Checks that `v` is a value of the function.
    pub fn verify_value(&self, inst: Inst, v: Value) -> (r: Result<(), Error>)
        ensures
            reports(r, value_error(self.func, inst, v)),
    {
        if !self.func.dfg.value_is_valid(v) {
            let mut message = String::from_str("invalid value reference ");
            message.append(v.to_text().as_str());
            Err(Error { location: AnyEntity::Inst(inst), message })
        } else {
            Ok(())
        }
    }

    /// Checks that `e` is a block of the function.
    pub fn verify_ebb(&self, inst: Inst, e: Ebb) -> (r: Result<(), Error>)
        ensures
            reports(r, ebb_error(self.func, inst, e)),
    {
        if !self.func.dfg.ebb_is_valid(e) {
            let mut message = String::from_str("invalid ebb reference ");
            message.append(e.to_text().as_str());
            Err(Error { location: AnyEntity::Inst(inst), message })
        } else {
            Ok(())
        }
    }

    /// Checks that `s` is a signature of the function.
    pub fn verify_sig_ref(&self, inst: Inst, s: SigRef) -> (r: Result<(), Error>)
        ensures
            reports(r, sig_ref_error(self.func, inst, s)),
    {
        if !self.func.dfg.signatures().is_valid(s) {
            let mut message = String::from_str("invalid signature reference ");
            message.append(s.to_text().as_str());
            Err(Error { location: AnyEntity::Inst(inst), message })
        } else {
            Ok(())
        }
    }

    /// Checks that `f` is an external function of the function.
    pub fn verify_func_ref(&self, inst: Inst, f: FuncRef) -> (r: Result<(), Error>)
        ensures
            reports(r, func_ref_error(self.func, inst, f)),
    {
        if !self.func.dfg.ext_funcs().is_valid(f) {
            let mut message = String::from_str("invalid function reference ");
            message.append(f.to_text().as_str());
            Err(Error { location: AnyEntity::Inst(inst), message })
        } else {
            Ok(())
        }
    }

    /// Checks that `l` lies within the pool of the function.
    pub fn verify_value_list(&self, inst: Inst, l: &ValueList) -> (r: Result<(), Error>)
        ensures
            reports(r, value_list_error(self.func, inst, *l)),
    {
        if !l.is_valid(self.func.dfg.value_lists()) {
            let mut message = String::from_str("invalid value list reference ");
            message.append(l.to_text().as_str());
            Err(Error { location: AnyEntity::Inst(inst), message })
        } else {
            Ok(())
        }
    }

    /// Checks that `j` is a jump table of the function.
    pub fn verify_jump_table(&self, inst: Inst, j: JumpTable) -> (r: Result<(), Error>)
        ensures
            reports(r, jump_table_error(self.func, inst, j)),
    {
        if !self.func.jump_tables.is_valid(j) {
            let mut message = String::from_str("invalid jump table reference ");
            message.append(j.to_text().as_str());
            Err(Error { location: AnyEntity::Inst(inst), message })
        } else {
            Ok(())
        }
    }

    /// Checks that every entity that `inst` refers to exists: the values
    /// among its arguments and its results first, then what else its payload
    /// names, and its value list last.
    pub fn verify_entity_references(&self, inst: Inst) -> (r: Result<(), Error>)
        requires
            self.func.wf(),
            self.func.dfg@.inst_is_valid(inst),
        ensures
            reports(r, entity_references_error(self.func, inst)),
    {
        let data = self.func.dfg.inst_data(inst);
        let args = data.arguments(self.func.dfg.value_lists());
        let mut i: usize = 0;
        while i < args.len()
            invariant
                i <= args@.len(),
                args@ == self.func.dfg@.arguments_of(inst),
                forall|j: int| 0 <= j < i ==> self.func.dfg@.value_is_valid(#[trigger] args@[j]),
            decreases args@.len() - i,
        {
            proof {
                lemma_first_invalid_from(self.func.dfg@, args@, i as int);
                let rest = args@.subrange(i as int, args@.len() as int);
                assert(rest[0] == args@[i as int]);
            }
            match self.verify_value(inst, args[i]) {
                Err(e) => {
                    return Err(e);
                },
                Ok(_) => {},
            }
            i = i + 1;
        }
        proof {
            lemma_first_invalid_from(self.func.dfg@, args@, args@.len() as int);
        }

        let results = self.func.dfg.inst_results(inst);
        let mut k: usize = 0;
        while k < results.len()
            invariant
                self.func.wf(),
                self.func.dfg@.inst_is_valid(inst),
                k <= results@.len(),
                results@ == self.func.dfg@.results_of(inst),
            decreases results@.len() - k,
        {
            proof {
                assert(self.func.dfg@.is_result(
                    self.func.dfg@.results[inst.idx() as int][k as int],
                    inst.idx() as int,
                    k as int,
                ));
            }
            match self.verify_value(inst, results[k]) {
                Err(e) => {
                    return Err(e);
                },
                Ok(_) => {},
            }
            k = k + 1;
        }

        match data {
            InstructionData::MultiAry { args, .. } => {
                self.verify_value_list(inst, args)
            },
            InstructionData::Jump { destination, args, .. } => {
                match self.verify_ebb(inst, *destination) {
                    Err(e) => Err(e),
                    Ok(_) => self.verify_value_list(inst, args),
                }
            },
            InstructionData::Branch { destination, args, .. } => {
                match self.verify_ebb(inst, *destination) {
                    Err(e) => Err(e),
                    Ok(_) => self.verify_value_list(inst, args),
                }
            },
            InstructionData::BranchTable { table, .. } => {
                self.verify_jump_table(inst, *table)
            },
            InstructionData::Call { func_ref, args, .. } => {
                match self.verify_func_ref(inst, *func_ref) {
                    Err(e) => Err(e),
                    Ok(_) => self.verify_value_list(inst, args),
                }
            },
            InstructionData::IndirectCall { sig_ref, args, .. } => {
                match self.verify_sig_ref(inst, *sig_ref) {
                    Err(e) => Err(e),
                    Ok(_) => self.verify_value_list(inst, args),
                }
            },
            // Exhaustive list so we can't forget to add new formats
            InstructionData::Nullary { .. }
            | InstructionData::Unary { .. }
            | InstructionData::UnaryImm { .. }
            | InstructionData::UnaryIeee32 { .. }
            | InstructionData::UnaryIeee64 { .. }
            | InstructionData::UnarySplit { .. }
            | InstructionData::Binary { .. }
            | InstructionData::BinaryImm { .. }
            | InstructionData::BinaryOverflow { .. }
            | InstructionData::Ternary { .. }
            | InstructionData::InsertLane { .. }
            | InstructionData::ExtractLane { .. }
            | InstructionData::IntCompare { .. }
            | InstructionData::FloatCompare { .. }
            | InstructionData::UnaryGlobalValue { .. }
            | InstructionData::Load { .. } => Ok(()),
        }
    }

    /// Checks that the payload of `inst` has the format of its opcode, that
    /// `inst` has the results that its opcode and its signature ask for, and
    /// that what it refers to exists.
    pub fn instruction_integrity(&self, inst: Inst) -> (r: Result<(), Error>)
        requires
            self.func.wf(),
            self.func.dfg@.inst_is_valid(inst),
        ensures
            reports(r, instruction_integrity_error(self.func, inst)),
    {
        let inst_data = self.func.dfg.inst_data(inst);
        let dfg = &self.func.dfg;

        // The instruction format matches the opcode
        if inst_data.opcode().format() != inst_data.format() {
            return Err(
                Error {
                    location: AnyEntity::Inst(inst),
                    message: String::from_str(
                        "instruction opcode doesn't match instruction format",
                    ),
                },
            );
        }
        let fixed_results = inst_data.opcode().constraints().fixed_results();
        // var_results is 0 if we aren't a call instruction
        let var_results = match dfg.call_signature(inst) {
            Some(sig) => {
                if dfg.signatures().is_valid(sig) {
                    dfg.signatures().get(sig).return_types.len()
                } else {
                    0
                }
            },
            None => 0,
        };
        let total_results: u128 = fixed_results as u128 + var_results as u128;

        if total_results == 0 {
            // Instructions with no results have a NULL `first_type()`
            let ret_type = inst_data.first_type();
            if ret_type != Type::Void {
                let mut message = String::from_str(
                    "instruction expected to have NULL return value, found ",
                );
                message.append(ret_type.to_text().as_str());
                return Err(Error { location: AnyEntity::Inst(inst), message });
            }
        } else {
            // All result values for multi-valued instructions are created
            let got_results = dfg.num_results(inst);
            if got_results as u128 != total_results {
                let mut message = String::from_str("expected ");
                push_decimal(&mut message, total_results);
                message.append(" result values, found ");
                push_decimal(&mut message, got_results as u128);
                return Err(Error { location: AnyEntity::Inst(inst), message });
            }
        }

        self.verify_entity_references(inst)
    }

    /// Verifies the function: checks every instruction of every block, in
    /// the order of the program, and returns the first finding.
    pub fn run(&self) -> (r: Result<(), Error>)
        requires
            self.func.wf(),
        ensures
            reports(r, verdict(self.func)),
    {
        let ebbs = self.func.layout.ebbs();
        let mut a: usize = 0;
        while a < ebbs.len()
            invariant
                self.func.wf(),
                a <= ebbs@.len(),
                ebbs@ == self.func.layout@.ebbs,
                forall|j: int|
                    0 <= j < a ==> (#[trigger] first_error_in(
                        self.func,
                        ebbs@[j],
                        self.func.layout@.insts_of(ebbs@[j]),
                    )).is_none(),
            decreases ebbs@.len() - a,
        {
            let ebb = ebbs[a];
            let insts = self.func.layout.ebb_insts(ebb);
            proof {
                lemma_first_error(self.func, ebbs@, a as int);
                let rest = ebbs@.subrange(a as int, ebbs@.len() as int);
                assert(rest[0] == ebb);
                assert(self.func.layout@.has_ebb(ebb));
            }
            let mut b: usize = 0;
            while b < insts.len()
                invariant
                    self.func.wf(),
                    self.func.layout@.has_ebb(ebb),
                    b <= insts@.len(),
                    insts@ == self.func.layout@.insts_of(ebb),
                    forall|j: int|
                        0 <= j < b ==> (#[trigger] inst_error(self.func, ebb, insts@[j])).is_none(),
                    first_error_in(self.func, ebb, insts@).is_some() ==> verdict(self.func)
                        == first_error_in(self.func, ebb, insts@),
                decreases insts@.len() - b,
            {
                let inst = insts[b];
                proof {
                    lemma_first_error_in(self.func, ebb, insts@, b as int);
                    let rest = insts@.subrange(b as int, insts@.len() as int);
                    assert(rest[0] == inst);
                    assert(insts@.contains(inst));
                    assert(self.func.layout@.stands_in(inst, ebb));
                }
                match self.ebb_integrity(ebb, inst) {
                    Err(e) => {
                        return Err(e);
                    },
                    Ok(_) => {},
                }
                match self.instruction_integrity(inst) {
                    Err(e) => {
                        return Err(e);
                    },
                    Ok(_) => {},
                }
                b = b + 1;
            }
            proof {
                lemma_first_error_in(self.func, ebb, insts@, insts@.len() as int);
            }
            a = a + 1;
        }
        proof {
            lemma_first_error(self.func, ebbs@, ebbs@.len() as int);
        }
        Ok(())
    }
}

/// Where the first value that does not exist stands: all values in front of
/// position `i` exist, so the first such value is the first from `i` on.
pub proof fn lemma_first_invalid_from(dfg: DfgView, values: Seq<Value>, i: int)
    requires
        0 <= i <= values.len(),
        forall|j: int| 0 <= j < i ==> dfg.value_is_valid(#[trigger] values[j]),
    ensures
        first_invalid_value(dfg, values) == first_invalid_value(
            dfg,
            values.subrange(i, values.len() as int),
        ),
    decreases i,
{
    if i == 0 {
        assert(values.subrange(0, values.len() as int) =~= values);
    } else {
        lemma_first_invalid_from(dfg, values, i - 1);
        let rest = values.subrange(i - 1, values.len() as int);
        assert(rest[0] == values[i - 1]);
        assert(rest.subrange(1, rest.len() as int) =~= values.subrange(i, values.len() as int));
    }
}

/// No finding for a list of instructions means no finding for each of them.
pub proof fn lemma_first_error_in(func: &Function, ebb: Ebb, insts: Seq<Inst>, i: int)
    requires
        0 <= i <= insts.len(),
        forall|j: int| 0 <= j < i ==> (#[trigger] inst_error(func, ebb, insts[j])).is_none(),
    ensures
        first_error_in(func, ebb, insts) == first_error_in(
            func,
            ebb,
            insts.subrange(i, insts.len() as int),
        ),
    decreases i,
{
    if i == 0 {
        assert(insts.subrange(0, insts.len() as int) =~= insts);
    } else {
        lemma_first_error_in(func, ebb, insts, i - 1);
        let rest = insts.subrange(i - 1, insts.len() as int);
        assert(rest[0] == insts[i - 1]);
        assert(rest.subrange(1, rest.len() as int) =~= insts.subrange(i, insts.len() as int));
    }
}

/// No finding for a list of blocks means no finding for each of them.
pub proof fn lemma_first_error(func: &Function, ebbs: Seq<Ebb>, i: int)
    requires
        0 <= i <= ebbs.len(),
        forall|j: int|
            0 <= j < i ==> (#[trigger] first_error_in(
                func,
                ebbs[j],
                func.layout@.insts_of(ebbs[j]),
            )).is_none(),
    ensures
        first_error(func, ebbs) == first_error(func, ebbs.subrange(i, ebbs.len() as int)),
    decreases i,
{
    if i == 0 {
        assert(ebbs.subrange(0, ebbs.len() as int) =~= ebbs);
    } else {
        lemma_first_error(func, ebbs, i - 1);
        let rest = ebbs.subrange(i - 1, ebbs.len() as int);
        assert(rest[0] == ebbs[i - 1]);
        assert(rest.subrange(1, rest.len() as int) =~= ebbs.subrange(i, ebbs.len() as int));
    }
}

/// Whether every entity that `inst` refers to exists: every value among its
/// arguments, its value list, and the block, the jump table, the external
/// function or the signature that its payload names.
pub open spec fn references_exist(func: &Function, inst: Inst) -> bool {
    let dfg = func.dfg@;
    &&& forall|k: int|
        0 <= k < dfg.arguments_of(inst).len() ==> dfg.value_is_valid(
            #[trigger] dfg.arguments_of(inst)[k],
        )
    &&& dfg.data(inst).value_list_spec() matches Some(list) ==> list.is_valid_in(dfg.pool)
    &&& match dfg.data(inst) {
        InstructionData::Jump { destination, .. } => dfg.ebb_is_valid(destination),
        InstructionData::Branch { destination, .. } => dfg.ebb_is_valid(destination),
        InstructionData::BranchTable { table, .. } => func.jump_tables.contains(table),
        InstructionData::Call { func_ref, .. } => func_ref.idx() < dfg.ext_funcs.len(),
        InstructionData::IndirectCall { sig_ref, .. } => sig_ref.idx() < dfg.signatures.len(),
        _ => true,
    }
}

/// The value that `first_invalid_value` gives does not exist.
pub proof fn lemma_first_invalid_is_invalid(dfg: DfgView, values: Seq<Value>)
    ensures
        first_invalid_value(dfg, values) matches Some(v) ==> !dfg.value_is_valid(v),
    decreases values.len(),
{
    if values.len() > 0 && dfg.value_is_valid(values[0]) {
        lemma_first_invalid_is_invalid(dfg, values.subrange(1, values.len() as int));
    }
}

/// A list of values without a first value that does not exist holds
/// values that exist.
pub proof fn lemma_all_values_valid(dfg: DfgView, values: Seq<Value>)
    requires
        first_invalid_value(dfg, values).is_none(),
    ensures
        forall|k: int| 0 <= k < values.len() ==> dfg.value_is_valid(#[trigger] values[k]),
    decreases values.len(),
{
    if values.len() > 0 {
        let rest = values.subrange(1, values.len() as int);
        lemma_all_values_valid(dfg, rest);
        assert forall|k: int| 0 <= k < values.len() implies dfg.value_is_valid(
            #[trigger] values[k],
        ) by {
            if k > 0 {
                assert(values[k] == rest[k - 1]);
            }
        }
    }
}

/// Where the verifier finds nothing, it finds nothing for any instruction of
/// any block of the layout.
pub proof fn lemma_nothing_found(func: &Function, ebb: Ebb, j: int)
    requires
        verdict(func).is_none(),
        func.layout@.has_ebb(ebb),
        0 <= j < func.layout@.insts_of(ebb).len(),
    ensures
        inst_error(func, ebb, func.layout@.insts_of(ebb)[j]).is_none(),
{
    let ebbs = func.layout@.ebbs;
    let a = ebbs.index_of(ebb);
    lemma_none_for_each_ebb(func, ebbs, a);
    lemma_none_for_each_inst(func, ebb, func.layout@.insts_of(ebb), j);
}

/// No finding for a list of blocks means none for each of them.
pub proof fn lemma_none_for_each_ebb(func: &Function, ebbs: Seq<Ebb>, a: int)
    requires
        first_error(func, ebbs).is_none(),
        0 <= a < ebbs.len(),
    ensures
        first_error_in(func, ebbs[a], func.layout@.insts_of(ebbs[a])).is_none(),
    decreases ebbs.len(),
{
    if a > 0 {
        let rest = ebbs.subrange(1, ebbs.len() as int);
        assert(rest[a - 1] == ebbs[a]);
        lemma_none_for_each_ebb(func, rest, a - 1);
    }
}

/// No finding for a list of instructions means none for each of them.
pub proof fn lemma_none_for_each_inst(func: &Function, ebb: Ebb, insts: Seq<Inst>, j: int)
    requires
        first_error_in(func, ebb, insts).is_none(),
        0 <= j < insts.len(),
    ensures
        inst_error(func, ebb, insts[j]).is_none(),
    decreases insts.len(),
{
    if j > 0 {
        let rest = insts.subrange(1, insts.len() as int);
        assert(rest[j - 1] == insts[j]);
        lemma_none_for_each_inst(func, ebb, rest, j - 1);
    }
}

/// In a function in which the verifier finds nothing, a block that has
/// instructions has exactly one terminator, and that is its last
/// instruction.
pub proof fn lemma_verified_terminators(func: &Function, ebb: Ebb)
    requires
        func.wf(),
        verdict(func).is_none(),
        func.layout@.has_ebb(ebb),
        func.layout@.insts_of(ebb).len() > 0,
    ensures
        forall|j: int|
            0 <= j < func.layout@.insts_of(ebb).len() ==> (func.dfg@.data(
                #[trigger] func.layout@.insts_of(ebb)[j],
            ).opcode_spec().is_terminator_spec() <==> j == func.layout@.insts_of(ebb).len() - 1),
{
    let insts = func.layout@.insts_of(ebb);
    assert forall|j: int| 0 <= j < insts.len() implies (func.dfg@.data(
        #[trigger] insts[j],
    ).opcode_spec().is_terminator_spec() <==> j == insts.len() - 1) by {
        lemma_nothing_found(func, ebb, j);
        assert(ebb_integrity_error(func, ebb, insts[j]).is_none());
        if j != insts.len() - 1 {
            assert(insts[j] != insts[insts.len() - 1]);
        }
    }
}

/// In a function in which the verifier finds nothing, every instruction in
/// the layout has the format of its opcode; it has as many results as its
/// opcode and its signature ask for, and where they ask for none its first
/// type is `Void`; and every entity that it refers to exists.
pub proof fn lemma_verified_instruction(func: &Function, ebb: Ebb, j: int)
    requires
        func.wf(),
        verdict(func).is_none(),
        func.layout@.has_ebb(ebb),
        0 <= j < func.layout@.insts_of(ebb).len(),
    ensures
        ({
            let inst = func.layout@.insts_of(ebb)[j];
            let data = func.dfg@.data(inst);
            let total = func.dfg@.total_results(inst);
            &&& data.opcode_spec().format_spec() == data.format_spec()
            &&& func.dfg@.results_of(inst).len() == total
            &&& total == 0 ==> data.first_type_spec() == Type::Void
            &&& references_exist(func, inst)
        }),
{
    let inst = func.layout@.insts_of(ebb)[j];
    lemma_nothing_found(func, ebb, j);
    assert(func.layout@.stands_in(inst, ebb));
    assert(instruction_integrity_error(func, inst).is_none());
    assert(entity_references_error(func, inst).is_none());
    lemma_first_invalid_is_invalid(func.dfg@, func.dfg@.arguments_of(inst));
    lemma_all_values_valid(func.dfg@, func.dfg@.arguments_of(inst));
}

/// The first global value of `gvs`, from number `from` on, whose chain of
/// bases does not end.
pub open spec fn first_unending(gvs: Seq<GlobalValueData>, from: nat) -> Option<GlobalValue>
    decreases gvs.len() - from,
{
    if from >= gvs.len() {
        None
    } else if !chain_ends(gvs, GlobalValue::with_idx(from)) {
        Some(GlobalValue::with_idx(from))
    } else {
        first_unending(gvs, from + 1)
    }
}

/// What the check of the global values finds: the first global value whose
/// chain of bases runs in a circle or leaves the table.
pub open spec fn global_values_error(func: &Function) -> Option<ErrorView> {
    match first_unending(func.global_values@, 0) {
        Some(gv) => Some(
            ErrorView {
                location: AnyEntity::GlobalValue(gv),
                message: "the chain of bases does not end"@,
            },
        ),
        None => None,
    }
}

/// No first global value whose chain does not end means that every chain
/// ends.
pub proof fn lemma_first_unending(gvs: Seq<GlobalValueData>, from: nat)
    requires
        gvs.len() <= u32::MAX,
    ensures
        first_unending(gvs, from).is_none() <==> forall|gv: GlobalValue|
            from <= gv.idx() < gvs.len() ==> #[trigger] chain_ends(gvs, gv),
    decreases gvs.len() - from,
{
    if from < gvs.len() {
        lemma_first_unending(gvs, from + 1);
        GlobalValue::lemma_with_idx(from);
        if chain_ends(gvs, GlobalValue::with_idx(from)) {
            assert forall|gv: GlobalValue| from <= gv.idx() < gvs.len() && first_unending(
                gvs,
                from,
            ).is_none() implies #[trigger] chain_ends(gvs, gv) by {
                if gv.idx() == from {
                    GlobalValue::lemma_idx_injective(gv, GlobalValue::with_idx(from));
                }
            }
        }
    }
}

/// Whether the chain of bases of `gv` ends.
pub fn global_value_chain_ends(func: &Function, gv: GlobalValue) -> (b: bool)
    ensures
        b == chain_ends(func.global_values@, gv),
{
    let len = func.global_values.len();
    let mut cur = gv;
    let mut fuel = len;
    loop
        invariant
            len == func.global_values@.len(),
            fuel <= len,
            chain_ends(func.global_values@, gv) == depth_within(
                func.global_values@,
                cur,
                fuel as nat,
            ).is_some(),
        decreases fuel,
    {
        if !func.global_values.is_valid(cur) {
            return false;
        }
        match func.global_values.get(cur).base() {
            None => {
                return true;
            },
            Some(base) => {
                if fuel == 0 {
                    return false;
                }
                cur = base;
                fuel = fuel - 1;
            },
        }
    }
}

/// Checks that the chain of bases of every global value ends: that no
/// global value is its own base, directly or through others, and every base
/// is a global value of the function. Returns the first global value that
/// fails.
pub fn verify_global_values(func: &Function) -> (r: Result<(), Error>)
    ensures
        reports(r, global_values_error(func)),
        r.is_ok() <==> bases_end(func.global_values@),
{
    let len = func.global_values.len();
    let mut i: usize = 0;
    while i < len
        invariant
            len == func.global_values@.len(),
            len <= u32::MAX,
            i <= len,
            first_unending(func.global_values@, 0) == first_unending(
                func.global_values@,
                i as nat,
            ),
        decreases len - i,
    {
        let gv = GlobalValue::new(i);
        proof {
            GlobalValue::lemma_with_idx(i as nat);
            GlobalValue::lemma_idx_injective(gv, GlobalValue::with_idx(i as nat));
        }
        if !global_value_chain_ends(func, gv) {
            proof {
                lemma_first_unending(func.global_values@, 0);
            }
            return Err(
                Error {
                    location: AnyEntity::GlobalValue(gv),
                    message: String::from_str("the chain of bases does not end"),
                },
            );
        }
        i = i + 1;
    }
    proof {
        lemma_first_unending(func.global_values@, 0);
    }
    Ok(())
}

} // verus!
