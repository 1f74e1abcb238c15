//! The handles by which the objects of a function are named.
//!
//! Each kind of object has a handle type of its own, so that a handle of one
//! kind cannot be taken for one of another. A handle is written as a short
//! prefix and its number: `ebb3`, `inst42`, `v17`.

use crate::entity::EntityRef;
use crate::text::{decimal, numbered};
use vstd::prelude::*;

verus! {

/// An extended basic block. Written `ebbN`.
#[derive(Clone, Copy, Debug, PartialEq, Eq, Hash, Structural)]
pub struct Ebb(u32);

impl EntityRef for Ebb {
    closed spec fn idx(self) -> nat {
        self.0 as nat
    }

    closed spec fn with_idx(i: nat) -> Self {
        Ebb(i as u32)
    }

    fn new(index: usize) -> (k: Self) {
        Ebb(index as u32)
    }

    fn index(self) -> (i: usize) {
        self.0 as usize
    }

    proof fn lemma_idx_injective(a: Self, b: Self) {
    }

    proof fn lemma_with_idx(i: nat) {
    }
}

impl Ebb {
    /// The text of the handle.
    pub open spec fn name(self) -> Seq<char> {
        "ebb"@ + decimal(self.idx())
    }

    /// The handle with the number `n`.
    pub fn from_u32(n: u32) -> (k: Self)
        ensures
            k.idx() == n,
    {
        Ebb(n)
    }

    /// The number of the handle.
    pub fn as_u32(self) -> (n: u32)
        ensures
            n == self.idx(),
    {
        self.0
    }

    /// The text of the handle.
    pub fn to_text(self) -> (s: String)
        ensures
            s@ == self.name(),
    {
        numbered("ebb", self.0 as u128)
    }
}

/// An instruction. Written `instN`.
#[derive(Clone, Copy, Debug, PartialEq, Eq, Hash, Structural)]
pub struct Inst(u32);

impl EntityRef for Inst {
    closed spec fn idx(self) -> nat {
        self.0 as nat
    }

    closed spec fn with_idx(i: nat) -> Self {
        Inst(i as u32)
    }

    fn new(index: usize) -> (k: Self) {
        Inst(index as u32)
    }

    fn index(self) -> (i: usize) {
        self.0 as usize
    }

    proof fn lemma_idx_injective(a: Self, b: Self) {
    }

    proof fn lemma_with_idx(i: nat) {
    }
}

impl Inst {
    /// The text of the handle.
    pub open spec fn name(self) -> Seq<char> {
        "inst"@ + decimal(self.idx())
    }

    /// The handle with the number `n`.
    pub fn from_u32(n: u32) -> (k: Self)
        ensures
            k.idx() == n,
    {
        Inst(n)
    }

    /// The number of the handle.
    pub fn as_u32(self) -> (n: u32)
        ensures
            n == self.idx(),
    {
        self.0
    }

    /// The text of the handle.
    pub fn to_text(self) -> (s: String)
        ensures
            s@ == self.name(),
    {
        numbered("inst", self.0 as u128)
    }
}

/// An SSA value. Written `vN`.
#[derive(Clone, Copy, Debug, PartialEq, Eq, Hash, Structural)]
pub struct Value(u32);

impl EntityRef for Value {
    closed spec fn idx(self) -> nat {
        self.0 as nat
    }

    closed spec fn with_idx(i: nat) -> Self {
        Value(i as u32)
    }

    fn new(index: usize) -> (k: Self) {
        Value(index as u32)
    }

    fn index(self) -> (i: usize) {
        self.0 as usize
    }

    proof fn lemma_idx_injective(a: Self, b: Self) {
    }

    proof fn lemma_with_idx(i: nat) {
    }
}

impl Value {
    /// The text of the handle.
    pub open spec fn name(self) -> Seq<char> {
        "v"@ + decimal(self.idx())
    }

    /// The handle with the number `n`.
    pub fn from_u32(n: u32) -> (k: Self)
        ensures
            k.idx() == n,
    {
        Value(n)
    }

    /// The number of the handle.
    pub fn as_u32(self) -> (n: u32)
        ensures
            n == self.idx(),
    {
        self.0
    }

    /// The text of the handle.
    pub fn to_text(self) -> (s: String)
        ensures
            s@ == self.name(),
    {
        numbered("v", self.0 as u128)
    }
}

/// A function signature that an indirect call or an external function refers to. Written `sigN`.
#[derive(Clone, Copy, Debug, PartialEq, Eq, Hash, Structural)]
pub struct SigRef(u32);

impl EntityRef for SigRef {
    closed spec fn idx(self) -> nat {
        self.0 as nat
    }

    closed spec fn with_idx(i: nat) -> Self {
        SigRef(i as u32)
    }

    fn new(index: usize) -> (k: Self) {
        SigRef(index as u32)
    }

    fn index(self) -> (i: usize) {
        self.0 as usize
    }

    proof fn lemma_idx_injective(a: Self, b: Self) {
    }

    proof fn lemma_with_idx(i: nat) {
    }
}

impl SigRef {
    /// The text of the handle.
    pub open spec fn name(self) -> Seq<char> {
        "sig"@ + decimal(self.idx())
    }

    /// The handle with the number `n`.
    pub fn from_u32(n: u32) -> (k: Self)
        ensures
            k.idx() == n,
    {
        SigRef(n)
    }

    /// The number of the handle.
    pub fn as_u32(self) -> (n: u32)
        ensures
            n == self.idx(),
    {
        self.0
    }

    /// The text of the handle.
    pub fn to_text(self) -> (s: String)
        ensures
            s@ == self.name(),
    {
        numbered("sig", self.0 as u128)
    }
}

/// An external function that a direct call refers to. Written `fnN`.
#[derive(Clone, Copy, Debug, PartialEq, Eq, Hash, Structural)]
pub struct FuncRef(u32);

impl EntityRef for FuncRef {
    closed spec fn idx(self) -> nat {
        self.0 as nat
    }

    closed spec fn with_idx(i: nat) -> Self {
        FuncRef(i as u32)
    }

    fn new(index: usize) -> (k: Self) {
        FuncRef(index as u32)
    }

    fn index(self) -> (i: usize) {
        self.0 as usize
    }

    proof fn lemma_idx_injective(a: Self, b: Self) {
    }

    proof fn lemma_with_idx(i: nat) {
    }
}

impl FuncRef {
    /// The text of the handle.
    pub open spec fn name(self) -> Seq<char> {
        "fn"@ + decimal(self.idx())
    }

    /// The handle with the number `n`.
    pub fn from_u32(n: u32) -> (k: Self)
        ensures
            k.idx() == n,
    {
        FuncRef(n)
    }

    /// The number of the handle.
    pub fn as_u32(self) -> (n: u32)
        ensures
            n == self.idx(),
    {
        self.0
    }

    /// The text of the handle.
    pub fn to_text(self) -> (s: String)
        ensures
            s@ == self.name(),
    {
        numbered("fn", self.0 as u128)
    }
}

/// A global value. Written `gvN`.
#[derive(Clone, Copy, Debug, PartialEq, Eq, Hash, Structural)]
pub struct GlobalValue(u32);

impl EntityRef for GlobalValue {
    closed spec fn idx(self) -> nat {
        self.0 as nat
    }

    closed spec fn with_idx(i: nat) -> Self {
        GlobalValue(i as u32)
    }

    fn new(index: usize) -> (k: Self) {
        GlobalValue(index as u32)
    }

    fn index(self) -> (i: usize) {
        self.0 as usize
    }

    proof fn lemma_idx_injective(a: Self, b: Self) {
    }

    proof fn lemma_with_idx(i: nat) {
    }
}

impl GlobalValue {
    /// The text of the handle.
    pub open spec fn name(self) -> Seq<char> {
        "gv"@ + decimal(self.idx())
    }

    /// The handle with the number `n`.
    pub fn from_u32(n: u32) -> (k: Self)
        ensures
            k.idx() == n,
    {
        GlobalValue(n)
    }

    /// The number of the handle.
    pub fn as_u32(self) -> (n: u32)
        ensures
            n == self.idx(),
    {
        self.0
    }

    /// The text of the handle.
    pub fn to_text(self) -> (s: String)
        ensures
            s@ == self.name(),
    {
        numbered("gv", self.0 as u128)
    }
}

/// A linear memory. Written `heapN`.
#[derive(Clone, Copy, Debug, PartialEq, Eq, Hash, Structural)]
pub struct Heap(u32);

impl EntityRef for Heap {
    closed spec fn idx(self) -> nat {
        self.0 as nat
    }

    closed spec fn with_idx(i: nat) -> Self {
        Heap(i as u32)
    }

    fn new(index: usize) -> (k: Self) {
        Heap(index as u32)
    }

    fn index(self) -> (i: usize) {
        self.0 as usize
    }

    proof fn lemma_idx_injective(a: Self, b: Self) {
    }

    proof fn lemma_with_idx(i: nat) {
    }
}

impl Heap {
    /// The text of the handle.
    pub open spec fn name(self) -> Seq<char> {
        "heap"@ + decimal(self.idx())
    }

    /// The handle with the number `n`.
    pub fn from_u32(n: u32) -> (k: Self)
        ensures
            k.idx() == n,
    {
        Heap(n)
    }

    /// The number of the handle.
    pub fn as_u32(self) -> (n: u32)
        ensures
            n == self.idx(),
    {
        self.0
    }

    /// The text of the handle.
    pub fn to_text(self) -> (s: String)
        ensures
            s@ == self.name(),
    {
        numbered("heap", self.0 as u128)
    }
}

/// A table. Written `tableN`.
#[derive(Clone, Copy, Debug, PartialEq, Eq, Hash, Structural)]
pub struct Table(u32);

impl EntityRef for Table {
    closed spec fn idx(self) -> nat {
        self.0 as nat
    }

    closed spec fn with_idx(i: nat) -> Self {
        Table(i as u32)
    }

    fn new(index: usize) -> (k: Self) {
        Table(index as u32)
    }

    fn index(self) -> (i: usize) {
        self.0 as usize
    }

    proof fn lemma_idx_injective(a: Self, b: Self) {
    }

    proof fn lemma_with_idx(i: nat) {
    }
}

impl Table {
    /// The text of the handle.
    pub open spec fn name(self) -> Seq<char> {
        "table"@ + decimal(self.idx())
    }

    /// The handle with the number `n`.
    pub fn from_u32(n: u32) -> (k: Self)
        ensures
            k.idx() == n,
    {
        Table(n)
    }

    /// The number of the handle.
    pub fn as_u32(self) -> (n: u32)
        ensures
            n == self.idx(),
    {
        self.0
    }

    /// The text of the handle.
    pub fn to_text(self) -> (s: String)
        ensures
            s@ == self.name(),
    {
        numbered("table", self.0 as u128)
    }
}

/// A slot of the stack frame. Written `ssN`.
#[derive(Clone, Copy, Debug, PartialEq, Eq, Hash, Structural)]
pub struct StackSlot(u32);

impl EntityRef for StackSlot {
    closed spec fn idx(self) -> nat {
        self.0 as nat
    }

    closed spec fn with_idx(i: nat) -> Self {
        StackSlot(i as u32)
    }

    fn new(index: usize) -> (k: Self) {
        StackSlot(index as u32)
    }

    fn index(self) -> (i: usize) {
        self.0 as usize
    }

    proof fn lemma_idx_injective(a: Self, b: Self) {
    }

    proof fn lemma_with_idx(i: nat) {
    }
}

impl StackSlot {
    /// The text of the handle.
    pub open spec fn name(self) -> Seq<char> {
        "ss"@ + decimal(self.idx())
    }

    /// The handle with the number `n`.
    pub fn from_u32(n: u32) -> (k: Self)
        ensures
            k.idx() == n,
    {
        StackSlot(n)
    }

    /// The number of the handle.
    pub fn as_u32(self) -> (n: u32)
        ensures
            n == self.idx(),
    {
        self.0
    }

    /// The text of the handle.
    pub fn to_text(self) -> (s: String)
        ensures
            s@ == self.name(),
    {
        numbered("ss", self.0 as u128)
    }
}

/// A jump table. Written `jtN`.
#[derive(Clone, Copy, Debug, PartialEq, Eq, Hash, Structural)]
pub struct JumpTable(u32);

impl EntityRef for JumpTable {
    closed spec fn idx(self) -> nat {
        self.0 as nat
    }

    closed spec fn with_idx(i: nat) -> Self {
        JumpTable(i as u32)
    }

    fn new(index: usize) -> (k: Self) {
        JumpTable(index as u32)
    }

    fn index(self) -> (i: usize) {
        self.0 as usize
    }

    proof fn lemma_idx_injective(a: Self, b: Self) {
    }

    proof fn lemma_with_idx(i: nat) {
    }
}

impl JumpTable {
    /// The text of the handle.
    pub open spec fn name(self) -> Seq<char> {
        "jt"@ + decimal(self.idx())
    }

    /// The handle with the number `n`.
    pub fn from_u32(n: u32) -> (k: Self)
        ensures
            k.idx() == n,
    {
        JumpTable(n)
    }

    /// The number of the handle.
    pub fn as_u32(self) -> (n: u32)
        ensures
            n == self.idx(),
    {
        self.0
    }

    /// The text of the handle.
    pub fn to_text(self) -> (s: String)
        ensures
            s@ == self.name(),
    {
        numbered("jt", self.0 as u128)
    }
}

/// A reference to any object of a function, or to the function itself.
#[derive(Clone, Copy, Debug, PartialEq, Eq, Hash, Structural)]
pub enum AnyEntity {
    Function,
    Ebb(Ebb),
    Inst(Inst),
    Value(Value),
    StackSlot(StackSlot),
    GlobalValue(GlobalValue),
    JumpTable(JumpTable),
    FuncRef(FuncRef),
    SigRef(SigRef),
    Heap(Heap),
    Table(Table),
}

impl AnyEntity {
    /// The text of the entity: that of its handle, or `function`.
    pub open spec fn name(self) -> Seq<char> {
        match self {
            AnyEntity::Function => "function"@,
            AnyEntity::Ebb(r) => r.name(),
            AnyEntity::Inst(r) => r.name(),
            AnyEntity::Value(r) => r.name(),
            AnyEntity::StackSlot(r) => r.name(),
            AnyEntity::GlobalValue(r) => r.name(),
            AnyEntity::JumpTable(r) => r.name(),
            AnyEntity::FuncRef(r) => r.name(),
            AnyEntity::SigRef(r) => r.name(),
            AnyEntity::Heap(r) => r.name(),
            AnyEntity::Table(r) => r.name(),
        }
    }

    /// The text of the entity: that of its handle, or `function`.
    pub fn to_text(self) -> (s: String)
        ensures
            s@ == self.name(),
    {
        match self {
            AnyEntity::Function => "function".to_owned(),
            AnyEntity::Ebb(r) => r.to_text(),
            AnyEntity::Inst(r) => r.to_text(),
            AnyEntity::Value(r) => r.to_text(),
            AnyEntity::StackSlot(r) => r.to_text(),
            AnyEntity::GlobalValue(r) => r.to_text(),
            AnyEntity::JumpTable(r) => r.to_text(),
            AnyEntity::FuncRef(r) => r.to_text(),
            AnyEntity::SigRef(r) => r.to_text(),
            AnyEntity::Heap(r) => r.to_text(),
            AnyEntity::Table(r) => r.to_text(),
        }
    }
}

} // verus!
