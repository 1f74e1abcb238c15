//! Lists of values, all held in one pool.
//!
//! The operands of an instruction of variable arity, the results of an
//! instruction and the arguments of a block are lists of values. A list is a
//! small handle, an offset and a length, into a pool that all lists of a
//! function share. The pool only grows, so what a list holds in the pool never
//! changes under it.

use crate::ir::entities::Value;
use crate::text::{decimal, push_decimal};
use vstd::prelude::*;
use vstd::string::StringExecFns;

verus! {

/// The storage that the value lists of a function share.
pub struct ValueListPool {
    data: Vec<Value>,
}

impl View for ValueListPool {
    type V = Seq<Value>;

    closed spec fn view(&self) -> Seq<Value> {
        self.data@
    }
}

/// A list of values in a pool: `len` values that start at `offset`.
#[derive(Clone, Copy, Debug, PartialEq, Eq, Hash, Structural)]
pub struct ValueList {
    offset: usize,
    len: usize,
}

impl ValueListPool {
    /// A pool that holds nothing.
    pub fn new() -> (p: ValueListPool)
        ensures
            p@ == Seq::<Value>::empty(),
    {
        ValueListPool { data: Vec::new() }
    }

    /// The number of values that the pool holds.
    pub fn len(&self) -> (n: usize)
        ensures
            n == self@.len(),
    {
        self.data.len()
    }
}

impl ValueList {
    pub closed spec fn offset_spec(self) -> nat {
        self.offset as nat
    }

    pub closed spec fn len_spec(self) -> nat {
        self.len as nat
    }

    /// Whether the list lies within the pool `pool`.
    pub open spec fn is_valid_in(self, pool: Seq<Value>) -> bool {
        self.offset_spec() + self.len_spec() <= pool.len()
    }

    /// The values of the list in `pool`; a list that does not lie within the
    /// pool holds none.
    pub open spec fn values_in(self, pool: Seq<Value>) -> Seq<Value> {
        if self.is_valid_in(pool) {
            pool.subrange(self.offset_spec() as int, (self.offset_spec() + self.len_spec()) as int)
        } else {
            Seq::empty()
        }
    }

    /// The text of the handle.
    pub open spec fn name(self) -> Seq<char> {
        "list("@ + decimal(self.offset_spec()) + ", "@ + decimal(self.len_spec()) + ")"@
    }

    /// A list keeps its values when the pool grows.
    pub proof fn lemma_pool_grows(self, before: Seq<Value>, after: Seq<Value>)
        requires
            self.is_valid_in(before),
            before.is_prefix_of(after),
        ensures
            self.is_valid_in(after),
            self.values_in(after) == self.values_in(before),
    {
        assert(self.values_in(after) =~= self.values_in(before));
    }

    /// The empty list, which lies within every pool.
    pub fn new() -> (l: ValueList)
        ensures
            l.offset_spec() == 0,
            l.len_spec() == 0,
    {
        ValueList { offset: 0, len: 0 }
    }

    /// Whether the list lies within `pool`.
    pub fn is_valid(&self, pool: &ValueListPool) -> (b: bool)
        ensures
            b == self.is_valid_in(pool@),
            pool@.len() <= usize::MAX,
    {
        self.len <= pool.data.len() && self.offset <= pool.data.len() - self.len
    }

    /// The number of values in the list.
    pub fn len(&self, pool: &ValueListPool) -> (n: usize)
        ensures
            n == self.values_in(pool@).len(),
    {
        if self.is_valid(pool) {
            self.len
        } else {
            0
        }
    }

    /// Whether the list holds no value.
    pub fn is_empty(&self, pool: &ValueListPool) -> (b: bool)
        ensures
            b == (self.values_in(pool@).len() == 0),
    {
        self.len(pool) == 0
    }

    /// The value at position `i`, if the list is that long.
    pub fn get(&self, i: usize, pool: &ValueListPool) -> (v: Option<Value>)
        ensures
            v == if i < self.values_in(pool@).len() {
                Some(self.values_in(pool@)[i as int])
            } else {
                None
            },
    {
        if self.is_valid(pool) && i < self.len {
            Some(pool.data[self.offset + i])
        } else {
            None
        }
    }

    /// The first value, if there is one.
    pub fn first(&self, pool: &ValueListPool) -> (v: Option<Value>)
        ensures
            v == if self.values_in(pool@).len() > 0 {
                Some(self.values_in(pool@)[0])
            } else {
                None
            },
    {
        self.get(0, pool)
    }

    /// The values of the list, in their order.
    pub fn to_vec(&self, pool: &ValueListPool) -> (out: Vec<Value>)
        ensures
            out@ == self.values_in(pool@),
    {
        let mut out: Vec<Value> = Vec::new();
        if self.is_valid(pool) {
            let mut i: usize = 0;
            while i < self.len
                invariant
                    self.is_valid_in(pool@),
                    pool@.len() <= usize::MAX,
                    i <= self.len,
                    out@ == pool@.subrange(self.offset as int, self.offset + i),
                decreases self.len - i,
            {
                out.push(pool.data[self.offset + i]);
                assert(out@ =~= pool@.subrange(self.offset as int, self.offset + i + 1));
                i = i + 1;
            }
        }
        out
    }

    /// Appends `v` to the list, and returns its position in it. The pool
    /// grows; every list that lay within it holds what it held.
    pub fn push(&mut self, v: Value, pool: &mut ValueListPool) -> (at: usize)
        ensures
            old(pool)@.is_prefix_of(final(pool)@),
            final(self).is_valid_in(final(pool)@),
            final(self).values_in(final(pool)@) == old(self).values_in(old(pool)@).push(v),
            at == old(self).values_in(old(pool)@).len(),
    {
        let ghost before = pool@;
        let ghost held = self.values_in(before);
        if self.is_valid(pool) && self.offset + self.len == pool.data.len() {
            pool.data.push(v);
            let at = self.len;
            let grown = pool.data.len();
            self.len = self.len + 1;
            assert(self.values_in(pool@) =~= held.push(v));
            at
        } else {
            let n = if self.is_valid(pool) {
                self.len
            } else {
                0
            };
            let start = pool.data.len();
            let mut i: usize = 0;
            while i < n
                invariant
                    i <= n,
                    n == held.len(),
                    n > 0 ==> old(self).is_valid_in(before) && n == self.len,
                    held == old(self).values_in(before),
                    before.len() <= usize::MAX,
                    *self == *old(self),
                    before.is_prefix_of(pool@),
                    pool@.len() == start + i,
                    start == before.len(),
                    pool@.subrange(start as int, start + i) == held.subrange(0, i as int),
                decreases n - i,
            {
                assert(pool@[self.offset + i] == before[self.offset + i]);
                let x = pool.data[self.offset + i];
                assert(x == held[i as int]);
                pool.data.push(x);
                assert(pool@.subrange(start as int, start + i + 1) =~= held.subrange(0, i + 1));
                i = i + 1;
            }
            pool.data.push(v);
            let grown = pool.data.len();
            self.offset = start;
            self.len = n + 1;
            assert(held.subrange(0, n as int) =~= held);
            assert(pool@.subrange(start as int, start + n + 1) =~= pool@.subrange(
                start as int,
                start + n,
            ).push(v));
            assert(self.values_in(pool@) =~= held.push(v));
            n
        }
    }

    /// A new list in `pool` that holds the values of `values`.
    pub fn from_vec(values: &Vec<Value>, pool: &mut ValueListPool) -> (l: ValueList)
        ensures
            old(pool)@.is_prefix_of(final(pool)@),
            l.is_valid_in(final(pool)@),
            l.values_in(final(pool)@) == values@,
    {
        let ghost before = pool@;
        let start = pool.data.len();
        let mut i: usize = 0;
        while i < values.len()
            invariant
                i <= values@.len(),
                before.is_prefix_of(pool@),
                start == before.len(),
                pool@.len() == start + i,
                pool@.subrange(start as int, start + i) == values@.subrange(0, i as int),
            decreases values@.len() - i,
        {
            pool.data.push(values[i]);
            assert(pool@.subrange(start as int, start + i + 1) =~= values@.subrange(0, i + 1));
            i = i + 1;
        }
        let l = ValueList { offset: start, len: i };
        assert(l.values_in(pool@) =~= values@);
        l
    }

    /// The text of the handle.
    pub fn to_text(&self) -> (s: String)
        ensures
            s@ == self.name(),
    {
        let mut s = String::from_str("list(");
        push_decimal(&mut s, self.offset as u128);
        s.append(", ");
        push_decimal(&mut s, self.len as u128);
        s.append(")");
        s
    }
}

} // verus!
