//! Densely numbered entity references, and the maps that are keyed by them.
//!
//! Every object of the intermediate representation is named by a small
//! integer handle. A `PrimaryMap` owns the objects of one kind and hands out
//! their handles; a `SecondaryMap` holds more data about objects that live
//! somewhere else.

use core::marker::PhantomData;
use vstd::prelude::*;

verus! {

/// A handle type: a copyable name for the entity number `idx()` of its kind.
pub trait EntityRef: Copy + Sized {
    /// The number of the entity that this handle names.
    spec fn idx(self) -> nat;

    /// The handle of entity number `i`, as a mathematical value.
    spec fn with_idx(i: nat) -> Self;

    /// The handle of entity number `index`.
    fn new(index: usize) -> (k: Self)
        requires
            index <= u32::MAX,
        ensures
            k.idx() == index,
    ;

    /// The number of the entity that this handle names.
    fn index(self) -> (i: usize)
        ensures
            i == self.idx(),
            i <= u32::MAX,
    ;

    /// A handle is nothing but its number.
    proof fn lemma_idx_injective(a: Self, b: Self)
        requires
            a.idx() == b.idx(),
        ensures
            a == b,
    ;

    /// Every number that fits a handle has one.
    proof fn lemma_with_idx(i: nat)
        requires
            i <= u32::MAX,
        ensures
            Self::with_idx(i).idx() == i,
    ;
}

/// An arena: it owns the entities of one kind, in the order of their creation.
pub struct PrimaryMap<K: EntityRef, V> {
    elems: Vec<V>,
    unused: PhantomData<K>,
}

impl<K: EntityRef, V> View for PrimaryMap<K, V> {
    type V = Seq<V>;

    closed spec fn view(&self) -> Seq<V> {
        self.elems@
    }
}

impl<K: EntityRef, V> PrimaryMap<K, V> {
    /// Every entity of the arena has a handle.
    #[verifier::type_invariant]
    spec fn handles_fit(&self) -> bool {
        self.elems@.len() <= u32::MAX
    }

    /// Whether `k` names an entity of this arena.
    pub open spec fn contains(&self, k: K) -> bool {
        k.idx() < self@.len()
    }

    /// The entity that `k` names.
    pub open spec fn at(&self, k: K) -> V
        recommends
            self.contains(k),
    {
        self@[k.idx() as int]
    }

    /// An arena without entities.
    pub fn new() -> (m: Self)
        ensures
            m@ == Seq::<V>::empty(),
    {
        PrimaryMap { elems: Vec::new(), unused: PhantomData }
    }

    /// Whether `k` names an entity of this arena.
    pub fn is_valid(&self, k: K) -> (b: bool)
        ensures
            b == self.contains(k),
    {
        k.index() < self.elems.len()
    }

    /// The number of entities.
    pub fn len(&self) -> (n: usize)
        ensures
            n == self@.len(),
            n <= u32::MAX,
    {
        proof {
            use_type_invariant(self);
        }
        self.elems.len()
    }

    /// Whether the arena holds no entity.
    pub fn is_empty(&self) -> (b: bool)
        ensures
            b == (self@.len() == 0),
    {
        self.elems.len() == 0
    }

    /// The entity that `k` names.
    pub fn get(&self, k: K) -> (v: &V)
        requires
            self.contains(k),
        ensures
            *v == self.at(k),
    {
        &self.elems[k.index()]
    }

    /// Replaces the entity that `k` names, and leaves every other one alone.
    pub fn set(&mut self, k: K, v: V)
        requires
            old(self).contains(k),
        ensures
            final(self)@ == old(self)@.update(k.idx() as int, v),
    {
        proof {
            use_type_invariant(&*self);
        }
        let mut elems: Vec<V> = Vec::new();
        core::mem::swap(&mut elems, &mut self.elems);
        elems.set(k.index(), v);
        self.elems = elems;
    }

    /// The handle that the next `push` will hand out.
    pub fn next_key(&self) -> (k: K)
        ensures
            k.idx() == self@.len(),
    {
        proof {
            use_type_invariant(self);
        }
        K::new(self.elems.len())
    }

    /// The handles of the entities, in the order of their creation.
    pub fn keys(&self) -> (out: Vec<K>)
        ensures
            out@.len() == self@.len(),
            forall|i: int| 0 <= i < out@.len() ==> (#[trigger] out@[i]).idx() == i,
    {
        proof {
            use_type_invariant(self);
        }
        let mut out: Vec<K> = Vec::new();
        let mut i: usize = 0;
        while i < self.elems.len()
            invariant
                self.elems@.len() <= u32::MAX,
                i <= self.elems@.len(),
                out@.len() == i,
                forall|j: int| 0 <= j < i ==> (#[trigger] out@[j]).idx() == j,
            decreases self.elems@.len() - i,
        {
            out.push(K::new(i));
            i = i + 1;
        }
        out
    }

    /// Adds `v` as a new entity and returns its handle, which is fresh: the
    /// handles given out before keep naming what they named.
    pub fn push(&mut self, v: V) -> (k: K)
        requires
            old(self)@.len() < u32::MAX,
        ensures
            final(self)@ == old(self)@.push(v),
            k.idx() == old(self)@.len(),
    {
        let k = K::new(self.elems.len());
        let mut elems: Vec<V> = Vec::new();
        core::mem::swap(&mut elems, &mut self.elems);
        elems.push(v);
        self.elems = elems;
        k
    }
}

/// Side data for entities that live in another arena. An entity that was
/// never written to reads as the map's default value.
pub struct SecondaryMap<K: EntityRef, V: Copy> {
    elems: Vec<V>,
    default: V,
    unused: PhantomData<K>,
}

impl<K: EntityRef, V: Copy> SecondaryMap<K, V> {
    /// The value that an entity reads as until it is written to.
    pub closed spec fn default_value(&self) -> V {
        self.default
    }

    /// The value held for entity number `i`.
    pub closed spec fn at_index(&self, i: nat) -> V {
        if i < self.elems@.len() {
            self.elems@[i as int]
        } else {
            self.default
        }
    }

    /// The value held for `k`.
    pub open spec fn at(&self, k: K) -> V {
        self.at_index(k.idx())
    }

    /// A map in which every entity reads as `default`.
    pub fn with_default(default: V) -> (m: Self)
        ensures
            m.default_value() == default,
            forall|i: nat| #[trigger] m.at_index(i) == default,
            forall|x: K| #[trigger] m.at(x) == default,
    {
        SecondaryMap { elems: Vec::new(), default, unused: PhantomData }
    }

    /// The value held for `k`.
    pub fn get(&self, k: K) -> (v: V)
        ensures
            v == self.at(k),
    {
        let i = k.index();
        if i < self.elems.len() {
            self.elems[i]
        } else {
            self.default
        }
    }

    /// Writes `v` for `k`; every other entity reads as before.
    pub fn set(&mut self, k: K, v: V)
        ensures
            final(self).default_value() == old(self).default_value(),
            forall|i: nat|
                #[trigger] final(self).at_index(i) == if i == k.idx() {
                    v
                } else {
                    old(self).at_index(i)
                },
            final(self).at(k) == v,
            forall|x: K| x != k ==> #[trigger] final(self).at(x) == old(self).at(x),
    {
        proof {
            assert forall|x: K| x != k implies x.idx() != k.idx() by {
                if x.idx() == k.idx() {
                    K::lemma_idx_injective(x, k);
                }
            }
        }
        let i = k.index();
        while self.elems.len() <= i
            invariant
                self.default == old(self).default,
                old(self).elems@.len() <= self.elems@.len(),
                forall|j: int| 0 <= j < old(self).elems@.len() ==> self.elems@[j] == old(self).elems@[j],
                forall|j: int| old(self).elems@.len() <= j < self.elems@.len() ==> self.elems@[j] == self.default,
            decreases i + 1 - self.elems.len(),
        {
            self.elems.push(self.default);
        }
        self.elems.set(i, v);
    }
}

} // verus!
