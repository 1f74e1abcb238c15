//! Global values.

use crate::entity::EntityRef;
use crate::ir::entities::GlobalValue;
use crate::ir::types::Type;
use vstd::prelude::*;

verus! {

/// How the address or the value that a global value stands for is found.
#[allow(inconsistent_fields)]
#[derive(Clone, Copy, Debug, PartialEq, Eq, Hash, Structural)]
pub enum GlobalValueData {
    /// The context pointer that the function receives as a parameter.
    VMContext,
    /// The global value `base` with `offset` added to it.
    IAddImm { base: GlobalValue, offset: i64, global_type: Type },
    /// What is loaded, as a value of `global_type`, from `offset` bytes
    /// behind the address `base`. The load does not trap and is aligned.
    Load { base: GlobalValue, offset: i32, global_type: Type },
    /// The address of the symbol `name`, which is known at link time.
    Symbol { name: u32, offset: i64, colocated: bool },
}

impl GlobalValueData {
    /// The global value that this one is computed from, if there is one.
    pub open spec fn base_spec(self) -> Option<GlobalValue> {
        match self {
            GlobalValueData::IAddImm { base, .. } => Some(base),
            GlobalValueData::Load { base, .. } => Some(base),
            _ => None,
        }
    }

    /// The global value that this one is computed from, if there is one.
    pub fn base(&self) -> (b: Option<GlobalValue>)
        ensures
            b == self.base_spec(),
    {
        match self {
            GlobalValueData::IAddImm { base, .. } => Some(*base),
            GlobalValueData::Load { base, .. } => Some(*base),
            _ => None,
        }
    }
}


/// The number of steps from `gv` along the bases to a global value that has
/// no base, if such a one is reached within `fuel` steps and every step
/// leads to a global value of the table `gvs`.
pub open spec fn depth_within(gvs: Seq<GlobalValueData>, gv: GlobalValue, fuel: nat) -> Option<nat>
    decreases fuel,
{
    if gv.idx() >= gvs.len() {
        None
    } else {
        match gvs[gv.idx() as int].base_spec() {
            None => Some(0),
            Some(base) => if fuel == 0 {
                None
            } else {
                match depth_within(gvs, base, (fuel - 1) as nat) {
                    Some(d) => Some(d + 1),
                    None => None,
                }
            },
        }
    }
}

/// Whether the walk along the bases from `gv` ends within the table: it
/// comes to a global value without a base in no more steps than the table
/// has entries.
pub open spec fn chain_ends(gvs: Seq<GlobalValueData>, gv: GlobalValue) -> bool {
    depth_within(gvs, gv, gvs.len()).is_some()
}

/// Whether the walk along the bases ends for every global value of the
/// table: no global value is its own base, directly or through others, and
/// every base is a global value of the table.
pub open spec fn bases_end(gvs: Seq<GlobalValueData>) -> bool {
    forall|gv: GlobalValue| gv.idx() < gvs.len() ==> #[trigger] chain_ends(gvs, gv)
}

/// The number of steps from `gv` along the bases to a global value that has
/// no base.
pub open spec fn depth(gvs: Seq<GlobalValueData>, gv: GlobalValue) -> nat
    recommends
        chain_ends(gvs, gv),
{
    depth_within(gvs, gv, gvs.len()).unwrap()
}

/// The global value that is reached from `gv` after `n` steps along the
/// bases, if the walk is that long.
pub open spec fn base_walk(gvs: Seq<GlobalValueData>, gv: GlobalValue, n: nat) -> Option<
    GlobalValue,
>
    decreases n,
{
    if n == 0 {
        Some(gv)
    } else if gv.idx() >= gvs.len() {
        None
    } else {
        match gvs[gv.idx() as int].base_spec() {
            Some(base) => base_walk(gvs, base, (n - 1) as nat),
            None => None,
        }
    }
}

/// A depth that is found with some fuel is no more than that fuel, and is
/// found with any more fuel too.
pub proof fn lemma_depth_fuel(gvs: Seq<GlobalValueData>, gv: GlobalValue, fuel: nat, more: nat)
    requires
        depth_within(gvs, gv, fuel).is_some(),
        fuel <= more,
    ensures
        depth_within(gvs, gv, more) == depth_within(gvs, gv, fuel),
        depth_within(gvs, gv, fuel).unwrap() <= fuel,
    decreases fuel,
{
    match gvs[gv.idx() as int].base_spec() {
        None => {},
        Some(base) => {
            lemma_depth_fuel(gvs, base, (fuel - 1) as nat, (more - 1) as nat);
        },
    }
}

/// The base of a global value whose chain ends is a global value of the
/// table, its chain ends, and it is one step nearer to the end.
pub proof fn lemma_base_is_nearer(gvs: Seq<GlobalValueData>, gv: GlobalValue, base: GlobalValue)
    requires
        gv.idx() < gvs.len(),
        chain_ends(gvs, gv),
        gvs[gv.idx() as int].base_spec() == Some(base),
    ensures
        base.idx() < gvs.len(),
        chain_ends(gvs, base),
        depth(gvs, base) + 1 == depth(gvs, gv),
{
    lemma_depth_fuel(gvs, base, (gvs.len() - 1) as nat, gvs.len());
}

/// Along the bases the depth goes down by one with every step.
pub proof fn lemma_walk_descends(gvs: Seq<GlobalValueData>, gv: GlobalValue, n: nat)
    requires
        gv.idx() < gvs.len(),
        chain_ends(gvs, gv),
        base_walk(gvs, gv, n).is_some(),
    ensures
        base_walk(gvs, gv, n).unwrap().idx() < gvs.len(),
        chain_ends(gvs, base_walk(gvs, gv, n).unwrap()),
        depth(gvs, base_walk(gvs, gv, n).unwrap()) + n == depth(gvs, gv),
    decreases n,
{
    if n > 0 {
        let base = gvs[gv.idx() as int].base_spec().unwrap();
        lemma_base_is_nearer(gvs, gv, base);
        lemma_walk_descends(gvs, base, (n - 1) as nat);
    }
}

/// Where every chain of bases ends, the bases form no circle: no walk of
/// one step or more leads from a global value back to itself.
pub proof fn lemma_bases_acyclic(gvs: Seq<GlobalValueData>, gv: GlobalValue, n: nat)
    requires
        bases_end(gvs),
        gv.idx() < gvs.len(),
        n > 0,
    ensures
        base_walk(gvs, gv, n) != Some(gv),
{
    assert(chain_ends(gvs, gv));
    if base_walk(gvs, gv, n).is_some() {
        lemma_walk_descends(gvs, gv, n);
    }
}

} // verus!
