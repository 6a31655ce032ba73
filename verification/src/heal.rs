//! Whom a healer can reach.
//!
//! A healer looks at every unit on the floors within its reach — climbers and,
//! when the hero can be healed, the hero — lowest floor first and in list
//! order on one floor. A unit at full health is no candidate; a unit at or
//! below zero still is, since deaths are settled after healing and a healer
//! can pull one back. How much each candidate has left is the simulation's
//! business: what comes in here is only whether it is wounded.

use vstd::prelude::*;
use crate::tower::Floor;
use crate::sweep::{swept, sweep_floors};

verus! {

/// The lowest floor a healer standing on `floor` reaches.
pub open spec fn reach_low(floor: Floor, reach: Floor) -> Floor {
    if floor >= reach { (floor - reach) as Floor } else { 0 }
}

/// The units a healer may mend: the wounded, less the healer itself unless
/// healers may heal themselves.
pub open spec fn heal_keep(wounded: Seq<bool>, healer: int, heal_self: bool) -> Seq<bool> {
    Seq::new(wounded.len(), |i: int| wounded[i] && (heal_self || i != healer))
}

/// The candidates of the healer at index `healer`, given each unit's floor and
/// whether it is wounded: every unit it may mend on the floors from
/// `reach` below its own to `reach` above, lowest floor first and in list
/// order on one floor. Where the healer commits to one unit, an earlier
/// candidate keeps a tie, so this order is part of the rule.
pub fn heal_candidates(
    floors: &Vec<Floor>,
    wounded: &Vec<bool>,
    healer: usize,
    reach: Floor,
    heal_self: bool,
) -> (candidates: Vec<usize>)
    requires
        floors.len() == wounded.len(),
        healer < floors.len(),
        floors[healer as int] + reach <= u32::MAX,
    ensures
        swept(
            floors@,
            heal_keep(wounded@, healer as int, heal_self),
            reach_low(floors[healer as int], reach),
            (floors[healer as int] + reach) as Floor,
            false,
            None,
            candidates@,
        ),
        forall|p: int| 0 <= p < candidates@.len() ==> {
            let c = #[trigger] candidates@[p] as int;
            &&& 0 <= c < floors.len()
            &&& floors[c] + reach >= floors[healer as int]
            &&& floors[c] <= floors[healer as int] + reach
            &&& wounded[c]
            &&& (heal_self || c != healer)
        },
        forall|k: int|
            0 <= k < floors.len() && wounded[k] && (heal_self || k != healer)
                && floors[k] + reach >= floors[healer as int] && floors[k] <= floors[healer as int] + reach
                ==> #[trigger] candidates@.contains(k as usize),
{
    let mut keep: Vec<bool> = Vec::new();
    let n = wounded.len();
    while keep.len() < n
        invariant
            n == wounded.len(),
            keep.len() <= n,
            forall|i: int| 0 <= i < keep.len() ==> keep@[i] == (wounded@[i] && (heal_self || i != healer)),
        decreases n - keep.len(),
    {
        let i = keep.len();
        keep.push(wounded[i] && (heal_self || i != healer));
    }
    assert(keep@ =~= heal_keep(wounded@, healer as int, heal_self));
    let here = floors[healer];
    let candidates = sweep_floors(floors, &keep, here.saturating_sub(reach), here + reach, false, None);
    proof {
        crate::laws::law_a_healer_reaches_its_reach_each_way(
            floors@,
            wounded@,
            healer as int,
            reach,
            heal_self,
            candidates@,
        );
    }
    candidates
}

/// How many floors apart two floors are.
pub open spec fn floors_apart(a: Floor, b: Floor) -> int {
    if a >= b { a - b } else { b - a }
}

/// The fewest floors between `here` and any of `candidates`, by the floors
/// in `floors`.
pub open spec fn closest(floors: Seq<Floor>, candidates: Seq<usize>, here: Floor) -> int
    decreases candidates.len(),
{
    if candidates.len() <= 1 {
        floors_apart(floors[candidates[0] as int], here)
    } else {
        let rest = closest(floors, candidates.drop_last(), here);
        let last = floors_apart(floors[candidates.last() as int], here);
        if last < rest { last } else { rest }
    }
}

/// The predicate "stands `d` floors from `here`".
pub open spec fn at_distance(floors: Seq<Floor>, here: Floor, d: int) -> spec_fn(usize) -> bool {
    |i: usize| floors_apart(floors[i as int], here) == d
}

/// Of a healer's candidates, those nearest to its floor `here`, in candidate
/// order. A healer that goes to the nearest unit settles a tie in distance on
/// health among these, and on a full tie keeps the earliest.
pub fn nearest_candidates(floors: &Vec<Floor>, candidates: &Vec<usize>, here: Floor) -> (nearest: Vec<usize>)
    requires
        forall|k: int| 0 <= k < candidates.len() ==> candidates[k] < floors.len(),
    ensures
        candidates.len() > 0 ==> nearest@ == candidates@.filter(
            at_distance(floors@, here, closest(floors@, candidates@, here)),
        ),
        candidates.len() > 0 ==> nearest.len() > 0,
        candidates.len() == 0 ==> nearest.len() == 0,
{
    let n = candidates.len();
    if n == 0 {
        return Vec::new();
    }
    let ghost fl = floors@;
    let ghost cs = candidates@;
    let first = candidates[0];
    let mut best: u32 = if floors[first] >= here { floors[first] - here } else { here - floors[first] };
    let mut at: usize = 0;
    let mut i: usize = 1;
    assert(cs.take(1).len() == 1);
    while i < n
        invariant
            fl == floors@,
            cs == candidates@,
            n == cs.len(),
            1 <= i <= n,
            at < i,
            forall|k: int| 0 <= k < n ==> cs[k] < fl.len(),
            best == closest(fl, cs.take(i as int), here),
            best == floors_apart(fl[cs[at as int] as int], here),
        decreases n - i,
    {
        let c = candidates[i];
        let d: u32 = if floors[c] >= here { floors[c] - here } else { here - floors[c] };
        assert(cs.take(i as int + 1).drop_last() =~= cs.take(i as int));
        if d < best {
            best = d;
            at = i;
        }
        i = i + 1;
    }
    assert(cs.take(n as int) =~= cs);
    let ghost keep = at_distance(fl, here, best as int);
    let mut nearest: Vec<usize> = Vec::new();
    let mut j: usize = 0;
    while j < n
        invariant
            fl == floors@,
            cs == candidates@,
            n == cs.len(),
            j <= n,
            at < n,
            forall|k: int| 0 <= k < n ==> cs[k] < fl.len(),
            keep == at_distance(fl, here, best as int),
            best == floors_apart(fl[cs[at as int] as int], here),
            nearest@ == cs.take(j as int).filter(keep),
            j > at ==> nearest.len() > 0,
        decreases n - j,
    {
        let c = candidates[j];
        let d: u32 = if floors[c] >= here { floors[c] - here } else { here - floors[c] };
        proof {
            assert(cs.take(j as int + 1) =~= cs.take(j as int).push(c));
            cs.take(j as int).lemma_filter_push(c, keep);
        }
        if d == best {
            nearest.push(c);
        }
        j = j + 1;
    }
    assert(cs.take(n as int) =~= cs);
    nearest
}

} // verus!
