//! The stream: one global replacement interval against an authored ratio.
//!
//! Composition is authored, never chosen by the player. When a slot comes up,
//! it goes to whichever type sits furthest below its authored share of the
//! *live* stream, ties resolving to the earlier type in the fixed order. If
//! that type is at its ceiling the slot is skipped — never passed to another
//! type, which would let the scheduler quietly rewrite the composition.
//!
//! Shares are compared exactly, as whole-number cross products, so an exact
//! tie always goes to the earlier type as the rule says. Comparing the shares
//! as rounded fractions can let rounding break an exact tie the other way —
//! with composition 4/3/2 and 5/3/10 alive, melee and ranged are each exactly
//! three short, and a rounded comparison can pick ranged. Deficits that are
//! not tied differ by at least one part in the stream's size times the
//! composition total, far beyond any rounding, so they order the same either
//! way.

use vstd::prelude::*;
use crate::types::{ClimberType, PerType};

verus! {

/// How many of `types` are of type `t`.
pub open spec fn count_of(types: Seq<ClimberType>, t: ClimberType) -> nat {
    types.filter(of_type(t)).len()
}

/// The predicate "is of type `t`".
pub open spec fn of_type(t: ClimberType) -> spec_fn(ClimberType) -> bool {
    |c: ClimberType| c == t
}

/// How many climbers of each type are alive.
pub fn live_counts(types: &Vec<ClimberType>) -> (live: PerType<u32>)
    requires
        types@.len() <= u32::MAX,
    ensures
        live.melee == count_of(types@, ClimberType::Melee),
        live.ranged == count_of(types@, ClimberType::Ranged),
        live.healer == count_of(types@, ClimberType::Healer),
{
    let ghost is_m = of_type(ClimberType::Melee);
    let ghost is_r = of_type(ClimberType::Ranged);
    let ghost is_h = of_type(ClimberType::Healer);
    let mut live = PerType { melee: 0u32, ranged: 0u32, healer: 0u32 };
    let n = types.len();
    let mut i: usize = 0;
    while i < n
        invariant
            i <= n,
            n == types@.len(),
            n <= u32::MAX,
            is_m == of_type(ClimberType::Melee),
            is_r == of_type(ClimberType::Ranged),
            is_h == of_type(ClimberType::Healer),
            live.melee == types@.subrange(0, i as int).filter(is_m).len(),
            live.ranged == types@.subrange(0, i as int).filter(is_r).len(),
            live.healer == types@.subrange(0, i as int).filter(is_h).len(),
            live.melee + live.ranged + live.healer == i,
        decreases n - i,
    {
        let t = types[i];
        let ghost before = types@.subrange(0, i as int);
        proof {
            assert(types@.subrange(0, i as int + 1) =~= before.push(t));
            before.lemma_filter_push(t, is_m);
            before.lemma_filter_push(t, is_r);
            before.lemma_filter_push(t, is_h);
        }
        match t {
            ClimberType::Melee => live.melee = live.melee + 1,
            ClimberType::Ranged => live.ranged = live.ranged + 1,
            ClimberType::Healer => live.healer = live.healer + 1,
        }
        i += 1;
    }
    assert(types@.subrange(0, n as int) =~= types@);
    live
}

/// How far `t` sits below its authored share of the live stream, scaled by a
/// positive factor shared by every type (the stream's size times the
/// composition total), so that comparing these compares the shares exactly.
/// An empty stream has every type at a live share of zero.
pub open spec fn scaled_deficit(live: PerType<u32>, composition: PerType<u32>, t: ClimberType) -> int {
    let n = live.melee + live.ranged + live.healer;
    let total = composition.melee + composition.ranged + composition.healer;
    if n > 0 {
        composition.at(t) * n - live.at(t) * total
    } else {
        composition.at(t) as int
    }
}

/// The type furthest below its share; the earlier type in the fixed order
/// wins a tie — an exact tie, since the deficits are compared as integers and
/// not as rounded fractions.
pub open spec fn spec_neediest(live: PerType<u32>, composition: PerType<u32>) -> ClimberType {
    let dm = scaled_deficit(live, composition, ClimberType::Melee);
    let dr = scaled_deficit(live, composition, ClimberType::Ranged);
    let dh = scaled_deficit(live, composition, ClimberType::Healer);
    if dm >= dr && dm >= dh {
        ClimberType::Melee
    } else if dr >= dh {
        ClimberType::Ranged
    } else {
        ClimberType::Healer
    }
}

fn deficit_of(live: &PerType<u32>, composition: &PerType<u32>, t: ClimberType) -> (d: i128)
    ensures
        d == scaled_deficit(*live, *composition, t),
{
    let n: u64 = live.melee as u64 + live.ranged as u64 + live.healer as u64;
    let total: u64 = composition.melee as u64 + composition.ranged as u64 + composition.healer as u64;
    let c: u64 = *composition.get(t) as u64;
    let l: u64 = *live.get(t) as u64;
    if n > 0 {
        assert(c * n <= 0xffff_ffff * 0x2_ffff_fffd) by (nonlinear_arith)
            requires c <= 0xffff_ffff, n <= 0x2_ffff_fffd;
        assert(l * total <= 0xffff_ffff * 0x2_ffff_fffd) by (nonlinear_arith)
            requires l <= 0xffff_ffff, total <= 0x2_ffff_fffd;
        (c as i128) * (n as i128) - (l as i128) * (total as i128)
    } else {
        c as i128
    }
}

/// Whichever type sits furthest below its authored share of the live stream.
pub fn neediest_type(live: &PerType<u32>, composition: &PerType<u32>) -> (t: ClimberType)
    ensures
        t == spec_neediest(*live, *composition),
{
    let dm = deficit_of(live, composition, ClimberType::Melee);
    let dr = deficit_of(live, composition, ClimberType::Ranged);
    let dh = deficit_of(live, composition, ClimberType::Healer);
    let mut best = ClimberType::Melee;
    let mut best_deficit = dm;
    if dr > best_deficit {
        best = ClimberType::Ranged;
        best_deficit = dr;
    }
    if dh > best_deficit {
        best = ClimberType::Healer;
    }
    best
}

/// Which type a replacement slot goes to, or `None` when the neediest type is
/// at its ceiling and the slot is skipped.
pub fn replacement(live: &PerType<u32>, composition: &PerType<u32>, caps: &PerType<u32>) -> (slot: Option<ClimberType>)
    ensures
        ({
            let t = spec_neediest(*live, *composition);
            slot == (if live.at(t) < caps.at(t) { Some(t) } else { None::<ClimberType> })
        }),
{
    let t = neediest_type(live, composition);
    if *live.get(t) >= *caps.get(t) {
        None
    } else {
        Some(t)
    }
}

} // verus!
