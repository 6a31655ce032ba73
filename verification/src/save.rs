//! What prestige keeps and clears, and what load-time validation may change,
//! for the parts of the save that are counts rather than quantities.
//!
//! The save holds two tiers: the **account**, which outlives a prestige, and
//! the **run**, which prestige clears to its default. The account's record —
//! its deepest-ever floor — is what a run's earned multiplier is measured
//! against, so that re-conquered ground is worth nothing.
//!
//! Validation follows one rule: no code path may reduce what the save records
//! the player as having. A count below the floor of its own type is raised to
//! that floor; nothing is ever lowered.

use vstd::prelude::*;
use crate::tower::Floor;
use crate::tuning::PrestigeBasis;
use crate::types::{ClimberType, PerType, spec_type_label};

verus! {

/// Bumped only for what defaults cannot express: renames, and fields whose
/// meaning changed while their type did not.
pub const SCHEMA_VERSION: u32 = 1;

/// The one hero the slice ships.
pub const SLICE_HERO: &'static str = "tank";

/// One of the moments the game explains exactly once. Open data: a save may
/// name moments this build has never heard of.
#[derive(Debug, Clone, PartialEq, Eq, PartialOrd, Ord)]
pub struct MomentId(pub String);

impl MomentId {
    /// The project's one tutorial: the first prestige is the only moment with
    /// no baseline to compare against.
    pub fn first_prestige() -> (m: Self)
        ensures
            m.0@ == "first-prestige"@,
    {
        proof {
            reveal_strlit("first-prestige");
        }
        MomentId(String::from_str("first-prestige"))
    }

    pub fn first_relic() -> (m: Self)
        ensures
            m.0@ == "first-relic"@,
    {
        proof {
            reveal_strlit("first-relic");
        }
        MomentId(String::from_str("first-relic"))
    }

    pub fn first_wall() -> (m: Self)
        ensures
            m.0@ == "first-wall"@,
    {
        proof {
            reveal_strlit("first-wall");
        }
        MomentId(String::from_str("first-wall"))
    }

    pub fn first_offline_return() -> (m: Self)
        ensures
            m.0@ == "first-offline-return"@,
    {
        proof {
            reveal_strlit("first-offline-return");
        }
        MomentId(String::from_str("first-offline-return"))
    }
}

/// Just enough of a save to decide what to do with it.
#[derive(Debug, Clone, Copy, PartialEq, Eq, Structural)]
pub struct VersionProbe {
    pub version: u32,
}

impl VersionProbe {
    /// Whether the save was written by a build newer than this one.
    pub fn is_newer(&self) -> (b: bool)
        ensures
            b == (self.version > SCHEMA_VERSION),
    {
        self.version > SCHEMA_VERSION
    }
}

/// What load-time validation had to change, so the game can say which.
#[derive(Debug, Clone, PartialEq, Eq)]
pub struct Repairs(pub Vec<String>);

/// The repairs as text.
pub open spec fn repair_texts(r: Seq<String>) -> Seq<Seq<char>> {
    r.map_values(|s: String| s@)
}

impl Default for Repairs {
    /// Nothing repaired.
    fn default() -> (r: Self)
        ensures
            r.0@.len() == 0,
    {
        Repairs(Vec::new())
    }
}

impl Repairs {
    pub fn is_empty(&self) -> (b: bool)
        ensures
            b == (self.0@.len() == 0),
    {
        self.0.len() == 0
    }
}

/// A save that could be parsed but not trusted.
#[derive(Debug, Clone, PartialEq, Eq)]
pub struct Untrustworthy(pub String);

/// The floors a run is paid for.
pub open spec fn spec_new_territory(basis: PrestigeBasis, peak: Floor, best_peak: Floor) -> Floor {
    match basis {
        PrestigeBasis::BeyondBest => if peak >= best_peak { (peak - best_peak) as Floor } else { 0 },
        PrestigeBasis::Peak => peak,
    }
}

/// The floors a run is paid for: under [`PrestigeBasis::BeyondBest`] only the
/// peak beyond the account's deepest-ever floor, so a run that never passes
/// the record is paid for nothing.
pub fn new_territory(basis: PrestigeBasis, peak: Floor, best_peak: Floor) -> (f: Floor)
    ensures
        f == spec_new_territory(basis, peak, best_peak),
{
    match basis {
        PrestigeBasis::BeyondBest => peak.saturating_sub(best_peak),
        PrestigeBasis::Peak => peak,
    }
}

/// The account's standing as counts: its record and how many times it has
/// prestiged. Everything else the account owns is untouched by prestige.
#[derive(Debug, Clone, Copy, PartialEq, Eq, Structural)]
pub struct Standing {
    /// The deepest floor any run of this account has reached.
    pub best_peak: Floor,
    pub prestige_count: u32,
}

/// What a run holds as counts, and what prestige resets them to.
#[derive(Debug, Clone, Copy, PartialEq, Eq, Structural)]
pub struct RunCounts {
    /// Peak floor this run — what prestige scores.
    pub peak: Floor,
    /// The count of locks bought; the lock line is derived from it.
    pub lock_level: u32,
    pub ranks: PerType<u32>,
}

/// A fresh run: floor 1, no locks, every type at rank 1.
pub open spec fn fresh_run() -> RunCounts {
    RunCounts { peak: 1, lock_level: 0, ranks: PerType { melee: 1u32, ranged: 1u32, healer: 1u32 } }
}

/// The account after a run that reached `peak` ends: the record takes the
/// run's peak if it is deeper, and one more prestige is counted.
pub open spec fn after_prestige(s: Standing, peak: Floor) -> Standing {
    Standing {
        best_peak: if peak > s.best_peak { peak } else { s.best_peak },
        prestige_count: (s.prestige_count + 1) as u32,
    }
}

impl RunCounts {
    pub fn fresh() -> (r: Self)
        ensures
            r == fresh_run(),
    {
        RunCounts { peak: 1, lock_level: 0, ranks: PerType { melee: 1, ranged: 1, healer: 1 } }
    }
}

impl Standing {
    /// A fresh account: no record, never prestiged.
    pub fn fresh() -> (s: Self)
        ensures
            s.best_peak == 0,
            s.prestige_count == 0,
    {
        Standing { best_peak: 0, prestige_count: 0 }
    }

    /// Ends the run, keeping the account. Returns the floors the run is paid
    /// for, measured against the record *before* this run is folded into it;
    /// the run's counts go back to a fresh run's.
    pub fn prestige(&mut self, run: &mut RunCounts, basis: PrestigeBasis) -> (paid: Floor)
        requires
            old(self).prestige_count < u32::MAX,
        ensures
            paid == spec_new_territory(basis, old(run).peak, old(self).best_peak),
            *final(self) == after_prestige(*old(self), old(run).peak),
            *final(run) == fresh_run(),
            final(self).best_peak >= old(self).best_peak,
            final(self).best_peak >= old(run).peak,
            final(self).best_peak == old(self).best_peak || final(self).best_peak == old(run).peak,
            final(self).prestige_count == old(self).prestige_count + 1,
    {
        let peak = run.peak;
        let paid = new_territory(basis, peak, self.best_peak);
        if peak > self.best_peak {
            self.best_peak = peak;
        }
        self.prestige_count = self.prestige_count + 1;
        *run = RunCounts::fresh();
        paid
    }
}

/// The message recording that a type's rank was raised.
pub open spec fn rank_repair(t: ClimberType) -> Seq<char> {
    spec_type_label(t) + " rank was 0, raised to 1"@
}

/// The message recording that the peak floor was raised.
pub open spec fn peak_repair() -> Seq<char> {
    "peak floor was 0, raised to 1"@
}

/// A count raised to `floor` if it is below it.
pub open spec fn at_least(v: u32, floor: u32) -> u32 {
    if v < floor { floor } else { v }
}

/// A run's counts after validation.
pub open spec fn raised_counts(run: RunCounts) -> RunCounts {
    RunCounts {
        peak: at_least(run.peak, 1),
        lock_level: run.lock_level,
        ranks: PerType {
            melee: at_least(run.ranks.melee, 1),
            ranged: at_least(run.ranks.ranged, 1),
            healer: at_least(run.ranks.healer, 1),
        },
    }
}

/// The messages raising these counts produces, in the order they are made.
pub open spec fn count_repairs(ranks: PerType<u32>, peak: Floor) -> Seq<Seq<char>> {
    (if ranks.melee < 1 { seq![rank_repair(ClimberType::Melee)] } else { Seq::empty() })
        + (if ranks.ranged < 1 { seq![rank_repair(ClimberType::Ranged)] } else { Seq::empty() })
        + (if ranks.healer < 1 { seq![rank_repair(ClimberType::Healer)] } else { Seq::empty() })
        + (if peak < 1 { seq![peak_repair()] } else { Seq::empty() })
}

fn raise_rank(rank: &mut u32, t: ClimberType, repairs: &mut Repairs)
    ensures
        *final(rank) == (if *old(rank) < 1 { 1 } else { *old(rank) }),
        repair_texts(final(repairs).0@) == repair_texts(old(repairs).0@)
            + (if *old(rank) < 1 { seq![rank_repair(t)] } else { Seq::empty() }),
{
    if *rank < 1 {
        proof {
            reveal_strlit(" rank was 0, raised to 1");
        }
        let mut m = String::from_str(t.name());
        m.append(" rank was 0, raised to 1");
        let ghost before = repairs.0@;
        repairs.0.push(m);
        assert(repair_texts(repairs.0@) =~= repair_texts(before).push(rank_repair(t)));
        *rank = 1;
    } else {
        assert(repair_texts(repairs.0@) =~= repair_texts(repairs.0@) + Seq::<Seq<char>>::empty());
    }
}

/// Raises every count below the floor of its own type to that floor, and
/// records each raise. A rank below 1 becomes 1, a peak below 1 becomes 1,
/// and the account's record is brought up to this run's peak — a record
/// behind the run would let a milestone already granted be granted again.
/// Nothing is ever lowered.
pub fn raise_counts(run: &mut RunCounts, best_peak: &mut Floor, repairs: &mut Repairs)
    ensures
        *final(run) == raised_counts(*old(run)),
        *final(best_peak) == at_least(*old(best_peak), final(run).peak),
        repair_texts(final(repairs).0@) == repair_texts(old(repairs).0@) + count_repairs(old(run).ranks, old(run).peak),
{
    let ghost r0 = repair_texts(repairs.0@);
    let ghost ranks0 = run.ranks;
    let ghost peak0 = run.peak;
    raise_rank(&mut run.ranks.melee, ClimberType::Melee, repairs);
    raise_rank(&mut run.ranks.ranged, ClimberType::Ranged, repairs);
    raise_rank(&mut run.ranks.healer, ClimberType::Healer, repairs);
    if run.peak < 1 {
        proof {
            reveal_strlit("peak floor was 0, raised to 1");
        }
        let ghost before = repairs.0@;
        repairs.0.push(String::from_str("peak floor was 0, raised to 1"));
        assert(repair_texts(repairs.0@) =~= repair_texts(before).push(peak_repair()));
        run.peak = 1;
    }
    if *best_peak < run.peak {
        *best_peak = run.peak;
    }
    assert(repair_texts(repairs.0@) =~= r0 + count_repairs(ranks0, peak0));
}

} // verus!
