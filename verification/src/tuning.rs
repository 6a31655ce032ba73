//! The settled choices a tuning file can make that are not numbers.
//!
//! The numbers themselves are the economy's curves and stay with it; what is
//! here is the closed vocabulary they are chosen from, the checks on the
//! settings that are counts, and the error a bad file is reported with.

use vstd::prelude::*;
use crate::types::PerType;

verus! {

/// How the healer chooses what to mend.
#[derive(Debug, Clone, Copy, PartialEq, Eq, Structural)]
pub enum HealPolicy {
    /// Every wounded unit in radius at once. Rejected as the default.
    Aura,
    /// The whole rate onto whoever is furthest from full, proportionally.
    LowestFraction,
    /// The whole rate onto whoever has the fewest points left.
    LowestAbsolute,
    /// The whole rate onto the nearest, breaking ties by lowest fraction.
    Nearest,
}

impl Default for HealPolicy {
    fn default() -> (p: Self)
        ensures
            p == HealPolicy::LowestFraction,
    {
        HealPolicy::LowestFraction
    }
}

/// How one prestige's earned multiplier becomes the account's cumulative one.
#[derive(Debug, Clone, Copy, PartialEq, Eq, Structural)]
pub enum PrestigeMode {
    /// Each run's multiplier multiplies the last.
    Compound,
    /// A function of best-ever peak, which does not compound. Kept only so
    /// the dead end stays reproducible.
    BestPeak,
}

impl Default for PrestigeMode {
    fn default() -> (m: Self)
        ensures
            m == PrestigeMode::Compound,
    {
        PrestigeMode::Compound
    }
}

/// Which floors a run's earned multiplier is paid for.
#[derive(Debug, Clone, Copy, PartialEq, Eq, Structural)]
pub enum PrestigeBasis {
    /// Only the floors beyond the account's deepest-ever floor: re-conquered
    /// ground is worth nothing.
    BeyondBest,
    /// The run's whole peak. The rule before new territory was paid for alone.
    Peak,
}

impl Default for PrestigeBasis {
    fn default() -> (b: Self)
        ensures
            b == PrestigeBasis::BeyondBest,
    {
        PrestigeBasis::BeyondBest
    }
}

/// What is wrong with a tuning file, in terms a human can act on.
#[derive(Debug, Clone, PartialEq, Eq)]
pub struct TuningError(pub String);

/// A pack of zero enemies would make every floor free.
pub open spec fn pack_problem_text() -> Seq<char> {
    "pack_size must be >= 1"@
}

/// A composition of all zeros would never spawn anything.
pub open spec fn composition_problem_text() -> Seq<char> {
    "composition is all zero \u{2014} the stream would never spawn"@
}

/// What is wrong with the pack size, if anything: it must be at least one.
pub fn pack_problem(pack_size: u32) -> (problem: Option<String>)
    ensures
        problem is None <==> pack_size >= 1,
        problem matches Some(m) ==> m@ == pack_problem_text(),
{
    if pack_size == 0 {
        proof {
            reveal_strlit("pack_size must be >= 1");
        }
        Some(String::from_str("pack_size must be >= 1"))
    } else {
        None
    }
}

/// What is wrong with the composition, if anything: some type must have a
/// share, or the stream would never spawn.
pub fn composition_problem(composition: &PerType<u32>) -> (problem: Option<String>)
    ensures
        problem is None <==> (composition.melee != 0 || composition.ranged != 0 || composition.healer != 0),
        problem matches Some(m) ==> m@ == composition_problem_text(),
{
    if composition.melee == 0 && composition.ranged == 0 && composition.healer == 0 {
        proof {
            reveal_strlit("composition is all zero \u{2014} the stream would never spawn");
        }
        Some(String::from_str("composition is all zero \u{2014} the stream would never spawn"))
    } else {
        None
    }
}

} // verus!
