//! What the game owes for time spent away: the best rate for the time away,
//! up to a cap, and gold only — the climb does not advance while away.
//!
//! The time itself is wall-clock milliseconds and is clamped rather than
//! trusted: a clock that jumps backwards pays for nothing instead of a
//! negative stretch, and one that jumps forward a century is paid only up to
//! the cap.

use vstd::prelude::*;

verus! {

/// The time away and the part of it that is paid for.
#[derive(Debug, Clone, Copy, PartialEq, Eq, Structural)]
pub struct AwayTime {
    /// Real time away, before the cap. Zero if the clock went backwards.
    pub elapsed_millis: u64,
    /// Time actually paid for.
    pub paid_millis: u64,
    /// Whether the cap cut the time away short.
    pub capped: bool,
}

/// The time away measured from the save's stamp to `now`, and what of it is
/// paid for.
pub open spec fn spec_away_time(written_at: u64, now: u64, cap_millis: u64) -> AwayTime {
    let elapsed: u64 = if now >= written_at { (now - written_at) as u64 } else { 0 };
    AwayTime {
        elapsed_millis: elapsed,
        paid_millis: if elapsed <= cap_millis { elapsed } else { cap_millis },
        capped: elapsed > cap_millis,
    }
}

/// Measures the time away from a save written at `written_at` to `now`,
/// clamped to `0..=cap_millis`.
pub fn away_time(written_at: u64, now: u64, cap_millis: u64) -> (a: AwayTime)
    ensures
        a == spec_away_time(written_at, now, cap_millis),
{
    let elapsed = now.saturating_sub(written_at);
    let paid = if elapsed <= cap_millis { elapsed } else { cap_millis };
    AwayTime { elapsed_millis: elapsed, paid_millis: paid, capped: elapsed > cap_millis }
}

} // verus!
