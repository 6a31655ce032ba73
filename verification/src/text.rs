//! What the game says, for everything it says in counts.
//!
//! The game speaks in its own terms: floors, ranks and head start, never in
//! machinery. A first launch says nothing at all, and neither does a clean
//! load; everything else that can happen to a save is named.

use vstd::prelude::*;
use crate::save::{RunCounts, Repairs, repair_texts};
use crate::slot::Outcome;
use crate::tower::Floor;

verus! {

/// The character for a decimal digit.
pub open spec fn digit_char(d: u64) -> char {
    if d == 0 { '0' }
    else if d == 1 { '1' }
    else if d == 2 { '2' }
    else if d == 3 { '3' }
    else if d == 4 { '4' }
    else if d == 5 { '5' }
    else if d == 6 { '6' }
    else if d == 7 { '7' }
    else if d == 8 { '8' }
    else { '9' }
}

/// The decimal digits of `v`, most significant first, with no leading zero:
/// how counts are written everywhere the game shows one.
pub open spec fn decimal(v: u64) -> Seq<char>
    decreases v,
{
    if v < 10 {
        seq![digit_char(v)]
    } else {
        decimal(v / 10).push(digit_char(v % 10))
    }
}

/// The text of one decimal digit.
fn digit_text(d: u64) -> (s: &'static str)
    requires
        d < 10,
    ensures
        s@ == seq![digit_char(d)],
{
    proof {
        reveal_strlit("0");
        reveal_strlit("1");
        reveal_strlit("2");
        reveal_strlit("3");
        reveal_strlit("4");
        reveal_strlit("5");
        reveal_strlit("6");
        reveal_strlit("7");
        reveal_strlit("8");
        reveal_strlit("9");
    }
    if d == 0 { "0" }
    else if d == 1 { "1" }
    else if d == 2 { "2" }
    else if d == 3 { "3" }
    else if d == 4 { "4" }
    else if d == 5 { "5" }
    else if d == 6 { "6" }
    else if d == 7 { "7" }
    else if d == 8 { "8" }
    else { "9" }
}

/// `v` in decimal.
pub fn decimal_text(v: u64) -> (s: String)
    ensures
        s@ == decimal(v),
    decreases v,
{
    if v < 10 {
        String::from_str(digit_text(v))
    } else {
        let mut s = decimal_text(v / 10);
        s.append(digit_text(v % 10));
        assert(s@ =~= decimal(v));
        s
    }
}

/// `v` written with at least two digits, zero-padded.
pub open spec fn two_digits(v: u64) -> Seq<char> {
    if v < 10 { "0"@ + decimal(v) } else { decimal(v) }
}

/// How long the player was away, from whole minutes: hours and
/// zero-padded minutes from an hour up, minutes alone below it.
pub open spec fn spec_away_text(mins: u64) -> Seq<char> {
    if mins >= 60 {
        decimal(mins / 60) + "h "@ + two_digits(mins % 60) + "m"@
    } else {
        decimal(mins) + "m"@
    }
}

pub fn away_text(mins: u64) -> (s: String)
    ensures
        s@ == spec_away_text(mins),
{
    proof {
        reveal_strlit("h ");
        reveal_strlit("m");
        reveal_strlit("0");
    }
    if mins >= 60 {
        let mut s = decimal_text(mins / 60);
        s.append("h ");
        let m = mins % 60;
        if m < 10 {
            s.append("0");
        }
        let digits = decimal_text(m);
        s.append(digits.as_str());
        s.append("m");
        assert(s@ =~= spec_away_text(mins));
        s
    } else {
        let mut s = decimal_text(mins);
        s.append("m");
        s
    }
}

/// What the gold from time away buys, counted in ranks and never in gold.
pub open spec fn spec_ranks_text(bought: u64) -> Seq<char> {
    if bought == 0 {
        "not yet a rank"@
    } else if bought == 1 {
        "enough for 1 rank"@
    } else {
        "enough for "@ + decimal(bought) + " ranks"@
    }
}

pub fn ranks_text(bought: u64) -> (s: String)
    ensures
        s@ == spec_ranks_text(bought),
{
    proof {
        reveal_strlit("not yet a rank");
        reveal_strlit("enough for 1 rank");
        reveal_strlit("enough for ");
        reveal_strlit(" ranks");
    }
    if bought == 0 {
        String::from_str("not yet a rank")
    } else if bought == 1 {
        String::from_str("enough for 1 rank")
    } else {
        let mut s = String::from_str("enough for ");
        let digits = decimal_text(bought);
        s.append(digits.as_str());
        s.append(" ranks");
        s
    }
}

/// Before the run passes the account's record, the strip counts down to it.
pub open spec fn spec_record_text(best: Floor, peak: Floor) -> Seq<char> {
    let to_beat: u64 = (if best >= peak { best - peak } else { 0 }) as u64;
    "record "@ + decimal(best as u64) + " - peak "@ + decimal(peak as u64) + " - "@
        + decimal((to_beat + 1) as u64) + " to beat"@
}

pub fn record_text(best: Floor, peak: Floor) -> (s: String)
    ensures
        s@ == spec_record_text(best, peak),
{
    proof {
        reveal_strlit("record ");
        reveal_strlit(" - peak ");
        reveal_strlit(" - ");
        reveal_strlit(" to beat");
    }
    let to_beat: u64 = best.saturating_sub(peak) as u64 + 1;
    let mut s = String::from_str("record ");
    let b = decimal_text(best as u64);
    s.append(b.as_str());
    s.append(" - peak ");
    let p = decimal_text(peak as u64);
    s.append(p.as_str());
    s.append(" - ");
    let n = decimal_text(to_beat);
    s.append(n.as_str());
    s.append(" to beat");
    assert(s@ =~= spec_record_text(best, peak));
    s
}

/// The lock's label while the climb is not yet deep enough to buy it.
pub open spec fn spec_lock_off_text(next_floor: Floor, needed: u32) -> Seq<char> {
    "lock "@ + decimal(next_floor as u64) + " - "@ + decimal(needed as u64) + " floors off"@
}

pub fn lock_off_text(next_floor: Floor, needed: u32) -> (s: String)
    ensures
        s@ == spec_lock_off_text(next_floor, needed),
{
    proof {
        reveal_strlit("lock ");
        reveal_strlit(" - ");
        reveal_strlit(" floors off");
    }
    let mut s = String::from_str("lock ");
    let f = decimal_text(next_floor as u64);
    s.append(f.as_str());
    s.append(" - ");
    let n = decimal_text(needed as u64);
    s.append(n.as_str());
    s.append(" floors off");
    assert(s@ =~= spec_lock_off_text(next_floor, needed));
    s
}

/// "`from` → `to`", the shape every loss is itemised in.
pub open spec fn change(from: Seq<char>, to: Seq<char>) -> Seq<char> {
    from + " → "@ + to
}

/// What prestige destroys among the run's counts, each at its real value and
/// in the order the ledger lists them: the floor reached, the locks, and the
/// three ranks.
pub open spec fn spec_count_losses(run: RunCounts) -> Seq<(Seq<char>, Seq<char>)> {
    seq![
        ("floor reached"@, change(decimal(run.peak as u64), "1"@)),
        ("locks"@, change(decimal(run.lock_level as u64), "0"@)),
        ("melee rank"@, change(decimal(run.ranks.melee as u64), "1"@)),
        ("ranged rank"@, change(decimal(run.ranks.ranged as u64), "1"@)),
        ("healer rank"@, change(decimal(run.ranks.healer as u64), "1"@)),
    ]
}

fn change_text(from: u64, to: &str) -> (s: String)
    ensures
        s@ == change(decimal(from), to@),
{
    proof {
        reveal_strlit(" → ");
    }
    let mut s = decimal_text(from);
    s.append(" → ");
    s.append(to);
    s
}

pub fn count_losses(run: &RunCounts) -> (losses: Vec<(&'static str, String)>)
    ensures
        losses@.len() == 5,
        forall|i: int| 0 <= i < 5 ==> (#[trigger] losses@[i]).0@ == spec_count_losses(*run)[i].0
            && losses@[i].1@ == spec_count_losses(*run)[i].1,
{
    proof {
        reveal_strlit("floor reached");
        reveal_strlit("locks");
        reveal_strlit("melee rank");
        reveal_strlit("ranged rank");
        reveal_strlit("healer rank");
        reveal_strlit("1");
        reveal_strlit("0");
    }
    let mut losses: Vec<(&'static str, String)> = Vec::new();
    losses.push(("floor reached", change_text(run.peak as u64, "1")));
    losses.push(("locks", change_text(run.lock_level as u64, "0")));
    losses.push(("melee rank", change_text(run.ranks.melee as u64, "1")));
    losses.push(("ranged rank", change_text(run.ranks.ranged as u64, "1")));
    losses.push(("healer rank", change_text(run.ranks.healer as u64, "1")));
    losses
}

/// The loss of a stationed hero's post.
pub open spec fn spec_stationed_loss(hero: Seq<char>, floor: Floor) -> Seq<char> {
    hero + " on floor "@ + decimal(floor as u64) + " → unstationed"@
}

pub fn stationed_loss(hero: &str, floor: Floor) -> (s: String)
    ensures
        s@ == spec_stationed_loss(hero@, floor),
{
    proof {
        reveal_strlit(" on floor ");
        reveal_strlit(" → unstationed");
    }
    let mut s = String::from_str(hero);
    s.append(" on floor ");
    let f = decimal_text(floor as u64);
    s.append(f.as_str());
    s.append(" → unstationed");
    assert(s@ =~= spec_stationed_loss(hero@, floor));
    s
}

/// `parts` joined with `sep` between each neighbouring pair.
pub open spec fn joined(parts: Seq<Seq<char>>, sep: Seq<char>) -> Seq<char>
    decreases parts.len(),
{
    if parts.len() == 0 {
        Seq::empty()
    } else if parts.len() == 1 {
        parts[0]
    } else {
        joined(parts.drop_last(), sep) + sep + parts.last()
    }
}

fn join_repairs(repairs: &Repairs) -> (s: String)
    ensures
        s@ == joined(repair_texts(repairs.0@), "; "@),
{
    proof {
        reveal_strlit("; ");
    }
    let mut s = String::new();
    let n = repairs.0.len();
    let mut i: usize = 0;
    while i < n
        invariant
            i <= n,
            n == repairs.0@.len(),
            s@ == joined(repair_texts(repairs.0@).subrange(0, i as int), "; "@),
        decreases n - i,
    {
        let ghost texts = repair_texts(repairs.0@);
        assert(texts.subrange(0, i as int + 1).drop_last() =~= texts.subrange(0, i as int));
        if i > 0 {
            s.append("; ");
        } else {
            assert(s@ =~= Seq::<char>::empty());
        }
        s.append(repairs.0[i].as_str());
        assert(texts.subrange(0, i as int + 1).last() == repairs.0@[i as int]@);
        if i == 0 {
            assert(s@ =~= texts.subrange(0, 1)[0]);
        }
        i += 1;
    }
    assert(repair_texts(repairs.0@).subrange(0, n as int) =~= repair_texts(repairs.0@));
    s
}

/// What the player is told after a load, in the game's own terms, or nothing.
/// `head_start` is the head start in whole floors as already written out; it
/// is only read when the backup was restored.
pub open spec fn spec_notice(outcome: Outcome, repairs: Seq<Seq<char>>, peak: Floor, head_start: Seq<char>) -> Option<Seq<char>> {
    match outcome {
        Outcome::FreshStart => None,
        Outcome::Restored => if repairs.len() == 0 {
            None
        } else {
            Some("Your save needed repairing before it could be loaded: "@ + joined(repairs, "; "@) + "."@)
        },
        Outcome::RestoredFromBackup => Some(
            "Your save could not be read, so you have been restored to your last session: floor "@
                + decimal(peak as u64) + ", head start "@ + head_start + " floors."@,
        ),
        Outcome::Lost => Some(
            "Your save could not be read and there was no backup behind it, so this is a new tower. The unreadable file has been kept."@,
        ),
        Outcome::RefusedNewerVersion { found, known } => Some(
            "This save was written by a newer version of the game (save "@ + decimal(found as u64)
                + ", this build reads "@ + decimal(known as u64)
                + "). It has not been loaded and nothing will be written over it. Update the game to continue."@,
        ),
    }
}

pub fn notice(outcome: Outcome, repairs: &Repairs, peak: Floor, head_start: &str) -> (n: Option<String>)
    ensures
        match (n, spec_notice(outcome, repair_texts(repairs.0@), peak, head_start@)) {
            (Some(s), Some(t)) => s@ == t,
            (None, None) => true,
            _ => false,
        },
{
    proof {
        reveal_strlit("Your save needed repairing before it could be loaded: ");
        reveal_strlit(".");
        reveal_strlit("Your save could not be read, so you have been restored to your last session: floor ");
        reveal_strlit(", head start ");
        reveal_strlit(" floors.");
        reveal_strlit("Your save could not be read and there was no backup behind it, so this is a new tower. The unreadable file has been kept.");
        reveal_strlit("This save was written by a newer version of the game (save ");
        reveal_strlit(", this build reads ");
        reveal_strlit("). It has not been loaded and nothing will be written over it. Update the game to continue.");
    }
    match outcome {
        Outcome::FreshStart => None,
        Outcome::Restored => {
            if repairs.is_empty() {
                None
            } else {
                let mut s = String::from_str("Your save needed repairing before it could be loaded: ");
                let j = join_repairs(repairs);
                s.append(j.as_str());
                s.append(".");
                Some(s)
            }
        },
        Outcome::RestoredFromBackup => {
            let mut s = String::from_str(
                "Your save could not be read, so you have been restored to your last session: floor ",
            );
            let p = decimal_text(peak as u64);
            s.append(p.as_str());
            s.append(", head start ");
            s.append(head_start);
            s.append(" floors.");
            Some(s)
        },
        Outcome::Lost => Some(
            String::from_str(
                "Your save could not be read and there was no backup behind it, so this is a new tower. The unreadable file has been kept.",
            ),
        ),
        Outcome::RefusedNewerVersion { found, known } => {
            let mut s = String::from_str("This save was written by a newer version of the game (save ");
            let f = decimal_text(found as u64);
            s.append(f.as_str());
            s.append(", this build reads ");
            let k = decimal_text(known as u64);
            s.append(k.as_str());
            s.append(
                "). It has not been loaded and nothing will be written over it. Update the game to continue.",
            );
            Some(s)
        },
    }
}

} // verus!
