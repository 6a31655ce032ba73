//! What holds of the rules as a whole, across calls and states.

use vstd::prelude::*;
use crate::offline::spec_away_time;
use crate::rest::{Asleep, Happening, after, after_all, owed, owed_by, slept, wakes_from_away};
use crate::save::{
    Standing, RunCounts, after_prestige, raised_counts, count_repairs, spec_new_territory,
};
use crate::slot::{
    BackupFile, LoadPlan, Outcome, PrimaryFile, SlotCall, armed_after, armed_after_call, backup_usable,
    disarming_load_stands, disarms, newer, spec_plan,
};
use crate::tower::{
    Floor, has_enemies, spec_fought_floors, spec_lock_line,
    spec_next_lock_floor, lemma_first_occurrences,
};
use crate::tuning::PrestigeBasis;
use crate::sweep::{swept, sweep_before, sweep_takes, lemma_sweep_has_one_result};
use crate::heal::{heal_keep, reach_low};
use crate::tower::hero_target_ok;
use crate::save::SCHEMA_VERSION;
use crate::text::spec_notice;

verus! {

/// Buying the next lock raises the lock level by exactly one, and the lock
/// line by exactly ten floors (eleven for the first, which lifts the line off
/// floor 0): the floor it seals, divided into lock intervals, is the new level.
pub proof fn law_a_lock_raises_the_line_one_interval(lock_level: nat)
    ensures
        spec_next_lock_floor(lock_level as int) / 10 == lock_level + 1,
        spec_lock_line(lock_level as int + 1) == (if lock_level == 0 { 11 } else {
            spec_lock_line(lock_level as int) + 10
        }),
        spec_lock_line(lock_level as int) < spec_next_lock_floor(lock_level as int),
{
}

/// A run that never passes the account's record is paid for nothing, so a
/// prestige inside the record leaves the record where it was.
pub proof fn law_reconquered_ground_earns_nothing(s: Standing, peak: Floor)
    requires
        peak <= s.best_peak,
    ensures
        spec_new_territory(PrestigeBasis::BeyondBest, peak, s.best_peak) == 0,
        after_prestige(s, peak).best_peak == s.best_peak,
{
}

/// A fresh account — no record yet — is paid the same under either basis, so
/// every early-game number stands.
pub proof fn law_a_fresh_account_is_unaffected_by_the_basis(peak: Floor)
    ensures
        spec_new_territory(PrestigeBasis::BeyondBest, peak, 0) == spec_new_territory(PrestigeBasis::Peak, peak, 0),
{
}

/// Prestige keeps the peak it scored: the record afterwards is at least the
/// run's peak and never below the record before.
pub proof fn law_the_record_never_falls(s: Standing, peak: Floor)
    ensures
        after_prestige(s, peak).best_peak >= s.best_peak,
        after_prestige(s, peak).best_peak >= peak,
{
}

/// Validation raises but never reduces, and validating what it produced
/// changes nothing further and reports nothing.
pub proof fn law_validation_raises_but_never_reduces(r: RunCounts)
    ensures
        raised_counts(r).peak >= r.peak,
        raised_counts(r).lock_level == r.lock_level,
        raised_counts(r).ranks.melee >= r.ranks.melee,
        raised_counts(r).ranks.ranged >= r.ranks.ranged,
        raised_counts(r).ranks.healer >= r.ranks.healer,
        raised_counts(raised_counts(r)) == raised_counts(r),
        count_repairs(raised_counts(r).ranks, raised_counts(r).peak).len() == 0,
{
    assert(count_repairs(raised_counts(r).ranks, raised_counts(r).peak) =~= Seq::<Seq<char>>::empty());
}

/// Offline gold pays for at most the cap and at most the real time away; a
/// clock that jumps backwards pays for nothing rather than for a negative
/// stretch; and the grant is capped exactly when the cap cut something off.
pub proof fn law_away_time_is_clamped(written_at: u64, now: u64, cap_millis: u64)
    ensures
        spec_away_time(written_at, now, cap_millis).paid_millis <= cap_millis,
        spec_away_time(written_at, now, cap_millis).paid_millis <= spec_away_time(written_at, now, cap_millis).elapsed_millis,
        now <= written_at ==> spec_away_time(written_at, now, cap_millis).paid_millis == 0,
        spec_away_time(written_at, now, cap_millis).capped
            <==> spec_away_time(written_at, now, cap_millis).paid_millis < spec_away_time(written_at, now, cap_millis).elapsed_millis,
{
}

/// A first launch — no save and no usable backup — is a fresh start: nothing
/// is restored, nothing is moved, and writes stay armed.
pub proof fn law_a_first_launch_is_a_fresh_start(b: BackupFile)
    requires
        !backup_usable(b),
    ensures
        spec_plan(PrimaryFile::Missing, b) == (LoadPlan {
            outcome: Outcome::FreshStart,
            rotate_backup: false,
            quarantine_primary: false,
        }),
        !disarms(PrimaryFile::Missing),
{
}

/// A missing primary behind a good backup is not a first launch: the backup
/// is restored.
pub proof fn law_a_missing_primary_falls_back_to_the_backup(b: BackupFile)
    requires
        backup_usable(b),
    ensures
        spec_plan(PrimaryFile::Missing, b).outcome == Outcome::RestoredFromBackup,
{
}

/// A save from a newer build is refused, disarms writes, and is neither
/// rotated into the backup nor moved aside: the file is left exactly as it is.
pub proof fn law_a_newer_save_disarms_every_write(probed: Option<u32>, parses: bool, b: BackupFile)
    requires
        newer(probed),
    ensures
        disarms(PrimaryFile::Read { probed, parses }),
        spec_plan(PrimaryFile::Read { probed, parses }, b).outcome is RefusedNewerVersion,
        !spec_plan(PrimaryFile::Read { probed, parses }, b).rotate_backup,
        !spec_plan(PrimaryFile::Read { probed, parses }, b).quarantine_primary,
{
}

/// The backup rotates only from a primary that was just proven to parse — so
/// never on a write, and never from a corrupt or newer file.
pub proof fn law_the_backup_rotates_only_from_a_good_primary(p: PrimaryFile, b: BackupFile)
    ensures
        spec_plan(p, b).rotate_backup ==> (p matches PrimaryFile::Read { probed, parses } && parses && !newer(probed)),
        spec_plan(p, b).rotate_backup <==> spec_plan(p, b).outcome == Outcome::Restored,
{
}

/// A present but corrupt save is quarantined, never rotated, and the backup
/// restored if it can be.
pub proof fn law_a_corrupt_save_is_quarantined(probed: Option<u32>, b: BackupFile)
    requires
        !newer(probed),
    ensures
        spec_plan(PrimaryFile::Read { probed, parses: false }, b).quarantine_primary,
        !spec_plan(PrimaryFile::Read { probed, parses: false }, b).rotate_backup,
        spec_plan(PrimaryFile::Read { probed, parses: false }, b).outcome
            == (if backup_usable(b) { Outcome::RestoredFromBackup } else { Outcome::Lost }),
{
}

/// Each floor is fought at most once a tick, every contested floor a climber
/// stands on is fought, and no other floor is — apart from the living hero's
/// target.
pub proof fn law_every_contested_floor_is_fought_once(
    climber_floors: Seq<Floor>,
    counts: Map<Floor, u32>,
    hero_alive: bool,
    hero_target: Floor,
)
    ensures
        spec_fought_floors(climber_floors, counts, hero_alive, hero_target).no_duplicates(),
        forall|f: Floor| #[trigger] spec_fought_floors(climber_floors, counts, hero_alive, hero_target).contains(f)
            <==> ((climber_floors.contains(f) && has_enemies(counts, f)) || (hero_alive && f == hero_target)),
{
    let pred = |f: Floor| has_enemies(counts, f);
    let contested = climber_floors.filter(pred);
    let all = if hero_alive { contested.push(hero_target) } else { contested };
    lemma_first_occurrences(all);
    broadcast use vstd::seq_lib::group_filter_ensures;
    assert forall|f: Floor| #[trigger] all.contains(f)
        <==> ((climber_floors.contains(f) && has_enemies(counts, f)) || (hero_alive && f == hero_target)) by {
        if climber_floors.contains(f) && has_enemies(counts, f) {
            let i = choose|i: int| 0 <= i < climber_floors.len() && climber_floors[i] == f;
            assert(contested.contains(climber_floors[i]));
            let j = choose|j: int| 0 <= j < contested.len() && contested[j] == f;
            assert(all[j] == f);
        }
        if hero_alive && f == hero_target {
            assert(all[all.len() - 1] == f);
        }
        if all.contains(f) {
            let j = choose|j: int| 0 <= j < all.len() && all[j] == f;
            if j < contested.len() {
                assert(contested[j] == f);
                assert(pred(contested[j]));
                climber_floors.lemma_filter_contains_rev(pred, f);
            }
        }
    }
}

/// A first launch says nothing, and neither does a clean load; every other
/// way a load can go — repairs, a restore from the backup, a lost save, a
/// save from a newer build — is told to the player.
pub proof fn law_only_a_clean_load_is_silent(outcome: Outcome, repairs: Seq<Seq<char>>, peak: Floor, head_start: Seq<char>)
    ensures
        spec_notice(outcome, repairs, peak, head_start) is None
            <==> (outcome == Outcome::FreshStart || (outcome == Outcome::Restored && repairs.len() == 0)),
{
}

/// Putting the world down is idempotent: when focus loss and suspend both
/// arrive, the first wins and the time away is measured from it. Time spent
/// reading the ledger is not time away and pays nothing; time away pays from
/// the moment the world stopped.
pub proof fn law_the_first_sleep_wins(why: Asleep, at: u64, then: Asleep, later: u64)
    ensures
        slept(slept(None, why, at), then, later) == Some((why, at)),
        owed(slept(None, Asleep::Deciding, at)) is None,
        owed(slept(None, Asleep::Away, at)) == Some(at),
        owed(slept(slept(None, Asleep::Away, at), then, later)) == Some(at),
{
}

/// Cutting a sweep short keeps its front: what a limited sweep takes is
/// exactly the first units of the full sweep, as many as the limit allows.
/// So the column, short of sprite slots, drops the back of the climb and never
/// the front.
pub proof fn law_a_cut_sweep_keeps_the_front(
    floors: Seq<Floor>,
    keep: Seq<bool>,
    lo: Floor,
    hi: Floor,
    descending: bool,
    limit: usize,
    cut: Seq<usize>,
    full: Seq<usize>,
)
    requires
        floors.len() <= usize::MAX,
        swept(floors, keep, lo, hi, descending, Some(limit), cut),
        swept(floors, keep, lo, hi, descending, None, full),
    ensures
        cut == full.take(if full.len() <= limit { full.len() as int } else { limit as int }),
{
    let m: int = if full.len() <= limit { full.len() as int } else { limit as int };
    let front = full.take(m);
    assert forall|k: int|
        sweep_takes(floors, keep, lo, hi, k) && !(#[trigger] front.contains(k as usize)) implies {
            &&& Some(limit) matches Some(l) && front.len() == l
            &&& forall|p: int| 0 <= p < front.len() ==> sweep_before(floors, descending, #[trigger] front[p] as int, k)
        } by {
        if !full.contains(k as usize) {
            assert(false);
        }
        let r = choose|r: int| 0 <= r < full.len() && full[r] == k as usize;
        if r < m {
            assert(front[r] == k as usize);
            assert(front.contains(k as usize));
        }
        assert(r >= m);
        assert forall|p: int| 0 <= p < front.len() implies sweep_before(floors, descending, #[trigger] front[p] as int, k) by {
            assert(front[p] == full[p]);
            assert(sweep_before(floors, descending, full[p] as int, full[r] as int));
        }
    }
    lemma_sweep_has_one_result(floors, keep, lo, hi, descending, Some(limit), cut, front);
}

/// Activation churn nets out to the change in the active set: floors that
/// became active, less floors that stopped being, is how much the active set
/// grew.
pub proof fn law_churn_nets_to_the_change_in_active_floors(prev: Set<Floor>, act: Set<Floor>)
    requires
        prev.finite(),
        act.finite(),
    ensures
        act.difference(prev).len() - prev.difference(act).len() == act.len() - prev.len(),
{
    vstd::set_lib::lemma_set_difference_len(act, prev);
    vstd::set_lib::lemma_set_difference_len(prev, act);
    assert(act.intersect(prev) =~= prev.intersect(act));
}

/// A disarming load that stands before the last call still stands after it,
/// unless that call starts over.
proof fn lemma_stands_past_a_non_start_over(calls: Seq<SlotCall>, i: int)
    requires
        calls.len() > 0,
        disarming_load_stands(calls.drop_last(), i),
        !(calls.last() is StartOver),
    ensures
        disarming_load_stands(calls, i),
{
    let rest = calls.drop_last();
    assert(calls[i] == rest[i]);
    assert forall|j: int| i < j < calls.len() implies !(#[trigger] calls[j] is StartOver) by {
        if j < calls.len() - 1 {
            assert(calls[j] == rest[j]);
        }
    }
}

/// Writes on a slot are disarmed exactly when some load since the slot was
/// made, and since the player last chose to start over, found a save from a
/// newer build or a save that was there but could not be read. Writes never
/// change it; only starting over re-arms.
pub proof fn law_writes_are_disarmed_exactly_by_a_standing_bad_load(calls: Seq<SlotCall>)
    ensures
        !armed_after(calls) <==> exists|i: int| disarming_load_stands(calls, i),
    decreases calls.len(),
{
    if calls.len() > 0 {
        let rest = calls.drop_last();
        let last = calls.last();
        law_writes_are_disarmed_exactly_by_a_standing_bad_load(rest);
        if exists|i: int| disarming_load_stands(calls, i) {
            let i = choose|i: int| disarming_load_stands(calls, i);
            if i < calls.len() - 1 {
                assert(!(last is StartOver)) by {
                    assert(calls[calls.len() - 1] == last);
                }
                assert(disarming_load_stands(rest, i)) by {
                    assert forall|j: int| i < j < rest.len() implies !(#[trigger] rest[j] is StartOver) by {
                        assert(rest[j] == calls[j]);
                    }
                }
            }
        }
        if !armed_after(calls) {
            match last {
                SlotCall::Load(p) => {
                    if disarms(p) {
                        assert(disarming_load_stands(calls, calls.len() - 1));
                    } else {
                        let i = choose|i: int| disarming_load_stands(rest, i);
                        lemma_stands_past_a_non_start_over(calls, i);
                    }
                },
                SlotCall::Write(_) => {
                    let i = choose|i: int| disarming_load_stands(rest, i);
                    lemma_stands_past_a_non_start_over(calls, i);
                },
                SlotCall::StartOver => {},
            }
        }
    }
}

/// Each call's step on the flag is what the slot's methods state: a load
/// keeps it armed only if it was armed and the primary does not disarm, a
/// write leaves it alone, and starting over arms it.
pub proof fn law_each_call_steps_the_flag_as_the_slot_does(armed: bool, p: PrimaryFile, t: crate::slot::Trigger)
    ensures
        armed_after_call(armed, SlotCall::Load(p)) == (armed && !disarms(p)),
        armed_after_call(armed, SlotCall::Write(t)) == armed,
        armed_after_call(armed, SlotCall::StartOver),
        armed_after(Seq::<SlotCall>::empty()),
{
}

/// Taking happenings in two runs is taking them in one.
proof fn lemma_after_all_splits(
    st: Option<(Asleep, u64)>,
    a: Seq<(Happening, u64)>,
    b: Seq<(Happening, u64)>,
)
    ensures
        after_all(st, a + b) == after_all(after_all(st, a), b),
    decreases b.len(),
{
    if b.len() > 0 {
        lemma_after_all_splits(st, a, b.drop_last());
        assert((a + b).drop_last() =~= a + b.drop_last());
        assert((a + b).last() == b.last());
    }
}

/// Away stays away, from the same moment, through anything that does not
/// wake it.
proof fn lemma_away_holds(t: u64, later: Seq<(Happening, u64)>)
    requires
        forall|i: int| 0 <= i < later.len() ==> !wakes_from_away(#[trigger] later[i].0),
    ensures
        after_all(Some((Asleep::Away, t)), later) == Some((Asleep::Away, t)),
    decreases later.len(),
{
    if later.len() > 0 {
        assert forall|i: int| 0 <= i < later.drop_last().len() implies !wakes_from_away(
            #[trigger] later.drop_last()[i].0,
        ) by {
            assert(later.drop_last()[i] == later[i]);
        }
        lemma_away_holds(t, later.drop_last());
        assert(!wakes_from_away(later[later.len() - 1].0));
    }
}

/// Losing focus while the world runs writes the save on the focus-loss
/// trigger and stops the world. It stays stopped, measured from that moment,
/// through anything that follows — suspend, the ledger opening or closing, a
/// second focus loss — until focus returns or the app resumes; then it runs
/// again and the time away is paid from the moment focus was lost.
pub proof fn law_losing_focus_stops_the_world_until_it_returns(
    t: u64,
    later: Seq<(Happening, u64)>,
    back: Happening,
    back_at: u64,
)
    requires
        forall|i: int| 0 <= i < later.len() ==> !wakes_from_away(#[trigger] later[i].0),
        wakes_from_away(back),
    ensures
        owed_by(None, Happening::FocusLost).save == Some(crate::slot::Trigger::FocusLost),
        after_all(None, seq![(Happening::FocusLost, t)] + later) == Some((Asleep::Away, t)),
        after(after_all(None, seq![(Happening::FocusLost, t)] + later), back, back_at) is None,
        owed_by(after_all(None, seq![(Happening::FocusLost, t)] + later), back).paid_from == Some(t),
{
    let first = seq![(Happening::FocusLost, t)];
    lemma_after_all_splits(None, first, later);
    assert(first.drop_last() =~= Seq::<(Happening, u64)>::empty());
    assert(after_all(None, first.drop_last()) is None);
    assert(first.last() == (Happening::FocusLost, t));
    assert(after_all(None, first) == after(None, Happening::FocusLost, t));
    assert(after_all(None, first) == Some((Asleep::Away, t)));
    lemma_away_holds(t, later);
}

/// A primary that was read, is not from a newer build and parses is what a
/// load restores, whatever the backup holds: it is copied over the backup,
/// never moved aside, and writes stay as they were.
pub proof fn law_a_good_primary_is_restored_whatever_the_backup(probed: Option<u32>, b: BackupFile)
    requires
        probed matches Some(v) ==> v <= SCHEMA_VERSION,
    ensures
        spec_plan(PrimaryFile::Read { probed, parses: true }, b) == (LoadPlan {
            outcome: Outcome::Restored,
            rotate_backup: true,
            quarantine_primary: false,
        }),
        !disarms(PrimaryFile::Read { probed, parses: true }),
{
}

/// Prestige keeps the deeper of the old record and the run's peak, and
/// nothing else: the record afterwards is one of the two, and at least both.
pub proof fn law_prestige_keeps_the_deeper_record(s: Standing, peak: Floor)
    requires
        s.prestige_count < u32::MAX,
    ensures
        after_prestige(s, peak).best_peak == s.best_peak || after_prestige(s, peak).best_peak == peak,
        after_prestige(s, peak).best_peak >= s.best_peak,
        after_prestige(s, peak).best_peak >= peak,
        after_prestige(s, peak).prestige_count == s.prestige_count + 1,
{
}

/// A living hero with a zone fights the lowest floor with enemies from its
/// zone's bottom — `zone` floors below it, but never under the lock line —
/// and never leaves a contested floor behind it inside the zone. Where it
/// fights somewhere other than where it stands, that floor has enemies and
/// lies within `zone` floors of it, at or above the line and at or below the
/// run's peak.
pub proof fn law_the_hero_leaves_no_pack_behind_it(
    zone: u32,
    hero_floor: Floor,
    line: Floor,
    peak: Floor,
    counts: Map<Floor, u32>,
    target: Floor,
)
    requires
        zone > 0,
        hero_target_ok(true, zone, hero_floor, line, peak, counts, target),
    ensures
        forall|f: Floor|
            f >= line && f + zone >= hero_floor && f <= peak && f < target ==> !has_enemies(counts, f),
        target != hero_floor ==> {
            &&& has_enemies(counts, target)
            &&& target >= line && target + zone >= hero_floor
            &&& target <= hero_floor + zone && target <= peak
        },
{
}

/// A healer takes exactly the units it may mend that stand within `reach`
/// floors of it, above or below: every candidate is that close and may be
/// mended, and every unit that close and mendable is a candidate.
pub proof fn law_a_healer_reaches_its_reach_each_way(
    floors: Seq<Floor>,
    wounded: Seq<bool>,
    healer: int,
    reach: Floor,
    heal_self: bool,
    out: Seq<usize>,
)
    requires
        floors.len() == wounded.len(),
        floors.len() <= usize::MAX,
        0 <= healer < floors.len(),
        floors[healer] + reach <= u32::MAX,
        swept(
            floors,
            heal_keep(wounded, healer, heal_self),
            reach_low(floors[healer], reach),
            (floors[healer] + reach) as Floor,
            false,
            None,
            out,
        ),
    ensures
        forall|p: int| 0 <= p < out.len() ==> {
            let c = #[trigger] out[p] as int;
            &&& 0 <= c < floors.len()
            &&& floors[c] + reach >= floors[healer]
            &&& floors[c] <= floors[healer] + reach
            &&& wounded[c]
            &&& (heal_self || c != healer)
        },
        forall|k: int|
            0 <= k < floors.len() && wounded[k] && (heal_self || k != healer)
                && floors[k] + reach >= floors[healer] && floors[k] <= floors[healer] + reach
                ==> #[trigger] out.contains(k as usize),
{
    let keep = heal_keep(wounded, healer, heal_self);
    let lo = reach_low(floors[healer], reach);
    let hi = (floors[healer] + reach) as Floor;
    assert forall|p: int| 0 <= p < out.len() implies {
        let c = #[trigger] out[p] as int;
        &&& 0 <= c < floors.len()
        &&& floors[c] + reach >= floors[healer]
        &&& floors[c] <= floors[healer] + reach
        &&& wounded[c]
        &&& (heal_self || c != healer)
    } by {
        assert(sweep_takes(floors, keep, lo, hi, out[p] as int));
    }
    assert forall|k: int|
        0 <= k < floors.len() && wounded[k] && (heal_self || k != healer)
            && floors[k] + reach >= floors[healer] && floors[k] <= floors[healer] + reach
        implies #[trigger] out.contains(k as usize) by {
        assert(sweep_takes(floors, keep, lo, hi, k));
    }
}

} // verus!
