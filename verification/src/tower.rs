//! Where the climb stands: the lock line, the frontier, and which floors the
//! tick has to look at.
//!
//! Floors are counted from 1 upward without limit. A floor with no record has
//! never been visited and still holds its full pack; a record with a count of
//! zero is a cleared floor, walked across rather than fought.

use vstd::prelude::*;
use std::collections::HashMap;
use std::collections::HashSet;
use vstd::std_specs::iter::IteratorSpec;

verus! {

broadcast use vstd::std_specs::hash::group_hash_axioms;

/// A floor number.
pub type Floor = u32;

/// Locks are bought every ten floors.
pub const LOCK_INTERVAL: u32 = 10;

/// The highest locked floor once `lock_level` locks have been bought.
pub open spec fn spec_lock_line(lock_level: int) -> int {
    if lock_level > 0 { 10 * lock_level + 1 } else { 0 }
}

/// The floor the next lock would seal.
pub open spec fn spec_next_lock_floor(lock_level: int) -> int {
    10 * (lock_level + 1)
}

/// Whether the climb has cleared the next lock by the margin.
pub open spec fn spec_lock_permitted(peak: int, lock_level: int, margin: int) -> bool {
    peak >= spec_next_lock_floor(lock_level) + margin
}

/// The highest locked floor. Climbers spawn here and nothing below it is
/// simulated.
pub fn lock_line(lock_level: u32) -> (line: Floor)
    requires
        lock_level <= 429_496_728,
    ensures
        line == spec_lock_line(lock_level as int),
{
    if lock_level > 0 { 10 * lock_level + 1 } else { 0 }
}

/// The floor the next lock would seal.
pub fn next_lock_floor(lock_level: u32) -> (floor: Floor)
    requires
        lock_level < 429_496_729,
    ensures
        floor == spec_next_lock_floor(lock_level as int),
{
    10 * (lock_level + 1)
}

/// Whether the climb has gone far enough past the next lock to buy it: its
/// peak must be at least `margin` floors above the floor the lock seals.
pub fn lock_permitted(peak: Floor, lock_level: u32, margin: u32) -> (ok: bool)
    requires
        lock_level < 429_496_729,
        spec_next_lock_floor(lock_level as int) + margin <= u32::MAX,
    ensures
        ok == spec_lock_permitted(peak as int, lock_level as int, margin as int),
{
    peak >= next_lock_floor(lock_level) + margin
}

/// The lock level after buying the lock that seals `floor`.
pub fn level_after_lock(floor: Floor) -> (level: u32)
    ensures
        level == floor / 10,
{
    floor / LOCK_INTERVAL
}

/// A floor clamped so it is never below the lock line.
pub open spec fn spec_at_or_above(floor: int, line: int) -> int {
    if floor >= line { floor } else { line }
}

/// Where a floor request lands: never below the lock line.
pub fn at_or_above_line(floor: Floor, line: Floor) -> (f: Floor)
    ensures
        f == spec_at_or_above(floor as int, line as int),
{
    if floor >= line { floor } else { line }
}

/// Whether the next lock is free: a lock sealing a floor at or below the
/// account's deepest-ever floor re-locks conquered territory, which is
/// bookkeeping rather than a decision, so it costs nothing. The price — and
/// the decision — live at the frontier.
pub fn lock_is_free(next_floor: Floor, best_peak: Floor) -> (free: bool)
    ensures
        free == (next_floor <= best_peak),
{
    next_floor <= best_peak
}

/// Moves every climber below a newly bought lock line up to it. Trailing
/// climbers sprint to the new entry floor: nothing disappears, so nothing
/// needs explaining. Returns, per climber, whether it sprinted — a sprinter
/// starts the entry floor from its near edge.
pub fn sprint_to_line(floors: &mut Vec<Floor>, line: Floor) -> (sprinted: Vec<bool>)
    ensures
        final(floors)@.len() == old(floors)@.len(),
        sprinted@.len() == old(floors)@.len(),
        forall|i: int| 0 <= i < old(floors)@.len() ==> #[trigger] sprinted@[i] == (old(floors)@[i] < line),
        forall|i: int|
            0 <= i < old(floors)@.len() ==> #[trigger] final(floors)@[i] == spec_at_or_above(
                old(floors)@[i] as int,
                line as int,
            ),
{
    let ghost before = floors@;
    let mut sprinted: Vec<bool> = Vec::new();
    let n = floors.len();
    let mut i: usize = 0;
    while i < n
        invariant
            n == floors@.len(),
            n == before.len(),
            i <= n,
            sprinted@.len() == i,
            forall|k: int| 0 <= k < i ==> #[trigger] sprinted@[k] == (before[k] < line),
            forall|k: int| 0 <= k < i ==> #[trigger] floors@[k] == spec_at_or_above(before[k] as int, line as int),
            forall|k: int| i <= k < n ==> #[trigger] floors@[k] == before[k],
        decreases n - i,
    {
        let below = floors[i] < line;
        if below {
            floors.set(i, line);
        }
        sprinted.push(below);
        i = i + 1;
    }
    sprinted
}

/// The highest of `line` and every floor in `floors`.
pub open spec fn spec_frontier(floors: Seq<Floor>, line: int) -> int
    decreases floors.len(),
{
    if floors.len() == 0 {
        line
    } else {
        let rest = spec_frontier(floors.drop_last(), line);
        if rest >= floors.last() { rest } else { floors.last() as int }
    }
}

proof fn lemma_frontier_bounds(floors: Seq<Floor>, line: int)
    ensures
        spec_frontier(floors, line) >= line,
        forall|i: int| 0 <= i < floors.len() ==> floors[i] <= spec_frontier(floors, line),
        spec_frontier(floors, line) == line
            || exists|i: int| 0 <= i < floors.len() && floors[i] == spec_frontier(floors, line),
    decreases floors.len(),
{
    if floors.len() > 0 {
        lemma_frontier_bounds(floors.drop_last(), line);
        let rest = spec_frontier(floors.drop_last(), line);
        if rest != line && rest >= floors.last() {
            let i = choose|i: int| 0 <= i < floors.len() - 1 && floors.drop_last()[i] == rest;
            assert(floors[i] == spec_frontier(floors, line));
        }
        if rest < floors.last() {
            assert(floors[floors.len() - 1] == spec_frontier(floors, line));
        }
        assert forall|i: int| 0 <= i < floors.len() implies floors[i] <= spec_frontier(floors, line) by {
            if i < floors.len() - 1 {
                assert(floors.drop_last()[i] == floors[i]);
            }
        }
    }
}

/// Where the column piles up: the highest floor holding live climbers, or the
/// lock line if that is higher or nobody is alive.
pub fn frontier(climber_floors: &Vec<Floor>, line: Floor) -> (f: Floor)
    ensures
        f == spec_frontier(climber_floors@, line as int),
        f >= line,
        forall|i: int| 0 <= i < climber_floors@.len() ==> climber_floors@[i] <= f,
        f == line || exists|i: int| 0 <= i < climber_floors@.len() && climber_floors@[i] == f,
{
    let n = climber_floors.len();
    let mut top = line;
    let mut i: usize = 0;
    while i < n
        invariant
            i <= n,
            n == climber_floors@.len(),
            top == spec_frontier(climber_floors@.subrange(0, i as int), line as int),
        decreases n - i,
    {
        assert(climber_floors@.subrange(0, i as int + 1).drop_last() =~= climber_floors@.subrange(0, i as int));
        if climber_floors[i] > top {
            top = climber_floors[i];
        }
        i += 1;
    }
    assert(climber_floors@.subrange(0, n as int) =~= climber_floors@);
    proof {
        lemma_frontier_bounds(climber_floors@, line as int);
    }
    top
}

/// Whether a floor still has enemies on it: it has never been visited (so
/// its pack is whole), or its record still counts some.
pub open spec fn has_enemies(counts: Map<Floor, u32>, f: Floor) -> bool {
    !counts.contains_key(f) || counts[f] > 0
}

fn floor_has_enemies(counts: &HashMap<Floor, u32>, f: Floor) -> (b: bool)
    ensures
        b == has_enemies(counts@, f),
{
    match counts.get(&f) {
        Some(c) => *c > 0,
        None => true,
    }
}

/// The lowest floor of the hero's zone that it patrols from.
pub open spec fn zone_low(hero_floor: int, zone: int, line: int) -> int {
    let below = if hero_floor >= zone { hero_floor - zone } else { 0 };
    if below >= line { below } else { line }
}

/// The highest floor of the hero's zone: never past the run's peak.
pub open spec fn zone_high(hero_floor: int, zone: int, peak: int) -> int {
    if hero_floor + zone <= peak { hero_floor + zone } else { peak }
}

/// What the hero's target must be: where it stands if it is dead or has no
/// zone; otherwise the lowest floor of its zone with enemies, or where it
/// stands if the whole zone is clear.
pub open spec fn hero_target_ok(
    hero_alive: bool,
    zone: u32,
    hero_floor: Floor,
    line: Floor,
    peak: Floor,
    counts: Map<Floor, u32>,
    target: Floor,
) -> bool {
    &&& !hero_alive || zone == 0 ==> target == hero_floor
    &&& hero_alive && zone > 0 ==> {
        let lo = zone_low(hero_floor as int, zone as int, line as int);
        let hi = zone_high(hero_floor as int, zone as int, peak as int);
        ||| (lo <= target <= hi && has_enemies(counts, target)
            && forall|f: Floor| lo <= f < target ==> !has_enemies(counts, f))
        ||| (target == hero_floor && forall|f: Floor| lo <= f <= hi ==> !has_enemies(counts, f))
    }
}

/// The floor the hero fights this tick.
///
/// The hero holds a stretch, not a point: it fights the lowest floor in its
/// zone that still has enemies, so the floors behind it stay clear. A dead
/// hero, or one with no zone, fights where it stands, and so does one whose
/// whole zone is clear.
pub fn hero_target(
    hero_alive: bool,
    zone: u32,
    hero_floor: Floor,
    line: Floor,
    peak: Floor,
    counts: &HashMap<Floor, u32>,
) -> (target: Floor)
    requires
        hero_floor + zone <= u32::MAX,
    ensures
        hero_target_ok(hero_alive, zone, hero_floor, line, peak, counts@, target),
        !hero_alive || zone == 0 ==> target == hero_floor,
        hero_alive && zone > 0 ==> forall|f: Floor|
            f >= line && f + zone >= hero_floor && f <= peak && f < target ==> !has_enemies(counts@, f),
        hero_alive && zone > 0 && target != hero_floor ==> {
            &&& has_enemies(counts@, target)
            &&& target >= line && target + zone >= hero_floor
            &&& target <= hero_floor + zone && target <= peak
        },
{
    if !hero_alive || zone == 0 {
        return hero_floor;
    }
    let below = if hero_floor >= zone { hero_floor - zone } else { 0 };
    let lo = if below >= line { below } else { line };
    let hi = if hero_floor + zone <= peak { hero_floor + zone } else { peak };
    let mut f: u64 = lo as u64;
    while f <= hi as u64
        invariant
            hero_alive && zone > 0,
            lo <= f,
            f <= hi as u64 + 1 || f == lo as u64,
            lo == zone_low(hero_floor as int, zone as int, line as int),
            hi == zone_high(hero_floor as int, zone as int, peak as int),
            forall|g: Floor| lo <= g < f ==> !has_enemies(counts@, g),
        decreases hi as u64 + 1 - f,
    {
        if floor_has_enemies(counts, f as u32) {
            return f as u32;
        }
        f += 1;
    }
    hero_floor
}

/// The distinct values of `s`, each at its first occurrence, in order.
pub open spec fn first_occurrences(s: Seq<Floor>) -> Seq<Floor>
    decreases s.len(),
{
    if s.len() == 0 {
        s
    } else {
        let earlier = first_occurrences(s.drop_last());
        if earlier.contains(s.last()) { earlier } else { earlier.push(s.last()) }
    }
}

/// Every element of `first_occurrences(s)` is in `s` and vice versa, and none
/// appears twice.
pub proof fn lemma_first_occurrences(s: Seq<Floor>)
    ensures
        first_occurrences(s).no_duplicates(),
        forall|f: Floor| #[trigger] first_occurrences(s).contains(f) <==> s.contains(f),
    decreases s.len(),
{
    if s.len() > 0 {
        let d = s.drop_last();
        let x = s.last();
        lemma_first_occurrences(d);
        let fd = first_occurrences(d);
        assert(forall|f: Floor| #[trigger] s.contains(f) <==> (d.contains(f) || f == x)) by {
            assert forall|f: Floor| #[trigger] s.contains(f) implies (d.contains(f) || f == x) by {
                let i = choose|i: int| 0 <= i < s.len() && s[i] == f;
                if i < s.len() - 1 {
                    assert(d[i] == f);
                }
            }
            assert forall|f: Floor| d.contains(f) || f == x implies #[trigger] s.contains(f) by {
                if d.contains(f) {
                    let i = choose|i: int| 0 <= i < d.len() && d[i] == f;
                    assert(s[i] == f);
                } else {
                    assert(s[s.len() - 1] == f);
                }
            }
        }
        if !fd.contains(x) {
            let fs = fd.push(x);
            assert forall|f: Floor| #[trigger] fs.contains(f) <==> (fd.contains(f) || f == x) by {
                if fs.contains(f) {
                    let j = choose|j: int| 0 <= j < fs.len() && fs[j] == f;
                    if j < fd.len() {
                        assert(fd[j] == f);
                    }
                }
                if fd.contains(f) {
                    let j = choose|j: int| 0 <= j < fd.len() && fd[j] == f;
                    assert(fs[j] == f);
                }
                if f == x {
                    assert(fs[fs.len() - 1] == f);
                }
            }
            assert forall|i: int, j: int| 0 <= i < fs.len() && 0 <= j < fs.len() && i != j implies fs[i] != fs[j] by {
                if i < fd.len() && j < fd.len() {
                    assert(fd[i] == fs[i] && fd[j] == fs[j]);
                } else if i < fd.len() {
                    assert(fd[i] == fs[i]);
                    assert(fd.contains(fs[i]));
                } else if j < fd.len() {
                    assert(fd[j] == fs[j]);
                    assert(fd.contains(fs[j]));
                }
            }
        }
    }
}

/// The floors fought this tick, in the order they are fought: every floor a
/// climber stands on that still has enemies, and then the hero's target if
/// the hero is alive, each once, in first-seen order. The order is
/// load-bearing — gold accrues into one running sum and the hero can die
/// partway through — so it is fixed by the climber list, never by a hash.
pub open spec fn spec_fought_floors(
    climber_floors: Seq<Floor>,
    counts: Map<Floor, u32>,
    hero_alive: bool,
    hero_target: Floor,
) -> Seq<Floor> {
    let contested = climber_floors.filter(|f: Floor| has_enemies(counts, f));
    first_occurrences(if hero_alive { contested.push(hero_target) } else { contested })
}

proof fn lemma_first_occurrences_push(s: Seq<Floor>, x: Floor)
    ensures
        first_occurrences(s.push(x)) == (if first_occurrences(s).contains(x) {
            first_occurrences(s)
        } else {
            first_occurrences(s).push(x)
        }),
{
    assert(s.push(x).drop_last() =~= s);
}

pub fn fought_floors(
    climber_floors: &Vec<Floor>,
    counts: &HashMap<Floor, u32>,
    hero_alive: bool,
    hero_target: Floor,
) -> (order: Vec<Floor>)
    ensures
        order@ == spec_fought_floors(climber_floors@, counts@, hero_alive, hero_target),
{
    let ghost pred = |f: Floor| has_enemies(counts@, f);
    let mut order: Vec<Floor> = Vec::new();
    let mut seen: HashSet<Floor> = HashSet::new();
    let n = climber_floors.len();
    let mut i: usize = 0;
    while i < n
        invariant
            i <= n,
            n == climber_floors@.len(),
            pred == (|f: Floor| has_enemies(counts@, f)),
            order@ == first_occurrences(climber_floors@.subrange(0, i as int).filter(pred)),
            forall|f: Floor| seen@.contains(f) <==> order@.contains(f),
        decreases n - i,
    {
        let f = climber_floors[i];
        let ghost before = climber_floors@.subrange(0, i as int);
        proof {
            assert(climber_floors@.subrange(0, i as int + 1) =~= before.push(f));
            before.lemma_filter_push(f, pred);
            lemma_first_occurrences_push(before.filter(pred), f);
        }
        if floor_has_enemies(counts, f) {
            if !seen.contains(&f) {
                let ghost prev = order@;
                seen.insert(f);
                order.push(f);
                proof {
                    assert forall|g: Floor| seen@.contains(g) <==> order@.contains(g) by {
                        if order@.contains(g) {
                            let j = choose|j: int| 0 <= j < order@.len() && order@[j] == g;
                            if j < prev.len() {
                                assert(prev[j] == g);
                            }
                        }
                        if prev.contains(g) {
                            let j = choose|j: int| 0 <= j < prev.len() && prev[j] == g;
                            assert(order@[j] == g);
                        }
                        if g == f {
                            assert(order@[order@.len() - 1] == g);
                        }
                    }
                }
            }
        }
        i += 1;
    }
    assert(climber_floors@.subrange(0, n as int) =~= climber_floors@);
    if hero_alive {
        proof {
            lemma_first_occurrences_push(climber_floors@.filter(pred), hero_target);
        }
        if !seen.contains(&hero_target) {
            order.push(hero_target);
        }
    }
    order
}

/// Whether `f` lies in the activation window around `centre`: within
/// `radius` floors of it, and not below the lock line.
pub open spec fn within_reach(centre: Floor, radius: u32, line: Floor, f: Floor) -> bool {
    let below = if centre >= radius { centre - radius } else { 0 };
    let lo = if below >= line { below } else { line as int };
    lo <= f <= centre + radius
}

/// Whether some centre in `centres` has `f` in its window.
pub open spec fn covered(centres: Seq<Floor>, radius: u32, line: Floor, f: Floor) -> bool {
    exists|i: int| 0 <= i < centres.len() && within_reach(#[trigger] centres[i], radius, line, f)
}

/// The centres floors are activated around: every climber, and the hero if
/// it is alive.
pub open spec fn activation_centres(climber_floors: Seq<Floor>, hero_alive: bool, hero_floor: Floor) -> Seq<Floor> {
    if hero_alive { climber_floors.push(hero_floor) } else { climber_floors }
}

/// The floors that exist as entities rather than as data this instant: every
/// floor within `radius` of a climber or of the living hero, never below the
/// lock line. Affects measurement only.
pub fn active_floors(
    climber_floors: &Vec<Floor>,
    hero_alive: bool,
    hero_floor: Floor,
    radius: u32,
    line: Floor,
) -> (act: HashSet<Floor>)
    requires
        forall|i: int| 0 <= i < climber_floors@.len() ==> climber_floors@[i] + radius <= u32::MAX,
        hero_floor + radius <= u32::MAX,
    ensures
        forall|f: Floor|
            act@.contains(f) <==> covered(
                activation_centres(climber_floors@, hero_alive, hero_floor),
                radius,
                line,
                f,
            ),
{
    let mut centres = climber_floors.clone();
    if hero_alive {
        centres.push(hero_floor);
    }
    assert(centres@ =~= activation_centres(climber_floors@, hero_alive, hero_floor));
    let mut act: HashSet<Floor> = HashSet::new();
    let n = centres.len();
    let mut i: usize = 0;
    while i < n
        invariant
            i <= n,
            n == centres@.len(),
            forall|k: int| 0 <= k < n ==> centres@[k] + radius <= u32::MAX,
            forall|f: Floor| act@.contains(f) <==> covered(centres@.subrange(0, i as int), radius, line, f),
        decreases n - i,
    {
        let c = centres[i];
        let below = if c >= radius { c - radius } else { 0 };
        let lo = if below >= line { below } else { line };
        let hi = c + radius;
        let ghost prefix = centres@.subrange(0, i as int);
        let ghost next = centres@.subrange(0, i as int + 1);
        assert forall|k: int| 0 <= k < prefix.len() implies next[k] == #[trigger] prefix[k] by {}
        assert(next[i as int] == c);
        let mut f: u64 = lo as u64;
        while f <= hi as u64
            invariant
                lo <= f,
                f <= hi as u64 + 1 || f == lo as u64,
                hi == c + radius,
                forall|g: Floor| act@.contains(g) <==> (covered(prefix, radius, line, g) || (lo <= g < f)),
                lo as int == (if (if c >= radius { c - radius } else { 0int }) >= line { if c >= radius { c - radius } else { 0int } } else { line as int }),
            decreases hi as u64 + 1 - f,
        {
            act.insert(f as u32);
            f += 1;
        }
        proof {
            assert forall|g: Floor| act@.contains(g) <==> covered(next, radius, line, g) by {
                if covered(prefix, radius, line, g) {
                    let k = choose|k: int| 0 <= k < prefix.len() && within_reach(#[trigger] prefix[k], radius, line, g);
                    assert(next[k] == prefix[k]);
                }
                if lo <= g <= hi {
                    assert(within_reach(next[i as int], radius, line, g));
                }
                if covered(next, radius, line, g) {
                    let k = choose|k: int| 0 <= k < next.len() && within_reach(#[trigger] next[k], radius, line, g);
                    if k < prefix.len() {
                        assert(prefix[k] == next[k]);
                    }
                }
            }
        }
        i += 1;
    }
    assert(centres@.subrange(0, n as int) =~= centres@);
    act
}

/// How many floors of `a` are missing from `b`.
pub fn count_not_in(a: &HashSet<Floor>, b: &HashSet<Floor>) -> (n: u64)
    ensures
        n == a@.difference(b@).len(),
{
    let size = a.len();
    let mut n: u64 = 0;
    let ghost all = a.iter().remaining();
    let ghost vals: Seq<Floor> = all.unref();
    let ghost mut done: Set<Floor> = Set::empty();
    proof {
        assert(vals.to_set() == a@);
        assert(vals.no_duplicates()) by {
            assert forall|i: int, j: int| 0 <= i < vals.len() && 0 <= j < vals.len() && i != j implies vals[i] != vals[j] by {
                assert(all[i] != all[j]);
            }
        }
        vals.unique_seq_to_set();
        assert(done.difference(b@) =~= Set::empty());
    }
    for f in it: a.iter()
        invariant
            it.seq() == all,
            vals == all.unref(),
            vals.no_duplicates(),
            vals.len() == a@.len(),
            a@.len() == size,
            done.finite(),
            forall|x: Floor| done.contains(x) <==> exists|j: int| 0 <= j < it.index() && vals[j] == x,
            n == done.difference(b@).len(),
            n <= it.index(),
    {
        let ghost x: Floor = *f;
        proof {
            assert(vals[it.index()] == x);
            assert(!done.contains(x)) by {
                if done.contains(x) {
                    let j = choose|j: int| 0 <= j < it.index() && vals[j] == x;
                    assert(vals[j] == vals[it.index()]);
                }
            }
        }
        if !b.contains(f) {
            assert(done.insert(x).difference(b@) =~= done.difference(b@).insert(x));
            n = n + 1;
        } else {
            assert(done.insert(x).difference(b@) =~= done.difference(b@));
        }
        proof {
            done = done.insert(x);
        }
    }
    assert(done =~= a@) by {
        assert forall|x: Floor| done.contains(x) <==> a@.contains(x) by {
            if a@.contains(x) {
                assert(vals.to_set().contains(x));
            }
        }
    }
    n
}

/// Activation churn between one tick's active floors and the next: how many
/// floors became active, and how many stopped being. Each transition costs a
/// spawn or a despawn, so the count is per transition, not per sample.
pub fn churn(prev: &HashSet<Floor>, act: &HashSet<Floor>) -> (counts: (u64, u64))
    ensures
        counts.0 == act@.difference(prev@).len(),
        counts.1 == prev@.difference(act@).len(),
{
    (count_not_in(act, prev), count_not_in(prev, act))
}

/// The distinct floors climbers stand on, each once, in first-seen order.
pub fn occupied_floors(climber_floors: &Vec<Floor>) -> (occupied: Vec<Floor>)
    ensures
        occupied@ == first_occurrences(climber_floors@),
{
    let mut order: Vec<Floor> = Vec::new();
    let mut seen: HashSet<Floor> = HashSet::new();
    let n = climber_floors.len();
    let mut i: usize = 0;
    while i < n
        invariant
            i <= n,
            n == climber_floors@.len(),
            order@ == first_occurrences(climber_floors@.subrange(0, i as int)),
            forall|f: Floor| seen@.contains(f) <==> order@.contains(f),
        decreases n - i,
    {
        let f = climber_floors[i];
        let ghost before = climber_floors@.subrange(0, i as int);
        proof {
            assert(climber_floors@.subrange(0, i as int + 1) =~= before.push(f));
            lemma_first_occurrences_push(before, f);
        }
        if !seen.contains(&f) {
            let ghost prev = order@;
            seen.insert(f);
            order.push(f);
            proof {
                assert forall|g: Floor| seen@.contains(g) <==> order@.contains(g) by {
                    if order@.contains(g) {
                        let j = choose|j: int| 0 <= j < order@.len() && order@[j] == g;
                        if j < prev.len() {
                            assert(prev[j] == g);
                        }
                    }
                    if prev.contains(g) {
                        let j = choose|j: int| 0 <= j < prev.len() && prev[j] == g;
                        assert(order@[j] == g);
                    }
                    if g == f {
                        assert(order@[order@.len() - 1] == g);
                    }
                }
            }
        }
        i += 1;
    }
    assert(climber_floors@.subrange(0, n as int) =~= climber_floors@);
    order
}

/// The lowest of `line` and every floor in `floors`.
pub open spec fn spec_lowest(floors: Seq<Floor>, top: int) -> int
    decreases floors.len(),
{
    if floors.len() == 0 {
        top
    } else {
        let rest = spec_lowest(floors.drop_last(), top);
        if rest <= floors.last() { rest } else { floors.last() as int }
    }
}

/// How many floors the stream spans, lowest climber to highest, inclusive;
/// zero when nobody is alive.
pub open spec fn spec_spread(floors: Seq<Floor>) -> int {
    if floors.len() == 0 {
        0
    } else {
        spec_frontier(floors, 0) - spec_lowest(floors, u32::MAX as int) + 1
    }
}

proof fn lemma_lowest_bounds(floors: Seq<Floor>, top: int)
    ensures
        spec_lowest(floors, top) <= top,
        forall|i: int| 0 <= i < floors.len() ==> spec_lowest(floors, top) <= floors[i],
        spec_lowest(floors, top) == top
            || exists|i: int| 0 <= i < floors.len() && floors[i] == spec_lowest(floors, top),
    decreases floors.len(),
{
    if floors.len() > 0 {
        lemma_lowest_bounds(floors.drop_last(), top);
        let rest = spec_lowest(floors.drop_last(), top);
        if rest != top && rest <= floors.last() {
            let i = choose|i: int| 0 <= i < floors.len() - 1 && floors.drop_last()[i] == rest;
            assert(floors[i] == spec_lowest(floors, top));
        }
        if rest > floors.last() {
            assert(floors[floors.len() - 1] == spec_lowest(floors, top));
        }
        assert forall|i: int| 0 <= i < floors.len() implies spec_lowest(floors, top) <= floors[i] by {
            if i < floors.len() - 1 {
                assert(floors.drop_last()[i] == floors[i]);
            }
        }
    }
}

/// Lowest climber to highest, inclusive: how far the stream is strung out.
pub fn climber_spread(climber_floors: &Vec<Floor>) -> (spread: u32)
    requires
        climber_floors@.len() == 0 || spec_spread(climber_floors@) <= u32::MAX,
    ensures
        spread == spec_spread(climber_floors@),
{
    let n = climber_floors.len();
    if n == 0 {
        return 0;
    }
    let hi = frontier(climber_floors, 0);
    let mut lo: Floor = u32::MAX;
    let mut i: usize = 0;
    while i < n
        invariant
            i <= n,
            n == climber_floors@.len(),
            lo == spec_lowest(climber_floors@.subrange(0, i as int), u32::MAX as int),
        decreases n - i,
    {
        assert(climber_floors@.subrange(0, i as int + 1).drop_last() =~= climber_floors@.subrange(0, i as int));
        if climber_floors[i] < lo {
            lo = climber_floors[i];
        }
        i += 1;
    }
    assert(climber_floors@.subrange(0, n as int) =~= climber_floors@);
    proof {
        lemma_lowest_bounds(climber_floors@, u32::MAX as int);
        lemma_frontier_bounds(climber_floors@, 0);
        assert(climber_floors@[0] <= hi);
        assert(lo <= climber_floors@[0]);
    }
    hi - lo + 1
}

} // verus!
