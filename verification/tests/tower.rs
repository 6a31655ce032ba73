use dot_tower::stream::{live_counts, neediest_type, replacement};
use dot_tower::tower::{
    active_floors, at_or_above_line, climber_spread, fought_floors, frontier, hero_target,
    level_after_lock, lock_is_free, lock_line, lock_permitted, next_lock_floor, occupied_floors, sprint_to_line,
};
use dot_tower::{ClimberType, PerType};
use std::collections::HashMap;

#[test]
fn the_lock_line_moves_in_intervals_of_ten() {
    assert_eq!(lock_line(0), 0);
    assert_eq!(lock_line(1), 11);
    assert_eq!(lock_line(30), 301);
    assert_eq!(next_lock_floor(0), 10);
    assert_eq!(next_lock_floor(30), 310);
    assert_eq!(level_after_lock(next_lock_floor(30)), 31);
}

#[test]
fn a_lock_waits_for_the_margin() {
    // The next lock seals floor 10; with a margin of 15 the climb must reach 25.
    assert!(!lock_permitted(24, 0, 15));
    assert!(lock_permitted(25, 0, 15));
    assert!(lock_permitted(400, 30, 15) == (400 >= 325));
}

#[test]
fn the_frontier_is_the_highest_climber_and_never_below_the_line() {
    assert_eq!(frontier(&vec![], 11), 11);
    assert_eq!(frontier(&vec![12, 19, 15], 11), 19);
    assert_eq!(frontier(&vec![3, 4], 11), 11);
    assert_eq!(at_or_above_line(5, 11), 11);
    assert_eq!(at_or_above_line(50, 11), 50);
}

#[test]
fn the_hero_fights_the_lowest_floor_of_its_zone_with_enemies() {
    let mut counts = HashMap::new();
    counts.insert(18u32, 0u32);
    counts.insert(19u32, 0u32);
    counts.insert(20u32, 2u32);
    // Zone 2 around floor 20 is 18..=22; 18 and 19 are cleared.
    assert_eq!(hero_target(true, 2, 20, 11, 30, &counts), 20);
    counts.insert(20, 0);
    // 21 has never been visited, so its pack is whole.
    assert_eq!(hero_target(true, 2, 20, 11, 30, &counts), 21);
    // The zone never reaches past the peak: everything up to it is clear.
    assert_eq!(hero_target(true, 2, 20, 11, 20, &counts), 20);
    // Nor below the lock line: floor 19 is below it here.
    counts.insert(19, 3);
    assert_eq!(hero_target(true, 2, 20, 20, 30, &counts), 21);
    // A dead hero, or one with no zone, fights where it stands.
    assert_eq!(hero_target(false, 2, 20, 11, 30, &counts), 20);
    assert_eq!(hero_target(true, 0, 20, 11, 30, &counts), 20);
}

#[test]
fn contested_floors_are_fought_once_in_first_seen_order() {
    let mut counts = HashMap::new();
    counts.insert(12u32, 0u32);
    counts.insert(14u32, 3u32);
    let climbers = vec![14, 12, 15, 14, 13, 15];
    assert_eq!(fought_floors(&climbers, &counts, false, 20), vec![14, 15, 13]);
    assert_eq!(fought_floors(&climbers, &counts, true, 20), vec![14, 15, 13, 20]);
    // The hero standing on a floor already fought adds nothing.
    assert_eq!(fought_floors(&climbers, &counts, true, 15), vec![14, 15, 13]);
    // A cleared floor the hero stands on is still the hero's to fight.
    assert_eq!(fought_floors(&climbers, &counts, true, 12), vec![14, 15, 13, 12]);
}

#[test]
fn activation_covers_the_radius_around_every_unit() {
    let act = active_floors(&vec![12, 20], true, 30, 2, 11);
    let mut floors: Vec<u32> = act.into_iter().collect();
    floors.sort();
    assert_eq!(floors, vec![11, 12, 13, 14, 18, 19, 20, 21, 22, 28, 29, 30, 31, 32]);
    let act = active_floors(&vec![], false, 30, 2, 11);
    assert!(act.is_empty());
}

#[test]
fn spread_and_occupancy() {
    assert_eq!(climber_spread(&vec![]), 0);
    assert_eq!(climber_spread(&vec![7]), 1);
    assert_eq!(climber_spread(&vec![40, 12, 33]), 29);
    assert_eq!(occupied_floors(&vec![40, 12, 40, 33, 12]), vec![40, 12, 33]);
}

#[test]
fn the_neediest_type_is_furthest_below_its_share() {
    let composition = PerType::new(4, 3, 2);
    // An empty stream starts with the largest share.
    assert_eq!(neediest_type(&PerType::new(0, 0, 0), &composition), ClimberType::Melee);
    // 4 melee, 0 ranged, 0 healer: ranged is furthest below 3/9.
    assert_eq!(neediest_type(&PerType::new(4, 0, 0), &composition), ClimberType::Ranged);
    // Exactly on the authored mix every deficit is zero: the tie goes to melee.
    assert_eq!(neediest_type(&PerType::new(4, 3, 2), &composition), ClimberType::Melee);
    // 4/3/1: healer is short.
    assert_eq!(neediest_type(&PerType::new(4, 3, 1), &composition), ClimberType::Healer);
    // Equal deficits between ranged and healer resolve to the earlier type.
    assert_eq!(neediest_type(&PerType::new(9, 0, 0), &PerType::new(1, 1, 1)), ClimberType::Ranged);
}

#[test]
fn a_type_at_its_ceiling_skips_the_slot_rather_than_passing_it_on() {
    let composition = PerType::new(4, 3, 2);
    let caps = PerType::new(40, 30, 20);
    assert_eq!(replacement(&PerType::new(4, 0, 0), &composition, &caps), Some(ClimberType::Ranged));
    let caps = PerType::new(40, 0, 20);
    assert_eq!(replacement(&PerType::new(4, 0, 0), &composition, &caps), None);
}

#[test]
fn live_counts_count_each_type() {
    let live = live_counts(&vec![ClimberType::Melee, ClimberType::Healer, ClimberType::Melee]);
    assert_eq!(live, PerType::new(2, 0, 1));
}

#[test]
fn trailing_climbers_sprint_to_the_new_line_and_nobody_disappears() {
    let mut floors = vec![8, 21, 11, 3, 40];
    let sprinted = sprint_to_line(&mut floors, 21);
    assert_eq!(floors, vec![21, 21, 21, 21, 40]);
    assert_eq!(sprinted, vec![true, false, true, true, false]);
}

#[test]
fn an_exact_tie_in_need_goes_to_the_earlier_type() {
    // Composition 4/3/2 of 9 against 5/3/10 alive of 18: melee is owed 8 and
    // has 5, ranged is owed 6 and has 3 — both exactly 3 short. The earlier
    // type in the fixed order wins the tie.
    let composition = PerType::new(4, 3, 2);
    let live = PerType::new(5, 3, 10);
    assert_eq!(neediest_type(&live, &composition), ClimberType::Melee);
}

#[test]
fn a_lock_in_conquered_territory_is_free() {
    // The account's record is floor 147: the locks sealing 140 and below are
    // free, the one sealing 150 is not.
    assert!(lock_is_free(140, 147));
    assert!(lock_is_free(147, 147));
    assert!(!lock_is_free(150, 147));
    // A fresh account has conquered nothing.
    assert!(!lock_is_free(10, 0));
}
