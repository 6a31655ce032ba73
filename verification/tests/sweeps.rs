use dot_tower::heal::{heal_candidates, nearest_candidates};
use dot_tower::sweep::{keep_all, sweep_floors};
use dot_tower::tower::churn;
use dot_tower::view::{visible_climbers, CLIMBER_SLOTS};
use std::collections::HashSet;

#[test]
fn a_healer_looks_lowest_floor_first_and_in_list_order_on_a_floor() {
    // Units 0..4 stand on floors 5, 3, 4, 3, 9; the healer is unit 0 on floor 5
    // with a reach of 2, so floors 3 to 7 count and floor 9 does not.
    let floors = vec![5, 3, 4, 3, 9];
    let wounded = vec![true, true, true, true, true];
    assert_eq!(heal_candidates(&floors, &wounded, 0, 2, false), vec![1, 3, 2]);
    assert_eq!(heal_candidates(&floors, &wounded, 0, 2, true), vec![1, 3, 2, 0]);
}

#[test]
fn a_unit_at_full_health_is_no_candidate() {
    let floors = vec![5, 3, 4, 3, 9];
    let wounded = vec![true, true, false, false, true];
    assert_eq!(heal_candidates(&floors, &wounded, 0, 2, true), vec![1, 0]);
}

#[test]
fn a_healer_at_the_bottom_reaches_down_to_floor_zero_only() {
    let floors = vec![1, 0, 2, 4];
    let wounded = vec![true, true, true, true];
    assert_eq!(heal_candidates(&floors, &wounded, 0, 3, false), vec![1, 2, 3]);
    assert_eq!(heal_candidates(&floors, &wounded, 0, 0, false), Vec::<usize>::new());
}

#[test]
fn the_hero_is_healed_like_any_other_unit() {
    // The hero is listed after the climbers; on a shared floor it comes last.
    let floors = vec![7, 7, 7];
    let wounded = vec![true, true, true];
    assert_eq!(heal_candidates(&floors, &wounded, 1, 1, false), vec![0, 2]);
}

#[test]
fn the_column_draws_the_front_of_the_climb_first() {
    // Window from floor 10: floors 10 to 22 are drawn.
    let floors = vec![10, 23, 15, 22, 9, 15, 12];
    assert_eq!(visible_climbers(&floors, 10), vec![3, 2, 5, 6, 0]);
}

#[test]
fn the_column_keeps_only_as_many_climbers_as_it_has_slots() {
    // Two hundred climbers on floor 10 and one on floor 11: the one above is
    // drawn first, then the earliest-listed on floor 10.
    let mut floors = vec![10u32; 200];
    floors.push(11);
    let shown = visible_climbers(&floors, 10);
    assert_eq!(shown.len(), CLIMBER_SLOTS);
    assert_eq!(shown[0], 200);
    assert_eq!(shown[1], 0);
    assert_eq!(shown[CLIMBER_SLOTS - 1], CLIMBER_SLOTS - 2);
}

#[test]
fn a_sweep_stops_at_its_limit() {
    let floors = vec![2, 1, 2, 3, 1];
    let keep = keep_all(floors.len());
    assert_eq!(sweep_floors(&floors, &keep, 1, 3, false, None), vec![1, 4, 0, 2, 3]);
    assert_eq!(sweep_floors(&floors, &keep, 1, 3, true, None), vec![3, 0, 2, 1, 4]);
    assert_eq!(sweep_floors(&floors, &keep, 1, 3, false, Some(3)), vec![1, 4, 0]);
    assert_eq!(sweep_floors(&floors, &keep, 1, 3, false, Some(0)), Vec::<usize>::new());
    assert_eq!(sweep_floors(&floors, &keep, 2, 2, false, None), vec![0, 2]);
    // No floors between: nothing to sweep.
    assert_eq!(sweep_floors(&floors, &keep, 3, 1, false, None), Vec::<usize>::new());
    assert_eq!(sweep_floors(&floors, &keep, 3, 1, true, Some(2)), Vec::<usize>::new());
}

#[test]
fn churn_counts_each_floor_that_starts_or_stops_being_active() {
    let prev: HashSet<u32> = [10, 11, 12, 13].into_iter().collect();
    let act: HashSet<u32> = [12, 13, 14].into_iter().collect();
    assert_eq!(churn(&prev, &act), (1, 2));
    // Net of the churn is how much the active set grew.
    let (on, off) = churn(&prev, &act);
    assert_eq!(on as i64 - off as i64, act.len() as i64 - prev.len() as i64);
    assert_eq!(churn(&act, &act), (0, 0));
    assert_eq!(churn(&HashSet::new(), &act), (3, 0));
}

#[test]
fn the_nearest_candidates_keep_candidate_order() {
    // A healer on floor 5; candidates on floors 3, 6, 4, 7, 6 in that order.
    let floors = vec![5, 3, 6, 4, 7, 6];
    let candidates = vec![1, 2, 3, 4, 5];
    assert_eq!(nearest_candidates(&floors, &candidates, 5), vec![2, 3, 5]);
    assert_eq!(nearest_candidates(&floors, &vec![1, 4], 5), vec![1, 4]);
    assert_eq!(nearest_candidates(&floors, &vec![0, 2], 5), vec![0]);
    assert_eq!(nearest_candidates(&floors, &Vec::new(), 5), Vec::<usize>::new());
}
