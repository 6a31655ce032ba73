use dot_tower::rest::{Asleep, Happening, Owed, Rest};
use dot_tower::slot::Trigger;
use dot_tower::save::RunCounts;
use dot_tower::text::{
    away_text, count_losses, decimal_text, lock_off_text, ranks_text, record_text, stationed_loss,
};
use dot_tower::types::ClimberType;
use dot_tower::tuning::{composition_problem, pack_problem};
use dot_tower::view::{mark_shown, Mark, Scene, floor_named, floors_off, in_window, is_fifth, row_floor, view_bottom};
use dot_tower::PerType;

#[test]
fn the_return_line_says_how_long_in_hours_and_minutes() {
    // 8 hours 4 minutes away.
    assert_eq!(away_text(8 * 60 + 4), "8h 04m");
    assert_eq!(away_text(60), "1h 00m");
    assert_eq!(away_text(59), "59m");
    assert_eq!(away_text(6), "6m");
    assert_eq!(away_text(125), "2h 05m");
}

#[test]
fn a_grant_is_counted_in_ranks() {
    assert_eq!(ranks_text(0), "not yet a rank");
    assert_eq!(ranks_text(1), "enough for 1 rank");
    assert_eq!(ranks_text(2), "enough for 2 ranks");
    assert_eq!(ranks_text(999), "enough for 999 ranks");
}

#[test]
fn the_strip_counts_down_to_the_record() {
    assert_eq!(record_text(400, 380), "record 400 - peak 380 - 21 to beat");
    assert_eq!(record_text(400, 400), "record 400 - peak 400 - 1 to beat");
}

#[test]
fn the_lock_label_says_how_far_off_it_is() {
    assert_eq!(lock_off_text(310, 12), "lock 310 - 12 floors off");
    assert_eq!(floors_off(310, 15, 313), 12);
    assert_eq!(floors_off(310, 15, 400), 0);
}

#[test]
fn the_ledger_names_every_count_prestige_destroys() {
    let run = RunCounts { peak: 412, lock_level: 30, ranks: PerType::new(56, 54, 51) };
    let losses = count_losses(&run);
    let got: Vec<(&str, &str)> = losses.iter().map(|(l, t)| (*l, t.as_str())).collect();
    assert_eq!(
        got,
        vec![
            ("floor reached", "412 → 1"),
            ("locks", "30 → 0"),
            ("melee rank", "56 → 1"),
            ("ranged rank", "54 → 1"),
            ("healer rank", "51 → 1"),
        ]
    );
    assert_eq!(stationed_loss("tank", 9), "tank on floor 9 → unstationed");
}

#[test]
fn type_names_are_fixed() {
    assert_eq!(ClimberType::Melee.name(), "melee");
    assert_eq!(ClimberType::Ranged.name(), "ranged");
    assert_eq!(ClimberType::Healer.name(), "healer");
    assert_eq!(ClimberType::ALL, [ClimberType::Melee, ClimberType::Ranged, ClimberType::Healer]);
}

#[test]
fn per_type_holds_one_value_each() {
    let mut p = PerType::new(1, 2, 3);
    assert_eq!(*p.get(ClimberType::Ranged), 2);
    *p.get_mut(ClimberType::Healer) += 10;
    assert_eq!(p, PerType::new(1, 2, 13));
    let pairs: Vec<(ClimberType, u32)> = p.iter().into_iter().map(|(t, v)| (t, *v)).collect();
    assert_eq!(pairs, vec![(ClimberType::Melee, 1), (ClimberType::Ranged, 2), (ClimberType::Healer, 13)]);
    assert_eq!(PerType::splat(7u32), PerType::new(7, 7, 7));
    assert_eq!(PerType::<u32>::default(), PerType::splat(0));
}

#[test]
fn the_column_follows_the_frontier_clamped_at_the_lock_line() {
    // Frontier 100, three rows of headroom: the window is 91..=103.
    assert_eq!(view_bottom(100, 81), 91);
    // The lock line wins when the frontier is close to it.
    assert_eq!(view_bottom(100, 95), 95);
    // Early on nothing is below floor 0.
    assert_eq!(view_bottom(2, 0), 0);
    assert_eq!(row_floor(91, 0), 103);
    assert_eq!(row_floor(91, 12), 91);
    assert!(in_window(91, 103) && !in_window(91, 104) && !in_window(91, 90));
    assert!(is_fifth(0) && is_fifth(95) && !is_fifth(96));
    assert!(!floor_named(0) && floor_named(95) && !floor_named(96));
}

#[test]
fn the_first_sleep_wins_and_only_time_away_is_paid() {
    let mut rest = Rest::awake();
    assert!(rest.sleep(Asleep::Away, 1_000));
    assert!(!rest.sleep(Asleep::Away, 2_000), "suspend after focus loss changes nothing");
    assert_eq!(rest.asleep(), Some(Asleep::Away));
    assert_eq!(rest.wake(), Some(1_000));
    assert_eq!(rest.asleep(), None);

    rest.set_deciding(true, 5_000);
    assert_eq!(rest.asleep(), Some(Asleep::Deciding));
    rest.set_deciding(false, 6_000);
    assert_eq!(rest.asleep(), None);

    rest.set_deciding(true, 7_000);
    assert_eq!(rest.wake(), None, "reading the ledger is not time away");

    // Closing the ledger does not wake a world that went away underneath it.
    let mut rest = Rest::awake();
    rest.sleep(Asleep::Away, 8_000);
    rest.set_deciding(false, 9_000);
    assert_eq!(rest.asleep(), Some(Asleep::Away));
}

#[test]
fn counts_are_written_in_plain_decimal() {
    assert_eq!(decimal_text(0), "0");
    assert_eq!(decimal_text(7), "7");
    assert_eq!(decimal_text(10), "10");
    assert_eq!(decimal_text(4_000_000), "4000000");
    assert_eq!(decimal_text(u64::MAX), u64::MAX.to_string());
}

#[test]
fn losing_focus_saves_once_and_stops_the_world_until_focus_returns() {
    let mut rest = Rest::awake();
    assert!(rest.ticks());
    let owed = rest.take(Happening::FocusLost, 1_000);
    assert_eq!(owed, Owed { save: Some(Trigger::FocusLost), paid_from: None });
    assert!(!rest.ticks());
    // Suspend arrives too; the first put-down wins and nothing is saved twice.
    assert_eq!(rest.take(Happening::Suspended, 2_000), Owed { save: None, paid_from: None });
    // The ledger closing does not wake a world that is away.
    assert_eq!(rest.take(Happening::LedgerClosed, 2_500), Owed { save: None, paid_from: None });
    assert!(!rest.ticks());
    assert_eq!(rest.asleep(), Some(Asleep::Away));
    // Focus returns: the world runs again, and time away is paid from 1_000.
    assert_eq!(rest.take(Happening::FocusGained, 9_000), Owed { save: None, paid_from: Some(1_000) });
    assert!(rest.ticks());
}

#[test]
fn the_ledger_stops_the_world_and_owes_nothing() {
    let mut rest = Rest::awake();
    assert_eq!(rest.take(Happening::LedgerOpened, 10), Owed { save: None, paid_from: None });
    assert!(!rest.ticks());
    assert_eq!(rest.take(Happening::LedgerClosed, 20), Owed { save: None, paid_from: None });
    assert!(rest.ticks());
    assert_eq!(rest.take(Happening::Suspended, 30), Owed { save: Some(Trigger::Suspended), paid_from: None });
    assert_eq!(rest.take(Happening::Resumed, 40), Owed { save: None, paid_from: Some(30) });
}

#[test]
fn the_count_settings_are_checked() {
    assert_eq!(pack_problem(0), Some("pack_size must be >= 1".to_string()));
    assert_eq!(pack_problem(1), None);
    assert_eq!(
        composition_problem(&PerType::new(0, 0, 0)),
        Some("composition is all zero \u{2014} the stream would never spawn".to_string())
    );
    assert_eq!(composition_problem(&PerType::new(0, 0, 2)), None);
}

#[test]
fn marks_show_only_what_is_there() {
    let scene = Scene {
        bottom: 100,
        hero_floor: 105,
        hero_alive: true,
        aura_lit: false,
        hero_health_left: true,
        record: 90,
        lock_line: 91,
        climbers_shown: 3,
    };
    // An inert aura is not lit, and neither is its callout.
    assert!(!mark_shown(Mark::Aura, &scene));
    assert!(!mark_shown(Mark::AuraCallout, &scene));
    assert!(mark_shown(Mark::Aura, &Scene { aura_lit: true, ..scene }));
    // The record sits below the window.
    assert!(!mark_shown(Mark::RecordLine, &scene));
    assert!(mark_shown(Mark::RecordLabel, &Scene { record: 112, ..scene }));
    assert!(!mark_shown(Mark::RecordLine, &Scene { record: 113, ..scene }));
    assert!(!mark_shown(Mark::RecordLine, &Scene { record: 0, bottom: 0, ..scene }));
    assert!(mark_shown(Mark::LockLine, &scene));
    assert!(!mark_shown(Mark::LockLine, &Scene { lock_line: 0, ..scene }));
    assert!(mark_shown(Mark::Climber(2), &scene));
    assert!(!mark_shown(Mark::Climber(3), &scene));
    assert!(mark_shown(Mark::Hero, &scene));
    assert!(mark_shown(Mark::HeroHealth, &scene));
    assert!(!mark_shown(Mark::HeroHealth, &Scene { hero_health_left: false, ..scene }));
    assert!(!mark_shown(Mark::HeroCountdown, &scene));
    let dead = Scene { hero_alive: false, ..scene };
    assert!(mark_shown(Mark::HeroCountdown, &dead));
    assert!(!mark_shown(Mark::Hero, &dead));
    assert!(!mark_shown(Mark::Hero, &Scene { hero_floor: 200, ..scene }));
    assert!(mark_shown(Mark::WallHatch, &scene));
}
