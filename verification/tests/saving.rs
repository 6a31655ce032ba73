use dot_tower::offline::away_time;
use dot_tower::save::{
    new_territory, raise_counts, MomentId, Repairs, RunCounts, Standing, VersionProbe,
    SCHEMA_VERSION,
};
use dot_tower::slot::{now_unix_millis, unix_millis, BackupFile, Error, Outcome, PrimaryFile, SaveSlot, Trigger};
use dot_tower::text::notice;
use dot_tower::tuning::PrestigeBasis;
use dot_tower::PerType;

const ALL_TRIGGERS: [Trigger; 4] = [Trigger::FocusLost, Trigger::Suspended, Trigger::Timer, Trigger::Prestige];

fn usable_backup() -> BackupFile {
    BackupFile::Read { probed: Some(SCHEMA_VERSION), parses: true }
}

#[test]
fn a_first_launch_says_nothing() {
    let mut slot = SaveSlot::new("scratch".to_string());
    let plan = slot.plan_load(PrimaryFile::Missing, BackupFile::Unreadable);
    assert_eq!(plan.outcome, Outcome::FreshStart);
    assert!(!plan.rotate_backup && !plan.quarantine_primary);
    assert!(slot.writes_armed());
    assert!(
        notice(plan.outcome, &Repairs(Vec::new()), 1, "0").is_none(),
        "a first launch must not apologise"
    );
}

#[test]
fn a_clean_load_restores_and_rotates_the_backup() {
    let mut slot = SaveSlot::new("scratch".to_string());
    let plan = slot.plan_load(PrimaryFile::Read { probed: Some(1), parses: true }, BackupFile::Unreadable);
    assert_eq!(plan.outcome, Outcome::Restored);
    assert!(plan.rotate_backup, "loading rotates the backup");
    assert!(!plan.quarantine_primary);
    assert!(slot.writes_armed());
    assert!(notice(plan.outcome, &Repairs(Vec::new()), 412, "0").is_none(), "a clean load says nothing");
}

#[test]
fn writing_never_rotates_the_backup() {
    // A write is only ever checked against the arming; nothing about it asks
    // for the backup to move, so the backup stays the state the last session
    // ended in.
    let slot = SaveSlot::new("scratch".to_string());
    for trigger in ALL_TRIGGERS {
        assert!(slot.check_write(trigger).is_ok());
    }
}

#[test]
fn a_corrupt_save_is_quarantined_and_restored_from_the_backup() {
    let mut slot = SaveSlot::new("scratch".to_string());
    let plan = slot.plan_load(PrimaryFile::Read { probed: None, parses: false }, usable_backup());
    assert_eq!(plan.outcome, Outcome::RestoredFromBackup);
    assert!(plan.quarantine_primary, "the unreadable file is the only evidence a bug report will carry");
    assert!(!plan.rotate_backup);

    let text = notice(plan.outcome, &Repairs(Vec::new()), 412, "108").expect("must say something");
    assert!(text.contains("floor 412"), "{text}");
    assert!(text.contains("head start 108 floors"), "{text}");
    assert!(!text.to_lowercase().contains("parse"), "spoke in machinery: {text}");
}

#[test]
fn a_corrupt_save_with_no_backup_is_lost_but_kept() {
    let mut slot = SaveSlot::new("scratch".to_string());
    let plan = slot.plan_load(PrimaryFile::Read { probed: Some(1), parses: false }, BackupFile::Unreadable);
    assert_eq!(plan.outcome, Outcome::Lost);
    assert!(plan.quarantine_primary);
    let text = notice(plan.outcome, &Repairs(Vec::new()), 1, "0").unwrap();
    assert!(text.contains("no backup"), "{text}");
    assert!(text.contains("has been kept"), "{text}");
}

#[test]
fn a_newer_save_disarms_every_write() {
    let mut slot = SaveSlot::new("scratch".to_string());
    let plan = slot.plan_load(
        PrimaryFile::Read { probed: Some(SCHEMA_VERSION + 5), parses: true },
        BackupFile::Unreadable,
    );
    assert!(matches!(plan.outcome, Outcome::RefusedNewerVersion { .. }));
    assert!(!slot.writes_armed());
    for trigger in ALL_TRIGGERS {
        assert!(
            matches!(slot.check_write(trigger), Err(Error::WritesDisarmed)),
            "{trigger:?} was still allowed to write over a newer save"
        );
    }
    // The newer save is neither moved nor rotated into the backup.
    assert!(!plan.quarantine_primary);
    assert!(!plan.rotate_backup);
}

#[test]
fn a_newer_save_names_both_versions() {
    let mut slot = SaveSlot::new("scratch".to_string());
    let plan = slot.plan_load(PrimaryFile::Read { probed: Some(99), parses: false }, usable_backup());
    assert_eq!(plan.outcome, Outcome::RefusedNewerVersion { found: 99, known: 1 });
    let text = notice(plan.outcome, &Repairs(Vec::new()), 1, "0").unwrap();
    assert!(text.contains("save 99, this build reads 1"), "{text}");
}

#[test]
fn the_player_can_choose_to_start_over_after_a_newer_save() {
    let mut slot = SaveSlot::new("scratch".to_string());
    slot.plan_load(PrimaryFile::Read { probed: Some(SCHEMA_VERSION + 1), parses: true }, BackupFile::Unreadable);
    slot.arm_writes_and_discard_newer_save();
    assert!(slot.check_write(Trigger::Prestige).is_ok());
}

#[test]
fn an_unreadable_primary_disarms_writes_and_falls_back() {
    let mut slot = SaveSlot::new("scratch".to_string());
    let plan = slot.plan_load(PrimaryFile::Unreadable, usable_backup());
    assert_eq!(plan.outcome, Outcome::RestoredFromBackup);
    assert!(!slot.writes_armed());
    assert!(!plan.quarantine_primary);

    let mut slot = SaveSlot::new("scratch".to_string());
    let plan = slot.plan_load(PrimaryFile::Unreadable, BackupFile::Unreadable);
    assert_eq!(plan.outcome, Outcome::Lost);
}

#[test]
fn a_missing_primary_behind_a_good_backup_is_not_a_first_launch() {
    let mut slot = SaveSlot::new("scratch".to_string());
    let plan = slot.plan_load(PrimaryFile::Missing, usable_backup());
    assert_eq!(
        plan.outcome,
        Outcome::RestoredFromBackup,
        "silently started a new game on top of a live backup"
    );
    assert!(slot.writes_armed());
}

#[test]
fn a_newer_backup_is_not_restored() {
    let mut slot = SaveSlot::new("scratch".to_string());
    let plan = slot.plan_load(PrimaryFile::Missing, BackupFile::Read { probed: Some(2), parses: true });
    assert_eq!(plan.outcome, Outcome::FreshStart);
}

#[test]
fn a_save_that_does_not_validate_falls_back_to_the_backup() {
    let mut slot = SaveSlot::new("scratch".to_string());
    let plan = slot.plan_load(PrimaryFile::Read { probed: Some(1), parses: false }, usable_backup());
    assert_eq!(plan.outcome, Outcome::RestoredFromBackup);
    assert!(plan.quarantine_primary);
}

#[test]
fn repairs_are_told_in_the_games_own_terms() {
    let repairs = Repairs(vec!["gold was -1, raised to 0".to_string(), "melee rank was 0, raised to 1".to_string()]);
    let text = notice(Outcome::Restored, &repairs, 1, "0").unwrap();
    assert_eq!(
        text,
        "Your save needed repairing before it could be loaded: gold was -1, raised to 0; melee rank was 0, raised to 1."
    );
}

#[test]
fn slot_paths_sit_in_the_directory() {
    let slot = SaveSlot::new("/home/p/.config/dot-tower".to_string());
    assert_eq!(slot.dir(), "/home/p/.config/dot-tower");
    assert_eq!(slot.primary_path(), "/home/p/.config/dot-tower/save.ron");
    assert_eq!(slot.backup_path(), "/home/p/.config/dot-tower/save.backup.ron");
    let slot = SaveSlot::new("saves/".to_string());
    assert_eq!(slot.primary_path(), "saves/save.ron");
}

#[test]
fn prestige_is_the_type_and_nothing_else() {
    let mut account = Standing::fresh();
    let mut run = RunCounts { peak: 412, lock_level: 30, ranks: PerType::new(56, 54, 51) };
    let paid = account.prestige(&mut run, PrestigeBasis::BeyondBest);
    assert_eq!(paid, 412);
    assert_eq!(run, RunCounts::fresh(), "prestige is `run = Run::default()`");
    assert_eq!(account.best_peak, 412, "the account keeps the peak it scored");
    assert_eq!(account.prestige_count, 1);
}

#[test]
fn re_conquering_old_ground_earns_nothing() {
    let mut account = Standing::fresh();
    let mut run = RunCounts { peak: 400, ..RunCounts::fresh() };
    assert_eq!(account.prestige(&mut run, PrestigeBasis::BeyondBest), 400);
    for _ in 0..10 {
        run.peak = 399;
        assert_eq!(account.prestige(&mut run, PrestigeBasis::BeyondBest), 0, "a run inside the record paid out");
    }
    assert_eq!(account.best_peak, 400, "and the record did not move");
    assert_eq!(account.prestige_count, 11);
    // Under the old basis the same runs were paid in full.
    assert_eq!(new_territory(PrestigeBasis::Peak, 399, 400), 399);
    // Past the record, only the new floors count.
    assert_eq!(new_territory(PrestigeBasis::BeyondBest, 430, 400), 30);
}

#[test]
fn a_fresh_account_is_unaffected_by_the_new_basis() {
    assert_eq!(
        new_territory(PrestigeBasis::BeyondBest, 147, 0),
        new_territory(PrestigeBasis::Peak, 147, 0)
    );
    assert_eq!(new_territory(PrestigeBasis::BeyondBest, 147, 0), 147);
    assert_eq!(PrestigeBasis::default(), PrestigeBasis::BeyondBest);
}

#[test]
fn validation_raises_counts_but_never_lowers_them() {
    let mut run = RunCounts { peak: 0, lock_level: 3, ranks: PerType::new(0, 7, 0) };
    let mut best = 0;
    let mut repairs = Repairs(Vec::new());
    raise_counts(&mut run, &mut best, &mut repairs);
    assert_eq!(run, RunCounts { peak: 1, lock_level: 3, ranks: PerType::new(1, 7, 1) });
    assert_eq!(best, 1);
    assert_eq!(
        repairs.0,
        vec![
            "melee rank was 0, raised to 1".to_string(),
            "healer rank was 0, raised to 1".to_string(),
            "peak floor was 0, raised to 1".to_string(),
        ]
    );
    assert!(!repairs.is_empty());

    // A rich save stays rich, and a record behind the run is brought up.
    let mut run = RunCounts { peak: 900, lock_level: 80, ranks: PerType::new(4_000_000, 9, 12) };
    let mut best = 700;
    let mut repairs = Repairs(Vec::new());
    raise_counts(&mut run, &mut best, &mut repairs);
    assert_eq!(run.ranks, PerType::new(4_000_000, 9, 12));
    assert_eq!(run.peak, 900);
    assert_eq!(best, 900);
    assert!(repairs.is_empty());
}

#[test]
fn offline_gold_pays_the_best_rate_up_to_the_cap() {
    let cap = 12 * 3_600_000;
    // An hour away.
    let a = away_time(1_000_000, 1_000_000 + 3_600_000, cap);
    assert_eq!(a.elapsed_millis, 3_600_000);
    assert_eq!(a.paid_millis, 3_600_000);
    assert!(!a.capped);
    assert_eq!(100.0 * (a.paid_millis as f64 / 1000.0), 360_000.0);

    // A week away pays twelve hours.
    let a = away_time(1_000_000, 1_000_000 + 7 * 24 * 3_600_000, cap);
    assert_eq!(a.paid_millis, 12 * 3_600_000);
    assert_eq!(100.0 * (a.paid_millis as f64 / 1000.0), 100.0 * 12.0 * 3600.0);
    assert!(a.capped);
}

#[test]
fn a_clock_that_jumps_backwards_pays_nothing_rather_than_negative() {
    let a = away_time(5_000_000, 1_000, 12 * 3_600_000);
    assert_eq!(a.elapsed_millis, 0);
    assert_eq!(a.paid_millis, 0);
    assert_eq!(100.0 * (a.paid_millis as f64 / 1000.0), 0.0);
    assert!(!a.capped);
}

#[test]
fn moments_and_versions() {
    assert_eq!(MomentId::first_prestige().0, "first-prestige");
    assert_eq!(MomentId::first_relic().0, "first-relic");
    assert_eq!(MomentId::first_wall().0, "first-wall");
    assert_eq!(MomentId::first_offline_return().0, "first-offline-return");
    assert!(VersionProbe { version: 99 }.is_newer());
    assert!(!VersionProbe { version: SCHEMA_VERSION }.is_newer());
    assert!(!VersionProbe { version: 0 }.is_newer());
}

#[test]
fn the_clock_reads_in_unix_milliseconds() {
    // Any machine running this is past 2020-01-01 and before 2200-01-01.
    let now = now_unix_millis();
    assert!(now > 1_577_836_800_000, "{now}");
    assert!(now < 7_258_118_400_000, "{now}");
}

#[test]
fn a_clock_before_1970_reads_zero() {
    assert_eq!(unix_millis(None), 0);
    assert_eq!(unix_millis(Some(1_700_000_000_123)), 1_700_000_000_123);
    assert_eq!(unix_millis(Some((1u128 << 64) + 5)), 5);
}

#[test]
fn repairs_start_empty_and_moments_order_by_name() {
    assert!(Repairs::default().is_empty());
    assert!(MomentId::first_prestige() < MomentId::first_relic());
    assert!(MomentId::first_offline_return() < MomentId::first_prestige());
    assert_eq!(MomentId::first_wall().cmp(&MomentId::first_wall()), std::cmp::Ordering::Equal);
}

#[test]
fn writes_stay_disarmed_from_a_bad_load_until_the_player_starts_over() {
    let mut slot = SaveSlot::new("saves".to_string());
    let good = PrimaryFile::Read { probed: Some(SCHEMA_VERSION), parses: true };
    let newer = PrimaryFile::Read { probed: Some(SCHEMA_VERSION + 1), parses: false };
    slot.plan_load(good, BackupFile::Unreadable);
    assert!(slot.check_write(Trigger::Timer).is_ok());
    slot.plan_load(PrimaryFile::Unreadable, BackupFile::Unreadable);
    assert!(slot.check_write(Trigger::FocusLost).is_err());
    // A later clean load does not re-arm, and neither does a write.
    slot.plan_load(good, BackupFile::Unreadable);
    assert!(slot.check_write(Trigger::Prestige).is_err());
    slot.arm_writes_and_discard_newer_save();
    assert!(slot.check_write(Trigger::Timer).is_ok());
    slot.plan_load(newer, BackupFile::Unreadable);
    assert!(!slot.writes_armed());
    slot.plan_load(PrimaryFile::Missing, BackupFile::Unreadable);
    assert!(!slot.writes_armed());
}
