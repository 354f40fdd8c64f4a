use silver_consensus::downtime_tracker::{DowntimeConfig, DowntimeEventType, DowntimeTracker};
use silver_consensus::types::ValidatorID;

fn small_config() -> DowntimeConfig {
    DowntimeConfig {
        downtime_threshold: 3,
        recovery_period: 2,
        min_participation_bps: 9_000,
        penalty_reduction_per_snapshot_bps: 100,
    }
}

#[test]
fn threshold_puts_a_validator_into_recovery_once() {
    let mut t = DowntimeTracker::new(small_config());
    let v = ValidatorID::from_name("v");
    for _ in 0..3 {
        t.record_participation(v.clone(), false);
    }
    let rec = t.get_record(&v).unwrap();
    assert_eq!(rec.snapshots_missed, 3);
    assert_eq!(rec.participation_rate_bps, 0);

    let violators = t.check_downtime_violations_at(50);
    assert_eq!(violators, vec![v.clone()]);
    assert!(t.get_record(&v).unwrap().in_recovery);
    assert_eq!(t.get_validators_in_recovery(), vec![v.clone()]);
    // a second check reports nothing new
    assert!(t.check_downtime_violations_at(51).is_empty());
    let events = t.get_validator_events(&v);
    assert_eq!(events.len(), 1);
    assert_eq!(events[0].event_type, DowntimeEventType::ThresholdExceeded);
    assert_eq!(events[0].timestamp, 50);
}

#[test]
fn recovery_forgives_missed_snapshots() {
    let mut t = DowntimeTracker::new(small_config());
    let v = ValidatorID::from_name("v");
    for _ in 0..3 {
        t.record_participation(v.clone(), false);
    }
    t.check_downtime_violations_at(0);
    assert!(t.process_recovery_at(1).is_empty());
    assert_eq!(t.get_penalty_reduction_bps(&v), 100);
    let recovered = t.process_recovery_at(2);
    assert_eq!(recovered, vec![v.clone()]);
    let rec = t.get_record(&v).unwrap();
    assert!(!rec.in_recovery);
    assert_eq!(rec.snapshots_missed, 0);
    assert_eq!(t.get_penalty_reduction_bps(&v), 0);
    assert_eq!(t.recovery_count(), 0);
    assert_eq!(t.event_count(), 2);
}

#[test]
fn low_participation_warns() {
    let mut t = DowntimeTracker::new(small_config());
    let v = ValidatorID::from_name("w");
    for _ in 0..8 {
        t.record_participation(v.clone(), true);
    }
    t.record_participation(v.clone(), false);
    t.record_participation(v.clone(), false);
    // 8 of 10: 8000 bps, below 9000, and 2 missed, below the threshold
    assert_eq!(t.get_record(&v).unwrap().participation_rate_bps, 8_000);
    assert_eq!(t.get_low_participation_validators(), vec![v.clone()]);
    assert!(t.check_downtime_violations_at(7).is_empty());
    let events = t.get_events();
    assert_eq!(events.len(), 1);
    assert_eq!(events[0].event_type, DowntimeEventType::ParticipationWarning);
}

#[test]
fn advancing_the_cycle_resets_counters_outside_recovery() {
    let mut t = DowntimeTracker::default();
    let v = ValidatorID::from_name("v");
    t.record_participation(v.clone(), false);
    assert_eq!(t.current_cycle(), 0);
    t.advance_cycle();
    assert_eq!(t.current_cycle(), 1);
    let rec = t.get_record(&v).unwrap();
    assert_eq!(rec.total_snapshots, 0);
    assert_eq!(rec.snapshots_missed, 0);
    assert_eq!(rec.participation_rate_bps, 10_000);
    assert_eq!(t.validator_count(), 1);
}

#[test]
fn downtime_event_type_text() {
    assert_eq!(DowntimeEventType::ThresholdExceeded.to_string(), "ThresholdExceeded");
    assert_eq!(DowntimeEventType::EnteredRecovery.to_string(), "EnteredRecovery");
    assert_eq!(DowntimeEventType::ExitedRecovery.to_string(), "ExitedRecovery");
    assert_eq!(DowntimeEventType::ParticipationWarning.to_string(), "ParticipationWarning");
}
