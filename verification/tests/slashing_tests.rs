use silver_consensus::slashing::{JailReason, JailRecord, SlashingConfig, SlashingManager};
use silver_consensus::types::{Error, ValidatorID};

fn vid(name: &str) -> ValidatorID {
    ValidatorID::from_name(name)
}

#[test]
fn double_signing_slashes_jails_and_keeps_evidence() {
    let mut m = SlashingManager::default();
    let v = vid("v1");
    let (amount, record) = m
        .slash_for_double_signing_at(v.clone(), 1_000_000, vec![1, 2, 3], 100)
        .unwrap();
    assert_eq!(amount, 100_000);
    assert_eq!(record.reason, JailReason::DoubleSigning);
    assert_eq!(record.jailed_at, 100);
    assert_eq!(record.jail_expires_at, 100 + 86_400);
    assert!(m.is_jailed_at(&v, 100));
    assert_eq!(m.get_total_slashed(&v), 100_000);
    assert_eq!(m.slash_event_count(), 1);

    // The same evidence is refused even after the jail.
    assert_eq!(
        m.slash_for_double_signing_at(v.clone(), 1_000_000, vec![1, 2, 3], 200_000).err(),
        Some(Error::DuplicateEvidence)
    );
    // Other evidence is refused while the validator is jailed.
    assert_eq!(
        m.slash_for_double_signing_at(v.clone(), 1_000_000, vec![9], 200).err(),
        Some(Error::AlreadyJailed)
    );
    // After the jail expires, new evidence is punished again.
    let (amount, _) = m
        .slash_for_double_signing_at(v.clone(), 500_000, vec![9], 100 + 86_400)
        .unwrap();
    assert_eq!(amount, 50_000);
    assert_eq!(m.get_total_slashed(&v), 150_000);
    assert_eq!(m.get_validator_slash_history(&v).len(), 2);
}

#[test]
fn a_slash_that_takes_nothing_is_refused() {
    let mut m = SlashingManager::default();
    assert_eq!(
        m.slash_for_double_signing_at(vid("v"), 9, vec![1], 0).err(),
        Some(Error::ZeroSlash)
    );
    assert_eq!(m.slash_event_count(), 0);
    assert!(!m.is_jailed_at(&vid("v"), 0));
}

#[test]
fn downtime_slash_needs_the_threshold() {
    let mut m = SlashingManager::default();
    let v = vid("v2");
    assert_eq!(
        m.slash_for_downtime_at(v.clone(), 1_000_000, 49, 3, 10).err(),
        Some(Error::DowntimeBelowThreshold { missed: 49, threshold: 50 })
    );
    let (amount, record) = m.slash_for_downtime_at(v.clone(), 1_000_000, 50, 3, 10).unwrap();
    assert_eq!(amount, 10_000);
    assert_eq!(record.reason, JailReason::ExcessiveDowntime);
    assert_eq!(record.snapshots_missed, Some(50));
    assert_eq!(m.get_slash_history()[0].cycle, Some(3));
    assert_eq!(
        m.slash_for_downtime_at(v.clone(), 1_000_000, 60, 3, 11).err(),
        Some(Error::AlreadyJailed)
    );
}

#[test]
fn manual_jail_lift_and_expiry() {
    let mut m = SlashingManager::new(SlashingConfig {
        jail_duration_secs: 50,
        ..SlashingConfig::default()
    });
    let a = vid("a");
    let b = vid("b");
    let ra = m.jail_validator_manual_at(a.clone(), 0, 0).unwrap();
    assert_eq!(ra.slash_amount, 0);
    assert_eq!(ra.reason, JailReason::Manual);
    m.jail_validator_manual_at(b.clone(), 0, 20).unwrap();
    assert_eq!(m.jailed_count_at(30), 2);
    assert_eq!(m.get_jailed_validators_at(30), vec![a.clone(), b.clone()]);

    assert!(m.lift_jail(&a).is_ok());
    assert!(!m.is_jailed_at(&a, 30));
    assert!(m.get_jail_record(&a).unwrap().manually_lifted);
    assert_eq!(m.lift_jail(&vid("nobody")), Err(Error::NotJailed));

    // at 60, b's jail (until 70) is still in force, a's record was lifted
    let released = m.process_expired_jails_at(60);
    assert_eq!(released, vec![a.clone()]);
    assert!(m.get_jail_record(&a).is_none());
    let released = m.process_expired_jails_at(70);
    assert_eq!(released, vec![b.clone()]);
    assert_eq!(m.jailed_count_at(70), 0);
}

#[test]
fn jail_record_times() {
    let mut r = JailRecord::new_at(vid("x"), JailReason::Manual, 0, 100, 1_000);
    assert!(r.is_jailed_at(1_099));
    assert!(!r.is_jailed_at(1_100));
    assert_eq!(r.remaining_jail_time_at(1_040), 60);
    assert_eq!(r.remaining_jail_time_at(5_000), 0);
    r.lift_jail();
    assert!(!r.is_jailed_at(1_000));
    assert_eq!(r.remaining_jail_time_at(1_040), 0);

    let forever = JailRecord::new_at(vid("y"), JailReason::Manual, 0, u64::MAX, 10);
    assert_eq!(forever.jail_expires_at, u64::MAX);
}

#[test]
fn jail_reason_text() {
    assert_eq!(JailReason::DoubleSigning.to_string(), "DoubleSigning");
    assert_eq!(JailReason::ExcessiveDowntime.to_string(), "ExcessiveDowntime");
    assert_eq!(JailReason::Manual.to_string(), "Manual");
}

#[test]
fn config_can_be_replaced() {
    let mut m = SlashingManager::default();
    assert_eq!(m.config().slash_double_signing, 10);
    m.set_config(SlashingConfig { slash_double_signing: 50, ..SlashingConfig::default() });
    let (amount, _) = m.slash_for_double_signing_at(vid("z"), 1_000, vec![7], 0).unwrap();
    assert_eq!(amount, 500);
}
