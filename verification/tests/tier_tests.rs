use silver_consensus::types::{Error, ValidatorID};
use silver_consensus::validator_tiers::{ValidatorTier, ValidatorTierInfo, ValidatorTierManager};

#[test]
fn tier_for_stake_boundaries() {
    assert_eq!(ValidatorTier::from_stake(0), ValidatorTier::Bronze);
    assert_eq!(ValidatorTier::from_stake(49_999), ValidatorTier::Bronze);
    assert_eq!(ValidatorTier::from_stake(50_000), ValidatorTier::Silver);
    assert_eq!(ValidatorTier::from_stake(99_999), ValidatorTier::Silver);
    assert_eq!(ValidatorTier::from_stake(100_000), ValidatorTier::Gold);
    assert_eq!(ValidatorTier::from_stake(500_000), ValidatorTier::Platinum);
    assert_eq!(ValidatorTier::from_stake(u64::MAX), ValidatorTier::Platinum);
}

#[test]
fn tier_properties() {
    assert_eq!(ValidatorTier::Bronze.min_stake(), 10_000);
    assert_eq!(ValidatorTier::Platinum.min_stake(), 500_000);
    assert_eq!(ValidatorTier::Silver.voting_power_halves(), 2);
    assert_eq!(ValidatorTier::Gold.reward_multiplier_percent(), 150);
    assert_eq!(ValidatorTier::Gold.name(), "Gold");
    assert_eq!(ValidatorTier::Platinum.to_string(), "Platinum");
    assert_eq!(
        ValidatorTier::all_tiers(),
        vec![
            ValidatorTier::Bronze,
            ValidatorTier::Silver,
            ValidatorTier::Gold,
            ValidatorTier::Platinum
        ]
    );
    assert!(ValidatorTier::Bronze.can_upgrade_to(ValidatorTier::Gold, 100_000));
    assert!(!ValidatorTier::Bronze.can_upgrade_to(ValidatorTier::Gold, 99_999));
    assert!(!ValidatorTier::Gold.can_upgrade_to(ValidatorTier::Silver, 1_000_000));
    assert_eq!(ValidatorTier::Gold.will_downgrade_to(60_000), Some(ValidatorTier::Silver));
    assert_eq!(ValidatorTier::Gold.will_downgrade_to(100_000), None);
}

#[test]
fn tier_info_updates_and_history() {
    let mut info = ValidatorTierInfo::new(ValidatorID::from_name("v"), 20_000, 0);
    assert_eq!(info.current_tier, ValidatorTier::Bronze);
    assert_eq!(info.effective_voting_power(), 10_000);
    assert!(info.update_stake_at(30_000, 1, 5).is_none());
    let up = info.update_stake_at(120_000, 2, 6).unwrap();
    assert_eq!(up.from_tier, ValidatorTier::Bronze);
    assert_eq!(up.to_tier, ValidatorTier::Gold);
    assert!(up.is_upgrade());
    assert!(!up.is_downgrade());
    assert_eq!(info.effective_voting_power(), 180_000);
    assert_eq!(info.reward_multiplier_percent(), 150);
    assert_eq!(
        info.upgrade_path(),
        vec![(ValidatorTier::Platinum, 380_000)]
    );
    let down = info.update_stake_at(60_000, 3, 7).unwrap();
    assert!(down.is_downgrade());
    assert_eq!(info.tier_change_count(), 2);
    assert_eq!(info.last_tier_change().unwrap().to_tier, ValidatorTier::Silver);
}

#[test]
fn manager_registration_and_queries() {
    let mut m = ValidatorTierManager::new();
    let a = ValidatorID::from_name("a");
    let b = ValidatorID::from_name("b");
    assert_eq!(
        m.register_validator(a.clone(), 9_999),
        Err(Error::StakeBelowMinimum { stake: 9_999, minimum: 10_000 })
    );
    assert_eq!(m.register_validator(a.clone(), 600_000), Ok(ValidatorTier::Platinum));
    assert_eq!(m.register_validator(a.clone(), 600_000), Err(Error::AlreadyRegistered));
    assert_eq!(m.register_validator(b.clone(), 50_000), Ok(ValidatorTier::Silver));

    assert_eq!(m.get_tier(&a), Some(ValidatorTier::Platinum));
    assert_eq!(m.get_voting_power(&a), 1_200_000);
    assert_eq!(m.get_voting_power(&ValidatorID::from_name("x")), 0);
    assert_eq!(m.get_reward_multiplier_percent(&b), 120);
    assert_eq!(m.get_reward_multiplier_percent(&ValidatorID::from_name("x")), 100);
    assert_eq!(m.total_voting_power(), 1_250_000);
    assert_eq!(m.get_validators_by_tier(ValidatorTier::Silver), vec![b.clone()]);

    let ev = m.update_validator_stake_at(&b, 100_000, 9).unwrap().unwrap();
    assert_eq!(ev.to_tier, ValidatorTier::Gold);
    assert_eq!(ev.timestamp, 9);
    assert_eq!(m.get_tier_changes().len(), 1);
    assert_eq!(m.get_validator_tier_changes(&b).len(), 1);
    assert_eq!(
        m.update_validator_stake_at(&b, 5, 10).err(),
        Some(Error::StakeBelowMinimum { stake: 5, minimum: 10_000 })
    );
    assert_eq!(
        m.update_validator_stake_at(&ValidatorID::from_name("x"), 50_000, 10).err(),
        Some(Error::NotFound)
    );

    assert!(m.remove_validator(&a).is_ok());
    assert_eq!(m.remove_validator(&a), Err(Error::NotFound));
    assert_eq!(m.validator_count(), 1);
    m.advance_cycle();
    assert_eq!(m.current_cycle(), 1);
}
