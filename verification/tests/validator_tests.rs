use silver_consensus::staking::StakingManager;
use silver_consensus::types::{Error, SilverAddress, ValidatorID};
use silver_consensus::validator::{ValidatorInfo, ValidatorMetadata, ValidatorSet};

fn create_test_validator(id: u8, stake: u64) -> ValidatorMetadata {
    ValidatorMetadata::new(
        SilverAddress::new(vec![id; 64]),
        stake,
        "127.0.0.1:9000".to_string(),
        "127.0.0.1:9001".to_string(),
    )
}

fn create_test_validator_id(id: u8) -> ValidatorID {
    create_test_validator(id, 50_000).id()
}

#[test]
fn test_validator_set_add() {
    let mut set = ValidatorSet::new();
    let metadata = create_test_validator(1, 1_000_000);
    let id = metadata.id();

    assert!(set.add_validator(metadata).is_ok());
    assert!(set.contains_validator(&id));
    assert_eq!(set.validator_count(), 1);
    assert_eq!(set.total_stake(), 1_000_000);
}

#[test]
fn add_validator_twice_is_refused() {
    let mut set = ValidatorSet::with_min_stake(500);
    assert!(set.add_validator(create_test_validator(1, 500)).is_ok());
    assert_eq!(
        set.add_validator(create_test_validator(1, 900)),
        Err(Error::AlreadyRegistered)
    );
    assert_eq!(set.total_stake(), 500);
    assert!(set.remove_validator(&create_test_validator_id(1)).is_ok());
    assert_eq!(set.total_stake(), 0);
    assert_eq!(
        set.remove_validator(&create_test_validator_id(1)),
        Err(Error::NotFound)
    );
}

#[test]
fn test_validator_set_quorum() {
    let mut set = ValidatorSet::new();

    // Add 3 validators with equal stake
    for i in 1..=3 {
        let metadata = create_test_validator(i, 1_000_000);
        set.add_validator(metadata).unwrap();
    }

    assert_eq!(set.total_stake(), 3_000_000);

    // 2 validators = 2/3 stake = quorum
    let val1 = create_test_validator(1, 1_000_000).id();
    let val2 = create_test_validator(2, 1_000_000).id();
    assert!(set.has_quorum(&[val1.clone(), val2]));

    // 1 validator = 1/3 stake = no quorum
    assert!(!set.has_quorum(&[val1]));
}

#[test]
fn stake_weight_ignores_unknown_validators() {
    let mut set = ValidatorSet::new();
    set.add_validator(create_test_validator(1, 40_000)).unwrap();
    set.add_validator(create_test_validator(2, 60_000)).unwrap();
    let ids = [create_test_validator_id(2), create_test_validator_id(7)];
    assert_eq!(set.calculate_stake_weight(&ids), 60_000);
    assert!(!set.has_quorum(&ids));
}

#[test]
fn test_validator_participation() {
    let mut info = ValidatorInfo::new(create_test_validator(1, 1_000_000));

    info.record_participation(true);
    info.record_participation(true);
    info.record_participation(false);

    assert_eq!(info.snapshots_participated, 2);
    assert_eq!(info.total_snapshots, 3);
    let rate = info.participation_rate_bps() as f64 / 10_000.0;
    assert!((rate - 0.666).abs() < 0.01);
    assert_eq!(info.participation_rate_bps(), 6666);
}

#[test]
fn test_validator_set_cycle() {
    let mut set = ValidatorSet::new();
    assert_eq!(set.current_cycle(), 0);

    let cycle = set.advance_cycle();
    assert_eq!(cycle, 1);
    assert_eq!(set.current_cycle(), 1);
}

#[test]
fn test_reconfiguration_empty_staking_manager() {
    let mut validator_set = ValidatorSet::new();
    let staking_manager = StakingManager::new();
    let delegations: Vec<(ValidatorID, u64)> = Vec::new();

    // Should fail with no validators
    let result = validator_set.reconfigure_at_cycle_end(&staking_manager, &delegations);
    assert!(result.is_err());
}

#[test]
fn reconfiguration_adds_updates_and_removes() {
    let mut set = ValidatorSet::with_min_stake(2_000_000);
    let mut staking = StakingManager::new();
    let none: Vec<(ValidatorID, u64)> = Vec::new();
    let v1 = create_test_validator_id(1);
    let v2 = create_test_validator_id(2);
    let v3 = create_test_validator_id(3);
    staking.deposit_stake_at(v1.clone(), 2_000_000, vec![1u8; 64], 0).unwrap();
    staking.deposit_stake_at(v2.clone(), 3_000_000, vec![2u8; 64], 0).unwrap();
    staking.deposit_stake_at(v3.clone(), 1_000_000, vec![3u8; 64], 0).unwrap();

    let event = set.reconfigure_at_cycle_end_at(&staking, &none, 7).unwrap();
    assert_eq!(event.added, vec![v1.clone(), v2.clone()]);
    assert!(event.removed.is_empty());
    assert_eq!(event.total_validators, 2);
    assert_eq!(event.total_stake, 5_000_000);
    assert_eq!(event.cycle, 0);
    assert_eq!(event.timestamp, 7);
    assert_eq!(set.validator_count(), 2);

    // v2 unstakes below the minimum, v1 receives a delegation.
    staking.request_unstake_at(&v2, 2_000_000, 0).unwrap();
    let delegations = vec![(v1.clone(), 500), (v3.clone(), 10)];
    set.advance_cycle();
    let event = set.reconfigure_at_cycle_end_at(&staking, &delegations, 8).unwrap();
    assert_eq!(event.removed, vec![v2.clone()]);
    assert!(event.added.is_empty());
    assert_eq!(event.cycle, 1);
    assert_eq!(set.get_validator(&v1).unwrap().stake, 2_000_500);
    assert_eq!(set.total_stake(), 2_000_500);
    assert!(!set.contains_validator(&v2));

    let history = set.get_change_history();
    assert_eq!(history.len(), 2);
    assert_eq!(set.get_cycle_changes(0).len(), 1);
    assert_eq!(set.get_cycle_changes(1)[0].removed.len(), 1);
}

#[test]
fn reconfiguration_preserves_participation() {
    let mut set = ValidatorSet::with_min_stake(1_000_000);
    let mut staking = StakingManager::new();
    let none: Vec<(ValidatorID, u64)> = Vec::new();
    let v1 = create_test_validator_id(1);
    staking.deposit_stake_at(v1.clone(), 1_000_000, vec![1u8; 64], 0).unwrap();
    set.reconfigure_at_cycle_end_at(&staking, &none, 0).unwrap();

    set.record_participation(&v1, true);
    set.record_participation(&v1, true);
    set.record_participation(&v1, false);
    set.reconfigure_at_cycle_end_at(&staking, &none, 1).unwrap();

    let info = set.get_validator(&v1).unwrap();
    assert_eq!(info.snapshots_participated, 2);
    assert_eq!(info.total_snapshots, 3);
}

#[test]
fn reconfiguration_below_set_minimum_is_refused() {
    let mut set = ValidatorSet::with_min_stake(5_000_000);
    let mut staking = StakingManager::new();
    let none: Vec<(ValidatorID, u64)> = Vec::new();
    let v1 = create_test_validator_id(1);
    staking.deposit_stake_at(v1.clone(), 3_000_000, vec![1u8; 64], 0).unwrap();
    assert_eq!(
        set.reconfigure_at_cycle_end_at(&staking, &none, 0).err(),
        Some(Error::NoStakedValidators)
    );
    staking.deposit_stake_at(v1.clone(), 2_000_000, vec![2u8; 64], 0).unwrap();
    assert!(set.reconfigure_at_cycle_end_at(&staking, &none, 0).is_ok());
}

#[test]
fn two_quorums_share_a_third_of_the_stake() {
    let mut set = ValidatorSet::with_min_stake(1);
    for i in 1..=4 {
        set.add_validator(create_test_validator(i, 100)).unwrap();
    }
    let a = [create_test_validator_id(1), create_test_validator_id(2), create_test_validator_id(3)];
    let b = [create_test_validator_id(2), create_test_validator_id(3), create_test_validator_id(4)];
    let common = [create_test_validator_id(2), create_test_validator_id(3)];
    assert!(set.has_quorum(&a));
    assert!(set.has_quorum(&b));
    assert!(set.calculate_stake_weight(&common) * 3 >= set.total_stake());
    assert!(!set.has_quorum(&common));
}

#[test]
fn reconfiguration_holds_exactly_the_eligible_validators() {
    let mut set = ValidatorSet::with_min_stake(1_500_000);
    set.add_validator(create_test_validator(9, 5_000_000)).unwrap();
    let mut staking = StakingManager::new();
    let none: Vec<(ValidatorID, u64)> = Vec::new();
    staking.deposit_stake_at(create_test_validator_id(1), 2_000_000, vec![1u8; 64], 0).unwrap();
    staking.deposit_stake_at(create_test_validator_id(2), 1_000_000, vec![2u8; 64], 0).unwrap();
    let event = set.reconfigure_at_cycle_end_at(&staking, &none, 0).unwrap();
    // validator 9 has no stake in the staking manager and leaves
    assert_eq!(event.removed, vec![create_test_validator_id(9)]);
    assert_eq!(event.added, vec![create_test_validator_id(1)]);
    assert!(set.contains_validator(&create_test_validator_id(1)));
    assert!(!set.contains_validator(&create_test_validator_id(2)));
    assert_eq!(set.validator_count(), 1);
    assert_eq!(set.total_stake(), 2_000_000);
}

// The reconfiguration scenarios below keep the shape of the original
// ones; the amounts are a hundred times larger so that every deposit meets
// the staking minimum of 1,000,000.

#[test]
fn test_reconfiguration_add_validators() {
    let mut validator_set = ValidatorSet::with_min_stake(1_000_000);
    let mut staking_manager = StakingManager::new();
    let delegations: Vec<(ValidatorID, u64)> = Vec::new();

    let val1_id = create_test_validator_id(1);
    let val2_id = create_test_validator_id(2);
    let val3_id = create_test_validator_id(3);

    staking_manager.deposit_stake(val1_id.clone(), 5_000_000, vec![1u8; 64]).unwrap();
    staking_manager.deposit_stake(val2_id.clone(), 10_000_000, vec![2u8; 64]).unwrap();
    staking_manager.deposit_stake(val3_id.clone(), 15_000_000, vec![3u8; 64]).unwrap();

    let event = validator_set.reconfigure_at_cycle_end(&staking_manager, &delegations).unwrap();

    assert_eq!(event.added.len(), 3);
    assert_eq!(event.removed.len(), 0);
    assert_eq!(event.total_validators, 3);
    assert_eq!(event.total_stake, 30_000_000);
    assert_eq!(validator_set.validator_count(), 3);
}

#[test]
fn test_reconfiguration_remove_validators() {
    let mut validator_set = ValidatorSet::with_min_stake(1_000_000);
    let mut staking_manager = StakingManager::new();
    let delegations: Vec<(ValidatorID, u64)> = Vec::new();

    let val1_id = create_test_validator_id(1);
    let val2_id = create_test_validator_id(2);
    let val3_id = create_test_validator_id(3);

    staking_manager.deposit_stake(val1_id.clone(), 5_000_000, vec![1u8; 64]).unwrap();
    staking_manager.deposit_stake(val2_id.clone(), 10_000_000, vec![2u8; 64]).unwrap();
    staking_manager.deposit_stake(val3_id.clone(), 15_000_000, vec![3u8; 64]).unwrap();

    validator_set.reconfigure_at_cycle_end(&staking_manager, &delegations).unwrap();
    assert_eq!(validator_set.validator_count(), 3);

    // Unstake one validator below the minimum.
    staking_manager.request_unstake(&val2_id, 9_500_000).unwrap();

    let event = validator_set.reconfigure_at_cycle_end(&staking_manager, &delegations).unwrap();

    assert_eq!(event.removed.len(), 1);
    assert_eq!(event.removed[0], val2_id);
    assert_eq!(validator_set.validator_count(), 2);
    assert_eq!(validator_set.total_stake(), 20_000_000);
}

#[test]
fn test_reconfiguration_stake_updates() {
    let mut validator_set = ValidatorSet::with_min_stake(1_000_000);
    let mut staking_manager = StakingManager::new();
    let delegations: Vec<(ValidatorID, u64)> = Vec::new();

    let val1_id = create_test_validator_id(1);

    staking_manager.deposit_stake(val1_id.clone(), 5_000_000, vec![1u8; 64]).unwrap();
    validator_set.reconfigure_at_cycle_end(&staking_manager, &delegations).unwrap();

    let info = validator_set.get_validator(&val1_id).unwrap();
    assert_eq!(info.stake, 5_000_000);

    staking_manager.deposit_stake(val1_id.clone(), 5_000_000, vec![2u8; 64]).unwrap();
    validator_set.reconfigure_at_cycle_end(&staking_manager, &delegations).unwrap();

    let info = validator_set.get_validator(&val1_id).unwrap();
    assert_eq!(info.stake, 10_000_000);
    assert_eq!(validator_set.total_stake(), 10_000_000);
}

#[test]
fn test_reconfiguration_change_history() {
    let mut validator_set = ValidatorSet::with_min_stake(1_000_000);
    let mut staking_manager = StakingManager::new();
    let delegations: Vec<(ValidatorID, u64)> = Vec::new();

    let val1_id = create_test_validator_id(1);
    let val2_id = create_test_validator_id(2);

    staking_manager.deposit_stake(val1_id.clone(), 5_000_000, vec![1u8; 64]).unwrap();
    let event1 = validator_set.reconfigure_at_cycle_end(&staking_manager, &delegations).unwrap();
    assert_eq!(event1.cycle, 0);

    validator_set.advance_cycle();

    staking_manager.deposit_stake(val2_id.clone(), 10_000_000, vec![2u8; 64]).unwrap();
    let event2 = validator_set.reconfigure_at_cycle_end(&staking_manager, &delegations).unwrap();
    assert_eq!(event2.cycle, 1);

    let history = validator_set.get_change_history();
    assert_eq!(history.len(), 2);
    assert_eq!(history[0].cycle, 0);
    assert_eq!(history[1].cycle, 1);

    let cycle0_changes = validator_set.get_cycle_changes(0);
    assert_eq!(cycle0_changes.len(), 1);
    assert_eq!(cycle0_changes[0].added.len(), 1);
}

#[test]
fn test_reconfiguration_multiple_cycles() {
    let mut validator_set = ValidatorSet::with_min_stake(1_000_000);
    let mut staking_manager = StakingManager::new();
    let delegations: Vec<(ValidatorID, u64)> = Vec::new();

    // Cycle 0: three validators join.
    for i in 1..=3u8 {
        let val_id = create_test_validator_id(i);
        staking_manager.deposit_stake(val_id, 5_000_000 * i as u64, vec![i; 64]).unwrap();
    }
    let event0 = validator_set.reconfigure_at_cycle_end(&staking_manager, &delegations).unwrap();
    assert_eq!(event0.added.len(), 3);
    assert_eq!(event0.total_validators, 3);

    // Cycle 1: one more joins, one leaves.
    validator_set.advance_cycle();
    let val4_id = create_test_validator_id(4);
    staking_manager.deposit_stake(val4_id, 20_000_000, vec![4; 64]).unwrap();

    let val1_id = create_test_validator_id(1);
    staking_manager.request_unstake(&val1_id, 4_500_000).unwrap();

    let event1 = validator_set.reconfigure_at_cycle_end(&staking_manager, &delegations).unwrap();
    assert_eq!(event1.added.len(), 1);
    assert_eq!(event1.removed.len(), 1);
    assert_eq!(event1.total_validators, 3);

    let history = validator_set.get_change_history();
    assert_eq!(history.len(), 2);
}

#[test]
fn test_min_stake_requirement() {
    let mut validator_set = ValidatorSet::with_min_stake(5_000_000);
    let mut staking_manager = StakingManager::new();
    let delegations: Vec<(ValidatorID, u64)> = Vec::new();

    let val1_id = create_test_validator_id(1);

    // Stake below the set's minimum.
    staking_manager.deposit_stake(val1_id.clone(), 3_000_000, vec![1u8; 64]).unwrap();
    let result = validator_set.reconfigure_at_cycle_end(&staking_manager, &delegations);
    assert!(result.is_err());

    // Stake at the minimum.
    staking_manager.deposit_stake(val1_id.clone(), 2_000_000, vec![2u8; 64]).unwrap();
    let result = validator_set.reconfigure_at_cycle_end(&staking_manager, &delegations);
    assert!(result.is_ok());
}

#[test]
fn test_reconfiguration_preserves_participation() {
    let mut validator_set = ValidatorSet::new();
    let mut staking_manager = StakingManager::new();
    let delegations: Vec<(ValidatorID, u64)> = Vec::new();

    let val1_id = create_test_validator_id(1);
    staking_manager.deposit_stake(val1_id.clone(), 5_000_000, vec![1u8; 64]).unwrap();

    validator_set.reconfigure_at_cycle_end(&staking_manager, &delegations).unwrap();

    validator_set.record_participation(&val1_id, true);
    validator_set.record_participation(&val1_id, true);
    validator_set.record_participation(&val1_id, false);

    let info = validator_set.get_validator(&val1_id).unwrap();
    assert_eq!(info.snapshots_participated, 2);
    assert_eq!(info.total_snapshots, 3);

    validator_set.reconfigure_at_cycle_end(&staking_manager, &delegations).unwrap();

    let info = validator_set.get_validator(&val1_id).unwrap();
    assert_eq!(info.snapshots_participated, 2);
    assert_eq!(info.total_snapshots, 3);
}

#[test]
fn two_quorums_share_an_honest_validator() {
    let mut set = ValidatorSet::new();
    for i in 1..=4u8 {
        set.add_validator(create_test_validator(i, 1_000_000)).unwrap();
    }
    let q1 = [create_test_validator_id(1), create_test_validator_id(2), create_test_validator_id(3)];
    let q2 = [create_test_validator_id(2), create_test_validator_id(3), create_test_validator_id(4)];
    assert!(set.has_quorum(&q1));
    assert!(set.has_quorum(&q2));
    // A faulty third cannot cover both shared members.
    let faulty = [create_test_validator_id(2)];
    assert!(!set.has_quorum(&faulty));
    assert!(set.calculate_stake_weight(&faulty) * 3 < set.total_stake());
    let shared_honest: usize = q1
        .iter()
        .filter(|k| q2.contains(k) && !faulty.contains(k))
        .count();
    assert!(shared_honest >= 1);
}
