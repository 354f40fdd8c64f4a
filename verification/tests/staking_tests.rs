use silver_consensus::staking::{
    StakeDeposit, StakingManager, UnstakingRequest, ValidatorStake, MIN_STAKE_AMOUNT,
    UNBONDING_PERIOD_SECS,
};
use silver_consensus::types::{Error, SilverAddress, ValidatorID};

fn create_test_validator_id(id: u8) -> ValidatorID {
    ValidatorID::new(SilverAddress::new(vec![id; 64]))
}

#[test]
fn test_stake_deposit_minimum() {
    let validator_id = create_test_validator_id(1);

    // Below minimum should fail
    let result = StakeDeposit::new(validator_id.clone(), 999_999, vec![0u8; 64]);
    assert!(result.is_err());

    // At minimum should succeed
    let result = StakeDeposit::new(validator_id, 1_000_000, vec![0u8; 64]);
    assert!(result.is_ok());
}

#[test]
fn deposit_errors_name_their_cause() {
    let id = create_test_validator_id(1);
    let below = StakeDeposit::new_at(id.clone(), 10, vec![0u8; 64], 5);
    assert_eq!(
        below.err(),
        Some(Error::StakeBelowMinimum { stake: 10, minimum: MIN_STAKE_AMOUNT })
    );
    let short = StakeDeposit::new_at(id.clone(), MIN_STAKE_AMOUNT, vec![0u8; 10], 5);
    assert_eq!(short.err(), Some(Error::InvalidDigestLength { length: 10 }));
    let ok = StakeDeposit::new_at(id, MIN_STAKE_AMOUNT, vec![0u8; 64], 5).unwrap();
    assert_eq!(ok.deposited_at, 5);
    assert_eq!(ok.amount, MIN_STAKE_AMOUNT);
}

#[test]
fn test_unstaking_request() {
    let validator_id = create_test_validator_id(1);
    let request = UnstakingRequest::new(validator_id, 1_000_000);

    assert!(!request.is_unbonded());
    assert!(request.remaining_unbonding_time() > 0);
    assert_eq!(request.unbonds_at - request.requested_at, UNBONDING_PERIOD_SECS);
}

#[test]
fn unstaking_request_at_a_given_time() {
    let request = UnstakingRequest::new_at(create_test_validator_id(1), 5, 100);
    assert_eq!(request.unbonds_at, 100 + UNBONDING_PERIOD_SECS);
    assert!(!request.is_unbonded_at(100 + UNBONDING_PERIOD_SECS - 1));
    assert!(request.is_unbonded_at(100 + UNBONDING_PERIOD_SECS));
    assert_eq!(request.remaining_unbonding_time_at(101), UNBONDING_PERIOD_SECS - 1);
    assert_eq!(request.remaining_unbonding_time_at(u64::MAX), 0);
}

#[test]
fn test_validator_stake() {
    let validator_id = create_test_validator_id(1);
    let mut stake = ValidatorStake::new(validator_id.clone());

    // Add deposit
    let deposit = StakeDeposit::new(validator_id.clone(), 2_000_000, vec![0u8; 64]).unwrap();
    stake.add_deposit(deposit);

    assert_eq!(stake.total_stake, 2_000_000);
    assert_eq!(stake.active_stake, 2_000_000);
    assert_eq!(stake.unbonding_stake, 0);

    // Request unstake
    let _request = stake.request_unstake(500_000).unwrap();
    assert_eq!(stake.active_stake, 1_500_000);
    assert_eq!(stake.unbonding_stake, 500_000);
    assert_eq!(stake.total_stake, 2_000_000);
}

#[test]
fn unbonding_completes_after_the_period() {
    let id = create_test_validator_id(1);
    let mut stake = ValidatorStake::new(id.clone());
    stake.add_deposit(StakeDeposit::new_at(id, 2_000_000, vec![0u8; 64], 0).unwrap());
    stake.request_unstake_at(500_000, 10).unwrap();
    assert!(stake.process_unbonding_at(10).is_empty());
    let done = stake.process_unbonding_at(10 + UNBONDING_PERIOD_SECS);
    assert_eq!(done.len(), 1);
    assert_eq!(done[0].amount, 500_000);
    assert_eq!(stake.total_stake, 1_500_000);
    assert_eq!(stake.unbonding_stake, 0);
    assert_eq!(stake.active_stake, 1_500_000);
    assert!(stake.unstaking_requests.is_empty());
}

#[test]
fn unstake_more_than_active_is_refused() {
    let id = create_test_validator_id(1);
    let mut stake = ValidatorStake::new(id.clone());
    stake.add_deposit(StakeDeposit::new_at(id, 1_000_000, vec![0u8; 64], 0).unwrap());
    assert_eq!(
        stake.request_unstake_at(1_000_001, 0).err(),
        Some(Error::InsufficientActiveStake { requested: 1_000_001, active: 1_000_000 })
    );
    assert_eq!(stake.active_stake, 1_000_000);
}

#[test]
fn test_staking_manager() {
    let mut manager = StakingManager::new();
    let validator_id = create_test_validator_id(1);

    // Deposit stake
    manager.deposit_stake(validator_id.clone(), 2_000_000, vec![1u8; 64]).unwrap();
    assert_eq!(manager.total_staked(), 2_000_000);
    assert_eq!(manager.get_active_stake(&validator_id), 2_000_000);

    // Request unstake
    let request = manager.request_unstake(&validator_id, 500_000).unwrap();
    assert_eq!(manager.get_active_stake(&validator_id), 1_500_000);
    assert!(!request.is_unbonded());
}

#[test]
fn test_minimum_stake_requirement() {
    let mut manager = StakingManager::new();
    let validator_id = create_test_validator_id(1);

    // Below minimum
    manager.deposit_stake(validator_id.clone(), 1_000_000, vec![1u8; 64]).unwrap();
    assert!(manager.meets_minimum_stake(&validator_id));

    // Unstake to below minimum
    manager.request_unstake(&validator_id, 500_000).unwrap();
    assert!(!manager.meets_minimum_stake(&validator_id));
}

#[test]
fn test_get_staked_validators() {
    let mut manager = StakingManager::new();

    manager.deposit_stake(create_test_validator_id(1), 1_000_000, vec![1u8; 64]).unwrap();
    manager.deposit_stake(create_test_validator_id(2), 2_000_000, vec![2u8; 64]).unwrap();

    let validators = manager.get_staked_validators();
    assert_eq!(validators.len(), 2);
}

#[test]
fn manager_unbonding_and_removal() {
    let mut manager = StakingManager::new();
    let id = create_test_validator_id(3);
    manager.deposit_stake_at(id.clone(), 1_000_000, vec![3u8; 64], 0).unwrap();
    assert_eq!(manager.remove_validator(&id), Err(Error::StakeStillBonded));
    manager.request_unstake_at(&id, 1_000_000, 0).unwrap();
    assert_eq!(manager.total_staked(), 1_000_000);
    assert!(manager.get_staked_validators().is_empty());
    assert_eq!(manager.get_below_minimum_stake(), vec![id.clone()]);

    let done = manager.process_unbonding_at(UNBONDING_PERIOD_SECS);
    assert_eq!(done.len(), 1);
    assert_eq!(done[0].0, id);
    assert_eq!(manager.total_staked(), 0);
    assert!(manager.remove_validator(&id).is_ok());
    // removing an unknown validator is not an error
    assert!(manager.remove_validator(&id).is_ok());
    assert_eq!(manager.get_active_stake(&id), 0);
}
