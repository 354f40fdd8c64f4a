use silver_consensus::types::{Error, SilverAddress};
use silver_consensus::validator::ValidatorMetadata;
use silver_consensus::{ValidatorOperations, MIN_STAKE_AMOUNT};

fn operator_metadata(id: u8, stake: u64) -> ValidatorMetadata {
    ValidatorMetadata::new(
        SilverAddress::new(vec![id; 64]),
        stake,
        "127.0.0.1:9000".to_string(),
        "127.0.0.1:9001".to_string(),
    )
}

#[test]
fn operations_register_and_query() {
    let mut ops = ValidatorOperations::new();
    let metadata = operator_metadata(1, 2_000_000);
    let id = metadata.id();
    assert_eq!(ops.register_validator_at(metadata, vec![7u8; 64], 1_000), Ok(()));

    assert_eq!(ops.get_validator_stake(&id), 2_000_000);
    assert_eq!(ops.total_staked(), 2_000_000);
    assert_eq!(ops.current_cycle(), 0);
    let info = ops.get_validator(&id).unwrap();
    assert_eq!(info.stake, 2_000_000);
    assert_eq!(ops.get_active_validators().len(), 1);
    assert!(ops.has_quorum(&[id.clone()]));
    assert!(ops.get_validators_below_minimum().is_empty());
}

#[test]
fn operations_register_refusals() {
    let mut ops = ValidatorOperations::new();
    assert_eq!(
        ops.register_validator(operator_metadata(1, 999_999), vec![0u8; 64]),
        Err(Error::StakeBelowMinimum { stake: 999_999, minimum: MIN_STAKE_AMOUNT })
    );
    assert_eq!(ops.get_active_validators().len(), 0);

    assert_eq!(ops.register_validator(operator_metadata(2, 1_500_000), vec![0u8; 64]), Ok(()));
    assert_eq!(
        ops.register_validator(operator_metadata(2, 1_500_000), vec![0u8; 64]),
        Err(Error::AlreadyRegistered)
    );
    assert_eq!(ops.total_staked(), 1_500_000);

    // A short digest: the validator joins the set, but no stake is recorded.
    let metadata = operator_metadata(3, 1_200_000);
    let id = metadata.id();
    assert_eq!(
        ops.register_validator(metadata, vec![0u8; 10]),
        Err(Error::InvalidDigestLength { length: 10 })
    );
    assert!(ops.get_validator(&id).is_some());
    assert_eq!(ops.get_validator_stake(&id), 0);
    assert_eq!(ops.total_staked(), 1_500_000);
}

#[test]
fn operations_unstake_and_participation() {
    let mut ops = ValidatorOperations::new();
    let metadata = operator_metadata(4, 3_000_000);
    let id = metadata.id();
    ops.register_validator_at(metadata, vec![1u8; 64], 50).unwrap();

    let request = ops.request_unstake_at(&id, 2_500_000, 100).unwrap();
    assert_eq!(request.amount, 2_500_000);
    assert_eq!(request.requested_at, 100);
    assert_eq!(request.unbonds_at, 100 + 604_800);
    assert_eq!(ops.get_validator_stake(&id), 500_000);
    assert_eq!(ops.get_validators_below_minimum(), vec![id.clone()]);
    assert!(matches!(
        ops.request_unstake_at(&id, 600_000, 200),
        Err(Error::InsufficientActiveStake { requested: 600_000, active: 500_000 })
    ));
    let unknown = operator_metadata(9, 1_000_000).id();
    assert!(matches!(ops.request_unstake(&unknown, 1), Err(Error::NotFound)));

    for round in 0..10u64 {
        ops.record_snapshot_participation(&id, round < 8);
    }
    let info = ops.get_validator(&id).unwrap();
    assert_eq!(info.total_snapshots, 10);
    assert_eq!(info.snapshots_participated, 8);
    assert_eq!(ops.get_low_participation_validators(), vec![id.clone()]);

    // Unknown validators are ignored.
    ops.record_snapshot_participation(&unknown, true);
    assert!(ops.get_validator(&unknown).is_none());
}
