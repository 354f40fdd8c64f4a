use silver_consensus::commission_manager::{
    CommissionConfig, CommissionManager, CommissionRate, ValidatorCommissionInfo,
};
use silver_consensus::types::{Error, SilverAddress, ValidatorID};

fn create_test_validator_id(id: u8) -> ValidatorID {
    ValidatorID::new(SilverAddress::new(vec![id; 64]))
}

#[test]
fn test_commission_rate() {
    let rate = CommissionRate::new(10).unwrap();
    assert_eq!(rate.rate, 10);
    assert_eq!(rate.calculate_commission(1000), 100);
    assert_eq!(rate.calculate_after_commission(1000), 900);
}

#[test]
fn commission_rounds_down_and_splits_exactly() {
    let rate = CommissionRate::new(7).unwrap();
    assert_eq!(rate.calculate_commission(999), 69);
    assert_eq!(rate.calculate_after_commission(999), 930);
    let full = CommissionRate::new(100).unwrap();
    assert_eq!(full.calculate_commission(u64::MAX / 100), u64::MAX / 100);
    assert_eq!(full.calculate_after_commission(u64::MAX / 100), 0);
}

#[test]
fn test_invalid_commission_rate() {
    let result = CommissionRate::new(101);
    assert!(result.is_err());
    assert_eq!(result.unwrap_err(), Error::RateAbove100 { rate: 101 });
}

#[test]
fn test_register_validator() {
    let mut manager = CommissionManager::default();
    let validator_id = create_test_validator_id(1);

    assert!(manager.register_validator(validator_id.clone(), 10).is_ok());
    assert!(manager.get_commission_info(&validator_id).is_some());
}

#[test]
fn test_commission_rate_bounds() {
    let mut manager = CommissionManager::default();
    let validator_id = create_test_validator_id(1);

    // Below minimum
    let result = manager.register_validator(validator_id.clone(), 2);
    assert!(result.is_err());
    assert_eq!(result.unwrap_err(), Error::RateBelowMinimum { rate: 2, minimum: 5 });

    // Above maximum
    let result = manager.register_validator(validator_id.clone(), 25);
    assert!(result.is_err());
    assert_eq!(result.unwrap_err(), Error::RateAboveMaximum { rate: 25, maximum: 20 });

    // Valid
    assert!(manager.register_validator(validator_id, 10).is_ok());
}

#[test]
fn test_request_commission_change() {
    let mut manager = CommissionManager::default();
    let validator_id = create_test_validator_id(1);

    manager.register_validator(validator_id.clone(), 10).unwrap();

    let request = manager.request_commission_change(&validator_id, 15).unwrap();

    assert_eq!(request.new_rate.rate, 15);
    assert!(!request.is_effective());
}

#[test]
fn request_change_for_unknown_validator_is_refused() {
    let mut manager = CommissionManager::default();
    let result = manager.request_commission_change(&create_test_validator_id(9), 15);
    assert_eq!(result.err(), Some(Error::NotFound));
}

#[test]
fn test_apply_pending_change() {
    let mut manager = CommissionManager::default();
    let validator_id = create_test_validator_id(1);

    manager.register_validator(validator_id.clone(), 10).unwrap();
    manager.request_commission_change(&validator_id, 15).unwrap();

    // Manually set as effective
    if let Some(info) = manager.get_commission_info_mut(&validator_id) {
        if let Some(pending) = &mut info.pending_change {
            pending.effective_at = 0;
        }
    }

    let applied = manager.apply_pending_changes();
    assert_eq!(applied.len(), 1);

    let rate = manager.get_current_rate(&validator_id).unwrap();
    assert_eq!(rate.rate, 15);
}

#[test]
fn apply_at_respects_the_notice_period() {
    let mut manager = CommissionManager::new(CommissionConfig {
        min_commission_rate: 5,
        max_commission_rate: 20,
        notice_period_secs: 100,
    });
    let id = create_test_validator_id(1);
    manager.register_validator(id.clone(), 10).unwrap();
    let request = manager.request_commission_change_at(&id, 15, 1_000).unwrap();
    assert_eq!(request.requested_at, 1_000);
    assert_eq!(request.effective_at, 1_100);
    assert_eq!(request.remaining_notice_period_at(1_040), 60);

    assert!(manager.apply_pending_changes_at(1_099).is_empty());
    assert_eq!(manager.get_current_rate(&id).unwrap().rate, 10);

    let applied = manager.apply_pending_changes_at(1_100);
    assert_eq!(applied, vec![id.clone()]);
    assert_eq!(manager.get_current_rate(&id).unwrap().rate, 15);
    assert!(manager.get_pending_change(&id).is_none());
    let info = manager.get_commission_info(&id).unwrap();
    assert_eq!(info.change_history.len(), 1);
    assert!(info.change_history[0].applied);
}

#[test]
fn test_cancel_pending_change() {
    let mut manager = CommissionManager::default();
    let validator_id = create_test_validator_id(1);

    manager.register_validator(validator_id.clone(), 10).unwrap();
    manager.request_commission_change(&validator_id, 15).unwrap();

    let info = manager.get_commission_info_mut(&validator_id).unwrap();
    assert!(info.cancel_pending_change().is_ok());
    assert!(info.pending_change.is_none());
    assert_eq!(info.cancel_pending_change(), Err(Error::NoPendingChange));
}

#[test]
fn test_record_commission() {
    let mut manager = CommissionManager::default();
    let validator_id = create_test_validator_id(1);

    manager.register_validator(validator_id.clone(), 10).unwrap();
    assert!(manager.record_commission(&validator_id, 1000).is_ok());

    let info = manager.get_commission_info(&validator_id).unwrap();
    assert_eq!(info.total_commission_collected, 1000);
}

#[test]
fn test_calculate_commission() {
    let mut manager = CommissionManager::default();
    let validator_id = create_test_validator_id(1);

    manager.register_validator(validator_id.clone(), 10).unwrap();

    let commission = manager.calculate_commission(&validator_id, 1000).unwrap();
    assert_eq!(commission, 100);
}

#[test]
fn test_multiple_validators() {
    let mut manager = CommissionManager::default();

    for i in 1..=3 {
        let validator_id = create_test_validator_id(i);
        manager.register_validator(validator_id, 10 + i as u64).unwrap();
    }

    assert_eq!(manager.validator_count(), 3);
}

#[test]
fn test_pending_changes_list() {
    let mut manager = CommissionManager::default();

    for i in 1..=3 {
        let validator_id = create_test_validator_id(i);
        manager.register_validator(validator_id.clone(), 10).unwrap();

        if i <= 2 {
            manager.request_commission_change(&validator_id, 15).unwrap();
        }
    }

    let pending = manager.get_validators_with_pending_changes();
    assert_eq!(pending.len(), 2);
}

#[test]
fn a_second_request_waits_for_the_first() {
    let mut manager = CommissionManager::new(CommissionConfig {
        min_commission_rate: 5,
        max_commission_rate: 20,
        notice_period_secs: 100,
    });
    let id = create_test_validator_id(1);
    manager.register_validator(id.clone(), 10).unwrap();
    manager.request_commission_change_at(&id, 15, 0).unwrap();
    assert_eq!(
        manager.request_commission_change_at(&id, 18, 99).err(),
        Some(Error::PendingChangeNotEffective { effective_at: 100 })
    );
    assert_eq!(manager.get_pending_change(&id).unwrap().new_rate.rate, 15);
    // once the first is effective, a new request replaces it
    let second = manager.request_commission_change_at(&id, 18, 100).unwrap();
    assert_eq!(second.effective_at, 200);
}

#[test]
fn applying_an_unripe_change_drops_it() {
    let mut info = ValidatorCommissionInfo::new(create_test_validator_id(1), CommissionRate::new(10).unwrap());
    info.request_change_at(CommissionRate::new(15).unwrap(), 100, 0).unwrap();
    assert_eq!(
        info.apply_pending_change_at(50),
        Err(Error::PendingChangeNotEffective { effective_at: 100 })
    );
    assert!(info.pending_change.is_none());
    assert_eq!(info.current_rate.rate, 10);
}
