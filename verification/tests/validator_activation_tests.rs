use silver_consensus::types::{Error, ValidatorID};
use silver_consensus::validator_activation::{
    ActivationConfig, ActivationEventType, ActivationRequestStatus, ActivationRequestType,
    ValidatorActivationManager, ValidatorActivationRecord, ValidatorStatus,
};

fn config() -> ActivationConfig {
    ActivationConfig {
        min_stake_for_activation: 10_000,
        min_voting_power: 5_000,
        deactivation_cooldown_secs: 100,
        reactivation_cooldown_secs: 1_000,
        activation_votes_required_bps: 6_600,
        deactivation_votes_required_bps: 6_600,
    }
}

#[test]
fn activation_requests_are_checked() {
    let mut m = ValidatorActivationManager::new(config());
    let v = ValidatorID::from_name("v");
    assert_eq!(
        m.request_activation_at(v.clone(), 9_999, 5_000, 0).err(),
        Some(Error::StakeBelowMinimum { stake: 9_999, minimum: 10_000 })
    );
    assert_eq!(
        m.request_activation_at(v.clone(), 10_000, 4_999, 0).err(),
        Some(Error::VotingPowerBelowMinimum { voting_power: 4_999, minimum: 5_000 })
    );
    let req = m.request_activation_at(v.clone(), 10_000, 5_000, 3).unwrap();
    assert_eq!(req.request_type, ActivationRequestType::Activation);
    assert_eq!(req.status, ActivationRequestStatus::Pending);
    assert_eq!(req.requested_at, 3);
    assert_eq!(m.pending_request_count(), 1);
    assert_eq!(m.get_status(&v), ValidatorStatus::Pending);
}

#[test]
fn lifecycle_activate_then_deactivate() {
    let mut m = ValidatorActivationManager::new(config());
    let v = ValidatorID::from_name("v");
    m.request_activation_at(v.clone(), 20_000, 6_000, 0).unwrap();
    m.vote_on_request(&v, true, 660).unwrap();
    let status = m.finalize_request_at(&v, 1_000, 10).unwrap();
    assert_eq!(status, ActivationRequestStatus::Approved);
    assert_eq!(m.get_status(&v), ValidatorStatus::Active);
    assert_eq!(m.get_active_validators(), vec![v.clone()]);
    assert_eq!(m.active_count(), 1);
    assert_eq!(m.get_record(&v).unwrap().activated_at, Some(10));

    // already active: a new activation request is refused
    assert_eq!(
        m.request_activation_at(v.clone(), 20_000, 6_000, 11).err(),
        Some(Error::AlreadyInState)
    );

    m.request_deactivation_at(v.clone(), 20).unwrap();
    m.vote_on_request(&v, true, 700).unwrap();
    assert_eq!(m.finalize_request_at(&v, 1_000, 30).unwrap(), ActivationRequestStatus::Approved);
    assert_eq!(m.get_status(&v), ValidatorStatus::Deactivated);
    let rec = m.get_record(&v).unwrap();
    assert_eq!(rec.deactivated_at, Some(30));
    assert_eq!(rec.can_reactivate_at, Some(130));
    assert!(!rec.can_reactivate_at(129));
    assert!(rec.can_reactivate_at(130));
    assert_eq!(rec.remaining_cooldown_at(100), 30);

    let events = m.get_validator_events(&v);
    assert_eq!(events.len(), 2);
    assert_eq!(events[0].event_type, ActivationEventType::Activated);
    assert_eq!(events[1].event_type, ActivationEventType::Deactivated);
}

#[test]
fn rejected_request_changes_nothing_but_the_queue() {
    let mut m = ValidatorActivationManager::new(config());
    let v = ValidatorID::from_name("v");
    m.request_activation_at(v.clone(), 20_000, 6_000, 0).unwrap();
    m.vote_on_request(&v, true, 100).unwrap();
    assert_eq!(m.finalize_request_at(&v, 1_000, 5).unwrap(), ActivationRequestStatus::Rejected);
    assert!(m.get_pending_request(&v).is_none());
    assert_eq!(m.event_count(), 0);
    assert_eq!(m.finalize_request_at(&v, 1_000, 6), Err(Error::NoPendingRequest));
}

#[test]
fn deactivation_needs_an_active_validator() {
    let mut m = ValidatorActivationManager::new(config());
    let v = ValidatorID::from_name("v");
    assert_eq!(m.request_deactivation_at(v.clone(), 0).err(), Some(Error::NotFound));
    assert_eq!(m.vote_on_request(&v, true, 1), Err(Error::NoPendingRequest));
}

#[test]
fn activation_record_transitions() {
    let mut r = ValidatorActivationRecord::new(ValidatorID::from_name("v"));
    assert_eq!(r.status, ValidatorStatus::Pending);
    r.activate_at(5).unwrap();
    assert_eq!(r.status, ValidatorStatus::Active);
    assert_eq!(r.activate_at(6), Err(Error::AlreadyInState));
    r.deactivate_at(50, 10).unwrap();
    assert_eq!(r.status, ValidatorStatus::Deactivated);
    assert_eq!(r.deactivate_at(50, 11), Err(Error::NotActive));
    assert_eq!(r.activate_at(59), Err(Error::CooldownActive { until: 60 }));
    r.activate_at(60).unwrap();
    r.suspend().unwrap();
    assert_eq!(r.status, ValidatorStatus::Suspended);
    r.remove().unwrap();
    assert_eq!(r.status, ValidatorStatus::Removed);
}

#[test]
fn names_of_statuses() {
    assert_eq!(ValidatorStatus::Active.to_string(), "Active");
    assert_eq!(ActivationRequestStatus::Approved.to_string(), "Approved");
}
