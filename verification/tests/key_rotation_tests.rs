use silver_consensus::key_rotation::{
    compute_required_votes, KeyRecord, KeyRotationConfig, KeyRotationEventType,
    KeyRotationManager, KeyRotationRequestStatus, KeyStatus,
};
use silver_consensus::types::{Error, PublicKey, ValidatorID};

fn key(b: u8) -> PublicKey {
    PublicKey { scheme: 1, bytes: vec![b; 32] }
}

fn config() -> KeyRotationConfig {
    KeyRotationConfig {
        transition_period_secs: 100,
        votes_required_bps: 6_600,
        max_keys_per_validator: 3,
        key_expiration_secs: 1_000,
    }
}

#[test]
fn required_votes_are_a_share_of_the_stake() {
    assert_eq!(compute_required_votes(1_000, 6_600), 660);
    assert_eq!(compute_required_votes(999, 6_600), 659);
    assert_eq!(compute_required_votes(0, 6_600), 0);
    assert_eq!(compute_required_votes(u64::MAX, 20_000), u64::MAX);
}

#[test]
fn approved_rotation_transitions_to_the_new_key() {
    let mut m = KeyRotationManager::new(config());
    let v = ValidatorID::from_name("v");
    m.register_initial_key_at(v.clone(), vec![1], key(1), 0).unwrap();
    assert_eq!(
        m.register_initial_key_at(v.clone(), vec![9], key(9), 0),
        Err(Error::AlreadyRegistered)
    );
    assert_eq!(m.get_active_key(&v).unwrap().key_id, vec![1]);

    let req = m.request_key_rotation_at(v.clone(), vec![2], key(2), 10).unwrap();
    assert_eq!(req.status, KeyRotationRequestStatus::Pending);
    assert_eq!(req.requested_at, 10);
    assert_eq!(
        m.request_key_rotation_at(v.clone(), vec![3], key(3), 11).err(),
        Some(Error::RequestAlreadyPending)
    );
    assert_eq!(m.pending_request_count(), 1);

    m.vote_on_rotation(&v, true, 500).unwrap();
    m.vote_on_rotation(&v, false, 100).unwrap();
    m.vote_on_rotation(&v, true, 160).unwrap();
    let pending = m.get_pending_request(&v).unwrap();
    assert_eq!(pending.votes_in_favor, 660);
    assert_eq!(pending.total_votes, 760);

    let status = m.finalize_rotation_at(&v, 1_000, 20).unwrap();
    assert_eq!(status, KeyRotationRequestStatus::Approved);
    assert!(m.get_pending_request(&v).is_none());
    let valid = m.get_valid_keys(&v);
    assert_eq!(valid.len(), 2);
    assert_eq!(valid[1].status, KeyStatus::Transitioning);
    assert_eq!(valid[1].transition_ends_at, Some(120));

    // Before the transition ends nothing changes; after, the new key is active.
    assert!(m.process_transitions_at(119).is_empty());
    assert_eq!(m.process_transitions_at(120), vec![v.clone()]);
    assert_eq!(m.get_active_key(&v).unwrap().key_id, vec![2]);
    let events = m.get_validator_events(&v);
    assert!(events.iter().any(|e| e.event_type == KeyRotationEventType::RotationApproved));
}

#[test]
fn rejected_rotation_keeps_the_old_key() {
    let mut m = KeyRotationManager::new(config());
    let v = ValidatorID::from_name("v");
    m.register_initial_key_at(v.clone(), vec![1], key(1), 0).unwrap();
    m.request_key_rotation_at(v.clone(), vec![2], key(2), 10).unwrap();
    m.vote_on_rotation(&v, true, 659).unwrap();
    let status = m.finalize_rotation_at(&v, 1_000, 20).unwrap();
    assert_eq!(status, KeyRotationRequestStatus::Rejected);
    assert_eq!(m.get_valid_keys(&v).len(), 1);
    assert_eq!(m.get_active_key(&v).unwrap().key_id, vec![1]);
    assert_eq!(m.finalize_rotation_at(&v, 1_000, 21), Err(Error::NoPendingRequest));
    assert_eq!(m.vote_on_rotation(&v, true, 1), Err(Error::NoPendingRequest));
}

#[test]
fn rotation_for_unknown_validator_is_refused() {
    let mut m = KeyRotationManager::default();
    let v = ValidatorID::from_name("nobody");
    assert_eq!(
        m.request_key_rotation_at(v, vec![2], key(2), 10).err(),
        Some(Error::NotFound)
    );
    assert_eq!(m.event_count(), 0);
}

#[test]
fn key_record_lifecycle() {
    let mut k = KeyRecord::new_at(vec![7], key(7), 5);
    assert_eq!(k.status, KeyStatus::Pending);
    assert!(!k.is_valid());
    k.activate_at(10, 100).unwrap();
    assert_eq!(k.status, KeyStatus::Transitioning);
    assert!(k.is_valid());
    assert_eq!(k.remaining_transition_time_at(104), 6);
    assert!(!k.is_transition_complete_at(109));
    assert_eq!(
        k.complete_transition_at(109),
        Err(Error::TransitionNotComplete { ends_at: 110 })
    );
    k.complete_transition_at(110).unwrap();
    assert_eq!(k.status, KeyStatus::Active);
    assert_eq!(k.activate_at(10, 200), Err(Error::InvalidKeyStatus));
    k.revoke_at(300).unwrap();
    assert_eq!(k.status, KeyStatus::Revoked);
    assert_eq!(k.revoked_at, Some(300));
    assert_eq!(k.revoke_at(301), Err(Error::KeyAlreadyRevoked));
    assert!(!k.is_valid());
}

#[test]
fn status_names() {
    assert_eq!(KeyStatus::Transitioning.to_string(), "Transitioning");
    assert_eq!(KeyRotationRequestStatus::Approved.to_string(), "Approved");
    assert_eq!(KeyRotationEventType::RotationApproved.to_string(), "RotationApproved");
}

#[test]
fn completing_a_transition_by_the_clock() {
    let mut k = KeyRecord::new_at(vec![7], key(7), 0);
    assert_eq!(k.complete_transition(), Err(Error::InvalidKeyStatus));
    k.activate_at(10, 0).unwrap();
    // the transition ended at second 10, long before the clock's present
    assert!(k.complete_transition().is_ok());
    assert_eq!(k.status, KeyStatus::Active);
}
