use silver_consensus::activation::ActivationCoordinator;
use silver_consensus::compatibility::{BatchError, CompatibilityChecker, FeatureExtractor};
use silver_consensus::protocol::{
    ApprovedUpgrade, Command, FeatureFlags, ProtocolVersion, Transaction, TransactionKind,
    UpgradeProposal,
};
use silver_consensus::types::Error;

fn flags(names: &[&str]) -> FeatureFlags {
    let mut f = FeatureFlags::new();
    for n in names {
        f.enable(n);
    }
    f
}

fn upgrade(v: ProtocolVersion, cycle: u64, names: &[&str]) -> ApprovedUpgrade {
    ApprovedUpgrade {
        proposal: UpgradeProposal { new_version: v, activation_cycle: cycle, feature_flags: flags(names) },
    }
}

#[test]
fn version_order() {
    let a = ProtocolVersion::new(1, 2, 3);
    assert!(a.less_than(&ProtocolVersion::new(1, 2, 4)));
    assert!(a.less_than(&ProtocolVersion::new(1, 3, 0)));
    assert!(a.less_than(&ProtocolVersion::new(2, 0, 0)));
    assert!(!a.less_than(&a));
    assert!(!ProtocolVersion::new(2, 0, 0).less_than(&a));
}

#[test]
fn feature_flags_are_a_set() {
    let mut f = FeatureFlags::new();
    assert!(!f.is_enabled("smart_contracts"));
    f.enable("smart_contracts");
    f.enable("smart_contracts");
    assert!(f.is_enabled("smart_contracts"));
    assert!(!f.is_enabled("smart"));
    let g = f.copy();
    assert!(g.is_enabled("smart_contracts"));
}

#[test]
fn features_extracted_from_transactions() {
    let tx = Transaction {
        kind: TransactionKind::CompositeChain(vec![
            Command::TransferObjects,
            Command::Call,
            Command::Publish,
            Command::Call,
        ]),
    };
    assert_eq!(
        FeatureExtractor::extract_features(&tx),
        vec!["smart_contracts", "module_publishing", "smart_contracts"]
    );
    let genesis = Transaction { kind: TransactionKind::Genesis };
    assert_eq!(FeatureExtractor::extract_features(&genesis), vec!["genesis"]);
}

#[test]
fn transactions_need_enabled_features_at_a_recent_enough_version() {
    let v1 = ProtocolVersion::new(1, 0, 0);
    let v2 = ProtocolVersion::new(2, 0, 0);
    let mut c = CompatibilityChecker::new(v1);
    c.add_supported_version(v1, flags(&["smart_contracts", "shared_objects"]));
    c.register_feature_requirement("shared_objects".to_string(), v2);
    let tx = Transaction { kind: TransactionKind::ConsensusCommit };

    assert!(c.validate_transaction_compatibility(&tx, &["smart_contracts".to_string()]).is_ok());
    assert_eq!(
        c.validate_transaction_compatibility(&tx, &["move_vectors".to_string()]),
        Err(Error::FeatureNotEnabled { index: 0 })
    );
    assert_eq!(
        c.validate_transaction_compatibility(
            &tx,
            &["smart_contracts".to_string(), "shared_objects".to_string()]
        ),
        Err(Error::FeatureVersionTooLow { index: 1 })
    );

    let batch = vec![
        vec!["smart_contracts".to_string()],
        vec![],
        vec!["genesis".to_string()],
    ];
    let txs = [
        Transaction { kind: TransactionKind::ConsensusCommit },
        Transaction { kind: TransactionKind::ConsensusCommit },
        Transaction { kind: TransactionKind::ConsensusCommit },
    ];
    assert_eq!(
        c.validate_batch_compatibility(&txs, &batch),
        Err(BatchError { position: 2, cause: Error::FeatureNotEnabled { index: 0 } })
    );

    c.update_active_version(v2);
    assert_eq!(
        c.validate_transaction_compatibility(&tx, &[]),
        Err(Error::VersionNotSupported)
    );
    assert!(c.is_version_supported(&v1));
    assert!(c.is_feature_enabled_in_version("smart_contracts", &v1));
    assert_eq!(c.remove_supported_version(v2), Err(Error::CannotRemoveActiveVersion));
    assert!(c.remove_supported_version(v1).is_ok());
    assert_eq!(c.remove_supported_version(v1), Err(Error::VersionNotSupported));
    let stats = c.get_stats();
    assert_eq!(stats.active_version, v2);
    assert_eq!(stats.registered_features, 1);
}

#[test]
fn activation_keeps_both_versions_through_the_transition() {
    let v1 = ProtocolVersion::new(1, 0, 0);
    let v2 = ProtocolVersion::new(1, 1, 0);
    let mut a = ActivationCoordinator::new(v1, 10);
    a.schedule_activation(upgrade(v2, 5, &["smart_contracts"])).unwrap();
    assert_eq!(
        a.schedule_activation(upgrade(v2, 5, &[])),
        Err(Error::ActivationAlreadyScheduled)
    );
    assert!(a.get_scheduled_activation(5).is_some());
    assert_eq!(a.process_cycle_boundary(4), Ok(None));
    assert_eq!(a.process_cycle_boundary(5), Ok(Some(v2)));
    assert_eq!(a.active_version(), v2);
    assert!(a.is_version_supported(&v1));
    assert!(a.is_version_supported(&v2));
    assert!(a.get_feature_flags(&v2).unwrap().is_enabled("smart_contracts"));
    assert_eq!(a.removal_schedule(), vec![(v1, 15)]);
    assert!(a.get_scheduled_activation(5).is_none());
    assert_eq!(a.activate_at_cycle(5), Err(Error::NoActivationScheduled));

    assert_eq!(a.remove_version_support(v2), Err(Error::CannotRemoveActiveVersion));
    assert!(a.remove_version_support(v1).is_ok());
    assert!(!a.is_version_supported(&v1));
    let stats = a.get_stats();
    assert_eq!(stats.active_version, v2);
    assert_eq!(stats.supported_versions, vec![v2]);
    assert_eq!(stats.scheduled_activations, 0);
    assert_eq!(stats.transition_period, 10);
}

#[test]
fn scheduled_removal_happens_once_its_cycle_is_reached() {
    let v1 = ProtocolVersion::new(1, 0, 0);
    let v2 = ProtocolVersion::new(2, 0, 0);
    let mut a = ActivationCoordinator::new(v1, 3);
    a.schedule_activation(upgrade(v2, 1, &[])).unwrap();
    a.activate_at_cycle(1).unwrap();
    assert_eq!(a.removal_schedule(), vec![(v1, 4)]);
    assert!(!a.remove_due_version(v1, 4, 3));
    assert!(a.is_version_supported(&v1));
    assert!(a.remove_due_version(v1, 4, 4));
    assert!(!a.is_version_supported(&v1));
    assert!(a.removal_schedule().is_empty());
    assert_eq!(a.active_version(), v2);
}
