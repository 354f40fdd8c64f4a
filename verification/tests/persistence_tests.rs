use silver_consensus::persistence::node_startup::IntegrityCheck;
use silver_consensus::persistence::logging::{FieldValue, LogEvent};
use silver_consensus::text::{parse_u64, reads_true};
use silver_consensus::persistence::{
    ConsensusStorageIntegration, IntegrationStatus, NodeStartupManager, OperationStatus,
    OperationType, PersistenceLogEntry, PersistenceLogger, StartupConfig, StartupResult,
};

// ---------------------------------------------------------------- node startup

#[test]
fn test_startup_config_default() {
    let config = StartupConfig::default();
    assert_eq!(config.database_path, "./data/blockchain");
    assert_eq!(config.genesis_config_path, None);
    assert!(config.verify_integrity);
    assert!(config.verify_consistency);
    assert_eq!(config.startup_timeout_secs, 300);
}

#[test]
fn test_startup_config_custom() {
    let config = StartupConfig {
        database_path: "/custom/path".to_string(),
        genesis_config_path: Some("/path/to/genesis.json".to_string()),
        verify_integrity: false,
        verify_consistency: false,
        startup_timeout_secs: 600,
    };

    assert_eq!(config.database_path, "/custom/path");
    assert_eq!(
        config.genesis_config_path,
        Some("/path/to/genesis.json".to_string())
    );
    assert!(!config.verify_integrity);
    assert!(!config.verify_consistency);
    assert_eq!(config.startup_timeout_secs, 600);
}

#[test]
fn test_startup_result_default() {
    let result = StartupResult::default();
    assert!(!result.success);
    assert_eq!(result.genesis_block_hash, None);
    assert_eq!(result.latest_snapshot_sequence, None);
    assert_eq!(result.latest_block_number, None);
    assert_eq!(result.validator_count, 0);
    assert_eq!(result.total_stake, 0);
    assert_eq!(result.snapshots_recovered, 0);
    assert_eq!(result.transactions_recovered, 0);
    assert!(!result.consistency_verified);
    assert_eq!(result.error_message, None);
    assert_eq!(result.startup_duration_ms, 0);
}

#[test]
fn test_initialize_database_empty_path() {
    let config = StartupConfig {
        database_path: "".to_string(),
        ..Default::default()
    };

    let result = NodeStartupManager::initialize_database(&config);
    assert!(result.is_err());
    assert_eq!(
        result.unwrap_err(),
        "Database path cannot be empty".to_string()
    );
}

#[test]
fn test_initialize_database_valid_path() {
    let config = StartupConfig {
        database_path: "./test_db".to_string(),
        ..Default::default()
    };

    let result = NodeStartupManager::initialize_database(&config);
    assert!(result.is_ok());
}

#[test]
fn test_load_or_create_genesis_block() {
    let config = StartupConfig::default();
    let result = NodeStartupManager::load_or_create_genesis_block(&config, Ok(()));

    assert!(result.is_ok());
    let (hash, block_num) = result.unwrap();
    assert!(!hash.is_empty());
    assert_eq!(block_num, 0);
}

#[test]
fn genesis_hash_is_hex_of_blake3_of_seed() {
    let (hash, _) =
        NodeStartupManager::load_or_create_genesis_block(&StartupConfig::default(), Ok(())).unwrap();
    let expected = hex::encode(blake3::hash(b"SilverBitcoin Genesis Block").as_bytes());
    assert_eq!(hash, expected);
    assert_eq!(hash.len(), 64);
    assert!(hash.chars().all(|c| c.is_ascii_hexdigit() && !c.is_ascii_uppercase()));
}

#[test]
fn test_recover_state() {
    let config = StartupConfig::default();
    let result = NodeStartupManager::recover_state(&config, Ok(()), &mut Vec::new());

    assert!(result.is_ok());
    let (snapshots, validators, transactions, total_stake) = result.unwrap();
    assert_eq!(snapshots, 0);
    assert_eq!(validators, 0);
    assert_eq!(transactions, 0);
    assert_eq!(total_stake, 0);
}

fn sample_result() -> StartupResult {
    StartupResult {
        success: true,
        genesis_block_hash: Some("abc123".to_string()),
        latest_snapshot_sequence: Some(100),
        latest_block_number: Some(50),
        validator_count: 10,
        total_stake: 1000000,
        snapshots_recovered: 100,
        transactions_recovered: 1000,
        consistency_verified: false,
        error_message: None,
        startup_duration_ms: 0,
    }
}

#[test]
fn test_verify_consistency() {
    let result = sample_result();
    let verify_result = NodeStartupManager::verify_consistency(&result, &mut Vec::new());
    assert!(verify_result.is_ok());
    assert!(verify_result.unwrap());
}

#[test]
fn verify_consistency_reports_each_issue() {
    let mut gap = sample_result();
    gap.latest_snapshot_sequence = Some(99);
    assert!(!NodeStartupManager::verify_consistency(&gap, &mut Vec::new()).unwrap());

    let mut no_stake = sample_result();
    no_stake.total_stake = 0;
    assert!(!NodeStartupManager::verify_consistency(&no_stake, &mut Vec::new()).unwrap());

    let mut blocks_without_snapshots = sample_result();
    blocks_without_snapshots.snapshots_recovered = 0;
    assert!(!NodeStartupManager::verify_consistency(&blocks_without_snapshots, &mut Vec::new()).unwrap());

    let mut no_genesis = sample_result();
    no_genesis.genesis_block_hash = None;
    assert!(!NodeStartupManager::verify_consistency(&no_genesis, &mut Vec::new()).unwrap());

    let mut no_latest = sample_result();
    no_latest.latest_snapshot_sequence = None;
    assert!(NodeStartupManager::verify_consistency(&no_latest, &mut Vec::new()).unwrap());
}

#[test]
fn test_initialize_node_success() {
    let config = StartupConfig {
        database_path: "./test_db".to_string(),
        ..Default::default()
    };

    let result = NodeStartupManager::initialize_node(config, Ok(()), Ok(()), &mut Vec::new());
    assert!(result.is_ok());

    let startup_result = result.unwrap();
    assert!(startup_result.success);
    assert!(startup_result.genesis_block_hash.is_some());
    assert_eq!(startup_result.latest_block_number, Some(0));
    // Startup duration is measured in milliseconds
    let _ = startup_result.startup_duration_ms;
}

#[test]
fn initialize_node_outcome_is_consistent() {
    let result = NodeStartupManager::initialize_node(
        StartupConfig { database_path: "./test_db".to_string(), ..Default::default() },
        Ok(()),
        Ok(()),
        &mut Vec::new(),
    )
    .unwrap();
    assert!(result.consistency_verified);
    assert_eq!(result.latest_snapshot_sequence, None);
    assert_eq!(result.snapshots_recovered, 0);
    assert_eq!(result.error_message, None);
    assert!(NodeStartupManager::verify_consistency(&result, &mut Vec::new()).unwrap());

    let unchecked = NodeStartupManager::initialize_node(
        StartupConfig {
            database_path: "./test_db".to_string(),
            verify_consistency: false,
            ..Default::default()
        },
        Ok(()),
        Ok(()),
        &mut Vec::new(),
    )
    .unwrap();
    assert!(!unchecked.consistency_verified);
}

#[test]
fn test_initialize_node_invalid_config() {
    let config = StartupConfig {
        database_path: "".to_string(),
        ..Default::default()
    };

    let result = NodeStartupManager::initialize_node(config, Ok(()), Ok(()), &mut Vec::new());
    assert!(result.is_err());
}

#[test]
fn test_startup_result_with_data() {
    let result = StartupResult {
        success: true,
        genesis_block_hash: Some("abc123".to_string()),
        latest_snapshot_sequence: Some(100),
        latest_block_number: Some(50),
        validator_count: 10,
        total_stake: 1000000,
        snapshots_recovered: 100,
        transactions_recovered: 1000,
        consistency_verified: true,
        error_message: None,
        startup_duration_ms: 5000,
    };

    assert!(result.success);
    assert_eq!(result.genesis_block_hash, Some("abc123".to_string()));
    assert_eq!(result.latest_snapshot_sequence, Some(100));
    assert_eq!(result.latest_block_number, Some(50));
    assert_eq!(result.validator_count, 10);
    assert_eq!(result.total_stake, 1000000);
    assert_eq!(result.snapshots_recovered, 100);
    assert_eq!(result.transactions_recovered, 1000);
    assert!(result.consistency_verified);
    assert_eq!(result.error_message, None);
    assert_eq!(result.startup_duration_ms, 5000);
}

#[test]
fn test_startup_result_with_error() {
    let result = StartupResult {
        success: false,
        genesis_block_hash: None,
        latest_snapshot_sequence: None,
        latest_block_number: None,
        validator_count: 0,
        total_stake: 0,
        snapshots_recovered: 0,
        transactions_recovered: 0,
        consistency_verified: false,
        error_message: Some("Database initialization failed".to_string()),
        startup_duration_ms: 1000,
    };

    assert!(!result.success);
    assert_eq!(
        result.error_message,
        Some("Database initialization failed".to_string())
    );
}

// ---------------------------------------------------------------- logging

#[test]
fn test_operation_type_display() {
    assert_eq!(OperationType::PersistGenesisBlock.to_string(), "PersistGenesisBlock");
    assert_eq!(OperationType::PersistSnapshot.to_string(), "PersistSnapshot");
    assert_eq!(OperationType::FlushColumnFamily.to_string(), "FlushColumnFamily");
    assert_eq!(OperationType::RecoverGenesisBlock.to_string(), "RecoverGenesisBlock");
}

#[test]
fn test_operation_status_display() {
    assert_eq!(OperationStatus::Started.to_string(), "Started");
    assert_eq!(OperationStatus::Success.to_string(), "Success");
    assert_eq!(OperationStatus::Failed.to_string(), "Failed");
    assert_eq!(OperationStatus::Retrying.to_string(), "Retrying");
}

#[test]
fn test_persistence_log_entry_display() {
    let entry = PersistenceLogEntry {
        operation_type: OperationType::PersistSnapshot,
        status: OperationStatus::Success,
        data_size_bytes: 1024,
        timestamp_millis: chrono::Utc::now().timestamp_millis(),
        duration_ms: Some(100),
        context: "test_context".to_string(),
        error_message: None,
    };

    let display_str = entry.to_string();
    assert!(display_str.contains("PersistSnapshot"));
    assert!(display_str.contains("Success"));
    assert!(display_str.contains("1024"));
    assert!(display_str.contains("100ms"));
}

#[test]
fn test_persistence_log_entry_with_error() {
    let entry = PersistenceLogEntry {
        operation_type: OperationType::PersistSnapshot,
        status: OperationStatus::Failed,
        data_size_bytes: 512,
        timestamp_millis: chrono::Utc::now().timestamp_millis(),
        duration_ms: Some(50),
        context: "test_context".to_string(),
        error_message: Some("Database write failed".to_string()),
    };

    let display_str = entry.to_string();
    assert!(display_str.contains("Failed"));
    assert!(display_str.contains("Database write failed"));
}

#[test]
fn log_entry_text_is_exact() {
    let entry = PersistenceLogEntry {
        operation_type: OperationType::FlushColumnFamily,
        status: OperationStatus::Failed,
        data_size_bytes: 2048,
        timestamp_millis: 0,
        duration_ms: Some(7),
        context: "ctx".to_string(),
        error_message: Some("boom".to_string()),
    };
    assert_eq!(
        entry.to_string(),
        "operation=FlushColumnFamily status=Failed data_size=2048 bytes \
         timestamp=1970-01-01 00:00:00 UTC context=ctx duration=7ms error=boom"
    );

    let plain = PersistenceLogEntry {
        operation_type: OperationType::PersistGenesisBlock,
        status: OperationStatus::Started,
        data_size_bytes: 0,
        timestamp_millis: 1_500,
        duration_ms: None,
        context: String::new(),
        error_message: None,
    };
    assert_eq!(
        plain.to_string(),
        "operation=PersistGenesisBlock status=Started data_size=0 bytes \
         timestamp=1970-01-01 00:00:01.500 UTC context="
    );
}

#[test]
fn test_logger_methods_compile() {
    // These tests verify that all logger methods compile and can be called
    PersistenceLogger::log_operation_start(OperationType::PersistGenesisBlock, 1024, "test");

    PersistenceLogger::log_operation_success(OperationType::PersistGenesisBlock, 1024, 100, "test");

    PersistenceLogger::log_operation_failure(
        OperationType::PersistGenesisBlock,
        1024,
        100,
        "test",
        "error",
    );

    PersistenceLogger::log_operation_retry(
        OperationType::PersistGenesisBlock,
        1024,
        1,
        "test",
        "reason",
    );

    PersistenceLogger::log_flush_start("CF_BLOCKS");
    PersistenceLogger::log_flush_completion("CF_BLOCKS", 100, 2048);
    PersistenceLogger::log_flush_failure("CF_BLOCKS", 100, "error");

    PersistenceLogger::log_recovery_start("genesis");
    PersistenceLogger::log_recovery_progress("genesis", 1, "context");
    PersistenceLogger::log_recovery_completion("genesis", 1, 100);

    PersistenceLogger::log_consistency_check_start("snapshot_sequence");
    PersistenceLogger::log_consistency_check_result("snapshot_sequence", true, "all valid");

    PersistenceLogger::log_error("test_error", "message", "context");
    PersistenceLogger::log_error_with_recovery("test_error", "message", "recovery");

    PersistenceLogger::log_startup_info("abc123", 100, 50, 10, 1000000);
    PersistenceLogger::log_database_initialized("/path/to/db", 7);
    PersistenceLogger::log_database_initialization_failure("/path/to/db", "error");

    PersistenceLogger::log_shutdown_start();
    PersistenceLogger::log_shutdown_progress("flushing");
    PersistenceLogger::log_shutdown_completion(1000);
    PersistenceLogger::log_shutdown_timeout(30);

    PersistenceLogger::log_snapshot_info(1, 100, 10, "root_hash");
    PersistenceLogger::log_validator_state_info("validator1", 1000000, "Gold", 5);
    PersistenceLogger::log_transaction_info("tx_digest", "sender", "recipient", 100, 50);
    PersistenceLogger::log_batch_operation_info(10, 10240, "persist");
    PersistenceLogger::log_database_stats(1024000, 512000, 7);
}

#[test]
fn operation_start_logs_event_then_entry() {
    let events = PersistenceLogger::log_operation_start(OperationType::PersistSnapshot, 1024, "ctx");
    assert_eq!(events.len(), 2);
    let second = &events[1];
    assert!(second.message.starts_with("Persistence log entry: operation=PersistSnapshot status=Started data_size=1024 bytes"));
    assert!(second.message.ends_with(" context=ctx"));
}

// ---------------------------------------------------------------- consensus integration

#[test]
fn test_integration_creation() {
    let integration = ConsensusStorageIntegration::new();
    let status = integration.get_status();

    assert!(!status.storage_initialized);
    assert!(!status.snapshot_callback_connected);
    assert!(!status.finalization_callback_connected);
    assert!(!status.validator_state_callback_connected);
    assert!(!status.shutdown_callback_connected);
    assert_eq!(status.snapshots_persisted, 0);
    assert_eq!(status.validator_updates_persisted, 0);
    assert_eq!(status.transactions_persisted, 0);
}

#[test]
fn test_storage_initialization() {
    let mut integration = ConsensusStorageIntegration::new();
    assert!(integration.initialize_storage().is_ok());

    let status = integration.get_status();
    assert!(status.storage_initialized);
}

#[test]
fn test_snapshot_callback_registration() {
    let mut integration = ConsensusStorageIntegration::new();
    assert!(integration.initialize_storage().is_ok());
    assert!(integration.register_snapshot_creation_callback().is_ok());

    let status = integration.get_status();
    assert!(status.snapshot_callback_connected);
}

#[test]
fn test_finalization_callback_registration() {
    let mut integration = ConsensusStorageIntegration::new();
    assert!(integration.initialize_storage().is_ok());
    assert!(integration.register_snapshot_finalization_callback().is_ok());

    let status = integration.get_status();
    assert!(status.finalization_callback_connected);
}

#[test]
fn test_validator_state_callback_registration() {
    let mut integration = ConsensusStorageIntegration::new();
    assert!(integration.initialize_storage().is_ok());
    assert!(integration.register_validator_state_callback().is_ok());

    let status = integration.get_status();
    assert!(status.validator_state_callback_connected);
}

#[test]
fn test_shutdown_callback_registration() {
    let mut integration = ConsensusStorageIntegration::new();
    assert!(integration.initialize_storage().is_ok());
    assert!(integration.register_shutdown_callback().is_ok());

    let status = integration.get_status();
    assert!(status.shutdown_callback_connected);
}

#[test]
fn test_callback_registration_without_storage_init() {
    let mut integration = ConsensusStorageIntegration::new();

    // Should fail because storage is not initialized
    assert!(integration.register_snapshot_creation_callback().is_err());
    assert!(integration.register_snapshot_finalization_callback().is_err());
    assert!(integration.register_validator_state_callback().is_err());
    assert!(integration.register_shutdown_callback().is_err());
}

#[test]
fn test_verify_all_connections_incomplete() {
    let mut integration = ConsensusStorageIntegration::new();
    assert!(integration.initialize_storage().is_ok());

    // Should fail because not all callbacks are registered
    assert!(integration.verify_all_connections().is_err());
}

#[test]
fn verify_all_connections_lists_what_is_missing() {
    let mut integration = ConsensusStorageIntegration::new();
    let err = integration.verify_all_connections().unwrap_err();
    assert!(err.contains("Storage layer not initialized"));
    assert!(err.contains("Snapshot creation callback not connected"));

    integration.initialize_storage().unwrap();
    integration.register_snapshot_creation_callback().unwrap();
    integration.register_snapshot_finalization_callback().unwrap();
    integration.register_validator_state_callback().unwrap();
    let err = integration.verify_all_connections().unwrap_err();
    assert!(!err.contains("Storage layer not initialized"));
    assert!(!err.contains("Snapshot creation callback"));
    assert!(err.contains("hutdown"));
}

#[test]
fn test_verify_all_connections_complete() {
    let mut integration = ConsensusStorageIntegration::new();
    assert!(integration.initialize_storage().is_ok());
    assert!(integration.register_snapshot_creation_callback().is_ok());
    assert!(integration.register_snapshot_finalization_callback().is_ok());
    assert!(integration.register_validator_state_callback().is_ok());
    assert!(integration.register_shutdown_callback().is_ok());

    // Should succeed because all callbacks are registered
    assert!(integration.verify_all_connections().is_ok());

    let status = integration.get_status();
    assert!(status.all_connected());
}

#[test]
fn test_record_snapshot_persisted() {
    let mut integration = ConsensusStorageIntegration::new();
    assert_eq!(integration.snapshots_persisted(), 0);

    integration.record_snapshot_persisted();
    assert_eq!(integration.snapshots_persisted(), 1);

    integration.record_snapshot_persisted();
    assert_eq!(integration.snapshots_persisted(), 2);
}

#[test]
fn test_record_validator_update_persisted() {
    let mut integration = ConsensusStorageIntegration::new();
    assert_eq!(integration.validator_updates_persisted(), 0);

    integration.record_validator_update_persisted();
    assert_eq!(integration.validator_updates_persisted(), 1);

    integration.record_validator_update_persisted();
    assert_eq!(integration.validator_updates_persisted(), 2);
}

#[test]
fn test_record_transactions_persisted() {
    let mut integration = ConsensusStorageIntegration::new();
    assert_eq!(integration.transactions_persisted(), 0);

    integration.record_transactions_persisted(5);
    assert_eq!(integration.transactions_persisted(), 5);

    integration.record_transactions_persisted(3);
    assert_eq!(integration.transactions_persisted(), 8);
}

#[test]
fn transaction_counter_wraps_like_an_atomic() {
    let mut integration = ConsensusStorageIntegration::new();
    integration.record_transactions_persisted(u64::MAX);
    integration.record_transactions_persisted(2);
    assert_eq!(integration.transactions_persisted(), 1);
}

#[test]
fn log_status_line_is_exact() {
    let mut integration = ConsensusStorageIntegration::new();
    integration.initialize_storage().unwrap();
    integration.record_transactions_persisted(42);
    assert_eq!(
        integration.log_status(),
        "Consensus-Storage Integration Status: storage_init=true, snapshot_cb=false, \
         finalization_cb=false, validator_cb=false, shutdown_cb=false, snapshots_persisted=0, \
         validator_updates=0, transactions_persisted=42"
    );
}

#[test]
fn test_integration_status_all_connected() {
    let status = IntegrationStatus {
        storage_initialized: true,
        snapshot_callback_connected: true,
        finalization_callback_connected: true,
        validator_state_callback_connected: true,
        shutdown_callback_connected: true,
        snapshots_persisted: 0,
        validator_updates_persisted: 0,
        transactions_persisted: 0,
    };

    assert!(status.all_connected());
}

#[test]
fn test_integration_status_not_all_connected() {
    let status = IntegrationStatus {
        storage_initialized: true,
        snapshot_callback_connected: false,
        finalization_callback_connected: true,
        validator_state_callback_connected: true,
        shutdown_callback_connected: true,
        snapshots_persisted: 0,
        validator_updates_persisted: 0,
        transactions_persisted: 0,
    };

    assert!(!status.all_connected());
}

// ---------------------------------------------------------------- configuration settings

#[test]
fn config_from_settings_defaults() {
    let config = NodeStartupManager::config_from_settings(None, None, None, None, None);
    assert_eq!(config.database_path, "./data/blockchain");
    assert_eq!(config.genesis_config_path, None);
    assert!(config.verify_integrity);
    assert!(config.verify_consistency);
    assert_eq!(config.startup_timeout_secs, 300);
}

#[test]
fn config_from_settings_with_values() {
    let config = NodeStartupManager::config_from_settings(
        Some("/custom/db".to_string()),
        Some("/path/to/genesis.json".to_string()),
        Some("false".to_string()),
        Some("false".to_string()),
        Some("600".to_string()),
    );
    assert_eq!(config.database_path, "/custom/db");
    assert_eq!(
        config.genesis_config_path,
        Some("/path/to/genesis.json".to_string())
    );
    assert!(!config.verify_integrity);
    assert!(!config.verify_consistency);
    assert_eq!(config.startup_timeout_secs, 600);
}

#[test]
fn config_switches_and_timeout_parsing() {
    let config = NodeStartupManager::config_from_settings(
        None,
        None,
        Some("TRUE".to_string()),
        Some("yes".to_string()),
        Some("ten".to_string()),
    );
    assert!(config.verify_integrity);
    assert!(!config.verify_consistency);
    assert_eq!(config.startup_timeout_secs, 300);

    let config = NodeStartupManager::config_from_settings(
        None,
        None,
        None,
        None,
        Some("+42".to_string()),
    );
    assert_eq!(config.startup_timeout_secs, 42);
}

#[test]
fn parse_u64_follows_std() {
    for s in ["0", "7", "+15", "0042", "18446744073709551615", "", "+", "-1", " 1", "1 ", "1a",
        "18446744073709551616", "99999999999999999999"]
    {
        assert_eq!(parse_u64(s), s.parse::<u64>().ok(), "text {:?}", s);
    }
    for s in ["true", "True", "TRUE", "tRuE", "false", "truee", "tru", "", " true"] {
        assert_eq!(reads_true(s), s.to_lowercase() == "true", "text {:?}", s);
    }
}

// ---------------------------------------------------------------- database integrity

#[test]
fn integrity_checks_run_in_order() {
    assert_eq!(
        NodeStartupManager::required_column_families(),
        vec!["CF_BLOCKS", "CF_SNAPSHOTS", "CF_TRANSACTIONS", "CF_OBJECTS", "CF_VALIDATORS",
            "CF_METADATA", "CF_INDEXES"]
    );
    let mut check = IntegrityCheck::Open;
    let mut seen = vec![check];
    while let Some(next) = NodeStartupManager::after_integrity_check(check, Ok(())).unwrap() {
        check = next;
        seen.push(check);
    }
    assert_eq!(seen.len(), 11);
    assert_eq!(seen[1], IntegrityCheck::ColumnFamily(0));
    assert_eq!(seen[7], IntegrityCheck::ColumnFamily(6));
    assert_eq!(seen[8], IntegrityCheck::CorruptionMarkers);
    assert_eq!(seen[10], IntegrityCheck::ReadWriteAccess);
}

#[test]
fn integrity_failures_name_the_check() {
    assert_eq!(
        NodeStartupManager::after_integrity_check(IntegrityCheck::Open, Err("locked".to_string())),
        Err("Failed to open database: locked".to_string())
    );
    assert_eq!(
        NodeStartupManager::after_integrity_check(
            IntegrityCheck::ColumnFamily(2),
            Err("missing".to_string())
        ),
        Err("Failed to verify column family CF_TRANSACTIONS: missing".to_string())
    );
    assert_eq!(
        NodeStartupManager::after_integrity_check(
            IntegrityCheck::ReadWriteAccess,
            Err("read-only".to_string())
        ),
        Err("Failed to verify read/write access: read-only".to_string())
    );
}

fn event_messages(events: &[LogEvent]) -> Vec<String> {
    events.iter().map(|e| e.message.clone()).collect()
}

#[test]
fn startup_refused_when_the_database_does_not_open() {
    let config = StartupConfig { database_path: "./test_db".to_string(), ..Default::default() };
    let mut events: Vec<LogEvent> = Vec::new();
    let result =
        NodeStartupManager::initialize_node(config.clone(), Err("locked".to_string()), Ok(()), &mut events);
    assert_eq!(result.err(), Some("Failed to open database: locked".to_string()));
    assert_eq!(
        event_messages(&events)[2..].to_vec(),
        vec!["Database initialized successfully".to_string()]
    );

    let mut events: Vec<LogEvent> = Vec::new();
    let result =
        NodeStartupManager::initialize_node(config, Ok(()), Err("missing".to_string()), &mut events);
    assert_eq!(result.err(), Some("Failed to open database for recovery: missing".to_string()));
    assert_eq!(
        event_messages(&events)[2..].to_vec(),
        vec![
            "Database initialized successfully".to_string(),
            "Recovery operation started".to_string(),
        ]
    );
}

#[test]
fn genesis_and_recovery_refused_without_a_database() {
    let config = StartupConfig::default();
    assert_eq!(
        NodeStartupManager::load_or_create_genesis_block(&config, Err("io".to_string())),
        Err("Failed to open database: io".to_string())
    );
    let mut events: Vec<LogEvent> = Vec::new();
    assert_eq!(
        NodeStartupManager::recover_state(&config, Err("io".to_string()), &mut events),
        Err("Failed to open database for recovery: io".to_string())
    );
    assert_eq!(event_messages(&events), vec!["Recovery operation started".to_string()]);
}

#[test]
fn startup_logs_each_step() {
    let config = StartupConfig { database_path: "./test_db".to_string(), ..Default::default() };
    let mut events: Vec<LogEvent> = Vec::new();
    let result = NodeStartupManager::initialize_node(config, Ok(()), Ok(()), &mut events).unwrap();
    assert!(result.success);
    let messages = event_messages(&events);
    assert_eq!(messages.len(), 8);
    assert_eq!(messages[0], "Persistence operation started");
    assert!(messages[1].starts_with("Persistence log entry: "));
    assert_eq!(
        messages[2..].to_vec(),
        vec![
            "Database initialized successfully".to_string(),
            "Recovery operation started".to_string(),
            "Recovery operation completed".to_string(),
            "Consistency check started".to_string(),
            "Consistency check passed".to_string(),
            "Node startup information".to_string(),
        ]
    );

    let mut events: Vec<LogEvent> = Vec::new();
    let empty = StartupConfig { database_path: "".to_string(), ..Default::default() };
    assert!(NodeStartupManager::initialize_node(empty, Ok(()), Ok(()), &mut events).is_err());
    assert_eq!(event_messages(&events)[2], "Database initialization failed");
    assert_eq!(events.len(), 3);
}

#[test]
fn consistency_check_reports_its_issues() {
    let mut gap = sample_result();
    gap.latest_snapshot_sequence = Some(99);
    gap.validator_count = 3;
    gap.total_stake = 0;
    let mut events: Vec<LogEvent> = Vec::new();
    assert!(!NodeStartupManager::verify_consistency(&gap, &mut events).unwrap());
    assert_eq!(events.len(), 2);
    assert_eq!(events[1].message, "Consistency check failed");
    match &events[1].fields[1].value {
        FieldValue::Text(t) => assert_eq!(
            t,
            "consistency issues: Snapshot sequence gap: expected 100, got 99; \
             Validators exist but total stake is zero"
        ),
        _ => panic!("details should be text"),
    }

    let mut events: Vec<LogEvent> = Vec::new();
    assert!(NodeStartupManager::verify_consistency(&sample_result(), &mut events).unwrap());
    match &events[1].fields[1].value {
        FieldValue::Text(t) => assert_eq!(t, "all checks passed"),
        _ => panic!("details should be text"),
    }
}
