//! Validator-set management for the consensus engine: tiers, staking,
//! commissions, slashing, downtime, key rotation, activation, monitoring,
//! snapshots and the persistence layer's startup checks.
pub mod types;
pub mod table;
pub mod clock;
pub mod validator_tiers;
pub mod commission_manager;
pub mod seqsum;
pub mod staking;
pub mod validator;
pub mod validator_monitoring;
pub mod slashing;
pub mod downtime_tracker;
pub mod key_rotation;
pub mod validator_activation;
pub mod snapshot;
pub mod text;
pub mod persistence;
pub mod protocol;
pub mod compatibility;
pub mod activation;
pub mod block_creator;
pub mod validator_ops;

pub use activation::{ActivationCoordinator, ActivationStats};
pub use block_creator::BlockCreator;
pub use commission_manager::{CommissionChangeRequest, CommissionConfig};
pub use compatibility::{CompatibilityChecker, CompatibilityStats, FeatureExtractor};
pub use downtime_tracker::{
    DowntimeConfig, DowntimeEvent, DowntimeEventType, DowntimeTracker, ValidatorDowntimeRecord,
};
pub use key_rotation::{
    KeyRecord, KeyRotationConfig, KeyRotationEvent, KeyRotationEventType, KeyRotationManager,
    KeyRotationRequest, KeyRotationRequestStatus, KeyStatus,
};
pub use persistence::{OperationStatus, OperationType, PersistenceLogEntry, PersistenceLogger};
pub use slashing::{JailReason, JailRecord, SlashEvent, SlashingConfig, SlashingManager};
pub use snapshot::{SnapshotCertificate, SnapshotManager, ValidatorSignatureInfo};
pub use staking::{
    StakeDeposit, StakingManager, UnstakingRequest, ValidatorStake, MIN_STAKE_AMOUNT,
    UNBONDING_PERIOD_SECS,
};
pub use validator::{ValidatorInfo, ValidatorSet, ValidatorSetChangeEvent};
pub use validator_activation::{
    ActivationConfig, ActivationEvent, ActivationEventType, ActivationRequest,
    ActivationRequestStatus, ActivationRequestType, ValidatorActivationManager,
    ValidatorActivationRecord, ValidatorStatus,
};
pub use validator_ops::{ValidatorOperations, MIN_PARTICIPATION_BPS};
pub use validator_monitoring::{
    AlertSeverity, AlertType, HealthStatus, MonitoringConfig, PerformanceAlert, Status,
    ValidatorMetrics, ValidatorMonitor,
};
pub use validator_tiers::{TierChangeEvent, ValidatorTier, ValidatorTierInfo, ValidatorTierManager};
