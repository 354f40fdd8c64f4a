//! The persistence layer's startup, logging and consensus integration.
pub mod consensus_integration;
pub mod logging;
pub mod node_startup;

pub use consensus_integration::{ConsensusStorageIntegration, IntegrationStatus};
pub use logging::{OperationStatus, OperationType, PersistenceLogEntry, PersistenceLogger};
pub use node_startup::{NodeStartupManager, StartupConfig, StartupResult};
