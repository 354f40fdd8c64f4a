use silver_consensus::block_creator::{Block, BlockCreator};
use silver_consensus::snapshot::{Snapshot, SnapshotCertificate, SnapshotManager};
use silver_consensus::types::{Error, Signature, ValidatorID};

fn sig() -> Signature {
    Signature { scheme: 1, bytes: vec![0u8; 8] }
}

#[test]
fn test_block_creation() {
    // A block made from a snapshot carries its number, time, digests and
    // transactions.
    let snapshot = Snapshot {
        sequence_number: 3,
        timestamp: 42,
        previous_digest: [1u8; 64],
        state_root: [2u8; 64],
        transactions: vec![[3u8; 64], [4u8; 64]],
        cycle: 1,
        digest: [2u8; 64],
    };
    let creator = BlockCreator::new();
    let block = creator.create_block_from_snapshot(&snapshot, vec![9u8; 4]).unwrap();
    assert_eq!(block.number, 3);
    assert_eq!(block.timestamp, 42);
    assert_eq!(block.hash, vec![2u8; 64]);
    assert_eq!(block.parent_hash, vec![1u8; 64]);
    assert_eq!(block.transactions, vec![vec![3u8; 64], vec![4u8; 64]]);
    assert_eq!(block.validator, vec![9u8; 4]);
    assert_eq!(block.gas_used, 0);
}

#[test]
fn block_checks_against_the_previous_block() {
    let creator = BlockCreator::new();
    let prev = Block::new(1, vec![7u8; 32], vec![0u8; 32], 100, vec![], vec![], 0, 0);
    let good = Block::new(2, vec![8u8; 32], vec![7u8; 32], 100, vec![], vec![], 0, 0);
    assert!(creator.verify_block(&good, Ok(Some(prev))).is_ok());

    let genesis = Block::new(0, vec![], vec![], 0, vec![], vec![], 0, 0);
    assert!(creator.verify_block(&genesis, Ok(None)).is_ok());

    assert_eq!(
        creator.verify_block(&good, Ok(None)),
        Err("Previous block not found".to_string())
    );
    assert_eq!(
        creator.verify_block(&good, Err("io".to_string())),
        Err("Failed to get previous block: io".to_string())
    );
    let other_parent = Block::new(1, vec![6u8; 32], vec![0u8; 32], 100, vec![], vec![], 0, 0);
    assert_eq!(
        creator.verify_block(&good, Ok(Some(other_parent))),
        Err("Block 2 parent hash mismatch".to_string())
    );
    let later_prev = Block::new(1, vec![7u8; 32], vec![0u8; 32], 101, vec![], vec![], 0, 0);
    assert_eq!(
        creator.verify_block(&good, Ok(Some(later_prev))),
        Err("Block 2 timestamp is before previous block".to_string())
    );
    let prev = Block::new(1, vec![7u8; 32], vec![0u8; 32], 100, vec![], vec![], 0, 0);
    let long_hash = Block::new(2, vec![8u8; 64], vec![7u8; 32], 100, vec![], vec![], 0, 0);
    assert_eq!(
        creator.verify_block(&long_hash, Ok(Some(prev))),
        Err("Block hash must be 32 bytes, got 64".to_string())
    );
    let prev = Block::new(1, vec![7u8; 32], vec![0u8; 32], 100, vec![], vec![], 0, 0);
    let empty_hash = Block::new(2, vec![], vec![7u8; 32], 100, vec![], vec![], 0, 0);
    assert_eq!(
        creator.verify_block(&empty_hash, Ok(Some(prev))),
        Err("Block hash cannot be empty".to_string())
    );
}

#[test]
fn certificate_counts_each_signer_once_and_needs_more_than_two_thirds() {
    let mut c = SnapshotCertificate::new_at(1, [5u8; 64], 300, 10);
    let a = ValidatorID::from_name("a");
    let b = ValidatorID::from_name("b");
    assert_eq!(c.add_signature_at(a.clone(), sig(), 0, 11), Err(Error::ZeroStakeWeight));
    assert_eq!(c.add_signature_at(a.clone(), sig(), 100, 11), Ok(true));
    assert_eq!(c.add_signature_at(a.clone(), sig(), 100, 12), Ok(false));
    assert_eq!(c.stake_weight(), 100);
    assert_eq!(c.signature_count(), 1);
    assert_eq!(c.add_signature_at(b.clone(), sig(), 100, 12), Ok(true));
    // exactly two thirds is not enough
    assert!(!c.has_quorum);
    assert_eq!(c.finalize_at(20), Err(Error::NoQuorum));
    c.add_signature_at(ValidatorID::from_name("c"), sig(), 1, 13).unwrap();
    assert!(c.has_quorum);
    assert_eq!(c.quorum_bps(), 6_700);
    assert_eq!(c.verify(), Err(Error::NotFinalized));
    c.finalize_at(20).unwrap();
    assert!(c.is_finalized());
    assert_eq!(c.finalization_time(), Some(20));
    assert_eq!(c.time_to_finalization(), Some(10));
    assert!(c.verify().is_ok());
}

#[test]
fn snapshots_are_created_signed_and_finalized_in_order() {
    let mut m = SnapshotManager::new();
    let s1 = m.create_snapshot_at([1u8; 64], vec![[9u8; 64]], 0, 300, 1_000).unwrap();
    assert_eq!(s1.sequence_number, 1);
    assert_eq!(s1.previous_digest, [0u8; 64]);
    assert_eq!(s1.digest, [1u8; 64]);
    assert_eq!(m.pending_count(), 1);
    assert_eq!(m.get_pending_sequences(), vec![1]);

    assert_eq!(
        m.add_signature_at(2, ValidatorID::from_name("a"), sig(), 10, 1_001),
        Err(Error::SnapshotNotPending)
    );
    assert_eq!(m.add_signature_at(1, ValidatorID::from_name("a"), sig(), 201, 1_001), Ok(true));
    assert!(m.has_quorum(1));
    let cert = m.finalize_snapshot_at(1, 2_000).unwrap();
    assert_eq!(cert.finalized_at, Some(2));
    assert_eq!(m.latest_sequence(), 1);
    assert_eq!(m.finalized_count(), 1);
    assert!(m.verify_certificate(1).is_ok());
    assert_eq!(m.verify_certificate(7), Err(Error::SnapshotNotFound));
    assert_eq!(m.finalize_snapshot_at(1, 2_000).err(), Some(Error::SnapshotNotFound));

    let s2 = m.create_snapshot_at([2u8; 64], vec![], 0, 300, 3_000).unwrap();
    assert_eq!(s2.sequence_number, 2);
    assert_eq!(s2.previous_digest, [1u8; 64]);
}

#[test]
fn pending_snapshots_time_out() {
    let mut m = SnapshotManager::with_timeout(100);
    m.create_snapshot_at([1u8; 64], vec![], 0, 300, 1_000).unwrap();
    assert_eq!(
        m.add_signature_at(1, ValidatorID::from_name("a"), sig(), 10, 1_101),
        Err(Error::SnapshotTimedOut)
    );
    assert!(m.process_timeouts_at(1_100).is_empty());
    assert_eq!(m.process_timeouts_at(1_101), vec![1]);
    assert_eq!(m.pending_count(), 0);
    assert_eq!(m.latest_sequence(), 0);
}

#[test]
fn pruning_keeps_the_newest() {
    let mut m = SnapshotManager::new();
    for i in 1..=4u64 {
        m.create_snapshot_at([i as u8; 64], vec![], 0, 3, i * 1_000).unwrap();
        m.add_signature_at(i, ValidatorID::from_name("a"), sig(), 3, i * 1_000).unwrap();
        m.finalize_snapshot_at(i, i * 1_000).unwrap();
    }
    m.prune_old_snapshots(2);
    assert_eq!(m.finalized_count(), 2);
    assert!(m.get_snapshot(2).is_none());
    assert!(m.get_snapshot(3).is_some());
    assert!(m.get_certificate(4).is_some());
}

#[test]
fn deadlines_closing_soon() {
    let mut m = SnapshotManager::with_timeout(40_000);
    m.create_snapshot_at([1u8; 64], vec![], 0, 3, 1_000).unwrap();
    assert!(m.check_pending_timeouts_at(1_000).is_empty());
    assert_eq!(m.check_pending_timeouts_at(12_000), vec![(1, 29)]);
    assert_eq!(m.check_pending_timeouts_at(41_000), vec![(1, 0)]);
    // far from the clock's present, the deadline has passed long ago
    assert_eq!(m.check_pending_timeouts(), vec![(1, 0)]);
}

#[test]
fn blocks_from_consecutive_snapshots_link_up() {
    let mut m = SnapshotManager::new();
    let s1 = m.create_snapshot_at([1u8; 64], vec![], 0, 3, 1_000).unwrap();
    m.add_signature_at(1, ValidatorID::from_name("a"), sig(), 3, 1_000).unwrap();
    m.finalize_snapshot_at(1, 1_000).unwrap();
    let s2 = m.create_snapshot_at([2u8; 64], vec![], 0, 3, 2_000).unwrap();
    let creator = BlockCreator::new();
    let b1 = creator.create_block_from_snapshot(&s1, vec![]).unwrap();
    let b2 = creator.create_block_from_snapshot(&s2, vec![]).unwrap();
    assert_eq!(b2.parent_hash, b1.hash);
    // the link and the times pass; only the 64-byte snapshot digest is
    // longer than a block hash may be
    assert_eq!(
        creator.verify_block(&b2, Ok(Some(b1))),
        Err("Block hash must be 32 bytes, got 64".to_string())
    );
}
