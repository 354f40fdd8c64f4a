//! Snapshot creation, certification and finalization:
//! - snapshots numbered one after the other
//! - signature collection from validators, weighted by stake
//! - a quorum of more than two thirds of the stake
//! - a finalization deadline for pending snapshots
//! - finalized snapshots with their certificates, oldest first
//!
//! Times are milliseconds since the epoch unless named otherwise.
use vstd::prelude::*;
use crate::clock::unix_time_millis;
use crate::table::IdTable;
use crate::types::{Error, Signature, ValidatorID};

verus! {

/// A snapshot of the chain state.
pub struct Snapshot {
    /// Sequence number
    pub sequence_number: u64,
    /// Creation time (milliseconds since the epoch)
    pub timestamp: u64,
    /// Digest of the previous snapshot
    pub previous_digest: [u8; 64],
    /// State root
    pub state_root: [u8; 64],
    /// Digests of the snapshot's transactions
    pub transactions: Vec<[u8; 64]>,
    /// Cycle
    pub cycle: u64,
    /// The snapshot's digest (its state root, under which it is certified)
    pub digest: [u8; 64],
}

/// The abstract content of a snapshot.
pub struct SnapshotView {
    pub sequence_number: u64,
    pub timestamp: u64,
    pub previous_digest: Seq<u8>,
    pub state_root: Seq<u8>,
    pub transactions: Seq<Seq<u8>>,
    pub cycle: u64,
    pub digest: Seq<u8>,
}

impl View for Snapshot {
    type V = SnapshotView;

    open spec fn view(&self) -> SnapshotView {
        SnapshotView {
            sequence_number: self.sequence_number,
            timestamp: self.timestamp,
            previous_digest: self.previous_digest@,
            state_root: self.state_root@,
            transactions: digest_views(self.transactions@),
            cycle: self.cycle,
            digest: self.digest@,
        }
    }
}

/// A copy of a list of digests.
fn copy_digests(v: &Vec<[u8; 64]>) -> (r: Vec<[u8; 64]>)
    ensures
        r@ == v@,
{
    let mut out: Vec<[u8; 64]> = Vec::new();
    let mut i: usize = 0;
    while i < v.len()
        invariant
            i <= v@.len(),
            out@ == v@.subrange(0, i as int),
        decreases v@.len() - i,
    {
        out.push(v[i]);
        i = i + 1;
        assert(out@ =~= v@.subrange(0, i as int));
    }
    assert(out@ =~= v@);
    out
}

impl Clone for Snapshot {
    fn clone(&self) -> (r: Self)
        ensures
            r@ == self@,
    {
        Snapshot {
            sequence_number: self.sequence_number,
            timestamp: self.timestamp,
            previous_digest: self.previous_digest,
            state_root: self.state_root,
            transactions: copy_digests(&self.transactions),
            cycle: self.cycle,
            digest: self.digest,
        }
    }
}

/// The abstract content of a validator's signature on a snapshot.
pub struct SignatureInfoView {
    pub validator_id: Seq<u8>,
    pub signature: (u8, Seq<u8>),
    pub stake_weight: u64,
    pub signed_at: u64,
}

/// Validator signature information.
pub struct ValidatorSignatureInfo {
    /// Validator ID
    pub validator_id: ValidatorID,
    /// Signature
    pub signature: Signature,
    /// Validator stake weight
    pub stake_weight: u64,
    /// When the signature was added (seconds since the epoch)
    pub signed_at: u64,
}

impl View for ValidatorSignatureInfo {
    type V = SignatureInfoView;

    open spec fn view(&self) -> SignatureInfoView {
        SignatureInfoView {
            validator_id: self.validator_id@,
            signature: self.signature@,
            stake_weight: self.stake_weight,
            signed_at: self.signed_at,
        }
    }
}

impl Clone for ValidatorSignatureInfo {
    fn clone(&self) -> (r: Self)
        ensures
            r@ == self@,
    {
        ValidatorSignatureInfo {
            validator_id: self.validator_id.copy(),
            signature: self.signature.copy(),
            stake_weight: self.stake_weight,
            signed_at: self.signed_at,
        }
    }
}

/// The abstract content of a certificate.
pub struct CertificateView {
    pub sequence: u64,
    pub snapshot_digest: Seq<u8>,
    pub signatures: Map<Seq<u8>, SignatureInfoView>,
    pub signature_count: nat,
    pub stake_weight: u64,
    pub total_stake: u64,
    pub created_at: u64,
    pub finalized_at: Option<u64>,
    pub has_quorum: bool,
}

/// Snapshot certificate: the validators' signatures on a snapshot.
pub struct SnapshotCertificate {
    /// Snapshot sequence number
    pub sequence: u64,
    /// Snapshot digest
    pub snapshot_digest: [u8; 64],
    /// Validator signatures, by validator
    pub signatures: IdTable<ValidatorSignatureInfo>,
    /// Total stake weight of the signers
    pub stake_weight: u64,
    /// Total stake in the network
    pub total_stake: u64,
    /// When the certificate was created (seconds since the epoch)
    pub created_at: u64,
    /// When the certificate was finalized (seconds since the epoch)
    pub finalized_at: Option<u64>,
    /// Whether the signers hold a quorum
    pub has_quorum: bool,
}

impl View for SnapshotCertificate {
    type V = CertificateView;

    open spec fn view(&self) -> CertificateView {
        CertificateView {
            sequence: self.sequence,
            snapshot_digest: self.snapshot_digest@,
            signatures: self.signatures.map().map_values(|s: ValidatorSignatureInfo| s@),
            signature_count: self.signatures.pairs().len(),
            stake_weight: self.stake_weight,
            total_stake: self.total_stake,
            created_at: self.created_at,
            finalized_at: self.finalized_at,
            has_quorum: self.has_quorum,
        }
    }
}

/// More than two thirds of a positive total stake.
pub open spec fn is_quorum(weight: u64, total: u64) -> bool {
    total != 0 && weight * 3 > total * 2
}

/// A fresh certificate made at `now_secs`.
pub open spec fn new_certificate(sequence: u64, digest: Seq<u8>, total: u64, now_secs: u64) -> CertificateView {
    CertificateView {
        sequence,
        snapshot_digest: digest,
        signatures: Map::empty(),
        signature_count: 0,
        stake_weight: 0,
        total_stake: total,
        created_at: now_secs,
        finalized_at: None,
        has_quorum: false,
    }
}

/// Adding a signature with stake `weight` at `now_secs`: refused for no
/// weight; a validator that signed already is not counted again (`false`);
/// otherwise its weight is added and the quorum recomputed (`true`).
pub open spec fn signature_added(
    c: CertificateView,
    id: Seq<u8>,
    sig: (u8, Seq<u8>),
    weight: u64,
    now_secs: u64,
) -> (CertificateView, Result<bool, Error>) {
    if weight == 0 {
        (c, Err(Error::ZeroStakeWeight))
    } else if c.signatures.dom().contains(id) {
        (c, Ok(false))
    } else {
        let w = (c.stake_weight + weight) as u64;
        (
            CertificateView {
                signatures: c.signatures.insert(
                    id,
                    SignatureInfoView { validator_id: id, signature: sig, stake_weight: weight, signed_at: now_secs },
                ),
                signature_count: c.signature_count + 1,
                stake_weight: w,
                has_quorum: is_quorum(w, c.total_stake),
                ..c
            },
            Ok(true),
        )
    }
}

/// Why a certificate fails verification, if it does.
pub open spec fn certificate_fault(c: CertificateView) -> Option<Error> {
    if !c.has_quorum {
        Some(Error::NoQuorum)
    } else if c.finalized_at is None {
        Some(Error::NotFinalized)
    } else if c.signature_count == 0 {
        Some(Error::NoSignatures)
    } else {
        None
    }
}

impl SnapshotCertificate {
    /// Signatures filed one per validator under the signer's identifier.
    pub open spec fn wf(&self) -> bool {
        &&& self.signatures.wf()
        &&& forall|i: int|
            0 <= i < self.signatures.pairs().len() ==> (#[trigger] self.signatures.pairs()[i]).1.validator_id@
                == self.signatures.pairs()[i].0
    }

    /// A certificate made at `now_secs` with no signatures.
    pub fn new_at(sequence: u64, snapshot_digest: [u8; 64], total_stake: u64, now_secs: u64) -> (r: Self)
        ensures
            r.wf(),
            r@ == new_certificate(sequence, snapshot_digest@, total_stake, now_secs),
    {
        let r = SnapshotCertificate {
            sequence,
            snapshot_digest,
            signatures: IdTable::new(),
            stake_weight: 0,
            total_stake,
            created_at: now_secs,
            finalized_at: None,
            has_quorum: false,
        };
        assert(r@.signatures =~= Map::<Seq<u8>, SignatureInfoView>::empty());
        r
    }

    /// A certificate made now (by the system clock) with no signatures.
    pub fn new(sequence: u64, snapshot_digest: [u8; 64], total_stake: u64) -> (r: Self)
        ensures
            r.wf(),
            exists|now_secs: u64|
                r@ == #[trigger] new_certificate(sequence, snapshot_digest@, total_stake, now_secs),
    {
        Self::new_at(sequence, snapshot_digest, total_stake, unix_time_millis() / 1000)
    }

    /// Add a validator's signature at `now_secs`; see `signature_added`.
    pub fn add_signature_at(
        &mut self,
        validator_id: ValidatorID,
        signature: Signature,
        stake_weight: u64,
        now_secs: u64,
    ) -> (r: Result<bool, Error>)
        requires
            old(self).wf(),
            stake_weight > 0 && !old(self)@.signatures.dom().contains(validator_id@) ==> (
            old(self).stake_weight + stake_weight) * 3 <= u64::MAX && old(self).total_stake * 2
                <= u64::MAX,
        ensures
            final(self).wf(),
            (final(self)@, r) == signature_added(
                old(self)@,
                validator_id@,
                signature@,
                stake_weight,
                now_secs,
            ),
    {
        if stake_weight == 0 {
            return Err(Error::ZeroStakeWeight);
        }
        if self.signatures.contains(&validator_id) {
            return Ok(false);
        }
        let info = ValidatorSignatureInfo {
            validator_id: validator_id.copy(),
            signature,
            stake_weight,
            signed_at: now_secs,
        };
        let ghost iv = info@;
        let ghost before = self.signatures.pairs();
        self.signatures.push(validator_id, info);
        proof {
            let newp = self.signatures.pairs();
            assert forall|j: int| 0 <= j < newp.len() implies (#[trigger] newp[j]).1.validator_id@
                == newp[j].0 by {
                if j < before.len() {
                    assert(newp[j] == before[j]);
                }
            }
        }
        self.stake_weight = self.stake_weight + stake_weight;
        self.has_quorum = self.check_quorum();
        assert(self@.signatures =~= old(self)@.signatures.insert(validator_id@, iv));
        Ok(true)
    }

    /// Add a validator's signature now (by the system clock).
    pub fn add_signature(&mut self, validator_id: ValidatorID, signature: Signature, stake_weight: u64) -> (r:
        Result<bool, Error>)
        requires
            old(self).wf(),
            stake_weight > 0 && !old(self)@.signatures.dom().contains(validator_id@) ==> (
            old(self).stake_weight + stake_weight) * 3 <= u64::MAX && old(self).total_stake * 2
                <= u64::MAX,
        ensures
            final(self).wf(),
            exists|now_secs: u64|
                (final(self)@, r) == #[trigger] signature_added(
                    old(self)@,
                    validator_id@,
                    signature@,
                    stake_weight,
                    now_secs,
                ),
    {
        let now_secs = unix_time_millis() / 1000;
        self.add_signature_at(validator_id, signature, stake_weight, now_secs)
    }

    /// Whether the signers hold more than two thirds of the stake.
    fn check_quorum(&self) -> (r: bool)
        requires
            self.stake_weight * 3 <= u64::MAX,
            self.total_stake * 2 <= u64::MAX,
        ensures
            r == is_quorum(self.stake_weight, self.total_stake),
    {
        if self.total_stake == 0 {
            return false;
        }
        self.stake_weight * 3 > self.total_stake * 2
    }

    /// Finalize the certificate at `now_secs`; refused without a quorum.
    pub fn finalize_at(&mut self, now_secs: u64) -> (r: Result<(), Error>)
        ensures
            !old(self).has_quorum ==> r == Err::<(), Error>(Error::NoQuorum) && final(self)@ == old(self)@,
            old(self).has_quorum ==> r is Ok && final(self)@ == (CertificateView {
                finalized_at: Some(now_secs),
                ..old(self)@
            }),
            final(self).signatures == old(self).signatures,
    {
        if !self.has_quorum {
            return Err(Error::NoQuorum);
        }
        self.finalized_at = Some(now_secs);
        Ok(())
    }

    /// Finalize the certificate now (by the system clock).
    pub fn finalize(&mut self) -> (r: Result<(), Error>)
        ensures
            !old(self).has_quorum ==> r == Err::<(), Error>(Error::NoQuorum) && final(self)@ == old(self)@,
            old(self).has_quorum ==> r is Ok && final(self)@.finalized_at is Some && final(self)@ == (
            CertificateView { finalized_at: final(self)@.finalized_at, ..old(self)@ }),
            final(self).signatures == old(self).signatures,
    {
        self.finalize_at(unix_time_millis() / 1000)
    }

    /// Whether the certificate is finalized.
    pub fn is_finalized(&self) -> (r: bool)
        ensures
            r == (self.finalized_at is Some),
    {
        self.finalized_at.is_some()
    }

    /// When the certificate was finalized.
    pub fn finalization_time(&self) -> (r: Option<u64>)
        ensures
            r == self.finalized_at,
    {
        self.finalized_at
    }

    /// Seconds from creation to finalization.
    pub fn time_to_finalization(&self) -> (r: Option<u64>)
        requires
            self.finalized_at matches Some(f) ==> f >= self.created_at,
        ensures
            r == (match self.finalized_at {
                Some(f) => Some((f - self.created_at) as u64),
                None => None,
            }),
    {
        match self.finalized_at {
            Some(f) => Some(f - self.created_at),
            None => None,
        }
    }

    /// The number of signatures.
    pub fn signature_count(&self) -> (r: usize)
        ensures
            r == self@.signature_count,
    {
        self.signatures.len()
    }

    /// The stake weight of the signers.
    pub fn stake_weight(&self) -> (r: u64)
        ensures
            r == self.stake_weight,
    {
        self.stake_weight
    }

    /// The signers' share of the total stake in basis points, rounded down
    /// (0 with no stake).
    pub fn quorum_bps(&self) -> (r: u128)
        ensures
            r == (if self.total_stake == 0 {
                0
            } else {
                self.stake_weight * 10000 / (self.total_stake as int)
            }),
    {
        if self.total_stake == 0 {
            return 0;
        }
        let w = self.stake_weight as u128;
        assert(w * 10000 <= u64::MAX as int * 10000) by (nonlinear_arith)
            requires
                w <= u64::MAX,
        ;
        w * 10000 / (self.total_stake as u128)
    }

    /// Check the certificate: it needs a quorum, a finalization and at
    /// least one signature.
    pub fn verify(&self) -> (r: Result<(), Error>)
        ensures
            certificate_fault(self@) is None ==> r is Ok,
            certificate_fault(self@) matches Some(e) ==> r == Err::<(), Error>(e),
    {
        if !self.has_quorum {
            return Err(Error::NoQuorum);
        }
        if !self.is_finalized() {
            return Err(Error::NotFinalized);
        }
        if self.signatures.len() == 0 {
            return Err(Error::NoSignatures);
        }
        Ok(())
    }

    /// A copy of the certificate.
    pub fn copy(&self) -> (r: Self)
        requires
            self.wf(),
        ensures
            r.wf(),
            r@ == self@,
    {
        let mut sigs: IdTable<ValidatorSignatureInfo> = IdTable::new();
        let mut i: usize = 0;
        let n = self.signatures.len();
        while i < n
            invariant
                self.wf(),
                n == self.signatures.pairs().len(),
                i <= n,
                sigs.wf(),
                sigs.pairs().len() == i,
                forall|j: int|
                    0 <= j < i ==> (#[trigger] sigs.pairs()[j]).0 == self.signatures.pairs()[j].0
                        && sigs.pairs()[j].1@ == self.signatures.pairs()[j].1@,
            decreases n - i,
        {
            let id = self.signatures.id_at(i).copy();
            let info = self.signatures.value_at(i).clone();
            proof {
                sigs.lemma_dom(id@);
                if sigs.map().dom().contains(id@) {
                    let j = choose|j: int| 0 <= j < sigs.pairs().len() && sigs.pairs()[j].0 == id@;
                    assert(self.signatures.pairs()[j].0 == self.signatures.pairs()[i as int].0);
                }
            }
            let ghost before = sigs.pairs();
            sigs.push(id, info);
            proof {
                assert forall|j: int| 0 <= j < i + 1 implies (#[trigger] sigs.pairs()[j]).0
                    == self.signatures.pairs()[j].0 && sigs.pairs()[j].1@ == self.signatures.pairs()[j].1@ by {
                    if j < i {
                        assert(sigs.pairs()[j] == before[j]);
                    }
                }
            }
            i = i + 1;
        }
        let r = SnapshotCertificate {
            sequence: self.sequence,
            snapshot_digest: self.snapshot_digest,
            signatures: sigs,
            stake_weight: self.stake_weight,
            total_stake: self.total_stake,
            created_at: self.created_at,
            finalized_at: self.finalized_at,
            has_quorum: self.has_quorum,
        };
        proof {
            assert forall|j: int| 0 <= j < r.signatures.pairs().len() implies (#[trigger] r.signatures.pairs()[j]).1.validator_id@
                == r.signatures.pairs()[j].0 by {
                assert(self.signatures.pairs()[j].1.validator_id@ == self.signatures.pairs()[j].0);
            }
            assert forall|k: Seq<u8>| #[trigger] r@.signatures.dom().contains(k) <==> self@.signatures.dom().contains(k) by {
                r.signatures.lemma_dom(k);
                self.signatures.lemma_dom(k);
                if r.signatures.map().dom().contains(k) {
                    let j = choose|j: int| 0 <= j < r.signatures.pairs().len() && r.signatures.pairs()[j].0 == k;
                    assert(self.signatures.pairs()[j].0 == k);
                }
                if self.signatures.map().dom().contains(k) {
                    let j = choose|j: int| 0 <= j < self.signatures.pairs().len() && self.signatures.pairs()[j].0 == k;
                    assert(r.signatures.pairs()[j].0 == k);
                }
            }
            assert forall|k: Seq<u8>| #[trigger] r@.signatures.dom().contains(k) implies r@.signatures[k] == self@.signatures[k] by {
                r.signatures.lemma_dom(k);
                let j = choose|j: int| 0 <= j < r.signatures.pairs().len() && r.signatures.pairs()[j].0 == k;
                r.signatures.lemma_at(j);
                self.signatures.lemma_at(j);
            }
            assert(r@.signatures =~= self@.signatures);
        }
        r
    }
}

/// A snapshot awaiting finalization.
struct PendingSnapshot {
    snapshot: Snapshot,
    certificate: SnapshotCertificate,
    created_at_ms: u64,
    timeout_ms: u64,
}

/// The abstract content of a pending snapshot.
pub struct PendingView {
    pub snapshot: SnapshotView,
    pub certificate: CertificateView,
    pub created_at_ms: u64,
    pub timeout_ms: u64,
}

impl View for PendingSnapshot {
    type V = PendingView;

    closed spec fn view(&self) -> PendingView {
        PendingView {
            snapshot: self.snapshot@,
            certificate: self.certificate@,
            created_at_ms: self.created_at_ms,
            timeout_ms: self.timeout_ms,
        }
    }
}

/// Milliseconds since `created` at `now` (0 before it).
pub open spec fn elapsed_ms(created: u64, now: u64) -> u64 {
    if now >= created {
        (now - created) as u64
    } else {
        0
    }
}

/// The pending snapshot's deadline has passed at `now`.
pub open spec fn timed_out(p: PendingView, now: u64) -> bool {
    elapsed_ms(p.created_at_ms, now) > p.timeout_ms
}

/// Milliseconds left before the deadline at `now`.
pub open spec fn time_left_ms(p: PendingView, now: u64) -> u64 {
    if p.timeout_ms >= elapsed_ms(p.created_at_ms, now) {
        (p.timeout_ms - elapsed_ms(p.created_at_ms, now)) as u64
    } else {
        0
    }
}

impl PendingSnapshot {
    fn is_timed_out_at(&self, now: u64) -> (r: bool)
        ensures
            r == timed_out(self@, now),
    {
        let elapsed = if now >= self.created_at_ms {
            now - self.created_at_ms
        } else {
            0
        };
        elapsed > self.timeout_ms
    }

    fn time_remaining_at(&self, now: u64) -> (r: u64)
        ensures
            r == time_left_ms(self@, now),
    {
        let elapsed = if now >= self.created_at_ms {
            now - self.created_at_ms
        } else {
            0
        };
        self.timeout_ms.saturating_sub(elapsed)
    }
}

/// A finalized snapshot and its certificate.
struct FinalizedSnapshot {
    snapshot: Snapshot,
    certificate: SnapshotCertificate,
}

/// The zero digest.
pub open spec fn zero_digest() -> Seq<u8> {
    Seq::new(64, |i: int| 0u8)
}

/// Snapshot manager.
pub struct SnapshotManager {
    latest_sequence: u64,
    pending_snapshots: Vec<PendingSnapshot>,
    finalized_snapshots: Vec<FinalizedSnapshot>,
    finalization_timeout_ms: u64,
    max_pending: usize,
}

impl SnapshotManager {
    /// The sequence number of the last finalized snapshot (0 before any).
    pub closed spec fn latest(&self) -> u64 {
        self.latest_sequence
    }

    /// The pending snapshots, in the order they were created.
    pub closed spec fn pending(&self) -> Seq<PendingView> {
        self.pending_snapshots@.map_values(|p: PendingSnapshot| p@)
    }

    /// The finalized snapshots with their certificates, oldest first.
    pub closed spec fn finalized(&self) -> Seq<(SnapshotView, CertificateView)> {
        self.finalized_snapshots@.map_values(|f: FinalizedSnapshot| (f.snapshot@, f.certificate@))
    }

    /// The finalization deadline given to new snapshots.
    pub closed spec fn timeout(&self) -> u64 {
        self.finalization_timeout_ms
    }

    /// How many pending snapshots are allowed before new ones are refused.
    pub closed spec fn max_pending(&self) -> usize {
        self.max_pending
    }

    /// Snapshots are finalized in order: a pending snapshot is always the
    /// one after the last finalized, finalized snapshots are numbered in
    /// increasing order up to the last finalized, and every certificate
    /// belongs to its snapshot.
    pub closed spec fn wf(&self) -> bool {
        &&& forall|i: int|
            0 <= i < self.pending_snapshots@.len() ==> (#[trigger] self.pending_snapshots@[i]).snapshot.sequence_number
                == self.latest_sequence + 1 && self.pending_snapshots@[i].certificate.wf()
                && self.pending_snapshots@[i].certificate.sequence
                == self.pending_snapshots@[i].snapshot.sequence_number
        &&& self.pending_snapshots@.len() <= 1
        &&& forall|i: int, j: int|
            0 <= i < j < self.finalized_snapshots@.len() ==> (#[trigger] self.finalized_snapshots@[i]).snapshot.sequence_number
                < (#[trigger] self.finalized_snapshots@[j]).snapshot.sequence_number
        &&& forall|i: int|
            0 <= i < self.finalized_snapshots@.len() ==> (#[trigger] self.finalized_snapshots@[i]).snapshot.sequence_number
                <= self.latest_sequence && self.finalized_snapshots@[i].certificate.wf()
    }

    /// A manager with the given finalization deadline.
    pub fn with_timeout(finalization_timeout_ms: u64) -> (r: Self)
        ensures
            r.wf(),
            r.latest() == 0,
            r.pending() == Seq::<PendingView>::empty(),
            r.finalized() == Seq::<(SnapshotView, CertificateView)>::empty(),
            r.timeout() == finalization_timeout_ms,
            r.max_pending() == 1000,
    {
        let r = SnapshotManager {
            latest_sequence: 0,
            pending_snapshots: Vec::new(),
            finalized_snapshots: Vec::new(),
            finalization_timeout_ms,
            max_pending: 1000,
        };
        assert(r.pending() =~= Seq::<PendingView>::empty());
        assert(r.finalized() =~= Seq::<(SnapshotView, CertificateView)>::empty());
        r
    }

    /// A manager with a five-second finalization deadline.
    pub fn new() -> (r: Self)
        ensures
            r.wf(),
            r.latest() == 0,
            r.pending() == Seq::<PendingView>::empty(),
            r.finalized() == Seq::<(SnapshotView, CertificateView)>::empty(),
            r.timeout() == 5000,
            r.max_pending() == 1000,
    {
        Self::with_timeout(5000)
    }

    /// The position of the pending snapshot `sequence`.
    fn find_pending(&self, sequence: u64) -> (r: Option<usize>)
        ensures
            r is None <==> forall|i: int| 0 <= i < self.pending().len() ==> (#[trigger] self.pending()[i]).snapshot.sequence_number != sequence,
            r matches Some(i) ==> i < self.pending().len() && self.pending()[i as int].snapshot.sequence_number == sequence,
    {
        let mut i: usize = 0;
        while i < self.pending_snapshots.len()
            invariant
                i <= self.pending_snapshots@.len(),
                forall|j: int| 0 <= j < i ==> (#[trigger] self.pending()[j]).snapshot.sequence_number != sequence,
            decreases self.pending_snapshots@.len() - i,
        {
            assert(self.pending()[i as int] == self.pending_snapshots@[i as int]@);
            if self.pending_snapshots[i].snapshot.sequence_number == sequence {
                assert(self.pending()[i as int] == self.pending_snapshots@[i as int]@);
                return Some(i);
            }
            i = i + 1;
        }
        None
    }

    /// The position of the finalized snapshot `sequence`.
    fn find_finalized(&self, sequence: u64) -> (r: Option<usize>)
        ensures
            r is None <==> forall|i: int| 0 <= i < self.finalized().len() ==> (#[trigger] self.finalized()[i]).0.sequence_number != sequence,
            r matches Some(i) ==> i < self.finalized().len() && self.finalized()[i as int].0.sequence_number == sequence,
    {
        let mut i: usize = 0;
        while i < self.finalized_snapshots.len()
            invariant
                i <= self.finalized_snapshots@.len(),
                forall|j: int| 0 <= j < i ==> (#[trigger] self.finalized()[j]).0.sequence_number != sequence,
            decreases self.finalized_snapshots@.len() - i,
        {
            if self.finalized_snapshots[i].snapshot.sequence_number == sequence {
                assert(self.finalized()[i as int].0.sequence_number == sequence);
                return Some(i);
            }
            i = i + 1;
        }
        None
    }

    /// Create, at `now`, the next snapshot with the given state root and
    /// transactions; see `created_outcome`.
    pub fn create_snapshot_at(
        &mut self,
        state_root: [u8; 64],
        transaction_digests: Vec<[u8; 64]>,
        cycle: u64,
        total_stake: u64,
        now: u64,
    ) -> (r: Result<Snapshot, Error>)
        requires
            old(self).wf(),
            old(self).latest() < u64::MAX,
        ensures
            final(self).wf(),
            created_outcome(
                *old(self),
                *final(self),
                state_root@,
                digest_views(transaction_digests@),
                cycle,
                total_stake,
                now,
                snapshot_result_view(r),
            ),
    {
        if self.pending_snapshots.len() >= self.max_pending {
            return Err(Error::Backpressure { pending: self.pending_snapshots.len() });
        }
        let sequence = self.latest_sequence + 1;
        let mut previous_digest: [u8; 64] = [0u8; 64];
        proof {
            broadcast use vstd::array::axiom_spec_array_fill_for_copy_type;

            assert(previous_digest@ =~= zero_digest());
        }
        if sequence > 1 {
            match self.find_finalized(sequence - 1) {
                Some(i) => {
                    proof {
                        self.lemma_finalized_entry((sequence - 1) as u64, i as int);
                    }
                    previous_digest = self.finalized_snapshots[i].snapshot.digest;
                },
                None => {},
            }
        }
        proof {
            let prev = match finalized_entry(old(self).finalized(), (sequence - 1) as u64) {
                Some(e) => if sequence > 1 {
                    e.0.digest
                } else {
                    zero_digest()
                },
                None => zero_digest(),
            };
            assert(previous_digest@ == prev);
        }
        let snapshot = Snapshot {
            sequence_number: sequence,
            timestamp: now,
            previous_digest,
            state_root,
            transactions: transaction_digests,
            cycle,
            digest: state_root,
        };
        let certificate = SnapshotCertificate::new_at(sequence, state_root, total_stake, now / 1000);
        let out = snapshot.clone();
        let pending = PendingSnapshot {
            snapshot,
            certificate,
            created_at_ms: now,
            timeout_ms: self.finalization_timeout_ms,
        };
        let ghost pv = pending@;
        match self.find_pending(sequence) {
            Some(i) => {
                self.pending_snapshots.set(i, pending);
                proof {
                    assert(i == 0);
                    assert(self.pending() =~= old(self).pending().update(i as int, pv));
                }
            },
            None => {
                proof {
                    if old(self).pending().len() > 0 {
                        assert(old(self).pending()[0] == old(self).pending_snapshots@[0]@);
                        assert(old(self).pending_snapshots@[0].snapshot.sequence_number == sequence);
                    }
                }
                self.pending_snapshots.push(pending);
                proof {
                    assert(self.pending() =~= old(self).pending().push(pv));
                    assert(self.pending() =~= seq![pv]);
                }
            },
        }
        Ok(out)
    }

    /// Create the next snapshot now (by the system clock).
    pub fn create_snapshot(
        &mut self,
        state_root: [u8; 64],
        transaction_digests: Vec<[u8; 64]>,
        cycle: u64,
        total_stake: u64,
    ) -> (r: Result<Snapshot, Error>)
        requires
            old(self).wf(),
            old(self).latest() < u64::MAX,
        ensures
            final(self).wf(),
            exists|now: u64|
                #[trigger] created_outcome(
                    *old(self),
                    *final(self),
                    state_root@,
                    digest_views(transaction_digests@),
                    cycle,
                    total_stake,
                    now,
                    snapshot_result_view(r),
                ),
    {
        let now = unix_time_millis();
        self.create_snapshot_at(state_root, transaction_digests, cycle, total_stake, now)
    }

    /// Add a validator's signature, at `now`, to the pending snapshot
    /// `sequence`: refused when the snapshot is not pending or its deadline
    /// has passed; otherwise as `SnapshotCertificate::add_signature_at`.
    pub fn add_signature_at(
        &mut self,
        sequence: u64,
        validator_id: ValidatorID,
        signature: Signature,
        stake_weight: u64,
        now: u64,
    ) -> (r: Result<bool, Error>)
        requires
            old(self).wf(),
            forall|i: int|
                0 <= i < old(self).pending().len() && (#[trigger] old(self).pending()[i]).snapshot.sequence_number
                    == sequence && stake_weight > 0 && !old(self).pending()[i].certificate.signatures.dom().contains(
                    validator_id@,
                ) ==> (old(self).pending()[i].certificate.stake_weight + stake_weight) * 3 <= u64::MAX
                    && old(self).pending()[i].certificate.total_stake * 2 <= u64::MAX,
        ensures
            final(self).wf(),
            final(self).latest() == old(self).latest(),
            final(self).finalized() == old(self).finalized(),
            final(self).timeout() == old(self).timeout(),
            final(self).pending().len() == old(self).pending().len(),
            (forall|i: int|
                0 <= i < old(self).pending().len() ==> (#[trigger] old(self).pending()[i]).snapshot.sequence_number
                    != sequence) ==> r == Err::<bool, Error>(Error::SnapshotNotPending) && final(self).pending()
                == old(self).pending(),
            forall|i: int|
                0 <= i < old(self).pending().len() && (#[trigger] old(self).pending()[i]).snapshot.sequence_number
                    == sequence ==> {
                    let p = old(self).pending()[i];
                    if timed_out(p, now) {
                        r == Err::<bool, Error>(Error::SnapshotTimedOut) && final(self).pending() == old(self).pending()
                    } else {
                        let out = signature_added(p.certificate, validator_id@, signature@, stake_weight, now / 1000);
                        &&& r == out.1
                        &&& final(self).pending() == old(self).pending().update(
                            i,
                            PendingView { certificate: out.0, ..p },
                        )
                    }
                },
    {
        let i = match self.find_pending(sequence) {
            Some(i) => i,
            None => {
                return Err(Error::SnapshotNotPending);
            },
        };
        if self.pending_snapshots[i].is_timed_out_at(now) {
            return Err(Error::SnapshotTimedOut);
        }
        let mut p = self.pending_snapshots.remove(i);
        let r = p.certificate.add_signature_at(validator_id, signature, stake_weight, now / 1000);
        self.pending_snapshots.insert(i, p);
        proof {
            assert(self.pending() =~= old(self).pending().update(
                i as int,
                PendingView { certificate: self.pending()[i as int].certificate, ..old(self).pending()[i as int] },
            ));
            assert forall|j: int| 0 <= j < old(self).pending().len() && (#[trigger] old(self).pending()[j]).snapshot.sequence_number == sequence implies j == i by {
                assert(old(self).pending().len() <= 1);
            }
        }
        r
    }

    /// Add a validator's signature now (by the system clock).
    pub fn add_signature(
        &mut self,
        sequence: u64,
        validator_id: ValidatorID,
        signature: Signature,
        stake_weight: u64,
    ) -> (r: Result<bool, Error>)
        requires
            old(self).wf(),
            forall|i: int|
                0 <= i < old(self).pending().len() && (#[trigger] old(self).pending()[i]).snapshot.sequence_number
                    == sequence && stake_weight > 0 && !old(self).pending()[i].certificate.signatures.dom().contains(
                    validator_id@,
                ) ==> (old(self).pending()[i].certificate.stake_weight + stake_weight) * 3 <= u64::MAX
                    && old(self).pending()[i].certificate.total_stake * 2 <= u64::MAX,
        ensures
            final(self).wf(),
            final(self).latest() == old(self).latest(),
            final(self).finalized() == old(self).finalized(),
            (forall|i: int|
                0 <= i < old(self).pending().len() ==> (#[trigger] old(self).pending()[i]).snapshot.sequence_number
                    != sequence) ==> r == Err::<bool, Error>(Error::SnapshotNotPending) && final(self).pending()
                == old(self).pending(),
    {
        let now = unix_time_millis();
        self.add_signature_at(sequence, validator_id, signature, stake_weight, now)
    }

    /// Whether the pending snapshot `sequence` has a quorum (false when it
    /// is not pending).
    pub fn has_quorum(&self, sequence: u64) -> (r: bool)
        requires
            self.wf(),
        ensures
            r == exists|i: int|
                0 <= i < self.pending().len() && (#[trigger] self.pending()[i]).snapshot.sequence_number
                    == sequence && self.pending()[i].certificate.has_quorum,
    {
        match self.find_pending(sequence) {
            Some(i) => {
                let r = self.pending_snapshots[i].certificate.has_quorum;
                proof {
                    assert(self.pending()[i as int] == self.pending_snapshots@[i as int]@);
                    if !r {
                        assert forall|j: int| 0 <= j < self.pending().len() && (#[trigger] self.pending()[j]).snapshot.sequence_number == sequence implies !self.pending()[j].certificate.has_quorum by {
                            if j != i {
                                assert(self.pending_snapshots@.len() >= 2);
                            }
                        }
                    }
                }
                r
            },
            None => false,
        }
    }

    /// The signers' share of the stake of the pending snapshot `sequence`,
    /// in basis points.
    pub fn get_quorum_bps(&self, sequence: u64) -> (r: Option<u128>)
        ensures
            r is None <==> forall|i: int| 0 <= i < self.pending().len() ==> (#[trigger] self.pending()[i]).snapshot.sequence_number != sequence,
            r matches Some(q) ==> exists|i: int|
                0 <= i < self.pending().len() && (#[trigger] self.pending()[i]).snapshot.sequence_number
                    == sequence && q == (if self.pending()[i].certificate.total_stake == 0 {
                    0
                } else {
                    self.pending()[i].certificate.stake_weight * 10000
                        / (self.pending()[i].certificate.total_stake as int)
                }),
    {
        match self.find_pending(sequence) {
            Some(i) => Some(self.pending_snapshots[i].certificate.quorum_bps()),
            None => None,
        }
    }

    /// Finalize the pending snapshot `sequence` at `now`; see
    /// `finalized_outcome`.
    pub fn finalize_snapshot_at(&mut self, sequence: u64, now: u64) -> (r: Result<SnapshotCertificate, Error>)
        requires
            old(self).wf(),
        ensures
            final(self).wf(),
            finalized_outcome(
                *old(self),
                *final(self),
                sequence,
                now,
                cert_result_view(r),
            ),
    {
        let i = match self.find_pending(sequence) {
            Some(i) => i,
            None => {
                return Err(Error::SnapshotNotFound);
            },
        };
        let mut p = self.pending_snapshots.remove(i);
        proof {
            assert(i == 0);
            assert(self.pending() =~= Seq::<PendingView>::empty());
            assert(old(self).pending()[0] == p@);
            assert(old(self).pending_snapshots@[i as int].snapshot.sequence_number == old(self).latest_sequence + 1);
            assert(p.certificate.wf());
        }
        if !p.certificate.has_quorum {
            return Err(Error::NoQuorum);
        }
        let _ = p.certificate.finalize_at(now / 1000);
        let out = p.certificate.copy();
        let ghost fv = (p.snapshot@, p.certificate@);
        self.finalized_snapshots.push(FinalizedSnapshot { snapshot: p.snapshot, certificate: p.certificate });
        self.latest_sequence = sequence;
        proof {
            assert(self.finalized() =~= old(self).finalized().push(fv));
            assert(self.pending_snapshots@.len() == 0);
            let fs = self.finalized_snapshots@;
            assert forall|a: int, b: int| 0 <= a < b < fs.len() implies (#[trigger] fs[a]).snapshot.sequence_number
                < (#[trigger] fs[b]).snapshot.sequence_number by {
                if b == fs.len() - 1 {
                    assert(fs[a] == old(self).finalized_snapshots@[a]);
                } else {
                    assert(fs[a] == old(self).finalized_snapshots@[a]);
                    assert(fs[b] == old(self).finalized_snapshots@[b]);
                }
            }
            assert forall|a: int| 0 <= a < fs.len() implies (#[trigger] fs[a]).snapshot.sequence_number
                <= self.latest_sequence && fs[a].certificate.wf() by {
                if a < fs.len() - 1 {
                    assert(fs[a] == old(self).finalized_snapshots@[a]);
                }
            }
        }
        Ok(out)
    }

    /// Finalize the pending snapshot `sequence` now (by the system clock).
    pub fn finalize_snapshot(&mut self, sequence: u64) -> (r: Result<SnapshotCertificate, Error>)
        requires
            old(self).wf(),
        ensures
            final(self).wf(),
            exists|now: u64|
                #[trigger] finalized_outcome(
                    *old(self),
                    *final(self),
                    sequence,
                    now,
                    cert_result_view(r),
                ),
    {
        let now = unix_time_millis();
        self.finalize_snapshot_at(sequence, now)
    }

    /// Drop, at `now`, every pending snapshot whose deadline has passed;
    /// returns their sequence numbers, in order.
    pub fn process_timeouts_at(&mut self, now: u64) -> (r: Vec<u64>)
        requires
            old(self).wf(),
        ensures
            final(self).wf(),
            final(self).latest() == old(self).latest(),
            final(self).finalized() == old(self).finalized(),
            final(self).timeout() == old(self).timeout(),
            r@ == timed_out_seqs(old(self).pending(), now),
            final(self).pending() == still_pending(old(self).pending(), now),
    {
        let mut out: Vec<u64> = Vec::new();
        let ghost orig = self.pending();
        let ghost n: int = orig.len() as int;
        let mut i: usize = 0;
        let ghost mut j: int = 0;
        while i < self.pending_snapshots.len()
            invariant
                self.wf(),
                self.latest() == old(self).latest(),
                self.finalized() == old(self).finalized(),
                self.timeout() == old(self).timeout(),
                orig == old(self).pending(),
                n == orig.len(),
                0 <= j <= n,
                i == still_pending(orig.take(j), now).len(),
                self.pending() == still_pending(orig.take(j), now) + orig.skip(j),
                out@ == timed_out_seqs(orig.take(j), now),
            decreases n - j,
        {
            proof {
                assert(self.pending().len() == i + (n - j));
                assert(self.pending()[i as int] == orig[j]);
                assert(orig.take(j + 1).drop_last() =~= orig.take(j));
                assert(orig.take(j + 1).last() == orig[j]);
            }
            let ghost before = self.pending();
            let ghost before_raw = self.pending_snapshots@;
            if self.pending_snapshots[i].is_timed_out_at(now) {
                let p = self.pending_snapshots.remove(i);
                out.push(p.snapshot.sequence_number);
                proof {
                    assert(self.pending() =~= before.remove(i as int));
                    assert(orig.skip(j) =~= seq![orig[j]] + orig.skip(j + 1));
                    assert(self.pending() =~= still_pending(orig.take(j + 1), now) + orig.skip(j + 1));
                }
            } else {
                i = i + 1;
                proof {
                    assert(still_pending(orig.take(j + 1), now) =~= still_pending(orig.take(j), now).push(orig[j]));
                    assert(self.pending() =~= still_pending(orig.take(j + 1), now) + orig.skip(j + 1));
                }
            }
            proof {
                j = j + 1;
            }
        }
        proof {
            assert(self.pending().len() == i + (n - j));
            assert(orig.take(n) =~= orig);
            assert(self.pending() =~= still_pending(orig, now));
        }
        out
    }

    /// Drop every pending snapshot whose deadline has passed now (by the
    /// system clock).
    pub fn process_timeouts(&mut self) -> (r: Vec<u64>)
        requires
            old(self).wf(),
        ensures
            final(self).wf(),
            final(self).latest() == old(self).latest(),
            final(self).finalized() == old(self).finalized(),
            exists|now: u64|
                r@ == #[trigger] timed_out_seqs(old(self).pending(), now) && final(self).pending()
                    == still_pending(old(self).pending(), now),
    {
        let now = unix_time_millis();
        self.process_timeouts_at(now)
    }

    /// The pending snapshots whose deadline is less than 30 seconds away
    /// at `now`, with the whole seconds left.
    pub fn check_pending_timeouts_at(&self, now: u64) -> (r: Vec<(u64, u64)>)
        ensures
            r@ == closing_soon(self.pending(), now),
    {
        let mut out: Vec<(u64, u64)> = Vec::new();
        let mut i: usize = 0;
        while i < self.pending_snapshots.len()
            invariant
                i <= self.pending().len(),
                self.pending().len() == self.pending_snapshots@.len(),
                out@ == closing_soon(self.pending().take(i as int), now),
            decreases self.pending_snapshots@.len() - i,
        {
            proof {
                assert(self.pending().take(i + 1).drop_last() =~= self.pending().take(i as int));
            }
            let p = &self.pending_snapshots[i];
            let secs = p.time_remaining_at(now) / 1000;
            if secs < 30 {
                out.push((p.snapshot.sequence_number, secs));
            }
            i = i + 1;
        }
        assert(self.pending().take(i as int) =~= self.pending());
        out
    }

    /// The pending snapshots whose deadline is less than 30 seconds away
    /// now (by the system clock), with the whole seconds left.
    pub fn check_pending_timeouts(&self) -> (r: Vec<(u64, u64)>)
        ensures
            exists|now: u64| r@ == #[trigger] closing_soon(self.pending(), now),
    {
        self.check_pending_timeouts_at(unix_time_millis())
    }

    /// The sequence number of the last finalized snapshot.
    pub fn latest_sequence(&self) -> (r: u64)
        ensures
            r == self.latest(),
    {
        self.latest_sequence
    }

    /// The finalized snapshot `sequence`.
    pub fn get_snapshot(&self, sequence: u64) -> (r: Option<&Snapshot>)
        requires
            self.wf(),
        ensures
            r is None <==> finalized_entry(self.finalized(), sequence) is None,
            r matches Some(s) ==> s@ == finalized_entry(self.finalized(), sequence)->Some_0.0,
    {
        match self.find_finalized(sequence) {
            Some(i) => {
                proof {
                    self.lemma_finalized_entry(sequence, i as int);
                }
                Some(&self.finalized_snapshots[i].snapshot)
            },
            None => None,
        }
    }

    /// The finalized snapshot `sequence` with its certificate.
    pub fn get_snapshot_with_certificate(&self, sequence: u64) -> (r: Option<(&Snapshot, &SnapshotCertificate)>)
        requires
            self.wf(),
        ensures
            r is None <==> finalized_entry(self.finalized(), sequence) is None,
            r matches Some(p) ==> Some((p.0@, p.1@)) == finalized_entry(self.finalized(), sequence),
    {
        match self.find_finalized(sequence) {
            Some(i) => {
                proof {
                    self.lemma_finalized_entry(sequence, i as int);
                }
                Some((&self.finalized_snapshots[i].snapshot, &self.finalized_snapshots[i].certificate))
            },
            None => None,
        }
    }

    /// The certificate of the pending snapshot `sequence`.
    pub fn get_pending_certificate(&self, sequence: u64) -> (r: Option<&SnapshotCertificate>)
        requires
            self.wf(),
        ensures
            r is None <==> forall|i: int| 0 <= i < self.pending().len() ==> (#[trigger] self.pending()[i]).snapshot.sequence_number != sequence,
            r matches Some(c) ==> exists|i: int|
                0 <= i < self.pending().len() && (#[trigger] self.pending()[i]).snapshot.sequence_number
                    == sequence && c@ == self.pending()[i].certificate,
    {
        match self.find_pending(sequence) {
            Some(i) => Some(&self.pending_snapshots[i].certificate),
            None => None,
        }
    }

    /// The certificate of the finalized snapshot `sequence`.
    pub fn get_certificate(&self, sequence: u64) -> (r: Option<&SnapshotCertificate>)
        requires
            self.wf(),
        ensures
            r is None <==> finalized_entry(self.finalized(), sequence) is None,
            r matches Some(c) ==> c@ == finalized_entry(self.finalized(), sequence)->Some_0.1,
    {
        match self.find_finalized(sequence) {
            Some(i) => {
                proof {
                    self.lemma_finalized_entry(sequence, i as int);
                }
                Some(&self.finalized_snapshots[i].certificate)
            },
            None => None,
        }
    }

    /// The number of pending snapshots.
    pub fn pending_count(&self) -> (r: usize)
        ensures
            r == self.pending().len(),
    {
        self.pending_snapshots.len()
    }

    /// The number of finalized snapshots kept.
    pub fn finalized_count(&self) -> (r: usize)
        ensures
            r == self.finalized().len(),
    {
        self.finalized_snapshots.len()
    }

    /// The sequence numbers of the pending snapshots, in order.
    pub fn get_pending_sequences(&self) -> (r: Vec<u64>)
        ensures
            r@ == self.pending().map_values(|p: PendingView| p.snapshot.sequence_number),
    {
        let mut out: Vec<u64> = Vec::new();
        let mut i: usize = 0;
        while i < self.pending_snapshots.len()
            invariant
                i <= self.pending().len(),
                self.pending().len() == self.pending_snapshots@.len(),
                out@ == self.pending().take(i as int).map_values(|p: PendingView| p.snapshot.sequence_number),
            decreases self.pending_snapshots@.len() - i,
        {
            out.push(self.pending_snapshots[i].snapshot.sequence_number);
            i = i + 1;
            assert(out@ =~= self.pending().take(i as int).map_values(|p: PendingView| p.snapshot.sequence_number));
        }
        assert(self.pending().take(i as int) =~= self.pending());
        out
    }

    /// Check the certificate of the finalized snapshot `sequence`: refused
    /// when it is unknown, else as `SnapshotCertificate::verify`.
    pub fn verify_certificate(&self, sequence: u64) -> (r: Result<(), Error>)
        requires
            self.wf(),
        ensures
            finalized_entry(self.finalized(), sequence) is None ==> r == Err::<(), Error>(
                Error::SnapshotNotFound,
            ),
            finalized_entry(self.finalized(), sequence) matches Some(e) ==> (certificate_fault(e.1) is None
                ==> r is Ok) && (certificate_fault(e.1) matches Some(f) ==> r == Err::<(), Error>(f)),
    {
        match self.find_finalized(sequence) {
            Some(i) => {
                proof {
                    self.lemma_finalized_entry(sequence, i as int);
                }
                self.finalized_snapshots[i].certificate.verify()
            },
            None => Err(Error::SnapshotNotFound),
        }
    }

    /// When the finalized snapshot `sequence` was finalized.
    pub fn get_finalization_time(&self, sequence: u64) -> (r: Option<u64>)
        requires
            self.wf(),
        ensures
            r == (match finalized_entry(self.finalized(), sequence) {
                Some(e) => e.1.finalized_at,
                None => None,
            }),
    {
        match self.find_finalized(sequence) {
            Some(i) => {
                proof {
                    self.lemma_finalized_entry(sequence, i as int);
                }
                self.finalized_snapshots[i].certificate.finalization_time()
            },
            None => None,
        }
    }

    /// Seconds from creation to finalization of the finalized snapshot
    /// `sequence`.
    pub fn get_time_to_finalization(&self, sequence: u64) -> (r: Option<u64>)
        requires
            self.wf(),
            finalized_entry(self.finalized(), sequence) matches Some(e) ==> (e.1.finalized_at matches Some(
                f,
            ) ==> f >= e.1.created_at),
        ensures
            r == (match finalized_entry(self.finalized(), sequence) {
                Some(e) => match e.1.finalized_at {
                    Some(f) => Some((f - e.1.created_at) as u64),
                    None => None,
                },
                None => None,
            }),
    {
        match self.find_finalized(sequence) {
            Some(i) => {
                proof {
                    self.lemma_finalized_entry(sequence, i as int);
                }
                self.finalized_snapshots[i].certificate.time_to_finalization()
            },
            None => None,
        }
    }

    /// Keep only the `keep_count` most recent finalized snapshots.
    pub fn prune_old_snapshots(&mut self, keep_count: usize)
        requires
            old(self).wf(),
        ensures
            final(self).wf(),
            final(self).latest() == old(self).latest(),
            final(self).pending() == old(self).pending(),
            final(self).timeout() == old(self).timeout(),
            old(self).finalized().len() <= keep_count ==> final(self).finalized() == old(self).finalized(),
            old(self).finalized().len() > keep_count ==> final(self).finalized() == old(self).finalized().skip(
                old(self).finalized().len() - keep_count,
            ),
    {
        if self.finalized_snapshots.len() <= keep_count {
            return;
        }
        let to_remove = self.finalized_snapshots.len() - keep_count;
        let mut kept: Vec<FinalizedSnapshot> = Vec::new();
        let mut all: Vec<FinalizedSnapshot> = Vec::new();
        std::mem::swap(&mut all, &mut self.finalized_snapshots);
        let ghost orig = all@;
        let mut i: usize = 0;
        while all.len() > 0
            invariant
                all@.len() + i == orig.len(),
                orig.len() <= usize::MAX,
                all@ == orig.skip(i as int),
                to_remove <= orig.len(),
                i <= to_remove ==> kept@.len() == 0,
                i > to_remove ==> kept@ == orig.subrange(to_remove as int, i as int),
            decreases all@.len(),
        {
            let f = all.remove(0);
            proof {
                assert(f == orig[i as int]);
                assert(all@ =~= orig.skip(i + 1));
            }
            if i >= to_remove {
                kept.push(f);
                proof {
                    assert(kept@ =~= orig.subrange(to_remove as int, i + 1));
                }
            }
            i = i + 1;
        }
        self.finalized_snapshots = kept;
        proof {
            assert(self.finalized_snapshots@ =~= orig.skip(to_remove as int));
            assert(self.finalized() =~= old(self).finalized().skip(to_remove as int));
            assert forall|a: int, b: int| 0 <= a < b < self.finalized_snapshots@.len() implies (#[trigger] self.finalized_snapshots@[a]).snapshot.sequence_number
                < (#[trigger] self.finalized_snapshots@[b]).snapshot.sequence_number by {
                assert(self.finalized_snapshots@[a] == orig[a + to_remove]);
                assert(self.finalized_snapshots@[b] == orig[b + to_remove]);
            }
            assert forall|a: int| 0 <= a < self.finalized_snapshots@.len() implies (#[trigger] self.finalized_snapshots@[a]).snapshot.sequence_number
                <= self.latest_sequence && self.finalized_snapshots@[a].certificate.wf() by {
                assert(self.finalized_snapshots@[a] == orig[a + to_remove]);
            }
        }
    }

    /// The finalized entry found at `i` is the one `finalized_entry` names.
    proof fn lemma_finalized_entry(&self, sequence: u64, i: int)
        requires
            self.wf(),
            0 <= i < self.finalized().len(),
            self.finalized()[i].0.sequence_number == sequence,
        ensures
            finalized_entry(self.finalized(), sequence) == Some(self.finalized()[i]),
    {
        let s = self.finalized();
        let c = choose|k: int| 0 <= k < s.len() && s[k].0.sequence_number == sequence;
        assert(s[c].0.sequence_number == sequence);
        if c != i {
            if c < i {
                assert(self.finalized_snapshots@[c].snapshot.sequence_number < self.finalized_snapshots@[i].snapshot.sequence_number);
            } else {
                assert(self.finalized_snapshots@[i].snapshot.sequence_number < self.finalized_snapshots@[c].snapshot.sequence_number);
            }
        }
    }
}

impl Default for SnapshotManager {
    fn default() -> (r: Self)
        ensures
            r.wf(),
            r.latest() == 0,
            r.pending() == Seq::<PendingView>::empty(),
            r.finalized() == Seq::<(SnapshotView, CertificateView)>::empty(),
            r.timeout() == 5000,
    {
        Self::new()
    }
}

/// The views of a list of digests.
pub open spec fn digest_views(v: Seq<[u8; 64]>) -> Seq<Seq<u8>> {
    v.map_values(|d: [u8; 64]| d@)
}

/// The view of a snapshot result.
pub open spec fn snapshot_result_view(r: Result<Snapshot, Error>) -> Result<SnapshotView, Error> {
    match r {
        Ok(s) => Ok(s@),
        Err(e) => Err(e),
    }
}

/// The view of a certificate result.
pub open spec fn cert_result_view(r: Result<SnapshotCertificate, Error>) -> Result<CertificateView, Error> {
    match r {
        Ok(c) => Ok(c@),
        Err(e) => Err(e),
    }
}

/// The finalized entry of snapshot `sequence`, if it is kept.
pub open spec fn finalized_entry(s: Seq<(SnapshotView, CertificateView)>, sequence: u64) -> Option<
    (SnapshotView, CertificateView),
> {
    if exists|k: int| 0 <= k < s.len() && s[k].0.sequence_number == sequence {
        Some(s[choose|k: int| 0 <= k < s.len() && s[k].0.sequence_number == sequence])
    } else {
        None
    }
}

/// The sequence numbers of the pending snapshots whose deadline has passed
/// at `now`, in order.
pub open spec fn timed_out_seqs(s: Seq<PendingView>, now: u64) -> Seq<u64>
    decreases s.len(),
{
    if s.len() == 0 {
        Seq::empty()
    } else if timed_out(s.last(), now) {
        timed_out_seqs(s.drop_last(), now).push(s.last().snapshot.sequence_number)
    } else {
        timed_out_seqs(s.drop_last(), now)
    }
}

/// The pending snapshots whose deadline has not passed at `now`, in order.
pub open spec fn still_pending(s: Seq<PendingView>, now: u64) -> Seq<PendingView>
    decreases s.len(),
{
    if s.len() == 0 {
        Seq::empty()
    } else if !timed_out(s.last(), now) {
        still_pending(s.drop_last(), now).push(s.last())
    } else {
        still_pending(s.drop_last(), now)
    }
}

/// The pending snapshots with less than 30 whole seconds left at `now`,
/// with the seconds left.
pub open spec fn closing_soon(s: Seq<PendingView>, now: u64) -> Seq<(u64, u64)>
    decreases s.len(),
{
    if s.len() == 0 {
        Seq::empty()
    } else if time_left_ms(s.last(), now) / 1000 < 30 {
        closing_soon(s.drop_last(), now).push(
            (s.last().snapshot.sequence_number, (time_left_ms(s.last(), now) / 1000) as u64),
        )
    } else {
        closing_soon(s.drop_last(), now)
    }
}

/// What creating a snapshot at `now` does: refused once `max_pending`
/// snapshots are pending; otherwise the snapshot after the last finalized
/// one is made, pointing to the digest of its predecessor when that is
/// kept (else to the zero digest), certified under its state root, and it
/// replaces a pending snapshot with the same number or is added.
pub open spec fn created_outcome(
    pre: SnapshotManager,
    post: SnapshotManager,
    state_root: Seq<u8>,
    txs: Seq<Seq<u8>>,
    cycle: u64,
    total_stake: u64,
    now: u64,
    r: Result<SnapshotView, Error>,
) -> bool {
    if pre.pending().len() >= pre.max_pending() {
        &&& r == Err::<SnapshotView, Error>(Error::Backpressure { pending: pre.pending().len() as usize })
        &&& post.pending() == pre.pending()
        &&& post.finalized() == pre.finalized()
        &&& post.latest() == pre.latest()
        &&& post.timeout() == pre.timeout()
        &&& post.max_pending() == pre.max_pending()
    } else {
        let sequence = (pre.latest() + 1) as u64;
        let prev = match finalized_entry(pre.finalized(), (sequence - 1) as u64) {
            Some(e) => if sequence > 1 {
                e.0.digest
            } else {
                zero_digest()
            },
            None => zero_digest(),
        };
        let snap = SnapshotView {
            sequence_number: sequence,
            timestamp: now,
            previous_digest: prev,
            state_root,
            transactions: txs,
            cycle,
            digest: state_root,
        };
        let p = PendingView {
            snapshot: snap,
            certificate: new_certificate(sequence, state_root, total_stake, now / 1000),
            created_at_ms: now,
            timeout_ms: pre.timeout(),
        };
        &&& r == Ok::<SnapshotView, Error>(snap)
        &&& post.pending() == (if pre.pending().len() == 0 {
            seq![p]
        } else {
            pre.pending().update(0, p)
        })
        &&& post.finalized() == pre.finalized()
        &&& post.latest() == pre.latest()
        &&& post.timeout() == pre.timeout()
        &&& post.max_pending() == pre.max_pending()
    }
}

/// What finalizing snapshot `sequence` at `now` does: refused when it is not
/// pending; otherwise it stops being pending, and without a quorum that is
/// all (the refusal says so); with one its certificate is finalized at
/// `now`, it joins the finalized snapshots and becomes the latest.
pub open spec fn finalized_outcome(
    pre: SnapshotManager,
    post: SnapshotManager,
    sequence: u64,
    now: u64,
    r: Result<CertificateView, Error>,
) -> bool {
    &&& post.timeout() == pre.timeout()
    &&& post.max_pending() == pre.max_pending()
    &&& if forall|i: int| 0 <= i < pre.pending().len() ==> (#[trigger] pre.pending()[i]).snapshot.sequence_number != sequence {
        &&& r == Err::<CertificateView, Error>(Error::SnapshotNotFound)
        &&& post.pending() == pre.pending()
        &&& post.finalized() == pre.finalized()
        &&& post.latest() == pre.latest()
    } else {
        let p = pre.pending()[0];
        &&& p.snapshot.sequence_number == sequence
        &&& post.pending() == Seq::<PendingView>::empty()
        &&& if !p.certificate.has_quorum {
            &&& r == Err::<CertificateView, Error>(Error::NoQuorum)
            &&& post.finalized() == pre.finalized()
            &&& post.latest() == pre.latest()
        } else {
            let c = CertificateView { finalized_at: Some((now / 1000) as u64), ..p.certificate };
            &&& r == Ok::<CertificateView, Error>(c)
            &&& post.finalized() == pre.finalized().push((p.snapshot, c))
            &&& post.latest() == sequence
        }
    }
}

/// A snapshot a manager creates is numbered one past the last finalized
/// and waits, alone, for its signatures.
pub proof fn lemma_created_follows_latest(
    pre: SnapshotManager,
    post: SnapshotManager,
    state_root: Seq<u8>,
    txs: Seq<Seq<u8>>,
    cycle: u64,
    total_stake: u64,
    now: u64,
    r: Result<SnapshotView, Error>,
)
    requires
        pre.wf(),
        pre.latest() < u64::MAX,
        created_outcome(pre, post, state_root, txs, cycle, total_stake, now, r),
        r is Ok,
    ensures
        r->Ok_0.sequence_number == pre.latest() + 1,
        post.latest() == pre.latest(),
        post.pending().len() == 1,
        post.pending()[0].snapshot == r->Ok_0,
{
}

/// Snapshots are finalized one after the other: finalizing a snapshot
/// takes the pending one, numbered one past the last finalized, and makes
/// it the latest, with a later number than every snapshot finalized
/// before.
pub proof fn lemma_sequential_finalization(
    pre: SnapshotManager,
    post: SnapshotManager,
    sequence: u64,
    now: u64,
    r: Result<CertificateView, Error>,
)
    requires
        pre.wf(),
        finalized_outcome(pre, post, sequence, now, r),
        r is Ok,
    ensures
        sequence == pre.latest() + 1,
        post.latest() == sequence,
        post.finalized().last().0 == pre.pending()[0].snapshot,
        post.finalized().len() == pre.finalized().len() + 1,
        forall|i: int|
            0 <= i < pre.finalized().len() ==> (#[trigger] pre.finalized()[i]).0.sequence_number
                < post.latest(),
{
    assert(pre.pending()[0].snapshot.sequence_number == pre.pending_snapshots@[0].snapshot.sequence_number);
    assert forall|i: int| 0 <= i < pre.finalized().len() implies (#[trigger] pre.finalized()[i]).0.sequence_number
        < post.latest() by {
        assert(pre.finalized()[i].0.sequence_number == pre.finalized_snapshots@[i].snapshot.sequence_number);
    }
}

/// A certificate reaches a quorum exactly when its signers hold more than
/// two thirds of a positive stake, and a signature never counts twice: a
/// validator that signed again leaves the certificate as it was.
pub proof fn lemma_signature_counted_once(
    c: CertificateView,
    id: Seq<u8>,
    sig: (u8, Seq<u8>),
    weight: u64,
    t1: u64,
    sig2: (u8, Seq<u8>),
    weight2: u64,
    t2: u64,
)
    requires
        weight > 0,
        c.stake_weight + weight <= u64::MAX,
        !c.signatures.dom().contains(id),
    ensures
        ({
            let c1 = signature_added(c, id, sig, weight, t1).0;
            &&& c1.stake_weight == c.stake_weight + weight
            &&& c1.has_quorum == is_quorum(c1.stake_weight, c.total_stake)
            &&& weight2 > 0 ==> signature_added(c1, id, sig2, weight2, t2) == (c1, Ok::<bool, Error>(false))
        }),
{
}

} // verus!
