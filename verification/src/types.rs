//! Identifiers and the error type shared by the validator managers.
use vstd::prelude::*;
use vstd::string::StringSliceAdditionalSpecFns;

verus! {

/// A validator's on-chain address: an opaque byte string.
#[derive(Debug)]
pub struct SilverAddress {
    pub bytes: Vec<u8>,
}

impl View for SilverAddress {
    type V = Seq<u8>;

    open spec fn view(&self) -> Seq<u8> {
        self.bytes@
    }
}

impl SilverAddress {
    /// An address made of the given bytes.
    pub fn new(bytes: Vec<u8>) -> (r: SilverAddress)
        ensures
            r@ == bytes@,
    {
        SilverAddress { bytes }
    }
}

/// The identity of a validator, compared by its bytes.
#[derive(Debug)]
pub struct ValidatorID {
    pub bytes: Vec<u8>,
}

impl View for ValidatorID {
    type V = Seq<u8>;

    open spec fn view(&self) -> Seq<u8> {
        self.bytes@
    }
}

/// The byte views of a sequence of identifiers.
pub open spec fn id_views(ids: Seq<ValidatorID>) -> Seq<Seq<u8>> {
    ids.map_values(|id: ValidatorID| id@)
}

impl ValidatorID {
    /// The identifier of the validator at `address`.
    pub fn new(address: SilverAddress) -> (r: ValidatorID)
        ensures
            r@ == address@,
    {
        ValidatorID { bytes: address.bytes }
    }

    /// An identifier whose bytes are those of `name`.
    pub fn from_name(name: &str) -> (r: ValidatorID)
        ensures
            r@ == name.spec_bytes(),
    {
        let b = name.as_bytes();
        let mut bytes: Vec<u8> = Vec::new();
        let mut i: usize = 0;
        while i < b.len()
            invariant
                i <= b@.len(),
                b@ == name.spec_bytes(),
                bytes@ == b@.subrange(0, i as int),
            decreases b@.len() - i,
        {
            bytes.push(b[i]);
            i = i + 1;
            assert(bytes@ =~= b@.subrange(0, i as int));
        }
        assert(bytes@ =~= b@);
        ValidatorID { bytes }
    }

    /// Whether two identifiers have the same bytes.
    pub fn same_as(&self, other: &ValidatorID) -> (r: bool)
        ensures
            r == (self@ == other@),
    {
        if self.bytes.len() != other.bytes.len() {
            return false;
        }
        let mut i: usize = 0;
        while i < self.bytes.len()
            invariant
                i <= self@.len(),
                self@.len() == other@.len(),
                forall|j: int| 0 <= j < i ==> self@[j] == other@[j],
            decreases self@.len() - i,
        {
            if self.bytes[i] != other.bytes[i] {
                return false;
            }
            i = i + 1;
        }
        assert(self@ =~= other@);
        true
    }

    /// A copy of this identifier.
    pub fn copy(&self) -> (r: ValidatorID)
        ensures
            r@ == self@,
    {
        let mut bytes: Vec<u8> = Vec::new();
        let mut i: usize = 0;
        while i < self.bytes.len()
            invariant
                i <= self@.len(),
                bytes@ == self@.subrange(0, i as int),
            decreases self@.len() - i,
        {
            bytes.push(self.bytes[i]);
            i = i + 1;
            assert(bytes@ =~= self@.subrange(0, i as int));
        }
        assert(bytes@ =~= self@);
        ValidatorID { bytes }
    }
}

impl Clone for ValidatorID {
    fn clone(&self) -> (r: Self)
        ensures
            r@ == self@,
    {
        self.copy()
    }
}

impl PartialEq for ValidatorID {
    fn eq(&self, other: &Self) -> (r: bool) {
        self.same_as(other)
    }
}

impl vstd::std_specs::cmp::PartialEqSpecImpl for ValidatorID {
    open spec fn obeys_eq_spec() -> bool {
        true
    }

    open spec fn eq_spec(&self, other: &ValidatorID) -> bool {
        self@ == other@
    }
}

impl Eq for ValidatorID {

}

/// A public key: its signature scheme's tag and its bytes.
pub struct PublicKey {
    pub scheme: u8,
    pub bytes: Vec<u8>,
}

impl View for PublicKey {
    type V = (u8, Seq<u8>);

    open spec fn view(&self) -> (u8, Seq<u8>) {
        (self.scheme, self.bytes@)
    }
}

impl PublicKey {
    /// A copy of this key.
    pub fn copy(&self) -> (r: PublicKey)
        ensures
            r@ == self@,
    {
        PublicKey { scheme: self.scheme, bytes: copy_bytes(&self.bytes) }
    }
}

/// A signature: its scheme's tag and its bytes.
pub struct Signature {
    pub scheme: u8,
    pub bytes: Vec<u8>,
}

impl View for Signature {
    type V = (u8, Seq<u8>);

    open spec fn view(&self) -> (u8, Seq<u8>) {
        (self.scheme, self.bytes@)
    }
}

impl Signature {
    /// A copy of this signature.
    pub fn copy(&self) -> (r: Signature)
        ensures
            r@ == self@,
    {
        Signature { scheme: self.scheme, bytes: copy_bytes(&self.bytes) }
    }
}

/// A copy of a byte vector.
pub fn copy_bytes(v: &Vec<u8>) -> (r: Vec<u8>)
    ensures
        r@ == v@,
{
    let mut out: Vec<u8> = Vec::new();
    let mut i: usize = 0;
    while i < v.len()
        invariant
            i <= v@.len(),
            out@ == v@.subrange(0, i as int),
        decreases v@.len() - i,
    {
        out.push(v[i]);
        i = i + 1;
        assert(out@ =~= v@.subrange(0, i as int));
    }
    assert(out@ =~= v@);
    out
}

/// Whether two byte vectors hold the same bytes.
pub fn bytes_equal(a: &Vec<u8>, b: &Vec<u8>) -> (r: bool)
    ensures
        r == (a@ == b@),
{
    if a.len() != b.len() {
        return false;
    }
    let mut i: usize = 0;
    while i < a.len()
        invariant
            i <= a@.len(),
            a@.len() == b@.len(),
            forall|j: int| 0 <= j < i ==> a@[j] == b@[j],
        decreases a@.len() - i,
    {
        if a[i] != b[i] {
            return false;
        }
        i = i + 1;
    }
    assert(a@ =~= b@);
    true
}

/// Why a request to one of the managers was refused.
#[derive(Debug, Clone, Copy, PartialEq, Eq, Structural)]
pub enum Error {
    /// A stake is below the minimum that the operation requires.
    StakeBelowMinimum { stake: u64, minimum: u64 },
    /// A voting power is below the minimum that the operation requires.
    VotingPowerBelowMinimum { voting_power: u64, minimum: u64 },
    /// The validator is already registered.
    AlreadyRegistered,
    /// The validator is not known to the manager.
    NotFound,
    /// A commission rate above 100%.
    RateAbove100 { rate: u64 },
    /// A commission rate below the configured minimum.
    RateBelowMinimum { rate: u64, minimum: u64 },
    /// A commission rate above the configured maximum.
    RateAboveMaximum { rate: u64, maximum: u64 },
    /// A pending change exists and has not yet taken effect.
    PendingChangeNotEffective { effective_at: u64 },
    /// There is no pending change to act on.
    NoPendingChange,
    /// The validator is already jailed.
    AlreadyJailed,
    /// The validator is not jailed.
    NotJailed,
    /// The same double-signing evidence was already punished.
    DuplicateEvidence,
    /// A slash would take nothing.
    ZeroSlash,
    /// The missed snapshots do not reach the downtime threshold.
    DowntimeBelowThreshold { missed: u64, threshold: u64 },
    /// More stake is asked for than is active.
    InsufficientActiveStake { requested: u64, active: u64 },
    /// A transaction digest of the wrong length.
    InvalidDigestLength { length: usize },
    /// The validator still holds active or unbonding stake.
    StakeStillBonded,
    /// The validator is already in the requested state.
    AlreadyInState,
    /// The validator is not active.
    NotActive,
    /// A cooldown has not yet elapsed.
    CooldownActive { until: u64 },
    /// There is no pending request for the validator.
    NoPendingRequest,
    /// The validator already has a pending request.
    RequestAlreadyPending,
    /// The operation does not apply to a key in this status.
    InvalidKeyStatus,
    /// A key transition period has not ended.
    TransitionNotComplete { ends_at: u64 },
    /// The key is already revoked.
    KeyAlreadyRevoked,
    /// No validator has active stake.
    NoStakedValidators,
    /// Too many snapshots are waiting for finalization.
    Backpressure { pending: usize },
    /// The snapshot is not pending (unknown or already finalized).
    SnapshotNotPending,
    /// The snapshot is not known.
    SnapshotNotFound,
    /// The snapshot's finalization deadline has passed.
    SnapshotTimedOut,
    /// A signature with no stake behind it.
    ZeroStakeWeight,
    /// The certificate lacks a 2/3 quorum.
    NoQuorum,
    /// The certificate is not finalized.
    NotFinalized,
    /// The certificate holds no signatures.
    NoSignatures,
    /// An activation is already scheduled for the cycle.
    ActivationAlreadyScheduled,
    /// No activation is scheduled for the cycle.
    NoActivationScheduled,
    /// The active protocol version cannot be removed.
    CannotRemoveActiveVersion,
    /// The protocol version is not supported.
    VersionNotSupported,
    /// A transaction needs a feature that is not enabled.
    FeatureNotEnabled { index: usize },
    /// A feature requires a newer protocol version.
    FeatureVersionTooLow { index: usize },
    /// A transaction in a batch is incompatible.
    IncompatibleTransaction { position: usize },
    /// A counter would exceed its range.
    Overflow,
}

} // verus!
