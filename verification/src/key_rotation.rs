//! Validator key rotation:
//! - an initial key per validator
//! - rotation requests, voted on by stake
//! - a transition period in which the old and the new key are both valid
//! - revocation, and room for new keys made by dropping the oldest revoked
//!   key
//! - an audit trail of rotation events
//!
//! The share of stake whose votes approve a rotation is in basis points
//! (10000 is 100%).
use vstd::prelude::*;
use crate::clock::{remaining_until, sat_add, unix_time_secs};
use crate::table::IdTable;
use crate::types::{Error, PublicKey, ValidatorID, bytes_equal, copy_bytes, id_views};

verus! {

/// Key rotation configuration.
#[derive(Debug, Clone, Copy, PartialEq, Eq, Structural)]
pub struct KeyRotationConfig {
    /// Transition period (seconds) in which both keys are accepted
    pub transition_period_secs: u64,
    /// Votes required for a rotation, in basis points of the total stake
    pub votes_required_bps: u64,
    /// Keys a validator keeps before revoked ones make room
    pub max_keys_per_validator: usize,
    /// Key expiration period (seconds)
    pub key_expiration_secs: u64,
}

impl Default for KeyRotationConfig {
    fn default() -> (r: Self)
        ensures
            r == (KeyRotationConfig {
                transition_period_secs: 604800,
                votes_required_bps: 6600,
                max_keys_per_validator: 3,
                key_expiration_secs: 2592000,
            }),
    {
        KeyRotationConfig {
            transition_period_secs: 604800,
            votes_required_bps: 6600,
            max_keys_per_validator: 3,
            key_expiration_secs: 2592000,
        }
    }
}

/// Key status.
#[derive(Debug, Clone, Copy, PartialEq, Eq, Structural)]
pub enum KeyStatus {
    /// Active key (currently used)
    Active,
    /// Pending key (waiting for transition)
    Pending,
    /// Transitioning (old and new accepted)
    Transitioning,
    /// Revoked (no longer accepted)
    Revoked,
    /// Expired (past expiration date)
    Expired,
}

/// The name of a key status.
pub open spec fn key_status_text(s: KeyStatus) -> Seq<char> {
    match s {
        KeyStatus::Active => "Active"@,
        KeyStatus::Pending => "Pending"@,
        KeyStatus::Transitioning => "Transitioning"@,
        KeyStatus::Revoked => "Revoked"@,
        KeyStatus::Expired => "Expired"@,
    }
}

impl KeyStatus {
    /// The status's name.
    pub fn to_string(&self) -> (r: String)
        ensures
            r@ == key_status_text(*self),
    {
        match self {
            KeyStatus::Active => "Active".to_owned(),
            KeyStatus::Pending => "Pending".to_owned(),
            KeyStatus::Transitioning => "Transitioning".to_owned(),
            KeyStatus::Revoked => "Revoked".to_owned(),
            KeyStatus::Expired => "Expired".to_owned(),
        }
    }
}

/// The abstract content of a key record.
pub struct KeyRecordView {
    pub key_id: Seq<u8>,
    pub public_key: (u8, Seq<u8>),
    pub status: KeyStatus,
    pub created_at: u64,
    pub activated_at: Option<u64>,
    pub transition_starts_at: Option<u64>,
    pub transition_ends_at: Option<u64>,
    pub revoked_at: Option<u64>,
    pub expires_at: Option<u64>,
}

/// Key record.
pub struct KeyRecord {
    /// Key ID (hash of the public key)
    pub key_id: Vec<u8>,
    /// Public key
    pub public_key: PublicKey,
    /// Current status
    pub status: KeyStatus,
    /// Created at
    pub created_at: u64,
    /// Activated at
    pub activated_at: Option<u64>,
    /// Transition starts at
    pub transition_starts_at: Option<u64>,
    /// Transition ends at
    pub transition_ends_at: Option<u64>,
    /// Revoked at
    pub revoked_at: Option<u64>,
    /// Expires at
    pub expires_at: Option<u64>,
}

impl View for KeyRecord {
    type V = KeyRecordView;

    open spec fn view(&self) -> KeyRecordView {
        KeyRecordView {
            key_id: self.key_id@,
            public_key: self.public_key@,
            status: self.status,
            created_at: self.created_at,
            activated_at: self.activated_at,
            transition_starts_at: self.transition_starts_at,
            transition_ends_at: self.transition_ends_at,
            revoked_at: self.revoked_at,
            expires_at: self.expires_at,
        }
    }
}

impl Clone for KeyRecord {
    fn clone(&self) -> (r: Self)
        ensures
            r@ == self@,
    {
        KeyRecord {
            key_id: copy_bytes(&self.key_id),
            public_key: self.public_key.copy(),
            status: self.status,
            created_at: self.created_at,
            activated_at: self.activated_at,
            transition_starts_at: self.transition_starts_at,
            transition_ends_at: self.transition_ends_at,
            revoked_at: self.revoked_at,
            expires_at: self.expires_at,
        }
    }
}

/// The views of a sequence of key records.
pub open spec fn key_views(s: Seq<KeyRecord>) -> Seq<KeyRecordView> {
    s.map_values(|k: KeyRecord| k@)
}

/// A pending key made at `now`.
pub open spec fn new_key_record(key_id: Seq<u8>, pk: (u8, Seq<u8>), now: u64) -> KeyRecordView {
    KeyRecordView {
        key_id,
        public_key: pk,
        status: KeyStatus::Pending,
        created_at: now,
        activated_at: None,
        transition_starts_at: None,
        transition_ends_at: None,
        revoked_at: None,
        expires_at: None,
    }
}

/// A key activated at `now`: it enters its transition period (the end
/// saturates at `u64::MAX`).
pub open spec fn activated(k: KeyRecordView, period: u64, now: u64) -> KeyRecordView {
    KeyRecordView {
        status: KeyStatus::Transitioning,
        activated_at: Some(now),
        transition_starts_at: Some(now),
        transition_ends_at: Some(sat_add(now, period)),
        ..k
    }
}

/// A key revoked at `now`.
pub open spec fn revoked(k: KeyRecordView, now: u64) -> KeyRecordView {
    KeyRecordView { status: KeyStatus::Revoked, revoked_at: Some(now), ..k }
}

/// A validator's first key, active from `now`.
pub open spec fn initial_key_record(key_id: Seq<u8>, pk: (u8, Seq<u8>), now: u64) -> KeyRecordView {
    KeyRecordView {
        status: KeyStatus::Active,
        activated_at: Some(now),
        ..new_key_record(key_id, pk, now)
    }
}

/// The key's transition period is over at `now`.
pub open spec fn transition_over(k: KeyRecordView, now: u64) -> bool {
    k.transition_ends_at matches Some(end) && now >= end
}

/// The key has a transition end that `now` has not reached.
pub open spec fn transition_pending(k: KeyRecordView, now: u64) -> bool {
    k.transition_ends_at is Some && now < k.transition_ends_at->Some_0
}

/// The key is in transition and its period is over at `now`.
pub open spec fn ripe(k: KeyRecordView, now: u64) -> bool {
    k.status == KeyStatus::Transitioning && transition_over(k, now)
}

/// The key is accepted for verification.
pub open spec fn key_valid(k: KeyRecordView) -> bool {
    k.status == KeyStatus::Active || k.status == KeyStatus::Transitioning
}

impl KeyRecord {
    /// A pending key made at `now`.
    pub fn new_at(key_id: Vec<u8>, public_key: PublicKey, now: u64) -> (r: Self)
        ensures
            r@ == new_key_record(key_id@, public_key@, now),
    {
        KeyRecord {
            key_id,
            public_key,
            status: KeyStatus::Pending,
            created_at: now,
            activated_at: None,
            transition_starts_at: None,
            transition_ends_at: None,
            revoked_at: None,
            expires_at: None,
        }
    }

    /// A pending key made now (by the system clock).
    pub fn new(key_id: Vec<u8>, public_key: PublicKey) -> (r: Self)
        ensures
            exists|now: u64| r@ == #[trigger] new_key_record(key_id@, public_key@, now),
    {
        let now = unix_time_secs();
        Self::new_at(key_id, public_key, now)
    }

    /// Activate a pending key at `now`; refused for any other status.
    pub fn activate_at(&mut self, transition_period_secs: u64, now: u64) -> (r: Result<(), Error>)
        ensures
            old(self).status != KeyStatus::Pending ==> r == Err::<(), Error>(Error::InvalidKeyStatus)
                && final(self)@ == old(self)@,
            old(self).status == KeyStatus::Pending ==> r is Ok && final(self)@ == activated(
                old(self)@,
                transition_period_secs,
                now,
            ),
    {
        if self.status != KeyStatus::Pending {
            return Err(Error::InvalidKeyStatus);
        }
        self.status = KeyStatus::Transitioning;
        self.activated_at = Some(now);
        self.transition_starts_at = Some(now);
        self.transition_ends_at = Some(now.saturating_add(transition_period_secs));
        Ok(())
    }

    /// Activate a pending key now (by the system clock).
    pub fn activate(&mut self, transition_period_secs: u64) -> (r: Result<(), Error>)
        ensures
            old(self).status != KeyStatus::Pending ==> r == Err::<(), Error>(Error::InvalidKeyStatus)
                && final(self)@ == old(self)@,
            old(self).status == KeyStatus::Pending ==> r is Ok && exists|now: u64|
                final(self)@ == #[trigger] activated(old(self)@, transition_period_secs, now),
    {
        let now = unix_time_secs();
        self.activate_at(transition_period_secs, now)
    }

    /// Finish the transition at `now`: refused unless the key is in
    /// transition and its period is over.
    pub fn complete_transition_at(&mut self, now: u64) -> (r: Result<(), Error>)
        ensures
            old(self).status != KeyStatus::Transitioning ==> r == Err::<(), Error>(
                Error::InvalidKeyStatus,
            ) && final(self)@ == old(self)@,
            old(self).status == KeyStatus::Transitioning && transition_pending(old(self)@, now) ==> r
                == Err::<(), Error>(
                Error::TransitionNotComplete { ends_at: old(self).transition_ends_at->Some_0 },
            ) && final(self)@ == old(self)@,
            old(self).status == KeyStatus::Transitioning && !transition_pending(old(self)@, now) ==> r is Ok
                && final(self)@ == (KeyRecordView { status: KeyStatus::Active, ..old(self)@ }),
    {
        if self.status != KeyStatus::Transitioning {
            return Err(Error::InvalidKeyStatus);
        }
        if let Some(end) = self.transition_ends_at {
            if now < end {
                return Err(Error::TransitionNotComplete { ends_at: end });
            }
        }
        self.status = KeyStatus::Active;
        Ok(())
    }

    /// Finish the transition now (by the system clock): refused unless the
    /// key is in transition and its period is over.
    pub fn complete_transition(&mut self) -> (r: Result<(), Error>)
        ensures
            old(self).status != KeyStatus::Transitioning ==> r == Err::<(), Error>(
                Error::InvalidKeyStatus,
            ) && final(self)@ == old(self)@,
            old(self).status == KeyStatus::Transitioning ==> exists|now: u64|
                {
                    &&& #[trigger] transition_pending(old(self)@, now) ==> r == Err::<(), Error>(
                        Error::TransitionNotComplete { ends_at: old(self).transition_ends_at->Some_0 },
                    ) && final(self)@ == old(self)@
                    &&& !transition_pending(old(self)@, now) ==> r is Ok && final(self)@ == (
                    KeyRecordView { status: KeyStatus::Active, ..old(self)@ })
                },
    {
        let now = unix_time_secs();
        let r = self.complete_transition_at(now);
        assert(transition_pending(old(self)@, now) || !transition_pending(old(self)@, now));
        r
    }

    /// Revoke the key at `now`; refused when it is revoked already.
    pub fn revoke_at(&mut self, now: u64) -> (r: Result<(), Error>)
        ensures
            old(self).status == KeyStatus::Revoked ==> r == Err::<(), Error>(Error::KeyAlreadyRevoked)
                && final(self)@ == old(self)@,
            old(self).status != KeyStatus::Revoked ==> r is Ok && final(self)@ == revoked(old(self)@, now),
    {
        if self.status == KeyStatus::Revoked {
            return Err(Error::KeyAlreadyRevoked);
        }
        self.status = KeyStatus::Revoked;
        self.revoked_at = Some(now);
        Ok(())
    }

    /// Revoke the key now (by the system clock).
    pub fn revoke(&mut self) -> (r: Result<(), Error>)
        ensures
            old(self).status == KeyStatus::Revoked ==> r == Err::<(), Error>(Error::KeyAlreadyRevoked)
                && final(self)@ == old(self)@,
            old(self).status != KeyStatus::Revoked ==> r is Ok && exists|now: u64|
                final(self)@ == #[trigger] revoked(old(self)@, now),
    {
        let now = unix_time_secs();
        self.revoke_at(now)
    }

    /// Whether the key is accepted for verification.
    pub fn is_valid(&self) -> (r: bool)
        ensures
            r == key_valid(self@),
    {
        match self.status {
            KeyStatus::Active | KeyStatus::Transitioning => true,
            _ => false,
        }
    }

    /// Whether the transition period is over at `now`.
    pub fn is_transition_complete_at(&self, now: u64) -> (r: bool)
        ensures
            r == transition_over(self@, now),
    {
        match self.transition_ends_at {
            Some(end) => now >= end,
            None => false,
        }
    }

    /// Whether the transition period is over now (by the system clock).
    pub fn is_transition_complete(&self) -> (r: bool)
        ensures
            exists|now: u64| r == #[trigger] transition_over(self@, now),
    {
        self.is_transition_complete_at(unix_time_secs())
    }

    /// Seconds of transition left at `now` (0 without a transition).
    pub fn remaining_transition_time_at(&self, now: u64) -> (r: u64)
        ensures
            r == (match self.transition_ends_at {
                Some(end) => remaining_until(end, now),
                None => 0,
            }),
    {
        match self.transition_ends_at {
            Some(end) => if now >= end {
                0
            } else {
                end - now
            },
            None => 0,
        }
    }

    /// Seconds of transition left now (by the system clock).
    pub fn remaining_transition_time(&self) -> (r: u64)
        ensures
            self.transition_ends_at is None ==> r == 0,
            self.transition_ends_at matches Some(end) ==> exists|now: u64| r == #[trigger] remaining_until(end, now),
    {
        self.remaining_transition_time_at(unix_time_secs())
    }
}

/// Key rotation request status.
#[derive(Debug, Clone, Copy, PartialEq, Eq, Structural)]
pub enum KeyRotationRequestStatus {
    /// Pending voting
    Pending,
    /// Approved
    Approved,
    /// Rejected
    Rejected,
    /// Expired
    Expired,
}

impl KeyRotationRequestStatus {
    /// The status's name.
    pub fn to_string(&self) -> (r: String)
        ensures
            r@ == (match *self {
                KeyRotationRequestStatus::Pending => "Pending"@,
                KeyRotationRequestStatus::Approved => "Approved"@,
                KeyRotationRequestStatus::Rejected => "Rejected"@,
                KeyRotationRequestStatus::Expired => "Expired"@,
            }),
    {
        match self {
            KeyRotationRequestStatus::Pending => "Pending".to_owned(),
            KeyRotationRequestStatus::Approved => "Approved".to_owned(),
            KeyRotationRequestStatus::Rejected => "Rejected".to_owned(),
            KeyRotationRequestStatus::Expired => "Expired".to_owned(),
        }
    }
}

/// The abstract content of a rotation request.
pub struct KeyRotationRequestView {
    pub validator_id: Seq<u8>,
    pub new_key_id: Seq<u8>,
    pub new_public_key: (u8, Seq<u8>),
    pub requested_at: u64,
    pub votes_in_favor: u64,
    pub total_votes: u64,
    pub status: KeyRotationRequestStatus,
}

/// Key rotation request.
pub struct KeyRotationRequest {
    /// Validator ID
    pub validator_id: ValidatorID,
    /// New key ID
    pub new_key_id: Vec<u8>,
    /// New public key
    pub new_public_key: PublicKey,
    /// Requested at
    pub requested_at: u64,
    /// Votes in favor
    pub votes_in_favor: u64,
    /// Total votes
    pub total_votes: u64,
    /// Status
    pub status: KeyRotationRequestStatus,
}

impl View for KeyRotationRequest {
    type V = KeyRotationRequestView;

    open spec fn view(&self) -> KeyRotationRequestView {
        KeyRotationRequestView {
            validator_id: self.validator_id@,
            new_key_id: self.new_key_id@,
            new_public_key: self.new_public_key@,
            requested_at: self.requested_at,
            votes_in_favor: self.votes_in_favor,
            total_votes: self.total_votes,
            status: self.status,
        }
    }
}

impl Clone for KeyRotationRequest {
    fn clone(&self) -> (r: Self)
        ensures
            r@ == self@,
    {
        KeyRotationRequest {
            validator_id: self.validator_id.copy(),
            new_key_id: copy_bytes(&self.new_key_id),
            new_public_key: self.new_public_key.copy(),
            requested_at: self.requested_at,
            votes_in_favor: self.votes_in_favor,
            total_votes: self.total_votes,
            status: self.status,
        }
    }
}

/// Key rotation event type.
#[derive(Debug, Clone, Copy, PartialEq, Eq, Structural)]
pub enum KeyRotationEventType {
    /// Key rotation requested
    RotationRequested,
    /// Key rotation approved
    RotationApproved,
    /// Key rotation rejected
    RotationRejected,
    /// Key transition started
    TransitionStarted,
    /// Key transition completed
    TransitionCompleted,
    /// Key revoked
    KeyRevoked,
}

impl KeyRotationEventType {
    /// The event type's name.
    pub fn to_string(&self) -> (r: String)
        ensures
            r@ == (match *self {
                KeyRotationEventType::RotationRequested => "RotationRequested"@,
                KeyRotationEventType::RotationApproved => "RotationApproved"@,
                KeyRotationEventType::RotationRejected => "RotationRejected"@,
                KeyRotationEventType::TransitionStarted => "TransitionStarted"@,
                KeyRotationEventType::TransitionCompleted => "TransitionCompleted"@,
                KeyRotationEventType::KeyRevoked => "KeyRevoked"@,
            }),
    {
        match self {
            KeyRotationEventType::RotationRequested => "RotationRequested".to_owned(),
            KeyRotationEventType::RotationApproved => "RotationApproved".to_owned(),
            KeyRotationEventType::RotationRejected => "RotationRejected".to_owned(),
            KeyRotationEventType::TransitionStarted => "TransitionStarted".to_owned(),
            KeyRotationEventType::TransitionCompleted => "TransitionCompleted".to_owned(),
            KeyRotationEventType::KeyRevoked => "KeyRevoked".to_owned(),
        }
    }
}

/// The abstract content of a rotation event.
pub struct KeyRotationEventView {
    pub validator_id: Seq<u8>,
    pub event_type: KeyRotationEventType,
    pub key_id: Seq<u8>,
    pub timestamp: u64,
    pub cycle: u64,
}

/// Key rotation event.
pub struct KeyRotationEvent {
    /// Validator ID
    pub validator_id: ValidatorID,
    /// Event type
    pub event_type: KeyRotationEventType,
    /// Key ID
    pub key_id: Vec<u8>,
    /// Timestamp
    pub timestamp: u64,
    /// Cycle
    pub cycle: u64,
}

impl View for KeyRotationEvent {
    type V = KeyRotationEventView;

    open spec fn view(&self) -> KeyRotationEventView {
        KeyRotationEventView {
            validator_id: self.validator_id@,
            event_type: self.event_type,
            key_id: self.key_id@,
            timestamp: self.timestamp,
            cycle: self.cycle,
        }
    }
}

impl Clone for KeyRotationEvent {
    fn clone(&self) -> (r: Self)
        ensures
            r@ == self@,
    {
        KeyRotationEvent {
            validator_id: self.validator_id.copy(),
            event_type: self.event_type,
            key_id: copy_bytes(&self.key_id),
            timestamp: self.timestamp,
            cycle: self.cycle,
        }
    }
}

/// The views of a sequence of events.
pub open spec fn rotation_event_views(s: Seq<KeyRotationEvent>) -> Seq<KeyRotationEventView> {
    s.map_values(|e: KeyRotationEvent| e@)
}

/// No two keys of a list share an identifier.
pub open spec fn key_ids_unique(s: Seq<KeyRecordView>) -> bool {
    forall|i: int, j: int| 0 <= i < s.len() && 0 <= j < s.len() && i != j ==> s[i].key_id != s[j].key_id
}

/// The list with `k` filed under its identifier: in place of the key with
/// that identifier, or appended.
pub open spec fn put_key(s: Seq<KeyRecordView>, k: KeyRecordView) -> Seq<KeyRecordView> {
    if exists|i: int| 0 <= i < s.len() && s[i].key_id == k.key_id {
        s.update(choose|i: int| 0 <= i < s.len() && s[i].key_id == k.key_id, k)
    } else {
        s.push(k)
    }
}

/// The key with identifier `k` in the list.
pub open spec fn find_key(s: Seq<KeyRecordView>, k: Seq<u8>) -> Option<KeyRecordView> {
    if exists|i: int| 0 <= i < s.len() && s[i].key_id == k {
        Some(s[choose|i: int| 0 <= i < s.len() && s[i].key_id == k])
    } else {
        None
    }
}

/// The time by which revoked keys are ordered (0 without a time).
pub open spec fn revoked_time(k: KeyRecordView) -> u64 {
    match k.revoked_at {
        Some(t) => t,
        None => 0,
    }
}

/// Position `i` holds the first revoked key with the earliest revocation.
pub open spec fn oldest_revoked_at(s: Seq<KeyRecordView>, i: int) -> bool {
    &&& 0 <= i < s.len()
    &&& s[i].status == KeyStatus::Revoked
    &&& forall|j: int|
        0 <= j < s.len() && (#[trigger] s[j]).status == KeyStatus::Revoked ==> revoked_time(s[i])
            <= revoked_time(s[j]) && (j < i ==> revoked_time(s[i]) < revoked_time(s[j]))
}

/// The list after making room for a new key: a full list drops its oldest
/// revoked key, if it has one.
pub open spec fn make_room(s: Seq<KeyRecordView>, max: usize) -> Seq<KeyRecordView> {
    if s.len() >= max && exists|i: int| oldest_revoked_at(s, i) {
        s.remove(choose|i: int| oldest_revoked_at(s, i))
    } else {
        s
    }
}

/// The identifiers of the ripe keys of a list, in order.
pub open spec fn ripe_key_ids(s: Seq<KeyRecordView>, now: u64) -> Seq<Seq<u8>>
    decreases s.len(),
{
    if s.len() == 0 {
        Seq::empty()
    } else if ripe(s.last(), now) {
        ripe_key_ids(s.drop_last(), now).push(s.last().key_id)
    } else {
        ripe_key_ids(s.drop_last(), now)
    }
}

/// A key after the transitions are processed at `now`.
pub open spec fn after_transition(k: KeyRecordView, now: u64) -> KeyRecordView {
    if ripe(k, now) {
        KeyRecordView { status: KeyStatus::Active, ..k }
    } else {
        k
    }
}

/// `n` copies of `id`.
pub open spec fn repeat_id(id: Seq<u8>, n: nat) -> Seq<Seq<u8>>
    decreases n,
{
    if n == 0 {
        Seq::empty()
    } else {
        repeat_id(id, (n - 1) as nat).push(id)
    }
}

/// What processing the transitions at `now` reports, validator by
/// validator: the validator once per completed key.
pub open spec fn transition_reports(lists: Seq<(Seq<u8>, Seq<KeyRecordView>)>, now: u64) -> Seq<
    Seq<u8>,
>
    decreases lists.len(),
{
    if lists.len() == 0 {
        Seq::empty()
    } else {
        transition_reports(lists.drop_last(), now) + repeat_id(
            lists.last().0,
            ripe_key_ids(lists.last().1, now).len(),
        )
    }
}

/// The events of processing the transitions at `now`.
pub open spec fn transition_events(
    lists: Seq<(Seq<u8>, Seq<KeyRecordView>)>,
    now: u64,
    cycle: u64,
) -> Seq<KeyRotationEventView>
    decreases lists.len(),
{
    if lists.len() == 0 {
        Seq::empty()
    } else {
        transition_events(lists.drop_last(), now, cycle) + ripe_key_ids(lists.last().1, now).map_values(
            |k: Seq<u8>|
                KeyRotationEventView {
                    validator_id: lists.last().0,
                    event_type: KeyRotationEventType::TransitionCompleted,
                    key_id: k,
                    timestamp: now,
                    cycle,
                },
        )
    }
}

/// The active keys after processing the transitions at `now`: a validator
/// with completed keys gets the last of them.
pub open spec fn active_after_transitions(
    active: Map<Seq<u8>, Seq<u8>>,
    lists: Seq<(Seq<u8>, Seq<KeyRecordView>)>,
    now: u64,
) -> Map<Seq<u8>, Seq<u8>>
    decreases lists.len(),
{
    if lists.len() == 0 {
        active
    } else {
        let m = active_after_transitions(active, lists.drop_last(), now);
        let ks = ripe_key_ids(lists.last().1, now);
        if ks.len() > 0 {
            m.insert(lists.last().0, ks.last())
        } else {
            m
        }
    }
}

/// The rotation events of one validator, in order.
pub open spec fn rotation_events_of(h: Seq<KeyRotationEventView>, id: Seq<u8>) -> Seq<
    KeyRotationEventView,
>
    decreases h.len(),
{
    if h.len() == 0 {
        Seq::empty()
    } else if h.last().validator_id == id {
        rotation_events_of(h.drop_last(), id).push(h.last())
    } else {
        rotation_events_of(h.drop_last(), id)
    }
}

/// The valid keys of a list, in order.
pub open spec fn valid_keys(s: Seq<KeyRecordView>) -> Seq<KeyRecordView>
    decreases s.len(),
{
    if s.len() == 0 {
        Seq::empty()
    } else if key_valid(s.last()) {
        valid_keys(s.drop_last()).push(s.last())
    } else {
        valid_keys(s.drop_last())
    }
}

/// The votes that approve a rotation: `bps` basis points of the total
/// stake, rounded down and capped at `u64::MAX`.
pub open spec fn required_votes(total_stake: u64, bps: u64) -> u64 {
    if total_stake * bps / 10000 > u64::MAX {
        u64::MAX
    } else {
        (total_stake * bps / 10000) as u64
    }
}

/// Computes `required_votes`.
pub fn compute_required_votes(total_stake: u64, bps: u64) -> (r: u64)
    ensures
        r == required_votes(total_stake, bps),
{
    let a = total_stake as u128;
    let b = bps as u128;
    assert(a * b <= u64::MAX as int * u64::MAX as int) by (nonlinear_arith)
        requires
            a <= u64::MAX,
            b <= u64::MAX,
    ;
    let q = a * b / 10000;
    if q > u64::MAX as u128 {
        u64::MAX
    } else {
        q as u64
    }
}

/// Key rotation manager.
pub struct KeyRotationManager {
    config: KeyRotationConfig,
    validator_keys: IdTable<Vec<KeyRecord>>,
    active_keys: IdTable<Vec<u8>>,
    pending_requests: IdTable<KeyRotationRequest>,
    events: Vec<KeyRotationEvent>,
    current_cycle: u64,
}

impl KeyRotationManager {
    /// The configuration.
    pub closed spec fn cfg(&self) -> KeyRotationConfig {
        self.config
    }

    /// Each validator's keys, in the order the validators were first given
    /// a key.
    pub closed spec fn key_lists(&self) -> Seq<(Seq<u8>, Seq<KeyRecordView>)> {
        self.validator_keys.pairs().map_values(|e: (Seq<u8>, Vec<KeyRecord>)| (e.0, key_views(e.1@)))
    }

    /// Each validator's keys.
    pub closed spec fn keys(&self) -> Map<Seq<u8>, Seq<KeyRecordView>> {
        self.validator_keys.map().map_values(|v: Vec<KeyRecord>| key_views(v@))
    }

    /// The identifier of each validator's active key.
    pub closed spec fn active(&self) -> Map<Seq<u8>, Seq<u8>> {
        self.active_keys.map().map_values(|v: Vec<u8>| v@)
    }

    /// The pending rotation requests.
    pub closed spec fn pending(&self) -> Map<Seq<u8>, KeyRotationRequestView> {
        self.pending_requests.map().map_values(|r: KeyRotationRequest| r@)
    }

    /// Every event, oldest first.
    pub closed spec fn events(&self) -> Seq<KeyRotationEventView> {
        rotation_event_views(self.events@)
    }

    /// The current cycle.
    pub closed spec fn cycle(&self) -> u64 {
        self.current_cycle
    }

    /// The tables hold one entry per validator, a validator's keys have
    /// distinct identifiers, and a request is filed under its validator.
    pub closed spec fn wf(&self) -> bool {
        &&& self.validator_keys.wf()
        &&& self.active_keys.wf()
        &&& self.pending_requests.wf()
        &&& forall|i: int|
            0 <= i < self.validator_keys.pairs().len() ==> key_ids_unique(
                key_views((#[trigger] self.validator_keys.pairs()[i]).1@),
            )
        &&& forall|i: int|
            0 <= i < self.pending_requests.pairs().len()
                ==> (#[trigger] self.pending_requests.pairs()[i]).1.validator_id@
                == self.pending_requests.pairs()[i].0
    }

    /// The ordered lists and the map agree.
    pub proof fn lemma_key_lists(&self)
        requires
            self.wf(),
        ensures
            forall|i: int|
                0 <= i < self.key_lists().len() ==> self.keys().dom().contains(
                    (#[trigger] self.key_lists()[i]).0,
                ) && self.keys()[self.key_lists()[i].0] == self.key_lists()[i].1 && key_ids_unique(
                    self.key_lists()[i].1,
                ),
            forall|k: Seq<u8>|
                #[trigger] self.keys().dom().contains(k) ==> key_ids_unique(self.keys()[k]),
    {
        let t = &self.validator_keys;
        assert forall|i: int| 0 <= i < self.key_lists().len() implies self.keys().dom().contains(
            (#[trigger] self.key_lists()[i]).0,
        ) && self.keys()[self.key_lists()[i].0] == self.key_lists()[i].1 && key_ids_unique(
            self.key_lists()[i].1,
        ) by {
            t.lemma_at(i);
        }
        assert forall|k: Seq<u8>| #[trigger] self.keys().dom().contains(k) implies key_ids_unique(
            self.keys()[k],
        ) by {
            t.lemma_dom(k);
            let i = choose|i: int| 0 <= i < t.pairs().len() && t.pairs()[i].0 == k;
            t.lemma_at(i);
        }
    }

    /// A manager with no keys at cycle 0.
    pub fn new(config: KeyRotationConfig) -> (r: Self)
        ensures
            r.wf(),
            r.cfg() == config,
            r.keys() == Map::<Seq<u8>, Seq<KeyRecordView>>::empty(),
            r.key_lists() == Seq::<(Seq<u8>, Seq<KeyRecordView>)>::empty(),
            r.active() == Map::<Seq<u8>, Seq<u8>>::empty(),
            r.pending() == Map::<Seq<u8>, KeyRotationRequestView>::empty(),
            r.events() == Seq::<KeyRotationEventView>::empty(),
            r.cycle() == 0,
    {
        let r = KeyRotationManager {
            config,
            validator_keys: IdTable::new(),
            active_keys: IdTable::new(),
            pending_requests: IdTable::new(),
            events: Vec::new(),
            current_cycle: 0,
        };
        assert(r.keys() =~= Map::<Seq<u8>, Seq<KeyRecordView>>::empty());
        assert(r.key_lists() =~= Seq::<(Seq<u8>, Seq<KeyRecordView>)>::empty());
        assert(r.active() =~= Map::<Seq<u8>, Seq<u8>>::empty());
        assert(r.pending() =~= Map::<Seq<u8>, KeyRotationRequestView>::empty());
        assert(r.events() =~= Seq::<KeyRotationEventView>::empty());
        r
    }

    /// A manager with the default configuration.
    pub fn default() -> (r: Self)
        ensures
            r.wf(),
            r.cfg() == (KeyRotationConfig {
                transition_period_secs: 604800,
                votes_required_bps: 6600,
                max_keys_per_validator: 3,
                key_expiration_secs: 2592000,
            }),
            r.keys() == Map::<Seq<u8>, Seq<KeyRecordView>>::empty(),
            r.active() == Map::<Seq<u8>, Seq<u8>>::empty(),
            r.pending() == Map::<Seq<u8>, KeyRotationRequestView>::empty(),
            r.events() == Seq::<KeyRotationEventView>::empty(),
            r.cycle() == 0,
    {
        Self::new(KeyRotationConfig::default())
    }

    /// Files `key` among the validator's keys (in place of a key with the
    /// same identifier), first dropping its oldest revoked key when the
    /// validator already has `max_keys` keys; a validator without keys gets
    /// a list. Returns nothing of interest.
    fn file_key(&mut self, validator_id: &ValidatorID, key: KeyRecord, prune: bool)
        requires
            old(self).wf(),
        ensures
            final(self).wf(),
            final(self).cfg() == old(self).cfg(),
            final(self).active() == old(self).active(),
            final(self).pending() == old(self).pending(),
            final(self).events() == old(self).events(),
            final(self).cycle() == old(self).cycle(),
            final(self).keys() == old(self).keys().insert(
                validator_id@,
                put_key(
                    if prune {
                        make_room(
                            if old(self).keys().dom().contains(validator_id@) {
                                old(self).keys()[validator_id@]
                            } else {
                                Seq::empty()
                            },
                            old(self).cfg().max_keys_per_validator,
                        )
                    } else if old(self).keys().dom().contains(validator_id@) {
                        old(self).keys()[validator_id@]
                    } else {
                        Seq::empty()
                    },
                    key@,
                ),
            ),
    {
        let ghost kv = key@;
        let i = match self.validator_keys.find(validator_id) {
            Some(i) => i,
            None => {
                let ghost before = self.validator_keys.pairs();
                let empty: Vec<KeyRecord> = Vec::new();
                proof {
                    assert(key_views(empty@) =~= Seq::<KeyRecordView>::empty());
                }
                self.validator_keys.push(validator_id.copy(), empty);
                proof {
                    let newp = self.validator_keys.pairs();
                    assert forall|j: int| 0 <= j < newp.len() implies key_ids_unique(
                        key_views((#[trigger] newp[j]).1@),
                    ) by {
                        if j < before.len() {
                            assert(newp[j] == before[j]);
                        } else {
                            assert(key_views(newp[j].1@) =~= Seq::<KeyRecordView>::empty());
                        }
                    }
                    assert(self.keys() =~= old(self).keys().insert(validator_id@, Seq::empty()));
                }
                self.validator_keys.len() - 1
            },
        };
        let ghost mid = self.validator_keys.pairs();
        let ghost mid_keys = self.keys();
        let max = self.config.max_keys_per_validator;
        proof {
            self.validator_keys.lemma_at(i as int);
            assert(key_ids_unique(key_views(mid[i as int].1@)));
            assert(mid_keys[validator_id@] == key_views(mid[i as int].1@));
        }
        {
            let list = self.validator_keys.value_mut(i);
            if prune {
                make_room_in(list, max);
            }
            put_key_in(list, key);
        }
        proof {
            let v = self.validator_keys.pairs()[i as int].1;
            assert(self.validator_keys.pairs() =~= mid.update(i as int, (mid[i as int].0, v)));
            crate::table::lemma_seq_to_map_update(mid, i as int, v);
            assert forall|j: int| 0 <= j < self.validator_keys.pairs().len() implies key_ids_unique(
                key_views((#[trigger] self.validator_keys.pairs()[j]).1@),
            ) by {
                if j != i {
                    assert(self.validator_keys.pairs()[j] == mid[j]);
                }
            }
            assert(self.keys() =~= mid_keys.insert(validator_id@, key_views(v@)));
        }
    }

    /// Register a validator's first key, active from `now`; refused when
    /// the validator has an active key.
    pub fn register_initial_key_at(
        &mut self,
        validator_id: ValidatorID,
        key_id: Vec<u8>,
        public_key: PublicKey,
        now: u64,
    ) -> (r: Result<(), Error>)
        requires
            old(self).wf(),
        ensures
            final(self).wf(),
            final(self).cfg() == old(self).cfg(),
            final(self).pending() == old(self).pending(),
            final(self).events() == old(self).events(),
            final(self).cycle() == old(self).cycle(),
            old(self).active().dom().contains(validator_id@) ==> r == Err::<(), Error>(
                Error::AlreadyRegistered,
            ) && final(self).keys() == old(self).keys() && final(self).active() == old(self).active(),
            !old(self).active().dom().contains(validator_id@) ==> r is Ok && final(self).active()
                == old(self).active().insert(validator_id@, key_id@) && final(self).keys() == old(self).keys().insert(
                validator_id@,
                put_key(
                    if old(self).keys().dom().contains(validator_id@) {
                        old(self).keys()[validator_id@]
                    } else {
                        Seq::empty()
                    },
                    initial_key_record(key_id@, public_key@, now),
                ),
            ),
    {
        if self.active_keys.contains(&validator_id) {
            return Err(Error::AlreadyRegistered);
        }
        let kid = copy_bytes(&key_id);
        let mut record = KeyRecord::new_at(key_id, public_key, now);
        record.status = KeyStatus::Active;
        record.activated_at = Some(now);
        self.file_key(&validator_id, record, false);
        let ghost kv = kid@;
        self.active_keys.upsert(validator_id, kid);
        proof {
            assert(self.active() =~= old(self).active().insert(validator_id@, kv));
        }
        Ok(())
    }

    /// Register a validator's first key now (by the system clock).
    pub fn register_initial_key(
        &mut self,
        validator_id: ValidatorID,
        key_id: Vec<u8>,
        public_key: PublicKey,
    ) -> (r: Result<(), Error>)
        requires
            old(self).wf(),
        ensures
            final(self).wf(),
            final(self).pending() == old(self).pending(),
            old(self).active().dom().contains(validator_id@) ==> r == Err::<(), Error>(
                Error::AlreadyRegistered,
            ) && final(self).keys() == old(self).keys() && final(self).active() == old(self).active(),
            !old(self).active().dom().contains(validator_id@) ==> r is Ok && final(self).active()
                == old(self).active().insert(validator_id@, key_id@) && exists|now: u64|
                final(self).keys() == old(self).keys().insert(
                    validator_id@,
                    put_key(
                        if old(self).keys().dom().contains(validator_id@) {
                            old(self).keys()[validator_id@]
                        } else {
                            Seq::empty()
                        },
                        #[trigger] initial_key_record(key_id@, public_key@, now),
                    ),
                ),
    {
        let now = unix_time_secs();
        self.register_initial_key_at(validator_id, key_id, public_key, now)
    }

    /// Ask, at `now`, to rotate a validator's key: refused without an
    /// active key or while a request is pending.
    pub fn request_key_rotation_at(
        &mut self,
        validator_id: ValidatorID,
        new_key_id: Vec<u8>,
        new_public_key: PublicKey,
        now: u64,
    ) -> (r: Result<KeyRotationRequest, Error>)
        requires
            old(self).wf(),
        ensures
            final(self).wf(),
            final(self).cfg() == old(self).cfg(),
            final(self).keys() == old(self).keys(),
            final(self).active() == old(self).active(),
            final(self).cycle() == old(self).cycle(),
            !old(self).active().dom().contains(validator_id@) ==> r is Err && r->Err_0
                == Error::NotFound && final(self).pending() == old(self).pending() && final(self).events() == old(self).events(),
            old(self).active().dom().contains(validator_id@) && old(self).pending().dom().contains(
                validator_id@,
            ) ==> r is Err && r->Err_0 == Error::RequestAlreadyPending && final(self).pending()
                == old(self).pending() && final(self).events() == old(self).events(),
            old(self).active().dom().contains(validator_id@) && !old(self).pending().dom().contains(
                validator_id@,
            ) ==> {
                let req = KeyRotationRequestView {
                    validator_id: validator_id@,
                    new_key_id: new_key_id@,
                    new_public_key: new_public_key@,
                    requested_at: now,
                    votes_in_favor: 0,
                    total_votes: 0,
                    status: KeyRotationRequestStatus::Pending,
                };
                &&& r is Ok && r->Ok_0@ == req
                &&& final(self).pending() == old(self).pending().insert(validator_id@, req)
                &&& final(self).events() == old(self).events().push(
                    KeyRotationEventView {
                        validator_id: validator_id@,
                        event_type: KeyRotationEventType::RotationRequested,
                        key_id: new_key_id@,
                        timestamp: now,
                        cycle: old(self).cycle(),
                    },
                )
            },
    {
        if !self.active_keys.contains(&validator_id) {
            return Err(Error::NotFound);
        }
        if self.pending_requests.contains(&validator_id) {
            return Err(Error::RequestAlreadyPending);
        }
        let event_key = copy_bytes(&new_key_id);
        let request = KeyRotationRequest {
            validator_id: validator_id.copy(),
            new_key_id,
            new_public_key,
            requested_at: now,
            votes_in_favor: 0,
            total_votes: 0,
            status: KeyRotationRequestStatus::Pending,
        };
        let out = request.clone();
        let ghost rv = request@;
        let ghost before = self.pending_requests.pairs();
        self.pending_requests.push(validator_id.copy(), request);
        proof {
            let newp = self.pending_requests.pairs();
            assert forall|j: int| 0 <= j < newp.len() implies (#[trigger] newp[j]).1.validator_id@
                == newp[j].0 by {
                if j < before.len() {
                    assert(newp[j] == before[j]);
                }
            }
            assert(self.pending() =~= old(self).pending().insert(validator_id@, rv));
        }
        let ghost e0 = self.events@;
        let event = KeyRotationEvent {
            validator_id,
            event_type: KeyRotationEventType::RotationRequested,
            key_id: event_key,
            timestamp: now,
            cycle: self.current_cycle,
        };
        let ghost evv = event@;
        self.events.push(event);
        assert(rotation_event_views(self.events@) =~= rotation_event_views(e0).push(evv));
        Ok(out)
    }

    /// Ask to rotate a validator's key now (by the system clock).
    pub fn request_key_rotation(
        &mut self,
        validator_id: ValidatorID,
        new_key_id: Vec<u8>,
        new_public_key: PublicKey,
    ) -> (r: Result<KeyRotationRequest, Error>)
        requires
            old(self).wf(),
        ensures
            final(self).wf(),
            final(self).keys() == old(self).keys(),
            final(self).active() == old(self).active(),
            !old(self).active().dom().contains(validator_id@) ==> r is Err && r->Err_0
                == Error::NotFound && final(self).pending() == old(self).pending(),
            old(self).active().dom().contains(validator_id@) && old(self).pending().dom().contains(
                validator_id@,
            ) ==> r is Err && r->Err_0 == Error::RequestAlreadyPending && final(self).pending()
                == old(self).pending(),
            old(self).active().dom().contains(validator_id@) && !old(self).pending().dom().contains(
                validator_id@,
            ) ==> r is Ok && final(self).pending() == old(self).pending().insert(
                validator_id@,
                r->Ok_0@,
            ) && r->Ok_0@.votes_in_favor == 0 && r->Ok_0@.total_votes == 0 && r->Ok_0@.new_key_id
                == new_key_id@ && r->Ok_0@.status == KeyRotationRequestStatus::Pending,
    {
        let now = unix_time_secs();
        self.request_key_rotation_at(validator_id, new_key_id, new_public_key, now)
    }

    /// Record a vote of `voting_power` on a validator's pending request.
    pub fn vote_on_rotation(&mut self, validator_id: &ValidatorID, vote_in_favor: bool, voting_power: u64) -> (r:
        Result<(), Error>)
        requires
            old(self).wf(),
            old(self).pending().dom().contains(validator_id@) ==> old(self).pending()[validator_id@].total_votes
                + voting_power <= u64::MAX && old(self).pending()[validator_id@].votes_in_favor
                + voting_power <= u64::MAX,
        ensures
            final(self).wf(),
            final(self).cfg() == old(self).cfg(),
            final(self).keys() == old(self).keys(),
            final(self).active() == old(self).active(),
            final(self).events() == old(self).events(),
            final(self).cycle() == old(self).cycle(),
            !old(self).pending().dom().contains(validator_id@) ==> r == Err::<(), Error>(
                Error::NoPendingRequest,
            ) && final(self).pending() == old(self).pending(),
            old(self).pending().dom().contains(validator_id@) ==> r is Ok && final(self).pending()
                == old(self).pending().insert(
                validator_id@,
                KeyRotationRequestView {
                    total_votes: (old(self).pending()[validator_id@].total_votes
                        + voting_power) as u64,
                    votes_in_favor: if vote_in_favor {
                        (old(self).pending()[validator_id@].votes_in_favor + voting_power) as u64
                    } else {
                        old(self).pending()[validator_id@].votes_in_favor
                    },
                    ..old(self).pending()[validator_id@]
                },
            ),
    {
        let i = match self.pending_requests.find(validator_id) {
            Some(i) => i,
            None => {
                return Err(Error::NoPendingRequest);
            },
        };
        let ghost mid = self.pending_requests.pairs();
        proof {
            self.pending_requests.lemma_at(i as int);
        }
        {
            let request = self.pending_requests.value_mut(i);
            request.total_votes = request.total_votes + voting_power;
            if vote_in_favor {
                request.votes_in_favor = request.votes_in_favor + voting_power;
            }
        }
        proof {
            let v = self.pending_requests.pairs()[i as int].1;
            assert(self.pending_requests.pairs() =~= mid.update(i as int, (mid[i as int].0, v)));
            crate::table::lemma_seq_to_map_update(mid, i as int, v);
            assert forall|j: int| 0 <= j < self.pending_requests.pairs().len() implies (
            #[trigger] self.pending_requests.pairs()[j]).1.validator_id@
                == self.pending_requests.pairs()[j].0 by {
                assert(mid[j].1.validator_id@ == mid[j].0);
            }
            assert(self.pending() =~= old(self).pending().insert(validator_id@, v@));
        }
        Ok(())
    }

    /// Decide a validator's pending request at `now` against
    /// `total_stake`; see `finalize_outcome`.
    pub fn finalize_rotation_at(&mut self, validator_id: &ValidatorID, total_stake: u64, now: u64) -> (r:
        Result<KeyRotationRequestStatus, Error>)
        requires
            old(self).wf(),
        ensures
            final(self).wf(),
            finalize_outcome(*old(self), *final(self), validator_id@, total_stake, now, r),
    {
        let i = match self.pending_requests.find(validator_id) {
            Some(i) => i,
            None => {
                return Err(Error::NoPendingRequest);
            },
        };
        proof {
            self.pending_requests.lemma_at(i as int);
        }
        let required = compute_required_votes(total_stake, self.config.votes_required_bps);
        let (_id, request) = self.pending_requests.remove_at(i);
        proof {
            let newp = self.pending_requests.pairs();
            let oldp = old(self).pending_requests.pairs();
            assert forall|j: int| 0 <= j < newp.len() implies (#[trigger] newp[j]).1.validator_id@
                == newp[j].0 by {
                if j < i {
                    assert(newp[j] == oldp[j]);
                } else {
                    assert(newp[j] == oldp[j + 1]);
                }
            }
            assert(self.pending() =~= old(self).pending().remove(validator_id@));
        }
        let approved = request.votes_in_favor >= required;
        let ghost e0 = self.events@;
        if approved {
            let mut new_key = KeyRecord::new_at(
                copy_bytes(&request.new_key_id),
                request.new_public_key.copy(),
                now,
            );
            let _ = new_key.activate_at(self.config.transition_period_secs, now);
            self.file_key(validator_id, new_key, true);
            let event = KeyRotationEvent {
                validator_id: validator_id.copy(),
                event_type: KeyRotationEventType::RotationApproved,
                key_id: copy_bytes(&request.new_key_id),
                timestamp: now,
                cycle: self.current_cycle,
            };
            let ghost evv = event@;
            self.events.push(event);
            assert(rotation_event_views(self.events@) =~= rotation_event_views(e0).push(evv));
            Ok(KeyRotationRequestStatus::Approved)
        } else {
            let event = KeyRotationEvent {
                validator_id: validator_id.copy(),
                event_type: KeyRotationEventType::RotationRejected,
                key_id: copy_bytes(&request.new_key_id),
                timestamp: now,
                cycle: self.current_cycle,
            };
            let ghost evv = event@;
            self.events.push(event);
            assert(rotation_event_views(self.events@) =~= rotation_event_views(e0).push(evv));
            Ok(KeyRotationRequestStatus::Rejected)
        }
    }

    /// Decide a validator's pending request now (by the system clock).
    pub fn finalize_rotation(&mut self, validator_id: &ValidatorID, total_stake: u64) -> (r: Result<
        KeyRotationRequestStatus,
        Error,
    >)
        requires
            old(self).wf(),
        ensures
            final(self).wf(),
            exists|now: u64|
                #[trigger] finalize_outcome(*old(self), *final(self), validator_id@, total_stake, now, r),
    {
        let now = unix_time_secs();
        self.finalize_rotation_at(validator_id, total_stake, now)
    }

    /// Finish, at `now`, every transition whose period is over: the key
    /// becomes active and the validator's active key; returns the
    /// validators, once per finished key, in order.
    pub fn process_transitions_at(&mut self, now: u64) -> (r: Vec<ValidatorID>)
        requires
            old(self).wf(),
        ensures
            final(self).wf(),
            final(self).cfg() == old(self).cfg(),
            final(self).pending() == old(self).pending(),
            final(self).cycle() == old(self).cycle(),
            id_views(r@) == transition_reports(old(self).key_lists(), now),
            final(self).key_lists() == old(self).key_lists().map_values(
                |e: (Seq<u8>, Seq<KeyRecordView>)|
                    (e.0, e.1.map_values(|k: KeyRecordView| after_transition(k, now))),
            ),
            final(self).active() == active_after_transitions(old(self).active(), old(self).key_lists(), now),
            final(self).events() == old(self).events() + transition_events(
                old(self).key_lists(),
                now,
                old(self).cycle(),
            ),
    {
        let mut completed: Vec<ValidatorID> = Vec::new();
        let n = self.validator_keys.len();
        let ghost orig = self.key_lists();
        let ghost orig_pairs = self.validator_keys.pairs();
        let ghost act0 = self.active();
        let ghost ev0 = self.events();
        let mut i: usize = 0;
        while i < n
            invariant
                n == orig.len(),
                orig == old(self).key_lists(),
                orig_pairs == old(self).validator_keys.pairs(),
                orig_pairs.len() == n,
                act0 == old(self).active(),
                ev0 == old(self).events(),
                self.validator_keys.pairs().len() == n,
                self.validator_keys.wf(),
                self.active_keys.wf(),
                self.pending_requests == old(self).pending_requests,
                self.config == old(self).config,
                self.current_cycle == old(self).current_cycle,
                i <= n,
                forall|j: int| 0 <= j < n ==> (#[trigger] self.validator_keys.pairs()[j]).0 == orig_pairs[j].0,
                forall|j: int|
                    0 <= j < n ==> key_ids_unique(key_views((#[trigger] self.validator_keys.pairs()[j]).1@)),
                forall|j: int|
                    0 <= j < i ==> #[trigger] self.key_lists()[j] == (orig[j].0, orig[j].1.map_values(
                        |k: KeyRecordView| after_transition(k, now),
                    )),
                forall|j: int| i <= j < n ==> #[trigger] self.key_lists()[j] == orig[j],
                id_views(completed@) == transition_reports(orig.take(i as int), now),
                self.active() == active_after_transitions(act0, orig.take(i as int), now),
                self.events() == ev0 + transition_events(orig.take(i as int), now, self.current_cycle),
            decreases n - i,
        {
            let ghost mid = self.validator_keys.pairs();
            let ghost mid_lists = self.key_lists();
            proof {
                assert(orig.take(i + 1).drop_last() =~= orig.take(i as int));
                assert(mid_lists[i as int] == orig[i as int]);
                assert(key_ids_unique(key_views(mid[i as int].1@)));
            }
            let done_keys = {
                let list = self.validator_keys.value_mut(i);
                complete_ripe_keys(list, now)
            };
            let id = self.validator_keys.id_at(i).copy();
            proof {
                let v = self.validator_keys.pairs()[i as int].1;
                assert(self.validator_keys.pairs() =~= mid.update(i as int, (mid[i as int].0, v)));
                assert forall|j: int| 0 <= j < n && j != i implies #[trigger] self.key_lists()[j]
                    == mid_lists[j] by {
                    assert(self.validator_keys.pairs()[j] == mid[j]);
                }
                assert(id@ == orig[i as int].0);
            }
            let ghost act_mid = self.active();
            let ghost ev_mid = self.events();
            let ghost comp_mid = id_views(completed@);
            let ghost ks = ripe_key_ids(orig[i as int].1, now);
            let ghost vk = self.validator_keys;
            let mut t: usize = 0;
            while t < done_keys.len()
                invariant
                    i < n,
                    n == orig.len(),
                    self.validator_keys == vk,
                    self.pending_requests == old(self).pending_requests,
                    self.config == old(self).config,
                    ks == ripe_key_ids(orig[i as int].1, now),
                    done_keys@.len() == ks.len(),
                    forall|q: int| 0 <= q < ks.len() ==> (#[trigger] done_keys@[q])@ == ks[q],
                    t <= ks.len(),
                    id@ == orig[i as int].0,
                    self.active_keys.wf(),
                    self.current_cycle == old(self).current_cycle,
                    self.active() == (if t == 0 {
                        act_mid
                    } else {
                        act_mid.insert(id@, ks[t - 1])
                    }),
                    self.events() == ev_mid + ks.take(t as int).map_values(
                        |k: Seq<u8>|
                            KeyRotationEventView {
                                validator_id: id@,
                                event_type: KeyRotationEventType::TransitionCompleted,
                                key_id: k,
                                timestamp: now,
                                cycle: self.current_cycle,
                            },
                    ),
                    id_views(completed@) == comp_mid + repeat_id(id@, t as nat),
                decreases ks.len() - t,
            {
                let kid = copy_bytes(&done_keys[t]);
                let ghost kv = kid@;
                let ghost a0 = self.active();
                self.active_keys.upsert(id.copy(), kid);
                proof {
                    assert(kv == ks[t as int]);
                    assert(self.active() =~= a0.insert(id@, kv));
                    assert(a0.insert(id@, kv) =~= act_mid.insert(id@, kv));
                }
                let ghost c0 = completed@;
                completed.push(id.copy());
                proof {
                    assert(id_views(completed@) =~= id_views(c0).push(id@));
                    assert(comp_mid + repeat_id(id@, (t + 1) as nat) =~= (comp_mid + repeat_id(id@, t as nat)).push(id@));
                }
                let ghost e0 = self.events@;
                let event = KeyRotationEvent {
                    validator_id: id.copy(),
                    event_type: KeyRotationEventType::TransitionCompleted,
                    key_id: copy_bytes(&done_keys[t]),
                    timestamp: now,
                    cycle: self.current_cycle,
                };
                let ghost evv = event@;
                self.events.push(event);
                proof {
                    assert(rotation_event_views(self.events@) =~= rotation_event_views(e0).push(evv));
                    let f = |k: Seq<u8>|
                        KeyRotationEventView {
                            validator_id: id@,
                            event_type: KeyRotationEventType::TransitionCompleted,
                            key_id: k,
                            timestamp: now,
                            cycle: self.current_cycle,
                        };
                    assert(ks.take(t + 1).map_values(f) =~= ks.take(t as int).map_values(f).push(f(ks[t as int])));
                    assert(evv == f(ks[t as int]));
                }
                t = t + 1;
            }
            proof {
                let f = |k: Seq<u8>|
                    KeyRotationEventView {
                        validator_id: orig.take(i + 1).last().0,
                        event_type: KeyRotationEventType::TransitionCompleted,
                        key_id: k,
                        timestamp: now,
                        cycle: self.current_cycle,
                    };
                assert(ks.take(ks.len() as int) =~= ks);
                assert(orig.take(i + 1).last() == orig[i as int]);
                assert(self.events() =~= ev0 + transition_events(orig.take(i + 1), now, self.current_cycle));
                assert(id_views(completed@) =~= transition_reports(orig.take(i + 1), now));
                assert(self.active() == active_after_transitions(act0, orig.take(i + 1), now));
                assert forall|j: int| 0 <= j < i + 1 implies #[trigger] self.key_lists()[j] == (
                orig[j].0, orig[j].1.map_values(|k: KeyRecordView| after_transition(k, now))) by {
                    if j < i {
                        assert(self.key_lists()[j] == mid_lists[j]);
                    }
                }
                assert forall|j: int| i + 1 <= j < n implies #[trigger] self.key_lists()[j] == orig[j] by {
                    assert(self.key_lists()[j] == mid_lists[j]);
                }
                assert forall|j: int| 0 <= j < n implies key_ids_unique(
                    key_views((#[trigger] self.validator_keys.pairs()[j]).1@),
                ) by {
                    if j != i {
                        assert(self.validator_keys.pairs()[j] == mid[j]);
                    }
                }
                assert forall|j: int| 0 <= j < n implies (#[trigger] self.validator_keys.pairs()[j]).0
                    == orig_pairs[j].0 by {
                    if j != i {
                        assert(self.validator_keys.pairs()[j] == mid[j]);
                    }
                }
            }
            i = i + 1;
        }
        proof {
            assert(orig.take(n as int) =~= orig);
            assert(self.key_lists() =~= orig.map_values(
                |e: (Seq<u8>, Seq<KeyRecordView>)|
                    (e.0, e.1.map_values(|k: KeyRecordView| after_transition(k, now))),
            ));
        }
        completed
    }

    /// Finish every transition whose period is over now (by the system
    /// clock).
    pub fn process_transitions(&mut self) -> (r: Vec<ValidatorID>)
        requires
            old(self).wf(),
        ensures
            final(self).wf(),
            final(self).pending() == old(self).pending(),
            exists|now: u64|
                id_views(r@) == #[trigger] transition_reports(old(self).key_lists(), now)
                    && final(self).active() == active_after_transitions(
                    old(self).active(),
                    old(self).key_lists(),
                    now,
                ),
    {
        let now = unix_time_secs();
        self.process_transitions_at(now)
    }

    /// The validator's active key.
    pub fn get_active_key(&self, validator_id: &ValidatorID) -> (r: Option<&KeyRecord>)
        requires
            self.wf(),
        ensures
            r is Some <==> self.active().dom().contains(validator_id@) && self.keys().dom().contains(
                validator_id@,
            ) && find_key(self.keys()[validator_id@], self.active()[validator_id@]) is Some,
            r matches Some(k) ==> Some(k@) == find_key(
                self.keys()[validator_id@],
                self.active()[validator_id@],
            ),
    {
        let key_id = match self.active_keys.get(validator_id) {
            Some(k) => k,
            None => {
                return None;
            },
        };
        let list = match self.validator_keys.get(validator_id) {
            Some(l) => l,
            None => {
                return None;
            },
        };
        proof {
            self.lemma_key_lists();
            assert(self.keys().dom().contains(validator_id@));
        }
        match find_key_in(list, key_id) {
            Some(j) => Some(&list[j]),
            None => None,
        }
    }

    /// The validator's keys accepted for verification (active or in
    /// transition), in order.
    pub fn get_valid_keys(&self, validator_id: &ValidatorID) -> (r: Vec<KeyRecord>)
        requires
            self.wf(),
        ensures
            !self.keys().dom().contains(validator_id@) ==> r@.len() == 0,
            self.keys().dom().contains(validator_id@) ==> key_views(r@) == valid_keys(
                self.keys()[validator_id@],
            ),
    {
        let mut out: Vec<KeyRecord> = Vec::new();
        match self.validator_keys.get(validator_id) {
            Some(list) => {
                let mut i: usize = 0;
                while i < list.len()
                    invariant
                        i <= list@.len(),
                        key_views(out@) == valid_keys(key_views(list@).take(i as int)),
                    decreases list@.len() - i,
                {
                    proof {
                        assert(key_views(list@).take(i + 1).drop_last() =~= key_views(list@).take(i as int));
                    }
                    if list[i].is_valid() {
                        let ghost o0 = out@;
                        out.push(list[i].clone());
                        assert(key_views(out@) =~= key_views(o0).push(list@[i as int]@));
                    }
                    i = i + 1;
                }
                assert(key_views(list@).take(i as int) =~= key_views(list@));
            },
            None => {},
        }
        out
    }

    /// The validator's pending request.
    pub fn get_pending_request(&self, validator_id: &ValidatorID) -> (r: Option<&KeyRotationRequest>)
        requires
            self.wf(),
        ensures
            r is None <==> !self.pending().dom().contains(validator_id@),
            r matches Some(q) ==> q@ == self.pending()[validator_id@],
    {
        self.pending_requests.get(validator_id)
    }

    /// Every event, oldest first.
    pub fn get_events(&self) -> (r: &[KeyRotationEvent])
        ensures
            rotation_event_views(r@) == self.events(),
    {
        self.events.as_slice()
    }

    /// The events of one validator, oldest first.
    pub fn get_validator_events(&self, validator_id: &ValidatorID) -> (r: Vec<KeyRotationEvent>)
        ensures
            rotation_event_views(r@) == rotation_events_of(self.events(), validator_id@),
    {
        let mut out: Vec<KeyRotationEvent> = Vec::new();
        let mut i: usize = 0;
        while i < self.events.len()
            invariant
                i <= self.events().len(),
                self.events().len() == self.events@.len(),
                rotation_event_views(out@) == rotation_events_of(self.events().take(i as int), validator_id@),
            decreases self.events@.len() - i,
        {
            proof {
                assert(self.events().take(i + 1).drop_last() =~= self.events().take(i as int));
            }
            let e = &self.events[i];
            if e.validator_id.same_as(validator_id) {
                let ghost o0 = out@;
                out.push(e.clone());
                assert(rotation_event_views(out@) =~= rotation_event_views(o0).push(self.events()[i as int]));
            }
            i = i + 1;
        }
        assert(self.events().take(i as int) =~= self.events());
        out
    }

    /// Advance to the next cycle.
    pub fn advance_cycle(&mut self)
        requires
            old(self).cycle() < u64::MAX,
        ensures
            final(self).cycle() == old(self).cycle() + 1,
            final(self).cfg() == old(self).cfg(),
            final(self).keys() == old(self).keys(),
            final(self).key_lists() == old(self).key_lists(),
            final(self).active() == old(self).active(),
            final(self).pending() == old(self).pending(),
            final(self).events() == old(self).events(),
            old(self).wf() ==> final(self).wf(),
    {
        self.current_cycle = self.current_cycle + 1;
    }

    /// The current cycle.
    pub fn current_cycle(&self) -> (r: u64)
        ensures
            r == self.cycle(),
    {
        self.current_cycle
    }

    /// The configuration.
    pub fn config(&self) -> (r: &KeyRotationConfig)
        ensures
            *r == self.cfg(),
    {
        &self.config
    }

    /// The number of validators with keys.
    pub fn validator_count(&self) -> (r: usize)
        ensures
            r == self.key_lists().len(),
    {
        self.validator_keys.len()
    }

    /// The number of pending requests.
    pub fn pending_request_count(&self) -> (r: usize)
        requires
            self.wf(),
        ensures
            r == self.pending().dom().len(),
    {
        proof {
            self.pending_requests.lemma_len();
            assert(self.pending().dom() =~= self.pending_requests.map().dom());
        }
        self.pending_requests.len()
    }

    /// The number of events recorded.
    pub fn event_count(&self) -> (r: usize)
        ensures
            r == self.events().len(),
    {
        self.events.len()
    }
}

/// The position of the key with identifier `key_id`.
fn find_key_in(list: &Vec<KeyRecord>, key_id: &Vec<u8>) -> (r: Option<usize>)
    requires
        key_ids_unique(key_views(list@)),
    ensures
        r is None <==> find_key(key_views(list@), key_id@) is None,
        r matches Some(j) ==> j < list@.len() && Some(list@[j as int]@) == find_key(
            key_views(list@),
            key_id@,
        ) && list@[j as int]@.key_id == key_id@,
{
    let ghost s = key_views(list@);
    let mut j: usize = 0;
    while j < list.len()
        invariant
            s == key_views(list@),
            key_ids_unique(s),
            j <= list@.len(),
            forall|q: int| 0 <= q < j ==> s[q].key_id != key_id@,
        decreases list@.len() - j,
    {
        if bytes_equal(&list[j].key_id, key_id) {
            proof {
                assert(s[j as int].key_id == key_id@);
                let c = choose|q: int| 0 <= q < s.len() && s[q].key_id == key_id@;
                assert(c == j as int);
            }
            return Some(j);
        }
        j = j + 1;
    }
    None
}

/// Files `key` in the list, in place of the key with its identifier or at
/// the end.
fn put_key_in(list: &mut Vec<KeyRecord>, key: KeyRecord)
    requires
        key_ids_unique(key_views(old(list)@)),
    ensures
        key_views(final(list)@) == put_key(key_views(old(list)@), key@),
        key_ids_unique(key_views(final(list)@)),
{
    let ghost s = key_views(list@);
    let ghost kv = key@;
    match find_key_in(list, &key.key_id) {
        Some(j) => {
            proof {
                assert(s[j as int] == list@[j as int]@);
                assert(s[j as int].key_id == kv.key_id);
                let c = choose|q: int| 0 <= q < s.len() && s[q].key_id == kv.key_id;
                assert(s[c].key_id == kv.key_id);
                assert(c == j as int);
            }
            list.set(j, key);
            proof {
                assert(key_views(list@) =~= s.update(j as int, kv));
                assert forall|a: int, b: int|
                    0 <= a < key_views(list@).len() && 0 <= b < key_views(list@).len() && a != b implies key_views(
                    list@,
                )[a].key_id != key_views(list@)[b].key_id by {
                    if a != j && b != j {
                        assert(key_views(list@)[a] == s[a]);
                        assert(key_views(list@)[b] == s[b]);
                    } else if a == j {
                        assert(key_views(list@)[b] == s[b]);
                    } else {
                        assert(key_views(list@)[a] == s[a]);
                    }
                }
            }
        },
        None => {
            list.push(key);
            proof {
                assert(key_views(list@) =~= s.push(kv));
                assert forall|q: int| 0 <= q < s.len() implies s[q].key_id != kv.key_id by {
                    if s[q].key_id == kv.key_id {
                        assert(exists|i: int| 0 <= i < s.len() && s[i].key_id == kv.key_id);
                    }
                }
            }
        },
    }
}

/// Drops the oldest revoked key of a list holding `max` keys or more.
fn make_room_in(list: &mut Vec<KeyRecord>, max: usize)
    requires
        key_ids_unique(key_views(old(list)@)),
    ensures
        key_views(final(list)@) == make_room(key_views(old(list)@), max),
        key_ids_unique(key_views(final(list)@)),
{
    let ghost s = key_views(list@);
    if list.len() < max {
        return;
    }
    let mut best: Option<usize> = None;
    let mut j: usize = 0;
    while j < list.len()
        invariant
            s == key_views(list@),
            j <= s.len(),
            best is None ==> forall|q: int| 0 <= q < j ==> (#[trigger] s[q]).status != KeyStatus::Revoked,
            best matches Some(b) ==> b < j && s[b as int].status == KeyStatus::Revoked && forall|q: int|
                0 <= q < j && (#[trigger] s[q]).status == KeyStatus::Revoked ==> revoked_time(
                    s[b as int],
                ) <= revoked_time(s[q]) && (q < b ==> revoked_time(s[b as int]) < revoked_time(s[q])),
        decreases s.len() - j,
    {
        if list[j].status == KeyStatus::Revoked {
            let t = match list[j].revoked_at {
                Some(x) => x,
                None => 0,
            };
            let better = match best {
                None => true,
                Some(b) => {
                    let bt = match list[b].revoked_at {
                        Some(x) => x,
                        None => 0,
                    };
                    t < bt
                },
            };
            if better {
                best = Some(j);
            }
        }
        j = j + 1;
    }
    match best {
        Some(b) => {
            proof {
                assert(oldest_revoked_at(s, b as int));
                let c = choose|i: int| oldest_revoked_at(s, i);
                assert(oldest_revoked_at(s, c));
                if c < b {
                    assert(revoked_time(s[b as int]) < revoked_time(s[c]));
                    assert(revoked_time(s[c]) <= revoked_time(s[b as int]));
                } else if c > b {
                    assert(revoked_time(s[c]) < revoked_time(s[b as int]));
                    assert(revoked_time(s[b as int]) <= revoked_time(s[c]));
                }
                assert(c == b as int);
            }
            list.remove(b);
            proof {
                assert(key_views(list@) =~= s.remove(b as int));
                assert forall|a: int, c: int|
                    0 <= a < key_views(list@).len() && 0 <= c < key_views(list@).len() && a != c implies key_views(
                    list@,
                )[a].key_id != key_views(list@)[c].key_id by {
                    let a2 = if a < b { a } else { a + 1 };
                    let c2 = if c < b { c } else { c + 1 };
                    assert(key_views(list@)[a] == s[a2]);
                    assert(key_views(list@)[c] == s[c2]);
                }
            }
        },
        None => {
            proof {
                if exists|i: int| oldest_revoked_at(s, i) {
                    let c = choose|i: int| oldest_revoked_at(s, i);
                    assert(s[c].status == KeyStatus::Revoked);
                }
            }
        },
    }
}

/// Finishes every ripe transition in the list; returns the identifiers of
/// the finished keys, in order.
fn complete_ripe_keys(list: &mut Vec<KeyRecord>, now: u64) -> (r: Vec<Vec<u8>>)
    requires
        key_ids_unique(key_views(old(list)@)),
    ensures
        key_views(final(list)@) == key_views(old(list)@).map_values(
            |k: KeyRecordView| after_transition(k, now),
        ),
        key_ids_unique(key_views(final(list)@)),
        r@.len() == ripe_key_ids(key_views(old(list)@), now).len(),
        forall|q: int| 0 <= q < r@.len() ==> (#[trigger] r@[q])@ == ripe_key_ids(
            key_views(old(list)@),
            now,
        )[q],
{
    let ghost s = key_views(list@);
    let mut out: Vec<Vec<u8>> = Vec::new();
    let mut j: usize = 0;
    while j < list.len()
        invariant
            s == key_views(old(list)@),
            list@.len() == s.len(),
            j <= s.len(),
            forall|q: int| 0 <= q < j ==> (#[trigger] key_views(list@)[q]) == after_transition(s[q], now),
            forall|q: int| j <= q < s.len() ==> (#[trigger] key_views(list@)[q]) == s[q],
            out@.len() == ripe_key_ids(s.take(j as int), now).len(),
            forall|q: int| 0 <= q < out@.len() ==> (#[trigger] out@[q])@ == ripe_key_ids(
                s.take(j as int),
                now,
            )[q],
        decreases s.len() - j,
    {
        proof {
            assert(s.take(j + 1).drop_last() =~= s.take(j as int));
            assert(key_views(list@)[j as int] == s[j as int]);
        }
        let is_ripe = list[j].status == KeyStatus::Transitioning && list[j].is_transition_complete_at(now);
        if is_ripe {
            let ghost before = list@;
            let mut k = list[j].clone();
            let _ = k.complete_transition_at(now);
            let kid = copy_bytes(&k.key_id);
            list.set(j, k);
            let ghost o0 = out@;
            out.push(kid);
            proof {
                assert forall|q: int| 0 <= q < out@.len() implies (#[trigger] out@[q])@ == ripe_key_ids(
                    s.take(j + 1),
                    now,
                )[q] by {
                    if q < o0.len() {
                        assert(out@[q] == o0[q]);
                    }
                }
                assert forall|q: int| 0 <= q < s.len() && q != j implies (#[trigger] key_views(list@)[q])
                    == key_views(before)[q] by {
                    assert(list@[q] == before[q]);
                }
            }
        }
        proof {
            assert forall|q: int| 0 <= q < j + 1 implies (#[trigger] key_views(list@)[q]) == after_transition(
                s[q],
                now,
            ) by {}
        }
        j = j + 1;
    }
    proof {
        assert(s.take(s.len() as int) =~= s);
        assert(key_views(list@) =~= s.map_values(|k: KeyRecordView| after_transition(k, now)));
        assert forall|a: int, b: int|
            0 <= a < key_views(list@).len() && 0 <= b < key_views(list@).len() && a != b implies key_views(
            list@,
        )[a].key_id != key_views(list@)[b].key_id by {
            assert(key_views(list@)[a].key_id == s[a].key_id);
            assert(key_views(list@)[b].key_id == s[b].key_id);
        }
    }
    out
}

/// What deciding a validator's pending rotation at `now` does: refused
/// without a pending request; otherwise the request is removed and it is
/// approved exactly when its votes in favor reach `required_votes`. An
/// approved rotation files the new key in transition (making room by
/// dropping the oldest revoked key of a full list) and records an approval
/// event; a rejected one records a rejection event and leaves the keys.
pub open spec fn finalize_outcome(
    pre: KeyRotationManager,
    post: KeyRotationManager,
    id: Seq<u8>,
    total_stake: u64,
    now: u64,
    r: Result<KeyRotationRequestStatus, Error>,
) -> bool {
    if !pre.pending().dom().contains(id) {
        &&& r == Err::<KeyRotationRequestStatus, Error>(Error::NoPendingRequest)
        &&& post.cfg() == pre.cfg()
        &&& post.keys() == pre.keys()
        &&& post.active() == pre.active()
        &&& post.pending() == pre.pending()
        &&& post.events() == pre.events()
        &&& post.cycle() == pre.cycle()
    } else {
        let req = pre.pending()[id];
        let approved = req.votes_in_favor >= required_votes(total_stake, pre.cfg().votes_required_bps);
        let event = KeyRotationEventView {
            validator_id: id,
            event_type: if approved {
                KeyRotationEventType::RotationApproved
            } else {
                KeyRotationEventType::RotationRejected
            },
            key_id: req.new_key_id,
            timestamp: now,
            cycle: pre.cycle(),
        };
        &&& r == Ok::<KeyRotationRequestStatus, Error>(
            if approved {
                KeyRotationRequestStatus::Approved
            } else {
                KeyRotationRequestStatus::Rejected
            },
        )
        &&& post.cfg() == pre.cfg()
        &&& post.active() == pre.active()
        &&& post.pending() == pre.pending().remove(id)
        &&& post.events() == pre.events().push(event)
        &&& post.cycle() == pre.cycle()
        &&& post.keys() == if approved {
            pre.keys().insert(
                id,
                put_key(
                    make_room(
                        if pre.keys().dom().contains(id) {
                            pre.keys()[id]
                        } else {
                            Seq::empty()
                        },
                        pre.cfg().max_keys_per_validator,
                    ),
                    activated(
                        new_key_record(req.new_key_id, req.new_public_key, now),
                        pre.cfg().transition_period_secs,
                        now,
                    ),
                ),
            )
        } else {
            pre.keys()
        }
    }
}

/// A rotation is approved exactly when the votes in favor reach the
/// required share of the stake; approval puts the new key into transition,
/// valid at once and finished once the transition period is over.
pub proof fn lemma_rotation_approval(
    pre: KeyRotationManager,
    post: KeyRotationManager,
    id: Seq<u8>,
    total_stake: u64,
    now: u64,
    r: Result<KeyRotationRequestStatus, Error>,
    later: u64,
)
    requires
        pre.pending().dom().contains(id),
        finalize_outcome(pre, post, id, total_stake, now, r),
    ensures
        !post.pending().dom().contains(id),
        r == Ok::<KeyRotationRequestStatus, Error>(KeyRotationRequestStatus::Approved) <==> pre.pending()[id].votes_in_favor
            >= required_votes(total_stake, pre.cfg().votes_required_bps),
        r == Ok::<KeyRotationRequestStatus, Error>(KeyRotationRequestStatus::Approved) ==> {
            let k = activated(
                new_key_record(pre.pending()[id].new_key_id, pre.pending()[id].new_public_key, now),
                pre.cfg().transition_period_secs,
                now,
            );
            &&& key_valid(k)
            &&& k.status == KeyStatus::Transitioning
            &&& (later >= sat_add(now, pre.cfg().transition_period_secs) <==> ripe(k, later))
        },
{
}

/// A validator never has two pending rotations: asking again while one is
/// pending is refused (see `request_key_rotation_at`), and deciding the
/// pending one removes it, so a new request can follow.
pub proof fn lemma_finalize_clears_request(
    pre: KeyRotationManager,
    post: KeyRotationManager,
    id: Seq<u8>,
    total_stake: u64,
    now: u64,
    r: Result<KeyRotationRequestStatus, Error>,
)
    requires
        finalize_outcome(pre, post, id, total_stake, now, r),
    ensures
        !post.pending().dom().contains(id),
        r is Ok <==> pre.pending().dom().contains(id),
{
}

} // verus!
