//! Validator activation and deactivation:
//! - minimum stake and voting power for an activation request
//! - activation and deactivation requests, voted on by stake
//! - a cooldown after deactivation before a validator may return
//! - status tracking and an audit trail
//!
//! The share of stake whose votes approve a request is in basis points
//! (10000 is 100%).
use vstd::prelude::*;
use crate::clock::{reached, remaining_until, sat_add, unix_time_secs};
use crate::key_rotation::{compute_required_votes, required_votes};
use crate::table::IdTable;
use crate::types::{Error, ValidatorID, id_views};

verus! {

/// Validator activation configuration.
#[derive(Debug, Clone, Copy, PartialEq, Eq, Structural)]
pub struct ActivationConfig {
    /// Minimum stake required for activation
    pub min_stake_for_activation: u64,
    /// Minimum voting power required for activation
    pub min_voting_power: u64,
    /// Cooldown after deactivation (seconds)
    pub deactivation_cooldown_secs: u64,
    /// Reactivation cooldown period (seconds)
    pub reactivation_cooldown_secs: u64,
    /// Votes required for activation, in basis points of the total stake
    pub activation_votes_required_bps: u64,
    /// Votes required for deactivation, in basis points of the total stake
    pub deactivation_votes_required_bps: u64,
}

impl Default for ActivationConfig {
    fn default() -> (r: Self)
        ensures
            r == (ActivationConfig {
                min_stake_for_activation: 10000,
                min_voting_power: 5000,
                deactivation_cooldown_secs: 86400,
                reactivation_cooldown_secs: 604800,
                activation_votes_required_bps: 6600,
                deactivation_votes_required_bps: 6600,
            }),
    {
        ActivationConfig {
            min_stake_for_activation: 10000,
            min_voting_power: 5000,
            deactivation_cooldown_secs: 86400,
            reactivation_cooldown_secs: 604800,
            activation_votes_required_bps: 6600,
            deactivation_votes_required_bps: 6600,
        }
    }
}

/// Validator status.
#[derive(Debug, Clone, Copy, PartialEq, Eq, Structural)]
pub enum ValidatorStatus {
    /// Pending activation
    Pending,
    /// Active validator
    Active,
    /// Deactivated validator
    Deactivated,
    /// Suspended (due to violations)
    Suspended,
    /// Removed from the validator set
    Removed,
}

impl ValidatorStatus {
    /// The status's name.
    pub fn to_string(&self) -> (r: String)
        ensures
            r@ == (match *self {
                ValidatorStatus::Pending => "Pending"@,
                ValidatorStatus::Active => "Active"@,
                ValidatorStatus::Deactivated => "Deactivated"@,
                ValidatorStatus::Suspended => "Suspended"@,
                ValidatorStatus::Removed => "Removed"@,
            }),
    {
        match self {
            ValidatorStatus::Pending => "Pending".to_owned(),
            ValidatorStatus::Active => "Active".to_owned(),
            ValidatorStatus::Deactivated => "Deactivated".to_owned(),
            ValidatorStatus::Suspended => "Suspended".to_owned(),
            ValidatorStatus::Removed => "Removed".to_owned(),
        }
    }
}

/// Activation request type.
#[derive(Debug, Clone, Copy, PartialEq, Eq, Structural)]
pub enum ActivationRequestType {
    /// Activation request
    Activation,
    /// Deactivation request
    Deactivation,
}

impl ActivationRequestType {
    /// The request type's name.
    pub fn to_string(&self) -> (r: String)
        ensures
            r@ == (match *self {
                ActivationRequestType::Activation => "Activation"@,
                ActivationRequestType::Deactivation => "Deactivation"@,
            }),
    {
        match self {
            ActivationRequestType::Activation => "Activation".to_owned(),
            ActivationRequestType::Deactivation => "Deactivation".to_owned(),
        }
    }
}

/// Activation request status.
#[derive(Debug, Clone, Copy, PartialEq, Eq, Structural)]
pub enum ActivationRequestStatus {
    /// Pending voting
    Pending,
    /// Approved
    Approved,
    /// Rejected
    Rejected,
    /// Expired
    Expired,
}

impl ActivationRequestStatus {
    /// The status's name.
    pub fn to_string(&self) -> (r: String)
        ensures
            r@ == (match *self {
                ActivationRequestStatus::Pending => "Pending"@,
                ActivationRequestStatus::Approved => "Approved"@,
                ActivationRequestStatus::Rejected => "Rejected"@,
                ActivationRequestStatus::Expired => "Expired"@,
            }),
    {
        match self {
            ActivationRequestStatus::Pending => "Pending".to_owned(),
            ActivationRequestStatus::Approved => "Approved".to_owned(),
            ActivationRequestStatus::Rejected => "Rejected".to_owned(),
            ActivationRequestStatus::Expired => "Expired".to_owned(),
        }
    }
}

/// The abstract content of an activation request.
pub struct ActivationRequestView {
    pub validator_id: Seq<u8>,
    pub request_type: ActivationRequestType,
    pub requested_at: u64,
    pub votes_in_favor: u64,
    pub total_votes: u64,
    pub status: ActivationRequestStatus,
}

/// Activation request.
pub struct ActivationRequest {
    /// Validator ID
    pub validator_id: ValidatorID,
    /// Request type
    pub request_type: ActivationRequestType,
    /// Requested at
    pub requested_at: u64,
    /// Votes in favor
    pub votes_in_favor: u64,
    /// Total votes
    pub total_votes: u64,
    /// Status
    pub status: ActivationRequestStatus,
}

impl View for ActivationRequest {
    type V = ActivationRequestView;

    open spec fn view(&self) -> ActivationRequestView {
        ActivationRequestView {
            validator_id: self.validator_id@,
            request_type: self.request_type,
            requested_at: self.requested_at,
            votes_in_favor: self.votes_in_favor,
            total_votes: self.total_votes,
            status: self.status,
        }
    }
}

impl Clone for ActivationRequest {
    fn clone(&self) -> (r: Self)
        ensures
            r@ == self@,
    {
        ActivationRequest {
            validator_id: self.validator_id.copy(),
            request_type: self.request_type,
            requested_at: self.requested_at,
            votes_in_favor: self.votes_in_favor,
            total_votes: self.total_votes,
            status: self.status,
        }
    }
}

/// The views of a sequence of requests.
pub open spec fn request_views(s: Seq<ActivationRequest>) -> Seq<ActivationRequestView> {
    s.map_values(|r: ActivationRequest| r@)
}

/// A fresh request made at `now`.
pub open spec fn new_request(id: Seq<u8>, t: ActivationRequestType, now: u64) -> ActivationRequestView {
    ActivationRequestView {
        validator_id: id,
        request_type: t,
        requested_at: now,
        votes_in_favor: 0,
        total_votes: 0,
        status: ActivationRequestStatus::Pending,
    }
}

/// The abstract content of an activation record.
pub struct ActivationRecordView {
    pub validator_id: Seq<u8>,
    pub status: ValidatorStatus,
    pub activated_at: Option<u64>,
    pub deactivated_at: Option<u64>,
    pub can_reactivate_at: Option<u64>,
    pub activation_count: u64,
    pub deactivation_count: u64,
}

/// Validator activation record.
pub struct ValidatorActivationRecord {
    /// Validator ID
    pub validator_id: ValidatorID,
    /// Current status
    pub status: ValidatorStatus,
    /// Activated at
    pub activated_at: Option<u64>,
    /// Deactivated at
    pub deactivated_at: Option<u64>,
    /// Can reactivate at
    pub can_reactivate_at: Option<u64>,
    /// Activation count
    pub activation_count: u64,
    /// Deactivation count
    pub deactivation_count: u64,
}

impl View for ValidatorActivationRecord {
    type V = ActivationRecordView;

    open spec fn view(&self) -> ActivationRecordView {
        ActivationRecordView {
            validator_id: self.validator_id@,
            status: self.status,
            activated_at: self.activated_at,
            deactivated_at: self.deactivated_at,
            can_reactivate_at: self.can_reactivate_at,
            activation_count: self.activation_count,
            deactivation_count: self.deactivation_count,
        }
    }
}

/// A record with nothing done yet.
pub open spec fn fresh_activation_record(id: Seq<u8>) -> ActivationRecordView {
    ActivationRecordView {
        validator_id: id,
        status: ValidatorStatus::Pending,
        activated_at: None,
        deactivated_at: None,
        can_reactivate_at: None,
        activation_count: 0,
        deactivation_count: 0,
    }
}

/// Activating the record at `now`: refused for an active validator or
/// before the reactivation time; otherwise it is active from `now`.
pub open spec fn activation_step(r: ActivationRecordView, now: u64) -> (
    ActivationRecordView,
    Result<(), Error>,
) {
    if r.status == ValidatorStatus::Active {
        (r, Err(Error::AlreadyInState))
    } else if r.can_reactivate_at is Some && now < r.can_reactivate_at->Some_0 {
        (r, Err(Error::CooldownActive { until: r.can_reactivate_at->Some_0 }))
    } else {
        (
            ActivationRecordView {
                status: ValidatorStatus::Active,
                activated_at: Some(now),
                can_reactivate_at: None,
                activation_count: (r.activation_count + 1) as u64,
                ..r
            },
            Ok(()),
        )
    }
}

/// Deactivating the record at `now`: refused unless it is active;
/// otherwise it may return once the cooldown has passed (the time
/// saturates at `u64::MAX`).
pub open spec fn deactivation_step(r: ActivationRecordView, cooldown: u64, now: u64) -> (
    ActivationRecordView,
    Result<(), Error>,
) {
    if r.status != ValidatorStatus::Active {
        (r, Err(Error::NotActive))
    } else {
        (
            ActivationRecordView {
                status: ValidatorStatus::Deactivated,
                deactivated_at: Some(now),
                can_reactivate_at: Some(sat_add(now, cooldown)),
                deactivation_count: (r.deactivation_count + 1) as u64,
                ..r
            },
            Ok(()),
        )
    }
}

/// The record's counters can take one more step.
pub open spec fn counts_ok(r: ActivationRecordView) -> bool {
    r.activation_count < u64::MAX && r.deactivation_count < u64::MAX
}

impl ValidatorActivationRecord {
    /// A record with nothing done yet.
    pub fn new(validator_id: ValidatorID) -> (r: Self)
        ensures
            r@ == fresh_activation_record(validator_id@),
    {
        ValidatorActivationRecord {
            validator_id,
            status: ValidatorStatus::Pending,
            activated_at: None,
            deactivated_at: None,
            can_reactivate_at: None,
            activation_count: 0,
            deactivation_count: 0,
        }
    }

    /// Activate the validator at `now`.
    pub fn activate_at(&mut self, now: u64) -> (r: Result<(), Error>)
        requires
            activation_step(old(self)@, now).1 is Ok ==> old(self).activation_count < u64::MAX,
        ensures
            (final(self)@, r) == activation_step(old(self)@, now),
    {
        if self.status == ValidatorStatus::Active {
            return Err(Error::AlreadyInState);
        }
        if let Some(t) = self.can_reactivate_at {
            if now < t {
                return Err(Error::CooldownActive { until: t });
            }
        }
        self.status = ValidatorStatus::Active;
        self.activated_at = Some(now);
        self.can_reactivate_at = None;
        self.activation_count = self.activation_count + 1;
        Ok(())
    }

    /// Activate the validator now (by the system clock).
    pub fn activate(&mut self) -> (r: Result<(), Error>)
        requires
            old(self).status != ValidatorStatus::Active ==> old(self).activation_count < u64::MAX,
        ensures
            exists|now: u64| (final(self)@, r) == #[trigger] activation_step(old(self)@, now),
    {
        let now = unix_time_secs();
        self.activate_at(now)
    }

    /// Deactivate the validator at `now` with the given cooldown.
    pub fn deactivate_at(&mut self, cooldown_secs: u64, now: u64) -> (r: Result<(), Error>)
        requires
            old(self).status == ValidatorStatus::Active ==> old(self).deactivation_count < u64::MAX,
        ensures
            (final(self)@, r) == deactivation_step(old(self)@, cooldown_secs, now),
    {
        if self.status != ValidatorStatus::Active {
            return Err(Error::NotActive);
        }
        self.status = ValidatorStatus::Deactivated;
        self.deactivated_at = Some(now);
        self.can_reactivate_at = Some(now.saturating_add(cooldown_secs));
        self.deactivation_count = self.deactivation_count + 1;
        Ok(())
    }

    /// Deactivate the validator now (by the system clock).
    pub fn deactivate(&mut self, cooldown_secs: u64) -> (r: Result<(), Error>)
        requires
            old(self).status == ValidatorStatus::Active ==> old(self).deactivation_count < u64::MAX,
        ensures
            exists|now: u64|
                (final(self)@, r) == #[trigger] deactivation_step(old(self)@, cooldown_secs, now),
    {
        let now = unix_time_secs();
        self.deactivate_at(cooldown_secs, now)
    }

    /// Suspend the validator; refused when it is suspended already.
    pub fn suspend(&mut self) -> (r: Result<(), Error>)
        ensures
            old(self).status == ValidatorStatus::Suspended ==> r == Err::<(), Error>(
                Error::AlreadyInState,
            ) && final(self)@ == old(self)@,
            old(self).status != ValidatorStatus::Suspended ==> r is Ok && final(self)@ == (
            ActivationRecordView { status: ValidatorStatus::Suspended, ..old(self)@ }),
    {
        if self.status == ValidatorStatus::Suspended {
            return Err(Error::AlreadyInState);
        }
        self.status = ValidatorStatus::Suspended;
        Ok(())
    }

    /// Mark the validator removed.
    pub fn remove(&mut self) -> (r: Result<(), Error>)
        ensures
            r is Ok,
            final(self)@ == (ActivationRecordView { status: ValidatorStatus::Removed, ..old(self)@ }),
    {
        self.status = ValidatorStatus::Removed;
        Ok(())
    }

    /// Whether the validator may return at `now` (false without a
    /// reactivation time).
    pub fn can_reactivate_at(&self, now: u64) -> (r: bool)
        ensures
            r == (self.can_reactivate_at is Some && now >= self.can_reactivate_at->Some_0),
    {
        match self.can_reactivate_at {
            Some(t) => now >= t,
            None => false,
        }
    }

    /// Whether the validator may return now (by the system clock).
    pub fn can_reactivate(&self) -> (r: bool)
        ensures
            self.can_reactivate_at is None ==> !r,
            self.can_reactivate_at matches Some(t) ==> exists|now: u64| r == #[trigger] reached(t, now),
    {
        let now = unix_time_secs();
        let r = self.can_reactivate_at(now);
        if let Some(t) = self.can_reactivate_at {
            assert(r == reached(t, now));
        }
        r
    }

    /// Seconds of cooldown left at `now`.
    pub fn remaining_cooldown_at(&self, now: u64) -> (r: u64)
        ensures
            r == (match self.can_reactivate_at {
                Some(t) => remaining_until(t, now),
                None => 0,
            }),
    {
        match self.can_reactivate_at {
            Some(t) => if now >= t {
                0
            } else {
                t - now
            },
            None => 0,
        }
    }

    /// Seconds of cooldown left now (by the system clock).
    pub fn remaining_cooldown(&self) -> (r: u64)
        ensures
            self.can_reactivate_at is None ==> r == 0,
            self.can_reactivate_at matches Some(t) ==> exists|now: u64| r == #[trigger] remaining_until(t, now),
    {
        self.remaining_cooldown_at(unix_time_secs())
    }
}

/// Activation event type.
#[derive(Debug, Clone, Copy, PartialEq, Eq, Structural)]
pub enum ActivationEventType {
    /// Validator activated
    Activated,
    /// Validator deactivated
    Deactivated,
    /// Validator suspended
    Suspended,
    /// Validator removed
    Removed,
}

impl ActivationEventType {
    /// The event type's name.
    pub fn to_string(&self) -> (r: String)
        ensures
            r@ == (match *self {
                ActivationEventType::Activated => "Activated"@,
                ActivationEventType::Deactivated => "Deactivated"@,
                ActivationEventType::Suspended => "Suspended"@,
                ActivationEventType::Removed => "Removed"@,
            }),
    {
        match self {
            ActivationEventType::Activated => "Activated".to_owned(),
            ActivationEventType::Deactivated => "Deactivated".to_owned(),
            ActivationEventType::Suspended => "Suspended".to_owned(),
            ActivationEventType::Removed => "Removed".to_owned(),
        }
    }
}

/// The abstract content of an activation event.
pub struct ActivationEventView {
    pub validator_id: Seq<u8>,
    pub event_type: ActivationEventType,
    pub timestamp: u64,
    pub cycle: u64,
}

/// Activation event.
pub struct ActivationEvent {
    /// Validator ID
    pub validator_id: ValidatorID,
    /// Event type
    pub event_type: ActivationEventType,
    /// Timestamp
    pub timestamp: u64,
    /// Cycle
    pub cycle: u64,
}

impl View for ActivationEvent {
    type V = ActivationEventView;

    open spec fn view(&self) -> ActivationEventView {
        ActivationEventView {
            validator_id: self.validator_id@,
            event_type: self.event_type,
            timestamp: self.timestamp,
            cycle: self.cycle,
        }
    }
}

impl Clone for ActivationEvent {
    fn clone(&self) -> (r: Self)
        ensures
            r@ == self@,
    {
        ActivationEvent {
            validator_id: self.validator_id.copy(),
            event_type: self.event_type,
            timestamp: self.timestamp,
            cycle: self.cycle,
        }
    }
}

/// The views of a sequence of events.
pub open spec fn activation_event_views(s: Seq<ActivationEvent>) -> Seq<ActivationEventView> {
    s.map_values(|e: ActivationEvent| e@)
}

/// The activation events of one validator, in order.
pub open spec fn activation_events_of(h: Seq<ActivationEventView>, id: Seq<u8>) -> Seq<
    ActivationEventView,
>
    decreases h.len(),
{
    if h.len() == 0 {
        Seq::empty()
    } else if h.last().validator_id == id {
        activation_events_of(h.drop_last(), id).push(h.last())
    } else {
        activation_events_of(h.drop_last(), id)
    }
}

/// The identifiers of the active records, in order.
pub open spec fn active_ids(s: Seq<ActivationRecordView>) -> Seq<Seq<u8>>
    decreases s.len(),
{
    if s.len() == 0 {
        Seq::empty()
    } else if s.last().status == ValidatorStatus::Active {
        active_ids(s.drop_last()).push(s.last().validator_id)
    } else {
        active_ids(s.drop_last())
    }
}

/// Validator activation manager.
pub struct ValidatorActivationManager {
    config: ActivationConfig,
    records: IdTable<ValidatorActivationRecord>,
    pending_requests: IdTable<ActivationRequest>,
    events: Vec<ActivationEvent>,
    current_cycle: u64,
}

impl ValidatorActivationManager {
    /// The configuration.
    pub closed spec fn cfg(&self) -> ActivationConfig {
        self.config
    }

    /// The records, in the order the validators were first activated.
    pub closed spec fn records(&self) -> Seq<ActivationRecordView> {
        self.records.pairs().map_values(|e: (Seq<u8>, ValidatorActivationRecord)| e.1@)
    }

    /// The records by validator.
    pub closed spec fn record_map(&self) -> Map<Seq<u8>, ActivationRecordView> {
        self.records.map().map_values(|r: ValidatorActivationRecord| r@)
    }

    /// The pending requests, in the order they were first filed.
    pub closed spec fn requests(&self) -> Seq<ActivationRequestView> {
        self.pending_requests.pairs().map_values(|e: (Seq<u8>, ActivationRequest)| e.1@)
    }

    /// The pending requests by validator.
    pub closed spec fn pending(&self) -> Map<Seq<u8>, ActivationRequestView> {
        self.pending_requests.map().map_values(|r: ActivationRequest| r@)
    }

    /// Every event, oldest first.
    pub closed spec fn events(&self) -> Seq<ActivationEventView> {
        activation_event_views(self.events@)
    }

    /// The current cycle.
    pub closed spec fn cycle(&self) -> u64 {
        self.current_cycle
    }

    /// One record and at most one request per validator, each filed under
    /// the validator's identifier.
    pub closed spec fn wf(&self) -> bool {
        &&& self.records.wf()
        &&& self.pending_requests.wf()
        &&& forall|i: int|
            0 <= i < self.records.pairs().len() ==> (#[trigger] self.records.pairs()[i]).1.validator_id@
                == self.records.pairs()[i].0
        &&& forall|i: int|
            0 <= i < self.pending_requests.pairs().len()
                ==> (#[trigger] self.pending_requests.pairs()[i]).1.validator_id@
                == self.pending_requests.pairs()[i].0
    }

    /// The ordered records and the map agree.
    pub proof fn lemma_records_map(&self)
        requires
            self.wf(),
        ensures
            forall|i: int|
                0 <= i < self.records().len() ==> self.record_map().dom().contains(
                    #[trigger] self.records()[i].validator_id,
                ) && self.record_map()[self.records()[i].validator_id] == self.records()[i],
            forall|k: Seq<u8>|
                #[trigger] self.record_map().dom().contains(k) ==> self.record_map()[k].validator_id
                    == k,
            forall|k: Seq<u8>|
                #[trigger] self.pending().dom().contains(k) ==> self.pending()[k].validator_id == k,
            self.record_map().dom().finite(),
            self.record_map().dom().len() == self.records().len(),
            self.pending().dom().finite(),
            self.pending().dom().len() == self.requests().len(),
    {
        let t = &self.records;
        let p = &self.pending_requests;
        t.lemma_len();
        p.lemma_len();
        assert forall|i: int| 0 <= i < self.records().len() implies self.record_map().dom().contains(
            #[trigger] self.records()[i].validator_id,
        ) && self.record_map()[self.records()[i].validator_id] == self.records()[i] by {
            t.lemma_at(i);
            assert(t.pairs()[i].1.validator_id@ == t.pairs()[i].0);
        }
        assert forall|k: Seq<u8>| #[trigger] self.record_map().dom().contains(k) implies self.record_map()[k].validator_id
            == k by {
            t.lemma_dom(k);
            let i = choose|i: int| 0 <= i < t.pairs().len() && t.pairs()[i].0 == k;
            t.lemma_at(i);
            assert(t.pairs()[i].1.validator_id@ == t.pairs()[i].0);
        }
        assert forall|k: Seq<u8>| #[trigger] self.pending().dom().contains(k) implies self.pending()[k].validator_id
            == k by {
            p.lemma_dom(k);
            let i = choose|i: int| 0 <= i < p.pairs().len() && p.pairs()[i].0 == k;
            p.lemma_at(i);
            assert(p.pairs()[i].1.validator_id@ == p.pairs()[i].0);
        }
        assert(self.record_map().dom() =~= t.map().dom());
        assert(self.pending().dom() =~= p.map().dom());
    }

    /// A manager with nothing recorded, at cycle 0.
    pub fn new(config: ActivationConfig) -> (r: Self)
        ensures
            r.wf(),
            r.cfg() == config,
            r.records() == Seq::<ActivationRecordView>::empty(),
            r.record_map() == Map::<Seq<u8>, ActivationRecordView>::empty(),
            r.requests() == Seq::<ActivationRequestView>::empty(),
            r.pending() == Map::<Seq<u8>, ActivationRequestView>::empty(),
            r.events() == Seq::<ActivationEventView>::empty(),
            r.cycle() == 0,
    {
        let r = ValidatorActivationManager {
            config,
            records: IdTable::new(),
            pending_requests: IdTable::new(),
            events: Vec::new(),
            current_cycle: 0,
        };
        assert(r.records() =~= Seq::<ActivationRecordView>::empty());
        assert(r.record_map() =~= Map::<Seq<u8>, ActivationRecordView>::empty());
        assert(r.requests() =~= Seq::<ActivationRequestView>::empty());
        assert(r.pending() =~= Map::<Seq<u8>, ActivationRequestView>::empty());
        assert(r.events() =~= Seq::<ActivationEventView>::empty());
        r
    }

    /// A manager with the default configuration.
    pub fn default() -> (r: Self)
        ensures
            r.wf(),
            r.cfg() == (ActivationConfig {
                min_stake_for_activation: 10000,
                min_voting_power: 5000,
                deactivation_cooldown_secs: 86400,
                reactivation_cooldown_secs: 604800,
                activation_votes_required_bps: 6600,
                deactivation_votes_required_bps: 6600,
            }),
            r.record_map() == Map::<Seq<u8>, ActivationRecordView>::empty(),
            r.pending() == Map::<Seq<u8>, ActivationRequestView>::empty(),
            r.events() == Seq::<ActivationEventView>::empty(),
            r.cycle() == 0,
    {
        Self::new(ActivationConfig::default())
    }

    /// Files a fresh request, in place of the validator's pending one.
    fn file_request(&mut self, validator_id: &ValidatorID, t: ActivationRequestType, now: u64) -> (r:
        ActivationRequest)
        requires
            old(self).wf(),
        ensures
            final(self).wf(),
            r@ == new_request(validator_id@, t, now),
            final(self).pending() == old(self).pending().insert(validator_id@, r@),
            final(self).cfg() == old(self).cfg(),
            final(self).records() == old(self).records(),
            final(self).record_map() == old(self).record_map(),
            final(self).events() == old(self).events(),
            final(self).cycle() == old(self).cycle(),
    {
        let request = ActivationRequest {
            validator_id: validator_id.copy(),
            request_type: t,
            requested_at: now,
            votes_in_favor: 0,
            total_votes: 0,
            status: ActivationRequestStatus::Pending,
        };
        let out = request.clone();
        let ghost rv = request@;
        let ghost before = self.pending_requests.pairs();
        self.pending_requests.upsert(validator_id.copy(), request);
        proof {
            let newp = self.pending_requests.pairs();
            assert forall|j: int| 0 <= j < newp.len() implies (#[trigger] newp[j]).1.validator_id@
                == newp[j].0 by {
                if j < before.len() && newp[j] == before[j] {
                    assert(before[j].1.validator_id@ == before[j].0);
                }
            }
            assert(self.pending() =~= old(self).pending().insert(validator_id@, rv));
        }
        out
    }

    /// Ask, at `now`, to activate a validator: refused below the minimum
    /// stake or voting power, or for an active validator. The request
    /// replaces any pending one.
    pub fn request_activation_at(
        &mut self,
        validator_id: ValidatorID,
        stake: u64,
        voting_power: u64,
        now: u64,
    ) -> (r: Result<ActivationRequest, Error>)
        requires
            old(self).wf(),
        ensures
            final(self).wf(),
            final(self).cfg() == old(self).cfg(),
            final(self).records() == old(self).records(),
            final(self).record_map() == old(self).record_map(),
            final(self).events() == old(self).events(),
            final(self).cycle() == old(self).cycle(),
            r is Err ==> final(self).pending() == old(self).pending(),
            stake < old(self).cfg().min_stake_for_activation ==> r is Err && r->Err_0
                == (Error::StakeBelowMinimum { stake, minimum: old(self).cfg().min_stake_for_activation }),
            stake >= old(self).cfg().min_stake_for_activation && voting_power < old(self).cfg().min_voting_power
                ==> r is Err && r->Err_0 == (Error::VotingPowerBelowMinimum {
                voting_power,
                minimum: old(self).cfg().min_voting_power,
            }),
            stake >= old(self).cfg().min_stake_for_activation && voting_power >= old(self).cfg().min_voting_power
                && old(self).record_map().dom().contains(validator_id@) && old(self).record_map()[validator_id@].status
                == ValidatorStatus::Active ==> r is Err && r->Err_0 == Error::AlreadyInState,
            stake >= old(self).cfg().min_stake_for_activation && voting_power >= old(self).cfg().min_voting_power
                && !(old(self).record_map().dom().contains(validator_id@) && old(self).record_map()[validator_id@].status
                == ValidatorStatus::Active) ==> r is Ok && r->Ok_0@ == new_request(
                validator_id@,
                ActivationRequestType::Activation,
                now,
            ) && final(self).pending() == old(self).pending().insert(validator_id@, r->Ok_0@),
    {
        if stake < self.config.min_stake_for_activation {
            return Err(
                Error::StakeBelowMinimum { stake, minimum: self.config.min_stake_for_activation },
            );
        }
        if voting_power < self.config.min_voting_power {
            return Err(
                Error::VotingPowerBelowMinimum { voting_power, minimum: self.config.min_voting_power },
            );
        }
        if let Some(record) = self.records.get(&validator_id) {
            if record.status == ValidatorStatus::Active {
                return Err(Error::AlreadyInState);
            }
        }
        Ok(self.file_request(&validator_id, ActivationRequestType::Activation, now))
    }

    /// Ask to activate a validator now (by the system clock).
    pub fn request_activation(&mut self, validator_id: ValidatorID, stake: u64, voting_power: u64) -> (r:
        Result<ActivationRequest, Error>)
        requires
            old(self).wf(),
        ensures
            final(self).wf(),
            final(self).record_map() == old(self).record_map(),
            r is Err ==> final(self).pending() == old(self).pending(),
            stake < old(self).cfg().min_stake_for_activation ==> r is Err && r->Err_0
                == (Error::StakeBelowMinimum { stake, minimum: old(self).cfg().min_stake_for_activation }),
            stake >= old(self).cfg().min_stake_for_activation && voting_power < old(self).cfg().min_voting_power
                ==> r is Err && r->Err_0 == (Error::VotingPowerBelowMinimum {
                voting_power,
                minimum: old(self).cfg().min_voting_power,
            }),
            stake >= old(self).cfg().min_stake_for_activation && voting_power >= old(self).cfg().min_voting_power
                && old(self).record_map().dom().contains(validator_id@) && old(self).record_map()[validator_id@].status
                == ValidatorStatus::Active ==> r is Err && r->Err_0 == Error::AlreadyInState,
            stake >= old(self).cfg().min_stake_for_activation && voting_power >= old(self).cfg().min_voting_power
                && !(old(self).record_map().dom().contains(validator_id@) && old(self).record_map()[validator_id@].status
                == ValidatorStatus::Active) ==> r is Ok && r->Ok_0@.request_type
                == ActivationRequestType::Activation && r->Ok_0@.votes_in_favor == 0 && r->Ok_0@.status
                == ActivationRequestStatus::Pending && final(self).pending() == old(self).pending().insert(
                validator_id@,
                r->Ok_0@,
            ),
    {
        let now = unix_time_secs();
        self.request_activation_at(validator_id, stake, voting_power, now)
    }

    /// Ask, at `now`, to deactivate a validator: refused for an unknown or
    /// inactive validator. The request replaces any pending one.
    pub fn request_deactivation_at(&mut self, validator_id: ValidatorID, now: u64) -> (r: Result<
        ActivationRequest,
        Error,
    >)
        requires
            old(self).wf(),
        ensures
            final(self).wf(),
            final(self).cfg() == old(self).cfg(),
            final(self).records() == old(self).records(),
            final(self).record_map() == old(self).record_map(),
            final(self).events() == old(self).events(),
            final(self).cycle() == old(self).cycle(),
            r is Err ==> final(self).pending() == old(self).pending(),
            !old(self).record_map().dom().contains(validator_id@) ==> r is Err && r->Err_0
                == Error::NotFound,
            old(self).record_map().dom().contains(validator_id@) && old(self).record_map()[validator_id@].status
                != ValidatorStatus::Active ==> r is Err && r->Err_0 == Error::NotActive,
            old(self).record_map().dom().contains(validator_id@) && old(self).record_map()[validator_id@].status
                == ValidatorStatus::Active ==> r is Ok && r->Ok_0@ == new_request(
                validator_id@,
                ActivationRequestType::Deactivation,
                now,
            ) && final(self).pending() == old(self).pending().insert(validator_id@, r->Ok_0@),
    {
        match self.records.get(&validator_id) {
            Some(record) => {
                if record.status != ValidatorStatus::Active {
                    return Err(Error::NotActive);
                }
            },
            None => {
                return Err(Error::NotFound);
            },
        }
        Ok(self.file_request(&validator_id, ActivationRequestType::Deactivation, now))
    }

    /// Ask to deactivate a validator now (by the system clock).
    pub fn request_deactivation(&mut self, validator_id: ValidatorID) -> (r: Result<
        ActivationRequest,
        Error,
    >)
        requires
            old(self).wf(),
        ensures
            final(self).wf(),
            final(self).record_map() == old(self).record_map(),
            r is Err ==> final(self).pending() == old(self).pending(),
            !old(self).record_map().dom().contains(validator_id@) ==> r is Err && r->Err_0
                == Error::NotFound,
            old(self).record_map().dom().contains(validator_id@) && old(self).record_map()[validator_id@].status
                != ValidatorStatus::Active ==> r is Err && r->Err_0 == Error::NotActive,
            old(self).record_map().dom().contains(validator_id@) && old(self).record_map()[validator_id@].status
                == ValidatorStatus::Active ==> r is Ok && r->Ok_0@.request_type
                == ActivationRequestType::Deactivation && r->Ok_0@.status
                == ActivationRequestStatus::Pending && final(self).pending() == old(self).pending().insert(
                validator_id@,
                r->Ok_0@,
            ),
    {
        let now = unix_time_secs();
        self.request_deactivation_at(validator_id, now)
    }

    /// Record a vote of `voting_power` on a validator's pending request.
    pub fn vote_on_request(&mut self, validator_id: &ValidatorID, vote_in_favor: bool, voting_power: u64) -> (r:
        Result<(), Error>)
        requires
            old(self).wf(),
            old(self).pending().dom().contains(validator_id@) ==> old(self).pending()[validator_id@].total_votes
                + voting_power <= u64::MAX && (vote_in_favor ==> old(self).pending()[validator_id@].votes_in_favor
                + voting_power <= u64::MAX),
        ensures
            final(self).wf(),
            final(self).cfg() == old(self).cfg(),
            final(self).records() == old(self).records(),
            final(self).record_map() == old(self).record_map(),
            final(self).events() == old(self).events(),
            final(self).cycle() == old(self).cycle(),
            !old(self).pending().dom().contains(validator_id@) ==> r == Err::<(), Error>(
                Error::NoPendingRequest,
            ) && final(self).pending() == old(self).pending(),
            old(self).pending().dom().contains(validator_id@) ==> r is Ok && final(self).pending()
                == old(self).pending().insert(validator_id@, voted(old(self).pending()[validator_id@], vote_in_favor, voting_power)),
            old(self).pending().dom().contains(validator_id@) ==> {
                let before = old(self).pending()[validator_id@];
                let after = final(self).pending()[validator_id@];
                &&& after.total_votes == before.total_votes + voting_power
                &&& vote_in_favor ==> after.votes_in_favor == before.votes_in_favor + voting_power
                &&& !vote_in_favor ==> after.votes_in_favor == before.votes_in_favor
            },
    {
        proof {
            if old(self).pending().dom().contains(validator_id@) {
                lemma_vote_tally(old(self).pending()[validator_id@], vote_in_favor, voting_power);
            }
        }
        let i = match self.pending_requests.find(validator_id) {
            Some(i) => i,
            None => {
                return Err(Error::NoPendingRequest);
            },
        };
        let ghost mid = self.pending_requests.pairs();
        proof {
            self.pending_requests.lemma_at(i as int);
        }
        {
            let request = self.pending_requests.value_mut(i);
            request.total_votes = request.total_votes + voting_power;
            if vote_in_favor {
                request.votes_in_favor = request.votes_in_favor + voting_power;
            }
        }
        proof {
            let v = self.pending_requests.pairs()[i as int].1;
            assert(self.pending_requests.pairs() =~= mid.update(i as int, (mid[i as int].0, v)));
            crate::table::lemma_seq_to_map_update(mid, i as int, v);
            assert forall|j: int| 0 <= j < self.pending_requests.pairs().len() implies (
            #[trigger] self.pending_requests.pairs()[j]).1.validator_id@
                == self.pending_requests.pairs()[j].0 by {
                assert(mid[j].1.validator_id@ == mid[j].0);
            }
            assert(self.pending() =~= old(self).pending().insert(validator_id@, v@));
        }
        Ok(())
    }

    /// Sets the status of the request at position `i`.
    fn set_request_status(&mut self, i: usize, status: ActivationRequestStatus)
        requires
            old(self).wf(),
            i < old(self).requests().len(),
        ensures
            final(self).wf(),
            final(self).pending() == old(self).pending().insert(
                old(self).requests()[i as int].validator_id,
                ActivationRequestView { status, ..old(self).requests()[i as int] },
            ),
            final(self).cfg() == old(self).cfg(),
            final(self).records() == old(self).records(),
            final(self).record_map() == old(self).record_map(),
            final(self).events() == old(self).events(),
            final(self).cycle() == old(self).cycle(),
    {
        let ghost mid = self.pending_requests.pairs();
        proof {
            assert(mid[i as int].1.validator_id@ == mid[i as int].0);
        }
        {
            let request = self.pending_requests.value_mut(i);
            request.status = status;
        }
        proof {
            let v = self.pending_requests.pairs()[i as int].1;
            assert(self.pending_requests.pairs() =~= mid.update(i as int, (mid[i as int].0, v)));
            crate::table::lemma_seq_to_map_update(mid, i as int, v);
            assert forall|j: int| 0 <= j < self.pending_requests.pairs().len() implies (
            #[trigger] self.pending_requests.pairs()[j]).1.validator_id@
                == self.pending_requests.pairs()[j].0 by {
                assert(mid[j].1.validator_id@ == mid[j].0);
            }
            assert(self.pending() =~= old(self).pending().insert(mid[i as int].0, v@));
        }
    }

    /// Applies `step` (activation or deactivation) to the record at
    /// position `i`.
    fn step_record(&mut self, i: usize, activation: bool, now: u64) -> (r: Result<(), Error>)
        requires
            old(self).wf(),
            i < old(self).records().len(),
            counts_ok(old(self).records()[i as int]),
        ensures
            final(self).wf(),
            ({
                let rec = old(self).records()[i as int];
                let out = if activation {
                    activation_step(rec, now)
                } else {
                    deactivation_step(rec, old(self).cfg().deactivation_cooldown_secs, now)
                };
                &&& r == out.1
                &&& final(self).record_map() == old(self).record_map().insert(rec.validator_id, out.0)
                &&& final(self).records() == old(self).records().update(i as int, out.0)
            }),
            final(self).cfg() == old(self).cfg(),
            final(self).pending() == old(self).pending(),
            final(self).requests() == old(self).requests(),
            final(self).events() == old(self).events(),
            final(self).cycle() == old(self).cycle(),
    {
        let ghost mid = self.records.pairs();
        let cooldown = self.config.deactivation_cooldown_secs;
        proof {
            assert(mid[i as int].1.validator_id@ == mid[i as int].0);
        }
        let r = {
            let record = self.records.value_mut(i);
            if activation {
                record.activate_at(now)
            } else {
                record.deactivate_at(cooldown, now)
            }
        };
        proof {
            let v = self.records.pairs()[i as int].1;
            assert(self.records.pairs() =~= mid.update(i as int, (mid[i as int].0, v)));
            crate::table::lemma_seq_to_map_update(mid, i as int, v);
            assert forall|j: int| 0 <= j < self.records.pairs().len() implies (
            #[trigger] self.records.pairs()[j]).1.validator_id@ == self.records.pairs()[j].0 by {
                assert(mid[j].1.validator_id@ == mid[j].0);
            }
            assert(self.record_map() =~= old(self).record_map().insert(mid[i as int].0, v@));
            assert(self.records() =~= old(self).records().update(i as int, v@));
        }
        r
    }

    /// Decide a validator's pending request at `now` against
    /// `total_stake`; see `finalize_request_outcome`.
    pub fn finalize_request_at(&mut self, validator_id: &ValidatorID, total_stake: u64, now: u64) -> (r:
        Result<ActivationRequestStatus, Error>)
        requires
            old(self).wf(),
            old(self).record_map().dom().contains(validator_id@) ==> counts_ok(
                old(self).record_map()[validator_id@],
            ),
        ensures
            final(self).wf(),
            finalize_request_outcome(*old(self), *final(self), validator_id@, total_stake, now, r),
    {
        let i = match self.pending_requests.find(validator_id) {
            Some(i) => i,
            None => {
                return Err(Error::NoPendingRequest);
            },
        };
        proof {
            self.pending_requests.lemma_at(i as int);
            self.lemma_records_map();
            assert(self.requests()[i as int] == self.pending()[validator_id@]);
        }
        let request_type = self.pending_requests.value_at(i).request_type;
        let votes = self.pending_requests.value_at(i).votes_in_favor;
        let required = match request_type {
            ActivationRequestType::Activation => compute_required_votes(
                total_stake,
                self.config.activation_votes_required_bps,
            ),
            ActivationRequestType::Deactivation => compute_required_votes(
                total_stake,
                self.config.deactivation_votes_required_bps,
            ),
        };
        let status = if votes >= required {
            ActivationRequestStatus::Approved
        } else {
            ActivationRequestStatus::Rejected
        };
        self.set_request_status(i, status);
        let ghost marked = *self;
        if status == ActivationRequestStatus::Approved {
            match request_type {
                ActivationRequestType::Activation => {
                    let j = match self.records.find(validator_id) {
                        Some(j) => j,
                        None => {
                            let rec = ValidatorActivationRecord::new(validator_id.copy());
                            let ghost before = self.records.pairs();
                            self.records.push(validator_id.copy(), rec);
                            proof {
                                let newp = self.records.pairs();
                                assert forall|q: int| 0 <= q < newp.len() implies (
                                #[trigger] newp[q]).1.validator_id@ == newp[q].0 by {
                                    if q < before.len() {
                                        assert(newp[q] == before[q]);
                                    }
                                }
                                assert(self.record_map() =~= marked.record_map().insert(
                                    validator_id@,
                                    fresh_activation_record(validator_id@),
                                ));
                            }
                            self.records.len() - 1
                        },
                    };
                    proof {
                        self.lemma_records_map();
                        assert(self.records()[j as int].validator_id == validator_id@) by {
                            assert(self.records.pairs()[j as int].1.validator_id@ == self.records.pairs()[j as int].0);
                        }
                        assert(self.records()[j as int] == self.record_map()[validator_id@]);
                    }
                    let ghost mid_map = self.record_map();
                    let res = self.step_record(j, true, now);
                    if res.is_err() {
                        proof {
                            assert(self.record_map() =~= old(self).record_map().insert(
                                validator_id@,
                                mid_map[validator_id@],
                            ));
                        }
                        return Err(res.unwrap_err());
                    }
                    proof {
                        assert(self.record_map() =~= old(self).record_map().insert(
                            validator_id@,
                            activation_step(mid_map[validator_id@], now).0,
                        ));
                    }
                    let ghost e0 = self.events@;
                    let event = ActivationEvent {
                        validator_id: validator_id.copy(),
                        event_type: ActivationEventType::Activated,
                        timestamp: now,
                        cycle: self.current_cycle,
                    };
                    let ghost evv = event@;
                    self.events.push(event);
                    assert(activation_event_views(self.events@) =~= activation_event_views(e0).push(evv));
                },
                ActivationRequestType::Deactivation => {
                    match self.records.find(validator_id) {
                        Some(j) => {
                            proof {
                                self.lemma_records_map();
                                self.records.lemma_at(j as int);
                                assert(self.records()[j as int] == self.record_map()[validator_id@]);
                            }
                            let res = self.step_record(j, false, now);
                            if res.is_err() {
                                return Err(res.unwrap_err());
                            }
                            let ghost e0 = self.events@;
                            let event = ActivationEvent {
                                validator_id: validator_id.copy(),
                                event_type: ActivationEventType::Deactivated,
                                timestamp: now,
                                cycle: self.current_cycle,
                            };
                            let ghost evv = event@;
                            self.events.push(event);
                            assert(activation_event_views(self.events@) =~= activation_event_views(e0).push(evv));
                        },
                        None => {},
                    }
                },
            }
        }
        let k = match self.pending_requests.find(validator_id) {
            Some(k) => k,
            None => {
                proof {
                    assert(self.pending().dom().contains(validator_id@));
                }
                return Ok(status);
            },
        };
        let ghost before = self.pending_requests.pairs();
        let ghost p1 = self.pending();
        let _ = self.pending_requests.remove_at(k);
        proof {
            let newp = self.pending_requests.pairs();
            assert forall|q: int| 0 <= q < newp.len() implies (#[trigger] newp[q]).1.validator_id@
                == newp[q].0 by {
                if q < k {
                    assert(newp[q] == before[q]);
                } else {
                    assert(newp[q] == before[q + 1]);
                }
                assert(before[q].1.validator_id@ == before[q].0);
                assert(before[q + 1].1.validator_id@ == before[q + 1].0);
            }
            assert(self.pending() =~= p1.remove(validator_id@));
            assert(p1.remove(validator_id@) =~= old(self).pending().remove(validator_id@));
        }
        Ok(status)
    }

    /// Decide a validator's pending request now (by the system clock).
    pub fn finalize_request(&mut self, validator_id: &ValidatorID, total_stake: u64) -> (r: Result<
        ActivationRequestStatus,
        Error,
    >)
        requires
            old(self).wf(),
            old(self).record_map().dom().contains(validator_id@) ==> counts_ok(
                old(self).record_map()[validator_id@],
            ),
        ensures
            final(self).wf(),
            exists|now: u64|
                #[trigger] finalize_request_outcome(
                    *old(self),
                    *final(self),
                    validator_id@,
                    total_stake,
                    now,
                    r,
                ),
    {
        let now = unix_time_secs();
        self.finalize_request_at(validator_id, total_stake, now)
    }

    /// A validator's status (pending when it has no record).
    pub fn get_status(&self, validator_id: &ValidatorID) -> (r: ValidatorStatus)
        requires
            self.wf(),
        ensures
            r == (if self.record_map().dom().contains(validator_id@) {
                self.record_map()[validator_id@].status
            } else {
                ValidatorStatus::Pending
            }),
    {
        match self.records.get(validator_id) {
            Some(r) => r.status,
            None => ValidatorStatus::Pending,
        }
    }

    /// A validator's record.
    pub fn get_record(&self, validator_id: &ValidatorID) -> (r: Option<&ValidatorActivationRecord>)
        requires
            self.wf(),
        ensures
            r is None <==> !self.record_map().dom().contains(validator_id@),
            r matches Some(rec) ==> rec@ == self.record_map()[validator_id@],
    {
        self.records.get(validator_id)
    }

    /// Mutable access to a validator's record. The manager stays well formed
    /// as long as the record keeps its validator.
    pub fn get_record_mut(&mut self, validator_id: &ValidatorID) -> (r: Option<
        &mut ValidatorActivationRecord,
    >)
        requires
            old(self).wf(),
        ensures
            final(self).cfg() == old(self).cfg(),
            final(self).pending() == old(self).pending(),
            final(self).events() == old(self).events(),
            final(self).cycle() == old(self).cycle(),
            r is None <==> !old(self).record_map().dom().contains(validator_id@),
            r is None ==> final(self).record_map() == old(self).record_map() && final(self).wf(),
            r is Some ==> (*r->Some_0)@ == old(self).record_map()[validator_id@],
            r is Some ==> final(self).record_map() == old(self).record_map().insert(
                validator_id@,
                (*final(r->Some_0))@,
            ),
            r is Some && (*final(r->Some_0)).validator_id@ == validator_id@ ==> final(self).wf(),
    {
        self.records.get_mut(validator_id)
    }

    /// A validator's pending request.
    pub fn get_pending_request(&self, validator_id: &ValidatorID) -> (r: Option<&ActivationRequest>)
        requires
            self.wf(),
        ensures
            r is None <==> !self.pending().dom().contains(validator_id@),
            r matches Some(q) ==> q@ == self.pending()[validator_id@],
    {
        self.pending_requests.get(validator_id)
    }

    /// The active validators, in order.
    pub fn get_active_validators(&self) -> (r: Vec<ValidatorID>)
        requires
            self.wf(),
        ensures
            id_views(r@) == active_ids(self.records()),
    {
        let mut out: Vec<ValidatorID> = Vec::new();
        let mut i: usize = 0;
        let n = self.records.len();
        while i < n
            invariant
                self.wf(),
                n == self.records().len(),
                i <= n,
                id_views(out@) == active_ids(self.records().take(i as int)),
            decreases n - i,
        {
            proof {
                assert(self.records().take(i + 1).drop_last() =~= self.records().take(i as int));
                assert(self.records()[i as int] == self.records.pairs()[i as int].1@);
            }
            let rec = self.records.value_at(i);
            if rec.status == ValidatorStatus::Active {
                let ghost o0 = out@;
                out.push(rec.validator_id.copy());
                assert(id_views(out@) =~= id_views(o0).push(self.records()[i as int].validator_id));
            }
            i = i + 1;
        }
        assert(self.records().take(n as int) =~= self.records());
        out
    }

    /// Every pending request, in order.
    pub fn get_pending_requests(&self) -> (r: Vec<ActivationRequest>)
        requires
            self.wf(),
        ensures
            request_views(r@) == self.requests(),
    {
        let mut out: Vec<ActivationRequest> = Vec::new();
        let mut i: usize = 0;
        let n = self.pending_requests.len();
        while i < n
            invariant
                n == self.requests().len(),
                i <= n,
                request_views(out@) == self.requests().take(i as int),
            decreases n - i,
        {
            let ghost o0 = out@;
            out.push(self.pending_requests.value_at(i).clone());
            proof {
                assert(request_views(out@) =~= request_views(o0).push(self.requests()[i as int]));
                assert(self.requests().take(i + 1) =~= self.requests().take(i as int).push(self.requests()[i as int]));
            }
            i = i + 1;
        }
        assert(self.requests().take(n as int) =~= self.requests());
        out
    }

    /// Every event, oldest first.
    pub fn get_events(&self) -> (r: &[ActivationEvent])
        ensures
            activation_event_views(r@) == self.events(),
    {
        self.events.as_slice()
    }

    /// The events of one validator, oldest first.
    pub fn get_validator_events(&self, validator_id: &ValidatorID) -> (r: Vec<ActivationEvent>)
        ensures
            activation_event_views(r@) == activation_events_of(self.events(), validator_id@),
    {
        let mut out: Vec<ActivationEvent> = Vec::new();
        let mut i: usize = 0;
        while i < self.events.len()
            invariant
                i <= self.events().len(),
                self.events().len() == self.events@.len(),
                activation_event_views(out@) == activation_events_of(
                    self.events().take(i as int),
                    validator_id@,
                ),
            decreases self.events@.len() - i,
        {
            proof {
                assert(self.events().take(i + 1).drop_last() =~= self.events().take(i as int));
            }
            let e = &self.events[i];
            if e.validator_id.same_as(validator_id) {
                let ghost o0 = out@;
                out.push(e.clone());
                assert(activation_event_views(out@) =~= activation_event_views(o0).push(self.events()[i as int]));
            }
            i = i + 1;
        }
        assert(self.events().take(i as int) =~= self.events());
        out
    }

    /// Advance to the next cycle.
    pub fn advance_cycle(&mut self)
        requires
            old(self).cycle() < u64::MAX,
        ensures
            final(self).cycle() == old(self).cycle() + 1,
            final(self).cfg() == old(self).cfg(),
            final(self).records() == old(self).records(),
            final(self).record_map() == old(self).record_map(),
            final(self).requests() == old(self).requests(),
            final(self).pending() == old(self).pending(),
            final(self).events() == old(self).events(),
            old(self).wf() ==> final(self).wf(),
    {
        self.current_cycle = self.current_cycle + 1;
    }

    /// The current cycle.
    pub fn current_cycle(&self) -> (r: u64)
        ensures
            r == self.cycle(),
    {
        self.current_cycle
    }

    /// The configuration.
    pub fn config(&self) -> (r: &ActivationConfig)
        ensures
            *r == self.cfg(),
    {
        &self.config
    }

    /// Replace the configuration.
    pub fn set_config(&mut self, config: ActivationConfig)
        ensures
            final(self).cfg() == config,
            final(self).records() == old(self).records(),
            final(self).record_map() == old(self).record_map(),
            final(self).requests() == old(self).requests(),
            final(self).pending() == old(self).pending(),
            final(self).events() == old(self).events(),
            final(self).cycle() == old(self).cycle(),
            old(self).wf() ==> final(self).wf(),
    {
        self.config = config;
    }

    /// The number of active validators.
    pub fn active_count(&self) -> (r: usize)
        requires
            self.wf(),
        ensures
            r == active_ids(self.records()).len(),
    {
        self.get_active_validators().len()
    }

    /// The number of pending requests.
    pub fn pending_request_count(&self) -> (r: usize)
        requires
            self.wf(),
        ensures
            r == self.pending().dom().len(),
    {
        proof {
            self.lemma_records_map();
        }
        self.pending_requests.len()
    }

    /// The number of events recorded.
    pub fn event_count(&self) -> (r: usize)
        ensures
            r == self.events().len(),
    {
        self.events.len()
    }
}

/// A vote adds its power to the votes cast, and to the votes in favor only
/// when it is for the request: a vote against leaves the approval tally as
/// it was, so it never brings a request closer to approval, while a vote
/// for never lowers it. Nothing else in the request changes.
pub proof fn lemma_vote_tally(q: ActivationRequestView, in_favor: bool, power: u64)
    requires
        q.total_votes + power <= u64::MAX,
        in_favor ==> q.votes_in_favor + power <= u64::MAX,
    ensures
        voted(q, in_favor, power).total_votes == q.total_votes + power,
        in_favor ==> voted(q, in_favor, power).votes_in_favor == q.votes_in_favor + power,
        !in_favor ==> voted(q, in_favor, power).votes_in_favor == q.votes_in_favor,
        in_favor ==> voted(q, in_favor, power).votes_in_favor >= q.votes_in_favor,
        voted(q, in_favor, power).validator_id == q.validator_id,
        voted(q, in_favor, power).request_type == q.request_type,
        voted(q, in_favor, power).requested_at == q.requested_at,
        voted(q, in_favor, power).status == q.status,
{
}

/// A request after a vote of `power`.
pub open spec fn voted(q: ActivationRequestView, in_favor: bool, power: u64) -> ActivationRequestView {
    ActivationRequestView {
        total_votes: (q.total_votes + power) as u64,
        votes_in_favor: if in_favor {
            (q.votes_in_favor + power) as u64
        } else {
            q.votes_in_favor
        },
        ..q
    }
}

/// The votes that approve a request of type `t`.
pub open spec fn request_threshold(cfg: ActivationConfig, t: ActivationRequestType, total_stake: u64) -> u64 {
    match t {
        ActivationRequestType::Activation => required_votes(total_stake, cfg.activation_votes_required_bps),
        ActivationRequestType::Deactivation => required_votes(
            total_stake,
            cfg.deactivation_votes_required_bps,
        ),
    }
}

/// What deciding a validator's pending request at `now` does. Without a
/// pending request it is refused. Otherwise the request is approved exactly
/// when its votes in favor reach the threshold of its type. A rejected
/// request is removed. An approved activation gives the validator a record
/// if it has none and activates it; an approved deactivation deactivates an
/// existing record with the configured cooldown (and does nothing to a
/// validator without a record). When that step is refused, the refusal is
/// returned and the request stays pending, marked approved, while a record
/// made for the step stays too; otherwise the request is removed and an
/// event recorded.
pub open spec fn finalize_request_outcome(
    pre: ValidatorActivationManager,
    post: ValidatorActivationManager,
    id: Seq<u8>,
    total_stake: u64,
    now: u64,
    r: Result<ActivationRequestStatus, Error>,
) -> bool {
    if !pre.pending().dom().contains(id) {
        &&& r == Err::<ActivationRequestStatus, Error>(Error::NoPendingRequest)
        &&& post.cfg() == pre.cfg()
        &&& post.record_map() == pre.record_map()
        &&& post.pending() == pre.pending()
        &&& post.events() == pre.events()
        &&& post.cycle() == pre.cycle()
    } else {
        let req = pre.pending()[id];
        let approved = req.votes_in_favor >= request_threshold(pre.cfg(), req.request_type, total_stake);
        let has = pre.record_map().dom().contains(id);
        let rec = if has {
            pre.record_map()[id]
        } else {
            fresh_activation_record(id)
        };
        let step = if req.request_type == ActivationRequestType::Activation {
            activation_step(rec, now)
        } else {
            deactivation_step(rec, pre.cfg().deactivation_cooldown_secs, now)
        };
        let acts = approved && (req.request_type == ActivationRequestType::Activation || has);
        &&& post.cfg() == pre.cfg()
        &&& post.cycle() == pre.cycle()
        &&& if !approved {
            &&& r == Ok::<ActivationRequestStatus, Error>(ActivationRequestStatus::Rejected)
            &&& post.record_map() == pre.record_map()
            &&& post.pending() == pre.pending().remove(id)
            &&& post.events() == pre.events()
        } else if !acts {
            &&& r == Ok::<ActivationRequestStatus, Error>(ActivationRequestStatus::Approved)
            &&& post.record_map() == pre.record_map()
            &&& post.pending() == pre.pending().remove(id)
            &&& post.events() == pre.events()
        } else if step.1 is Err {
            &&& r == Err::<ActivationRequestStatus, Error>(step.1->Err_0)
            &&& post.record_map() == pre.record_map().insert(id, rec)
            &&& post.pending() == pre.pending().insert(
                id,
                ActivationRequestView { status: ActivationRequestStatus::Approved, ..req },
            )
            &&& post.events() == pre.events()
        } else {
            &&& r == Ok::<ActivationRequestStatus, Error>(ActivationRequestStatus::Approved)
            &&& post.record_map() == pre.record_map().insert(id, step.0)
            &&& post.pending() == pre.pending().remove(id)
            &&& post.events() == pre.events().push(
                ActivationEventView {
                    validator_id: id,
                    event_type: if req.request_type == ActivationRequestType::Activation {
                        ActivationEventType::Activated
                    } else {
                        ActivationEventType::Deactivated
                    },
                    timestamp: now,
                    cycle: pre.cycle(),
                },
            )
        }
    }
}

/// An approved activation makes the validator active, unless it is active
/// already or its reactivation time has not come; an approved deactivation
/// of an active validator bars its return until the cooldown has passed.
pub proof fn lemma_activation_lifecycle(r: ActivationRecordView, cooldown: u64, now: u64, later: u64)
    requires
        counts_ok(r),
    ensures
        r.status != ValidatorStatus::Active && !(r.can_reactivate_at is Some && now
            < r.can_reactivate_at->Some_0) ==> activation_step(r, now).1 is Ok && activation_step(
            r,
            now,
        ).0.status == ValidatorStatus::Active,
        r.status == ValidatorStatus::Active ==> {
            let d = deactivation_step(r, cooldown, now).0;
            &&& d.status == ValidatorStatus::Deactivated
            &&& (later < sat_add(now, cooldown) ==> activation_step(d, later).1 == Err::<(), Error>(
                Error::CooldownActive { until: sat_add(now, cooldown) },
            ))
            &&& (later >= sat_add(now, cooldown) ==> activation_step(d, later).1 is Ok)
        },
{
}

} // verus!
