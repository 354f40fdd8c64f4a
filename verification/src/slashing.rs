//! Slashing and jailing of validators:
//! - double-signing slashes, refused twice for the same evidence
//! - downtime slashes past a threshold of missed snapshots
//! - manual jailing by governance
//! - jail expiry and manual lifting
//! - an audit trail of every slash
use vstd::prelude::*;
use crate::clock::{remaining_until, sat_add, unix_time_secs};
use crate::table::IdTable;
use crate::types::{Error, ValidatorID, bytes_equal, id_views};

verus! {

/// Slashing configuration.
#[derive(Debug, Clone, Copy, PartialEq, Eq, Structural)]
pub struct SlashingConfig {
    /// Percentage of stake slashed for double signing (0-100)
    pub slash_double_signing: u64,
    /// Percentage of stake slashed for downtime (0-100)
    pub slash_downtime: u64,
    /// Jail duration in seconds
    pub jail_duration_secs: u64,
    /// Missed snapshots before a downtime slash
    pub downtime_threshold: u64,
    /// Recovery period in snapshots
    pub recovery_period: u64,
}

impl Default for SlashingConfig {
    fn default() -> (r: Self)
        ensures
            r == (SlashingConfig {
                slash_double_signing: 10,
                slash_downtime: 1,
                jail_duration_secs: 86400,
                downtime_threshold: 50,
                recovery_period: 100,
            }),
    {
        SlashingConfig {
            slash_double_signing: 10,
            slash_downtime: 1,
            jail_duration_secs: 86400,
            downtime_threshold: 50,
            recovery_period: 100,
        }
    }
}

/// Why a validator was jailed.
#[derive(Debug, Clone, Copy, PartialEq, Eq, Structural)]
pub enum JailReason {
    /// Double signing detected
    DoubleSigning,
    /// Excessive downtime
    ExcessiveDowntime,
    /// Manual jailing by governance
    Manual,
}

/// The name of a jail reason.
pub open spec fn jail_reason_text(r: JailReason) -> Seq<char> {
    match r {
        JailReason::DoubleSigning => "DoubleSigning"@,
        JailReason::ExcessiveDowntime => "ExcessiveDowntime"@,
        JailReason::Manual => "Manual"@,
    }
}

impl JailReason {
    /// The reason's name.
    pub fn to_string(&self) -> (r: String)
        ensures
            r@ == jail_reason_text(*self),
    {
        match self {
            JailReason::DoubleSigning => "DoubleSigning".to_owned(),
            JailReason::ExcessiveDowntime => "ExcessiveDowntime".to_owned(),
            JailReason::Manual => "Manual".to_owned(),
        }
    }
}

/// The abstract content of a jail record.
pub struct JailRecordView {
    pub validator_id: Seq<u8>,
    pub jailed_at: u64,
    pub jail_expires_at: u64,
    pub reason: JailReason,
    pub slash_amount: u64,
    pub snapshots_missed: Option<u64>,
    pub manually_lifted: bool,
}

/// Jail record.
pub struct JailRecord {
    /// Validator ID
    pub validator_id: ValidatorID,
    /// When jailed (seconds since the epoch)
    pub jailed_at: u64,
    /// When the jail expires
    pub jail_expires_at: u64,
    /// Reason for jailing
    pub reason: JailReason,
    /// Amount slashed
    pub slash_amount: u64,
    /// Snapshots missed (for downtime)
    pub snapshots_missed: Option<u64>,
    /// Whether the jail was manually lifted
    pub manually_lifted: bool,
}

impl View for JailRecord {
    type V = JailRecordView;

    open spec fn view(&self) -> JailRecordView {
        JailRecordView {
            validator_id: self.validator_id@,
            jailed_at: self.jailed_at,
            jail_expires_at: self.jail_expires_at,
            reason: self.reason,
            slash_amount: self.slash_amount,
            snapshots_missed: self.snapshots_missed,
            manually_lifted: self.manually_lifted,
        }
    }
}

impl Clone for JailRecord {
    fn clone(&self) -> (r: Self)
        ensures
            r@ == self@,
    {
        JailRecord {
            validator_id: self.validator_id.copy(),
            jailed_at: self.jailed_at,
            jail_expires_at: self.jail_expires_at,
            reason: self.reason,
            slash_amount: self.slash_amount,
            snapshots_missed: self.snapshots_missed,
            manually_lifted: self.manually_lifted,
        }
    }
}

/// The record of a validator jailed at `now` for `duration` seconds (the
/// expiry saturates at `u64::MAX`).
pub open spec fn new_jail_record(
    id: Seq<u8>,
    reason: JailReason,
    slash_amount: u64,
    duration: u64,
    now: u64,
) -> JailRecordView {
    JailRecordView {
        validator_id: id,
        jailed_at: now,
        jail_expires_at: sat_add(now, duration),
        reason,
        slash_amount,
        snapshots_missed: None,
        manually_lifted: false,
    }
}

/// A jail is in force at `now`: not lifted and not yet expired.
pub open spec fn jail_active(r: JailRecordView, now: u64) -> bool {
    !r.manually_lifted && now < r.jail_expires_at
}

/// Seconds of jail left at `now`.
pub open spec fn jail_time_left(r: JailRecordView, now: u64) -> u64 {
    if r.manually_lifted {
        0
    } else {
        remaining_until(r.jail_expires_at, now)
    }
}

impl JailRecord {
    /// A jail record made at `now`.
    pub fn new_at(
        validator_id: ValidatorID,
        reason: JailReason,
        slash_amount: u64,
        jail_duration_secs: u64,
        now: u64,
    ) -> (r: Self)
        ensures
            r@ == new_jail_record(validator_id@, reason, slash_amount, jail_duration_secs, now),
    {
        JailRecord {
            validator_id,
            jailed_at: now,
            jail_expires_at: now.saturating_add(jail_duration_secs),
            reason,
            slash_amount,
            snapshots_missed: None,
            manually_lifted: false,
        }
    }

    /// A jail record made now (by the system clock).
    pub fn new(
        validator_id: ValidatorID,
        reason: JailReason,
        slash_amount: u64,
        jail_duration_secs: u64,
    ) -> (r: Self)
        ensures
            exists|now: u64|
                r@ == #[trigger] new_jail_record(
                    validator_id@,
                    reason,
                    slash_amount,
                    jail_duration_secs,
                    now,
                ),
    {
        let now = unix_time_secs();
        Self::new_at(validator_id, reason, slash_amount, jail_duration_secs, now)
    }

    /// Whether the jail is in force at `now`.
    pub fn is_jailed_at(&self, now: u64) -> (r: bool)
        ensures
            r == jail_active(self@, now),
    {
        if self.manually_lifted {
            return false;
        }
        now < self.jail_expires_at
    }

    /// Whether the jail is in force now (by the system clock).
    pub fn is_jailed(&self) -> (r: bool)
        ensures
            exists|now: u64| r == #[trigger] jail_active(self@, now),
    {
        self.is_jailed_at(unix_time_secs())
    }

    /// Seconds of jail left at `now`.
    pub fn remaining_jail_time_at(&self, now: u64) -> (r: u64)
        ensures
            r == jail_time_left(self@, now),
    {
        if self.manually_lifted {
            return 0;
        }
        if now >= self.jail_expires_at {
            0
        } else {
            self.jail_expires_at - now
        }
    }

    /// Seconds of jail left now (by the system clock).
    pub fn remaining_jail_time(&self) -> (r: u64)
        ensures
            exists|now: u64| r == #[trigger] jail_time_left(self@, now),
    {
        self.remaining_jail_time_at(unix_time_secs())
    }

    /// Lift the jail by hand.
    pub fn lift_jail(&mut self)
        ensures
            final(self)@ == (JailRecordView { manually_lifted: true, ..old(self)@ }),
    {
        self.manually_lifted = true;
    }
}

/// The abstract content of a slash event.
pub struct SlashEventView {
    pub validator_id: Seq<u8>,
    pub reason: JailReason,
    pub slash_amount: u64,
    pub timestamp: u64,
    pub cycle: Option<u64>,
}

/// Slash event.
pub struct SlashEvent {
    /// Validator ID
    pub validator_id: ValidatorID,
    /// Slash reason
    pub reason: JailReason,
    /// Amount slashed
    pub slash_amount: u64,
    /// Timestamp (seconds since the epoch)
    pub timestamp: u64,
    /// Cycle (if applicable)
    pub cycle: Option<u64>,
}

impl View for SlashEvent {
    type V = SlashEventView;

    open spec fn view(&self) -> SlashEventView {
        SlashEventView {
            validator_id: self.validator_id@,
            reason: self.reason,
            slash_amount: self.slash_amount,
            timestamp: self.timestamp,
            cycle: self.cycle,
        }
    }
}

impl Clone for SlashEvent {
    fn clone(&self) -> (r: Self)
        ensures
            r@ == self@,
    {
        SlashEvent {
            validator_id: self.validator_id.copy(),
            reason: self.reason,
            slash_amount: self.slash_amount,
            timestamp: self.timestamp,
            cycle: self.cycle,
        }
    }
}

/// The views of a sequence of slash events.
pub open spec fn slash_event_views(s: Seq<SlashEvent>) -> Seq<SlashEventView> {
    s.map_values(|e: SlashEvent| e@)
}

/// The events of one validator, in order.
pub open spec fn events_of(h: Seq<SlashEventView>, id: Seq<u8>) -> Seq<SlashEventView>
    decreases h.len(),
{
    if h.len() == 0 {
        Seq::empty()
    } else if h.last().validator_id == id {
        events_of(h.drop_last(), id).push(h.last())
    } else {
        events_of(h.drop_last(), id)
    }
}

/// The total slashed from one validator.
pub open spec fn slashed_total(h: Seq<SlashEventView>, id: Seq<u8>) -> int
    decreases h.len(),
{
    if h.len() == 0 {
        0
    } else if h.last().validator_id == id {
        slashed_total(h.drop_last(), id) + h.last().slash_amount
    } else {
        slashed_total(h.drop_last(), id)
    }
}

/// The identifiers of the records whose jail is in force at `now`, in order.
pub open spec fn jailed_ids(s: Seq<JailRecordView>, now: u64) -> Seq<Seq<u8>>
    decreases s.len(),
{
    if s.len() == 0 {
        Seq::empty()
    } else if jail_active(s.last(), now) {
        jailed_ids(s.drop_last(), now).push(s.last().validator_id)
    } else {
        jailed_ids(s.drop_last(), now)
    }
}

/// The identifiers of the records whose jail is over at `now`, in order.
pub open spec fn released_ids(s: Seq<JailRecordView>, now: u64) -> Seq<Seq<u8>>
    decreases s.len(),
{
    if s.len() == 0 {
        Seq::empty()
    } else if !jail_active(s.last(), now) {
        released_ids(s.drop_last(), now).push(s.last().validator_id)
    } else {
        released_ids(s.drop_last(), now)
    }
}

/// The records whose jail is in force at `now`, in order.
pub open spec fn records_in_force(s: Seq<JailRecordView>, now: u64) -> Seq<JailRecordView>
    decreases s.len(),
{
    if s.len() == 0 {
        Seq::empty()
    } else if jail_active(s.last(), now) {
        records_in_force(s.drop_last(), now).push(s.last())
    } else {
        records_in_force(s.drop_last(), now)
    }
}

/// `b` is `a` with `rec` filed under its validator: in place of the
/// validator's record, or appended when it had none.
pub open spec fn filed(a: Seq<JailRecordView>, b: Seq<JailRecordView>, rec: JailRecordView) -> bool {
    ||| exists|i: int|
        0 <= i < a.len() && (#[trigger] a[i]).validator_id == rec.validator_id && b == a.update(i, rec)
    ||| (forall|i: int| 0 <= i < a.len() ==> (#[trigger] a[i]).validator_id != rec.validator_id) && b
        == a.push(rec)
}

/// Slashing manager.
pub struct SlashingManager {
    config: SlashingConfig,
    jailed_validators: IdTable<JailRecord>,
    slash_history: Vec<SlashEvent>,
    double_signing_evidence: IdTable<Vec<u8>>,
}

/// Whether the validator is jailed at `now` according to `jails`.
pub open spec fn is_jailed_in(jails: Map<Seq<u8>, JailRecordView>, id: Seq<u8>, now: u64) -> bool {
    jails.dom().contains(id) && jail_active(jails[id], now)
}

/// The share `pct` percent of `stake`, rounded down.
pub open spec fn slash_share(stake: u64, pct: u64) -> int {
    (stake * pct) / 100
}

impl SlashingManager {
    /// The configuration.
    pub closed spec fn cfg(&self) -> SlashingConfig {
        self.config
    }

    /// Jail records by validator (a validator's record stays after its
    /// jail ends, until expired jails are processed).
    pub closed spec fn jails(&self) -> Map<Seq<u8>, JailRecordView> {
        self.jailed_validators.map().map_values(|r: JailRecord| r@)
    }

    /// Jail records in the order the validators were first jailed.
    pub closed spec fn records(&self) -> Seq<JailRecordView> {
        self.jailed_validators.pairs().map_values(|e: (Seq<u8>, JailRecord)| e.1@)
    }

    /// Every slash, oldest first.
    pub closed spec fn history(&self) -> Seq<SlashEventView> {
        slash_event_views(self.slash_history@)
    }

    /// The double-signing evidence last punished, by validator.
    pub closed spec fn evidence(&self) -> Map<Seq<u8>, Seq<u8>> {
        self.double_signing_evidence.map().map_values(|v: Vec<u8>| v@)
    }

    /// One jail record per validator, filed under the validator's own
    /// identifier.
    pub closed spec fn wf(&self) -> bool {
        &&& self.jailed_validators.wf()
        &&& self.double_signing_evidence.wf()
        &&& forall|i: int|
            0 <= i < self.jailed_validators.pairs().len()
                ==> #[trigger] self.jailed_validators.pairs()[i].1.validator_id@
                == self.jailed_validators.pairs()[i].0
    }

    /// Two managers in the same state.
    pub open spec fn same_state(&self, other: &Self) -> bool {
        &&& self.cfg() == other.cfg()
        &&& self.jails() == other.jails()
        &&& self.records() == other.records()
        &&& self.history() == other.history()
        &&& self.evidence() == other.evidence()
    }

    /// The records and the map agree: a validator has a record exactly when
    /// some record carries its identifier.
    pub proof fn lemma_records_jails(&self, k: Seq<u8>)
        requires
            self.wf(),
        ensures
            self.jails().dom().contains(k) <==> exists|i: int|
                0 <= i < self.records().len() && self.records()[i].validator_id == k,
            forall|i: int|
                0 <= i < self.records().len() ==> self.jails().dom().contains(
                    #[trigger] self.records()[i].validator_id,
                ) && self.jails()[self.records()[i].validator_id] == self.records()[i],
            forall|i: int, j: int|
                0 <= i < self.records().len() && 0 <= j < self.records().len() && i != j
                    ==> (#[trigger] self.records()[i]).validator_id != (
                #[trigger] self.records()[j]).validator_id,
    {
        let t = &self.jailed_validators;
        t.lemma_dom(k);
        if self.jails().dom().contains(k) {
            let i = choose|i: int| 0 <= i < t.pairs().len() && t.pairs()[i].0 == k;
            assert(self.records()[i].validator_id == k);
        }
        if exists|i: int| 0 <= i < self.records().len() && self.records()[i].validator_id == k {
            let i = choose|i: int|
                0 <= i < self.records().len() && self.records()[i].validator_id == k;
            assert(t.pairs()[i].1.validator_id@ == t.pairs()[i].0);
        }
        assert forall|i: int| 0 <= i < self.records().len() implies self.jails().dom().contains(
            #[trigger] self.records()[i].validator_id,
        ) && self.jails()[self.records()[i].validator_id] == self.records()[i] by {
            t.lemma_at(i);
            assert(t.pairs()[i].1.validator_id@ == t.pairs()[i].0);
        }
        assert forall|i: int, j: int|
            0 <= i < self.records().len() && 0 <= j < self.records().len() && i != j implies (
            #[trigger] self.records()[i]).validator_id != (#[trigger] self.records()[j]).validator_id by {
            assert(t.pairs()[i].1.validator_id@ == t.pairs()[i].0);
            assert(t.pairs()[j].1.validator_id@ == t.pairs()[j].0);
        }
    }

    /// A manager with nothing recorded.
    pub fn new(config: SlashingConfig) -> (r: Self)
        ensures
            r.wf(),
            r.cfg() == config,
            r.jails() == Map::<Seq<u8>, JailRecordView>::empty(),
            r.records() == Seq::<JailRecordView>::empty(),
            r.history() == Seq::<SlashEventView>::empty(),
            r.evidence() == Map::<Seq<u8>, Seq<u8>>::empty(),
    {
        let r = SlashingManager {
            config,
            jailed_validators: IdTable::new(),
            slash_history: Vec::new(),
            double_signing_evidence: IdTable::new(),
        };
        assert(r.jails() =~= Map::<Seq<u8>, JailRecordView>::empty());
        assert(r.records() =~= Seq::<JailRecordView>::empty());
        assert(r.history() =~= Seq::<SlashEventView>::empty());
        assert(r.evidence() =~= Map::<Seq<u8>, Seq<u8>>::empty());
        r
    }

    /// A manager with the default configuration.
    pub fn default() -> (r: Self)
        ensures
            r.wf(),
            r.cfg() == (SlashingConfig {
                slash_double_signing: 10,
                slash_downtime: 1,
                jail_duration_secs: 86400,
                downtime_threshold: 50,
                recovery_period: 100,
            }),
            r.jails() == Map::<Seq<u8>, JailRecordView>::empty(),
            r.records() == Seq::<JailRecordView>::empty(),
            r.history() == Seq::<SlashEventView>::empty(),
            r.evidence() == Map::<Seq<u8>, Seq<u8>>::empty(),
    {
        Self::new(SlashingConfig::default())
    }

    /// Files a jail record and a slash event (and, for double signing, the
    /// evidence).
    fn file_jail(&mut self, rec: JailRecord, event: SlashEvent, evidence: Option<Vec<u8>>)
        requires
            old(self).wf(),
            rec.validator_id@ == event.validator_id@,
        ensures
            final(self).wf(),
            final(self).cfg() == old(self).cfg(),
            final(self).jails() == old(self).jails().insert(rec.validator_id@, rec@),
            filed(old(self).records(), final(self).records(), rec@),
            final(self).history() == old(self).history().push(event@),
            evidence is None ==> final(self).evidence() == old(self).evidence(),
            evidence matches Some(e) ==> final(self).evidence() == old(self).evidence().insert(
                rec.validator_id@,
                e@,
            ),
    {
        let ghost recv = rec@;
        let ghost k = rec.validator_id@;
        let ghost old_pairs = self.jailed_validators.pairs();
        proof {
            self.lemma_records_jails(k);
        }
        if let Some(e) = evidence {
            let ghost ev = e@;
            self.double_signing_evidence.upsert(event.validator_id.copy(), e);
            assert(self.evidence() =~= old(self).evidence().insert(k, ev));
        }
        let ghost h0 = self.slash_history@;
        let ghost evv = event@;
        self.slash_history.push(event);
        assert(slash_event_views(self.slash_history@) =~= slash_event_views(h0).push(evv));
        let id = rec.validator_id.copy();
        self.jailed_validators.upsert(id, rec);
        proof {
            let newp = self.jailed_validators.pairs();
            if old(self).jails().dom().contains(k) {
                let i = choose|i: int|
                    0 <= i < old_pairs.len() && old_pairs[i].0 == k && newp == old_pairs.update(
                        i,
                        (k, newp[i].1),
                    );
                assert(old(self).records()[i].validator_id == k) by {
                    assert(old_pairs[i].1.validator_id@ == old_pairs[i].0);
                }
                assert(self.records() =~= old(self).records().update(i, recv));
            } else {
                assert(self.records() =~= old(self).records().push(recv));
                assert forall|i: int| 0 <= i < old(self).records().len() implies (#[trigger] old(self).records()[i]).validator_id != k by {
                    if old(self).records()[i].validator_id == k {
                        assert(old(self).jails().dom().contains(k));
                    }
                }
            }
            assert forall|j: int| 0 <= j < newp.len() implies #[trigger] newp[j].1.validator_id@
                == newp[j].0 by {
                if j < old_pairs.len() {
                    assert(old_pairs[j].1.validator_id@ == old_pairs[j].0);
                }
            }
            assert(self.jails() =~= old(self).jails().insert(k, recv));
        }
    }

    /// Slash a validator for double signing at `now`; see
    /// `double_signing_outcome`.
    pub fn slash_for_double_signing_at(
        &mut self,
        validator_id: ValidatorID,
        stake: u64,
        evidence: Vec<u8>,
        now: u64,
    ) -> (r: Result<(u64, JailRecord), Error>)
        requires
            old(self).wf(),
            double_sign_refusal(*old(self), validator_id@, evidence@, now) is None ==> stake
                * old(self).cfg().slash_double_signing <= u64::MAX,
        ensures
            final(self).wf(),
            double_signing_outcome(
                *old(self),
                *final(self),
                validator_id@,
                stake,
                evidence@,
                now,
                slash_result_view(r),
            ),
    {
        if let Some(existing) = self.double_signing_evidence.get(&validator_id) {
            if bytes_equal(existing, &evidence) {
                return Err(Error::DuplicateEvidence);
            }
        }
        if self.is_jailed_at(&validator_id, now) {
            return Err(Error::AlreadyJailed);
        }
        let slash_amount = (stake * self.config.slash_double_signing) / 100;
        if slash_amount == 0 {
            return Err(Error::ZeroSlash);
        }
        let jail_record = JailRecord::new_at(
            validator_id.copy(),
            JailReason::DoubleSigning,
            slash_amount,
            self.config.jail_duration_secs,
            now,
        );
        let event = SlashEvent {
            validator_id: validator_id.copy(),
            reason: JailReason::DoubleSigning,
            slash_amount,
            timestamp: now,
            cycle: None,
        };
        let out = jail_record.clone();
        self.file_jail(jail_record, event, Some(evidence));
        Ok((slash_amount, out))
    }

    /// Slash a validator for double signing now (by the system clock).
    pub fn slash_for_double_signing(
        &mut self,
        validator_id: ValidatorID,
        stake: u64,
        evidence: Vec<u8>,
    ) -> (r: Result<(u64, JailRecord), Error>)
        requires
            old(self).wf(),
            stake * old(self).cfg().slash_double_signing <= u64::MAX || forall|now: u64|
                #[trigger] double_sign_refusal(*old(self), validator_id@, evidence@, now) is Some,
        ensures
            final(self).wf(),
            exists|now: u64|
                #[trigger] double_signing_outcome(
                    *old(self),
                    *final(self),
                    validator_id@,
                    stake,
                    evidence@,
                    now,
                    slash_result_view(r),
                ),
    {
        let now = unix_time_secs();
        self.slash_for_double_signing_at(validator_id, stake, evidence, now)
    }

    /// Slash a validator for downtime at `now`; see `downtime_outcome`.
    pub fn slash_for_downtime_at(
        &mut self,
        validator_id: ValidatorID,
        stake: u64,
        snapshots_missed: u64,
        cycle: u64,
        now: u64,
    ) -> (r: Result<(u64, JailRecord), Error>)
        requires
            old(self).wf(),
            !is_jailed_in(old(self).jails(), validator_id@, now) && snapshots_missed >= old(self).cfg().downtime_threshold ==> stake * old(self).cfg().slash_downtime <= u64::MAX,
        ensures
            final(self).wf(),
            downtime_outcome(
                *old(self),
                *final(self),
                validator_id@,
                stake,
                snapshots_missed,
                cycle,
                now,
                slash_result_view(r),
            ),
    {
        if self.is_jailed_at(&validator_id, now) {
            return Err(Error::AlreadyJailed);
        }
        if snapshots_missed < self.config.downtime_threshold {
            return Err(
                Error::DowntimeBelowThreshold {
                    missed: snapshots_missed,
                    threshold: self.config.downtime_threshold,
                },
            );
        }
        let slash_amount = (stake * self.config.slash_downtime) / 100;
        if slash_amount == 0 {
            return Err(Error::ZeroSlash);
        }
        let mut jail_record = JailRecord::new_at(
            validator_id.copy(),
            JailReason::ExcessiveDowntime,
            slash_amount,
            self.config.jail_duration_secs,
            now,
        );
        jail_record.snapshots_missed = Some(snapshots_missed);
        let event = SlashEvent {
            validator_id: validator_id.copy(),
            reason: JailReason::ExcessiveDowntime,
            slash_amount,
            timestamp: now,
            cycle: Some(cycle),
        };
        let out = jail_record.clone();
        self.file_jail(jail_record, event, None);
        Ok((slash_amount, out))
    }

    /// Slash a validator for downtime now (by the system clock).
    pub fn slash_for_downtime(
        &mut self,
        validator_id: ValidatorID,
        stake: u64,
        snapshots_missed: u64,
        cycle: u64,
    ) -> (r: Result<(u64, JailRecord), Error>)
        requires
            old(self).wf(),
            stake * old(self).cfg().slash_downtime <= u64::MAX || snapshots_missed
                < old(self).cfg().downtime_threshold || forall|now: u64|
                #[trigger] is_jailed_in(old(self).jails(), validator_id@, now),
        ensures
            final(self).wf(),
            exists|now: u64|
                #[trigger] downtime_outcome(
                    *old(self),
                    *final(self),
                    validator_id@,
                    stake,
                    snapshots_missed,
                    cycle,
                    now,
                    slash_result_view(r),
                ),
    {
        let now = unix_time_secs();
        self.slash_for_downtime_at(validator_id, stake, snapshots_missed, cycle, now)
    }

    /// Jail a validator by governance at `now`, slashing nothing; refused
    /// while it is jailed.
    pub fn jail_validator_manual_at(&mut self, validator_id: ValidatorID, _stake: u64, now: u64) -> (r:
        Result<JailRecord, Error>)
        requires
            old(self).wf(),
        ensures
            final(self).wf(),
            manual_jail_outcome(*old(self), *final(self), validator_id@, now, jail_result_view(r)),
    {
        if self.is_jailed_at(&validator_id, now) {
            return Err(Error::AlreadyJailed);
        }
        let jail_record = JailRecord::new_at(
            validator_id.copy(),
            JailReason::Manual,
            0,
            self.config.jail_duration_secs,
            now,
        );
        let event = SlashEvent {
            validator_id: validator_id.copy(),
            reason: JailReason::Manual,
            slash_amount: 0,
            timestamp: now,
            cycle: None,
        };
        let out = jail_record.clone();
        self.file_jail(jail_record, event, None);
        Ok(out)
    }

    /// Jail a validator by governance now (by the system clock).
    pub fn jail_validator_manual(&mut self, validator_id: ValidatorID, stake: u64) -> (r: Result<
        JailRecord,
        Error,
    >)
        requires
            old(self).wf(),
        ensures
            final(self).wf(),
            exists|now: u64|
                #[trigger] manual_jail_outcome(
                    *old(self),
                    *final(self),
                    validator_id@,
                    now,
                    jail_result_view(r),
                ),
    {
        let now = unix_time_secs();
        self.jail_validator_manual_at(validator_id, stake, now)
    }

    /// Whether the validator is jailed at `now`.
    pub fn is_jailed_at(&self, validator_id: &ValidatorID, now: u64) -> (r: bool)
        requires
            self.wf(),
        ensures
            r == is_jailed_in(self.jails(), validator_id@, now),
    {
        match self.jailed_validators.get(validator_id) {
            Some(record) => record.is_jailed_at(now),
            None => false,
        }
    }

    /// Whether the validator is jailed now (by the system clock).
    pub fn is_jailed(&self, validator_id: &ValidatorID) -> (r: bool)
        requires
            self.wf(),
        ensures
            exists|now: u64| r == #[trigger] is_jailed_in(self.jails(), validator_id@, now),
    {
        self.is_jailed_at(validator_id, unix_time_secs())
    }

    /// The validator's jail record.
    pub fn get_jail_record(&self, validator_id: &ValidatorID) -> (r: Option<&JailRecord>)
        requires
            self.wf(),
        ensures
            r is None <==> !self.jails().dom().contains(validator_id@),
            r matches Some(rec) ==> rec@ == self.jails()[validator_id@],
    {
        self.jailed_validators.get(validator_id)
    }

    /// Mutable access to a validator's jail record. The manager stays well
    /// formed as long as the record keeps its validator.
    pub fn get_jail_record_mut(&mut self, validator_id: &ValidatorID) -> (r: Option<&mut JailRecord>)
        requires
            old(self).wf(),
        ensures
            final(self).cfg() == old(self).cfg(),
            final(self).history() == old(self).history(),
            final(self).evidence() == old(self).evidence(),
            r is None <==> !old(self).jails().dom().contains(validator_id@),
            r is None ==> final(self).jails() == old(self).jails() && final(self).wf(),
            r is Some ==> (*r->Some_0)@ == old(self).jails()[validator_id@],
            r is Some ==> final(self).jails() == old(self).jails().insert(
                validator_id@,
                (*final(r->Some_0))@,
            ),
            r is Some && (*final(r->Some_0)).validator_id@ == validator_id@ ==> final(self).wf(),
    {
        self.jailed_validators.get_mut(validator_id)
    }

    /// Lift a validator's jail by hand; refused when it has no record.
    pub fn lift_jail(&mut self, validator_id: &ValidatorID) -> (r: Result<(), Error>)
        requires
            old(self).wf(),
        ensures
            final(self).wf(),
            final(self).cfg() == old(self).cfg(),
            final(self).history() == old(self).history(),
            final(self).evidence() == old(self).evidence(),
            !old(self).jails().dom().contains(validator_id@) ==> r == Err::<(), Error>(
                Error::NotJailed,
            ) && final(self).same_state(&*old(self)),
            old(self).jails().dom().contains(validator_id@) ==> r is Ok && final(self).jails()
                == old(self).jails().insert(
                validator_id@,
                JailRecordView { manually_lifted: true, ..old(self).jails()[validator_id@] },
            ),
            final(self).records().len() == old(self).records().len(),
            forall|i: int|
                0 <= i < old(self).records().len() ==> #[trigger] final(self).records()[i] == (
                if old(self).records()[i].validator_id == validator_id@ {
                    JailRecordView { manually_lifted: true, ..old(self).records()[i] }
                } else {
                    old(self).records()[i]
                }),
    {
        match self.jailed_validators.find(validator_id) {
            Some(i) => {
                let ghost old_pairs = self.jailed_validators.pairs();
                proof {
                    self.lemma_records_jails(validator_id@);
                    self.jailed_validators.lemma_at(i as int);
                }
                {
                    let rec = self.jailed_validators.value_mut(i);
                    rec.lift_jail();
                }
                proof {
                    let newp = self.jailed_validators.pairs();
                    let v = newp[i as int].1;
                    crate::table::lemma_seq_to_map_update(old_pairs, i as int, v);
                    assert(newp =~= old_pairs.update(i as int, (old_pairs[i as int].0, v)));
                    assert forall|j: int| 0 <= j < newp.len() implies #[trigger] newp[j].1.validator_id@
                        == newp[j].0 by {
                        assert(old_pairs[j].1.validator_id@ == old_pairs[j].0);
                    }
                    assert(self.jails() =~= old(self).jails().insert(
                        validator_id@,
                        JailRecordView { manually_lifted: true, ..old(self).jails()[validator_id@] },
                    ));
                    assert forall|j: int| 0 <= j < old(self).records().len() implies #[trigger] self.records()[j]
                        == (if old(self).records()[j].validator_id == validator_id@ {
                        JailRecordView { manually_lifted: true, ..old(self).records()[j] }
                    } else {
                        old(self).records()[j]
                    }) by {
                        assert(old_pairs[j].1.validator_id@ == old_pairs[j].0);
                        if j != i {
                            assert(old(self).records()[j].validator_id != validator_id@);
                        }
                    }
                }
                Ok(())
            },
            None => {
                proof {
                    self.lemma_records_jails(validator_id@);
                    assert forall|j: int| 0 <= j < old(self).records().len() implies old(self).records()[j].validator_id != validator_id@ by {
                        if old(self).records()[j].validator_id == validator_id@ {
                            assert(self.jails().dom().contains(self.records()[j].validator_id));
                        }
                    }
                }
                Err(Error::NotJailed)
            },
        }
    }

    /// Drop every record whose jail is over at `now`; returns their
    /// validators, in order.
    pub fn process_expired_jails_at(&mut self, now: u64) -> (r: Vec<ValidatorID>)
        requires
            old(self).wf(),
        ensures
            final(self).wf(),
            final(self).cfg() == old(self).cfg(),
            final(self).history() == old(self).history(),
            final(self).evidence() == old(self).evidence(),
            id_views(r@) == released_ids(old(self).records(), now),
            final(self).records() == records_in_force(old(self).records(), now),
    {
        let mut expired: Vec<ValidatorID> = Vec::new();
        let ghost orig = self.records();
        let ghost n: int = orig.len() as int;
        let mut i: usize = 0;
        let ghost mut j: int = 0;
        while i < self.jailed_validators.len()
            invariant
                self.wf(),
                self.cfg() == old(self).cfg(),
                self.history() == old(self).history(),
                self.evidence() == old(self).evidence(),
                orig == old(self).records(),
                n == orig.len(),
                0 <= j <= n,
                i == records_in_force(orig.take(j), now).len(),
                self.records() == records_in_force(orig.take(j), now) + orig.skip(j),
                id_views(expired@) == released_ids(orig.take(j), now),
            decreases n - j,
        {
            proof {
                assert(self.records().len() == i + (n - j));
                assert(j < n);
                assert(self.records()[i as int] == orig[j]);
                assert(orig.take(j + 1).drop_last() =~= orig.take(j));
                assert(orig.take(j + 1).last() == orig[j]);
            }
            let ghost before_pairs = self.jailed_validators.pairs();
            let ghost before = self.records();
            if !self.jailed_validators.value_at(i).is_jailed_at(now) {
                let ghost e0 = expired@;
                let (id, _rec) = self.jailed_validators.remove_at(i);
                expired.push(id);
                proof {
                    assert(before_pairs[i as int].1@ == orig[j]);
                    assert(id_views(expired@) =~= id_views(e0).push(orig[j].validator_id)) by {
                        assert(before_pairs[i as int].1.validator_id@ == before_pairs[i as int].0);
                    }
                    assert(self.records() =~= before.remove(i as int));
                    assert(orig.skip(j) =~= seq![orig[j]] + orig.skip(j + 1));
                    assert(self.records() =~= records_in_force(orig.take(j + 1), now) + orig.skip(j + 1));
                    let newp = self.jailed_validators.pairs();
                    assert forall|k: int| 0 <= k < newp.len() implies #[trigger] newp[k].1.validator_id@
                        == newp[k].0 by {
                        if k < i {
                            assert(newp[k] == before_pairs[k]);
                        } else {
                            assert(newp[k] == before_pairs[k + 1]);
                        }
                    }
                }
            } else {
                i = i + 1;
                proof {
                    assert(records_in_force(orig.take(j + 1), now) =~= records_in_force(orig.take(j), now).push(
                        orig[j],
                    ));
                    assert(self.records() =~= records_in_force(orig.take(j + 1), now) + orig.skip(j + 1));
                }
            }
            proof {
                j = j + 1;
            }
        }
        proof {
            assert(self.records().len() == i + (n - j));
            assert(j == n);
            assert(orig.take(n) =~= orig);
            assert(self.records() =~= records_in_force(orig, now));
        }
        expired
    }

    /// Drop every record whose jail is over now (by the system clock).
    pub fn process_expired_jails(&mut self) -> (r: Vec<ValidatorID>)
        requires
            old(self).wf(),
        ensures
            final(self).wf(),
            final(self).cfg() == old(self).cfg(),
            final(self).history() == old(self).history(),
            exists|now: u64|
                id_views(r@) == #[trigger] released_ids(old(self).records(), now)
                    && final(self).records() == records_in_force(old(self).records(), now),
    {
        let now = unix_time_secs();
        self.process_expired_jails_at(now)
    }

    /// The validators jailed at `now`, in order.
    pub fn get_jailed_validators_at(&self, now: u64) -> (r: Vec<ValidatorID>)
        requires
            self.wf(),
        ensures
            id_views(r@) == jailed_ids(self.records(), now),
    {
        let mut out: Vec<ValidatorID> = Vec::new();
        let mut i: usize = 0;
        let n = self.jailed_validators.len();
        while i < n
            invariant
                self.wf(),
                n == self.records().len(),
                i <= n,
                id_views(out@) == jailed_ids(self.records().take(i as int), now),
            decreases n - i,
        {
            proof {
                assert(self.records().take(i + 1).drop_last() =~= self.records().take(i as int));
                assert(self.records()[i as int] == self.jailed_validators.pairs()[i as int].1@);
            }
            let rec = self.jailed_validators.value_at(i);
            if rec.is_jailed_at(now) {
                let ghost o0 = out@;
                out.push(rec.validator_id.copy());
                assert(id_views(out@) =~= id_views(o0).push(self.records()[i as int].validator_id));
            }
            i = i + 1;
        }
        assert(self.records().take(n as int) =~= self.records());
        out
    }

    /// The validators jailed now (by the system clock).
    pub fn get_jailed_validators(&self) -> (r: Vec<ValidatorID>)
        requires
            self.wf(),
        ensures
            exists|now: u64| id_views(r@) == #[trigger] jailed_ids(self.records(), now),
    {
        self.get_jailed_validators_at(unix_time_secs())
    }

    /// Every slash, oldest first.
    pub fn get_slash_history(&self) -> (r: &[SlashEvent])
        ensures
            slash_event_views(r@) == self.history(),
    {
        self.slash_history.as_slice()
    }

    /// The slashes of one validator, oldest first.
    pub fn get_validator_slash_history(&self, validator_id: &ValidatorID) -> (r: Vec<SlashEvent>)
        ensures
            slash_event_views(r@) == events_of(self.history(), validator_id@),
    {
        let mut out: Vec<SlashEvent> = Vec::new();
        let mut i: usize = 0;
        while i < self.slash_history.len()
            invariant
                i <= self.history().len(),
                self.history().len() == self.slash_history@.len(),
                slash_event_views(out@) == events_of(self.history().take(i as int), validator_id@),
            decreases self.slash_history@.len() - i,
        {
            proof {
                assert(self.history().take(i + 1).drop_last() =~= self.history().take(i as int));
            }
            let e = &self.slash_history[i];
            if e.validator_id.same_as(validator_id) {
                let ghost o0 = out@;
                out.push(e.clone());
                assert(slash_event_views(out@) =~= slash_event_views(o0).push(self.history()[i as int]));
            }
            i = i + 1;
        }
        assert(self.history().take(i as int) =~= self.history());
        out
    }

    /// The total slashed from one validator.
    pub fn get_total_slashed(&self, validator_id: &ValidatorID) -> (r: u64)
        requires
            slashed_total(self.history(), validator_id@) <= u64::MAX,
        ensures
            r == slashed_total(self.history(), validator_id@),
    {
        let mut total: u64 = 0;
        let mut i: usize = 0;
        while i < self.slash_history.len()
            invariant
                i <= self.history().len(),
                self.history().len() == self.slash_history@.len(),
                slashed_total(self.history(), validator_id@) <= u64::MAX,
                total == slashed_total(self.history().take(i as int), validator_id@),
            decreases self.slash_history@.len() - i,
        {
            proof {
                assert(self.history().take(i + 1).drop_last() =~= self.history().take(i as int));
                lemma_slashed_total_prefix(self.history(), validator_id@, i + 1);
            }
            let e = &self.slash_history[i];
            if e.validator_id.same_as(validator_id) {
                total = total + e.slash_amount;
            }
            i = i + 1;
        }
        assert(self.history().take(i as int) =~= self.history());
        total
    }

    /// The configuration.
    pub fn config(&self) -> (r: &SlashingConfig)
        ensures
            *r == self.cfg(),
    {
        &self.config
    }

    /// Replace the configuration.
    pub fn set_config(&mut self, config: SlashingConfig)
        ensures
            final(self).cfg() == config,
            final(self).jails() == old(self).jails(),
            final(self).records() == old(self).records(),
            final(self).history() == old(self).history(),
            final(self).evidence() == old(self).evidence(),
            old(self).wf() ==> final(self).wf(),
    {
        self.config = config;
    }

    /// The number of validators jailed at `now`.
    pub fn jailed_count_at(&self, now: u64) -> (r: usize)
        requires
            self.wf(),
        ensures
            r == jailed_ids(self.records(), now).len(),
    {
        let mut count: usize = 0;
        let mut i: usize = 0;
        let n = self.jailed_validators.len();
        while i < n
            invariant
                self.wf(),
                n == self.records().len(),
                i <= n,
                count == jailed_ids(self.records().take(i as int), now).len(),
                count <= i,
            decreases n - i,
        {
            proof {
                assert(self.records().take(i + 1).drop_last() =~= self.records().take(i as int));
                assert(self.records()[i as int] == self.jailed_validators.pairs()[i as int].1@);
            }
            if self.jailed_validators.value_at(i).is_jailed_at(now) {
                count = count + 1;
            }
            i = i + 1;
        }
        assert(self.records().take(n as int) =~= self.records());
        count
    }

    /// The number of validators jailed now (by the system clock).
    pub fn jailed_count(&self) -> (r: usize)
        requires
            self.wf(),
        ensures
            exists|now: u64| r == #[trigger] jailed_ids(self.records(), now).len(),
    {
        self.jailed_count_at(unix_time_secs())
    }

    /// The number of slashes recorded.
    pub fn slash_event_count(&self) -> (r: usize)
        ensures
            r == self.history().len(),
    {
        self.slash_history.len()
    }
}

/// A prefix of the history slashes no more than the whole.
pub proof fn lemma_slashed_total_prefix(h: Seq<SlashEventView>, id: Seq<u8>, n: int)
    requires
        0 <= n <= h.len(),
    ensures
        0 <= slashed_total(h.take(n), id) <= slashed_total(h, id),
    decreases h.len() - n,
{
    if n < h.len() {
        lemma_slashed_total_prefix(h, id, n + 1);
        assert(h.take(n + 1).drop_last() =~= h.take(n));
        lemma_slashed_total_nonneg(h.take(n), id);
    } else {
        assert(h.take(n) =~= h);
        lemma_slashed_total_nonneg(h, id);
    }
}

/// Slashed totals are not negative.
pub proof fn lemma_slashed_total_nonneg(h: Seq<SlashEventView>, id: Seq<u8>)
    ensures
        slashed_total(h, id) >= 0,
    decreases h.len(),
{
    if h.len() > 0 {
        lemma_slashed_total_nonneg(h.drop_last(), id);
    }
}

/// The view of a slash's result.
pub open spec fn slash_result_view(r: Result<(u64, JailRecord), Error>) -> Result<
    (u64, JailRecordView),
    Error,
> {
    match r {
        Ok((a, rec)) => Ok((a, rec@)),
        Err(e) => Err(e),
    }
}

/// The view of a manual jailing's result.
pub open spec fn jail_result_view(r: Result<JailRecord, Error>) -> Result<JailRecordView, Error> {
    match r {
        Ok(rec) => Ok(rec@),
        Err(e) => Err(e),
    }
}

/// Why a double-signing slash is refused before its amount is computed:
/// the same evidence was punished already, or the validator is jailed.
pub open spec fn double_sign_refusal(
    m: SlashingManager,
    id: Seq<u8>,
    evidence: Seq<u8>,
    now: u64,
) -> Option<Error> {
    if m.evidence().dom().contains(id) && m.evidence()[id] == evidence {
        Some(Error::DuplicateEvidence)
    } else if is_jailed_in(m.jails(), id, now) {
        Some(Error::AlreadyJailed)
    } else {
        None
    }
}

/// A slash of `amount` that jails the validator: `rec` is filed and the
/// event recorded.
pub open spec fn jailed_with(
    pre: SlashingManager,
    post: SlashingManager,
    rec: JailRecordView,
    event: SlashEventView,
) -> bool {
    &&& post.cfg() == pre.cfg()
    &&& post.jails() == pre.jails().insert(rec.validator_id, rec)
    &&& filed(pre.records(), post.records(), rec)
    &&& post.history() == pre.history().push(event)
}

/// What a double-signing slash at `now` does: refused for evidence already
/// punished, for a jailed validator, or when `slash_double_signing` percent
/// of the stake rounds to 0; otherwise the validator is jailed for the
/// configured duration, the amount recorded and the evidence kept.
pub open spec fn double_signing_outcome(
    pre: SlashingManager,
    post: SlashingManager,
    id: Seq<u8>,
    stake: u64,
    evidence: Seq<u8>,
    now: u64,
    r: Result<(u64, JailRecordView), Error>,
) -> bool {
    match double_sign_refusal(pre, id, evidence, now) {
        Some(e) => r == Err::<(u64, JailRecordView), Error>(e) && post.same_state(&pre),
        None => if slash_share(stake, pre.cfg().slash_double_signing) == 0 {
            r == Err::<(u64, JailRecordView), Error>(Error::ZeroSlash) && post.same_state(&pre)
        } else {
            let amount = slash_share(stake, pre.cfg().slash_double_signing) as u64;
            let rec = new_jail_record(
                id,
                JailReason::DoubleSigning,
                amount,
                pre.cfg().jail_duration_secs,
                now,
            );
            &&& r == Ok::<(u64, JailRecordView), Error>((amount, rec))
            &&& jailed_with(
                pre,
                post,
                rec,
                SlashEventView {
                    validator_id: id,
                    reason: JailReason::DoubleSigning,
                    slash_amount: amount,
                    timestamp: now,
                    cycle: None,
                },
            )
            &&& post.evidence() == pre.evidence().insert(id, evidence)
        },
    }
}

/// What a downtime slash at `now` does: refused for a jailed validator,
/// below the downtime threshold, or when `slash_downtime` percent of the
/// stake rounds to 0; otherwise the validator is jailed with the missed
/// snapshots noted and the amount recorded with the cycle.
pub open spec fn downtime_outcome(
    pre: SlashingManager,
    post: SlashingManager,
    id: Seq<u8>,
    stake: u64,
    missed: u64,
    cycle: u64,
    now: u64,
    r: Result<(u64, JailRecordView), Error>,
) -> bool {
    if is_jailed_in(pre.jails(), id, now) {
        r == Err::<(u64, JailRecordView), Error>(Error::AlreadyJailed) && post.same_state(&pre)
    } else if missed < pre.cfg().downtime_threshold {
        r == Err::<(u64, JailRecordView), Error>(
            Error::DowntimeBelowThreshold { missed, threshold: pre.cfg().downtime_threshold },
        ) && post.same_state(&pre)
    } else if slash_share(stake, pre.cfg().slash_downtime) == 0 {
        r == Err::<(u64, JailRecordView), Error>(Error::ZeroSlash) && post.same_state(&pre)
    } else {
        let amount = slash_share(stake, pre.cfg().slash_downtime) as u64;
        let rec = JailRecordView {
            snapshots_missed: Some(missed),
            ..new_jail_record(id, JailReason::ExcessiveDowntime, amount, pre.cfg().jail_duration_secs, now)
        };
        &&& r == Ok::<(u64, JailRecordView), Error>((amount, rec))
        &&& jailed_with(
            pre,
            post,
            rec,
            SlashEventView {
                validator_id: id,
                reason: JailReason::ExcessiveDowntime,
                slash_amount: amount,
                timestamp: now,
                cycle: Some(cycle),
            },
        )
        &&& post.evidence() == pre.evidence()
    }
}

/// What a manual jailing at `now` does: refused for a jailed validator;
/// otherwise the validator is jailed with nothing slashed.
pub open spec fn manual_jail_outcome(
    pre: SlashingManager,
    post: SlashingManager,
    id: Seq<u8>,
    now: u64,
    r: Result<JailRecordView, Error>,
) -> bool {
    if is_jailed_in(pre.jails(), id, now) {
        r == Err::<JailRecordView, Error>(Error::AlreadyJailed) && post.same_state(&pre)
    } else {
        let rec = new_jail_record(id, JailReason::Manual, 0, pre.cfg().jail_duration_secs, now);
        &&& r == Ok::<JailRecordView, Error>(rec)
        &&& jailed_with(
            pre,
            post,
            rec,
            SlashEventView {
                validator_id: id,
                reason: JailReason::Manual,
                slash_amount: 0,
                timestamp: now,
                cycle: None,
            },
        )
        &&& post.evidence() == pre.evidence()
    }
}

/// Once a double-signing slash succeeds, the validator is jailed from that
/// moment until the jail duration has passed, and presenting the same
/// evidence again is refused as a duplicate, whenever it is presented.
pub proof fn lemma_double_signing_jails_and_dedups(
    pre: SlashingManager,
    post: SlashingManager,
    id: Seq<u8>,
    stake: u64,
    evidence: Seq<u8>,
    now: u64,
    r: Result<(u64, JailRecordView), Error>,
    later: u64,
)
    requires
        double_signing_outcome(pre, post, id, stake, evidence, now, r),
        r is Ok,
    ensures
        now <= later < sat_add(now, pre.cfg().jail_duration_secs) ==> is_jailed_in(post.jails(), id, later),
        double_sign_refusal(post, id, evidence, later) == Some(Error::DuplicateEvidence),
{
}

/// A successful slash adds its amount to the validator's slashed total and
/// leaves every other validator's total as it was.
pub proof fn lemma_slash_adds_to_total(
    pre: SlashingManager,
    post: SlashingManager,
    id: Seq<u8>,
    stake: u64,
    evidence: Seq<u8>,
    now: u64,
    r: Result<(u64, JailRecordView), Error>,
    other: Seq<u8>,
)
    requires
        double_signing_outcome(pre, post, id, stake, evidence, now, r),
        r is Ok,
    ensures
        slashed_total(post.history(), id) == slashed_total(pre.history(), id) + r->Ok_0.0,
        other != id ==> slashed_total(post.history(), other) == slashed_total(pre.history(), other),
{
    assert(post.history().drop_last() =~= pre.history());
}

/// A jailed validator cannot be jailed or slashed again while its jail is
/// in force: every request is refused and changes nothing.
pub proof fn lemma_no_double_jailing(
    pre: SlashingManager,
    post: SlashingManager,
    id: Seq<u8>,
    stake: u64,
    missed: u64,
    cycle: u64,
    now: u64,
    r: Result<(u64, JailRecordView), Error>,
    r2: Result<JailRecordView, Error>,
)
    requires
        is_jailed_in(pre.jails(), id, now),
    ensures
        downtime_outcome(pre, post, id, stake, missed, cycle, now, r) ==> r == Err::<
            (u64, JailRecordView),
            Error,
        >(Error::AlreadyJailed) && post.same_state(&pre),
        manual_jail_outcome(pre, post, id, now, r2) ==> r2 == Err::<JailRecordView, Error>(
            Error::AlreadyJailed,
        ) && post.same_state(&pre),
{
}

} // verus!
