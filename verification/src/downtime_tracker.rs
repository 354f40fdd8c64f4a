//! Downtime tracking:
//! - per-validator snapshot participation
//! - a downtime threshold that puts a validator into recovery
//! - recovery over a number of snapshots, after which missed snapshots
//!   are forgiven
//! - an audit trail of downtime events
//!
//! Rates are in basis points (10000 is 100%).
use vstd::prelude::*;
use crate::clock::unix_time_secs;
use crate::table::IdTable;
use crate::types::{ValidatorID, id_views};

verus! {

/// Downtime tracking configuration.
#[derive(Debug, Clone, Copy, PartialEq, Eq, Structural)]
pub struct DowntimeConfig {
    /// Missed snapshots before a validator enters recovery
    pub downtime_threshold: u64,
    /// Snapshots of recovery before missed snapshots are forgiven
    pub recovery_period: u64,
    /// Minimum participation rate, in basis points, to avoid a warning
    pub min_participation_bps: u64,
    /// Penalty reduction per recovery snapshot, in basis points
    pub penalty_reduction_per_snapshot_bps: u64,
}

impl Default for DowntimeConfig {
    fn default() -> (r: Self)
        ensures
            r == (DowntimeConfig {
                downtime_threshold: 50,
                recovery_period: 100,
                min_participation_bps: 9000,
                penalty_reduction_per_snapshot_bps: 100,
            }),
    {
        DowntimeConfig {
            downtime_threshold: 50,
            recovery_period: 100,
            min_participation_bps: 9000,
            penalty_reduction_per_snapshot_bps: 100,
        }
    }
}

/// Downtime event type.
#[derive(Debug, Clone, Copy, PartialEq, Eq, Structural)]
pub enum DowntimeEventType {
    /// Downtime threshold exceeded
    ThresholdExceeded,
    /// Entered recovery mode
    EnteredRecovery,
    /// Exited recovery mode
    ExitedRecovery,
    /// Participation warning
    ParticipationWarning,
}

/// The name of a downtime event type.
pub open spec fn downtime_event_type_text(t: DowntimeEventType) -> Seq<char> {
    match t {
        DowntimeEventType::ThresholdExceeded => "ThresholdExceeded"@,
        DowntimeEventType::EnteredRecovery => "EnteredRecovery"@,
        DowntimeEventType::ExitedRecovery => "ExitedRecovery"@,
        DowntimeEventType::ParticipationWarning => "ParticipationWarning"@,
    }
}

impl DowntimeEventType {
    /// The event type's name.
    pub fn to_string(&self) -> (r: String)
        ensures
            r@ == downtime_event_type_text(*self),
    {
        match self {
            DowntimeEventType::ThresholdExceeded => "ThresholdExceeded".to_owned(),
            DowntimeEventType::EnteredRecovery => "EnteredRecovery".to_owned(),
            DowntimeEventType::ExitedRecovery => "ExitedRecovery".to_owned(),
            DowntimeEventType::ParticipationWarning => "ParticipationWarning".to_owned(),
        }
    }
}

/// The abstract content of a downtime event.
pub struct DowntimeEventView {
    pub validator_id: Seq<u8>,
    pub event_type: DowntimeEventType,
    pub snapshots_missed: u64,
    pub participation_rate_bps: u64,
    pub timestamp: u64,
    pub cycle: u64,
}

/// Downtime event.
pub struct DowntimeEvent {
    /// Validator ID
    pub validator_id: ValidatorID,
    /// Event type
    pub event_type: DowntimeEventType,
    /// Snapshots missed
    pub snapshots_missed: u64,
    /// Participation rate in basis points
    pub participation_rate_bps: u64,
    /// Timestamp (seconds since the epoch)
    pub timestamp: u64,
    /// Cycle
    pub cycle: u64,
}

impl View for DowntimeEvent {
    type V = DowntimeEventView;

    open spec fn view(&self) -> DowntimeEventView {
        DowntimeEventView {
            validator_id: self.validator_id@,
            event_type: self.event_type,
            snapshots_missed: self.snapshots_missed,
            participation_rate_bps: self.participation_rate_bps,
            timestamp: self.timestamp,
            cycle: self.cycle,
        }
    }
}

impl Clone for DowntimeEvent {
    fn clone(&self) -> (r: Self)
        ensures
            r@ == self@,
    {
        DowntimeEvent {
            validator_id: self.validator_id.copy(),
            event_type: self.event_type,
            snapshots_missed: self.snapshots_missed,
            participation_rate_bps: self.participation_rate_bps,
            timestamp: self.timestamp,
            cycle: self.cycle,
        }
    }
}

/// The views of a sequence of events.
pub open spec fn downtime_event_views(s: Seq<DowntimeEvent>) -> Seq<DowntimeEventView> {
    s.map_values(|e: DowntimeEvent| e@)
}

/// The abstract content of a validator's downtime record.
pub struct DowntimeRecordView {
    pub validator_id: Seq<u8>,
    pub total_snapshots: u64,
    pub snapshots_participated: u64,
    pub snapshots_missed: u64,
    pub participation_rate_bps: u64,
    pub in_recovery: bool,
    pub recovery_snapshots_completed: u64,
    pub last_downtime_event: Option<DowntimeEventView>,
}

/// Validator downtime record.
pub struct ValidatorDowntimeRecord {
    /// Validator ID
    pub validator_id: ValidatorID,
    /// Total snapshots in the current period
    pub total_snapshots: u64,
    /// Snapshots participated in
    pub snapshots_participated: u64,
    /// Snapshots missed
    pub snapshots_missed: u64,
    /// Participation rate in basis points
    pub participation_rate_bps: u64,
    /// Whether the validator is in recovery
    pub in_recovery: bool,
    /// Recovery snapshots completed
    pub recovery_snapshots_completed: u64,
    /// Last downtime event
    pub last_downtime_event: Option<DowntimeEvent>,
}

impl View for ValidatorDowntimeRecord {
    type V = DowntimeRecordView;

    open spec fn view(&self) -> DowntimeRecordView {
        DowntimeRecordView {
            validator_id: self.validator_id@,
            total_snapshots: self.total_snapshots,
            snapshots_participated: self.snapshots_participated,
            snapshots_missed: self.snapshots_missed,
            participation_rate_bps: self.participation_rate_bps,
            in_recovery: self.in_recovery,
            recovery_snapshots_completed: self.recovery_snapshots_completed,
            last_downtime_event: match self.last_downtime_event {
                Some(e) => Some(e@),
                None => None,
            },
        }
    }
}

/// The participation rate in basis points of `participated` out of
/// `total` snapshots, rounded down (100% with no snapshots).
pub open spec fn rate_bps(participated: u64, total: u64) -> u64 {
    if total == 0 {
        10000
    } else {
        ((participated * 10000) / (total as int)) as u64
    }
}

/// Counters that make sense: no more participated or missed snapshots than
/// snapshots in all.
pub open spec fn record_ok(r: DowntimeRecordView) -> bool {
    r.snapshots_participated <= r.total_snapshots && r.snapshots_missed <= r.total_snapshots
}

/// A fresh record.
pub open spec fn fresh_record(id: Seq<u8>) -> DowntimeRecordView {
    DowntimeRecordView {
        validator_id: id,
        total_snapshots: 0,
        snapshots_participated: 0,
        snapshots_missed: 0,
        participation_rate_bps: 10000,
        in_recovery: false,
        recovery_snapshots_completed: 0,
        last_downtime_event: None,
    }
}

/// A record after one more snapshot.
pub open spec fn after_snapshot(r: DowntimeRecordView, participated: bool) -> DowntimeRecordView {
    let total = (r.total_snapshots + 1) as u64;
    let p = if participated {
        (r.snapshots_participated + 1) as u64
    } else {
        r.snapshots_participated
    };
    DowntimeRecordView {
        total_snapshots: total,
        snapshots_participated: p,
        snapshots_missed: if participated {
            r.snapshots_missed
        } else {
            (r.snapshots_missed + 1) as u64
        },
        participation_rate_bps: rate_bps(p, total),
        ..r
    }
}

/// A record can take one more snapshot without a counter overflowing.
pub open spec fn can_count(r: DowntimeRecordView) -> bool {
    r.total_snapshots < u64::MAX
}

/// A record with its period counters reset.
pub open spec fn period_reset(r: DowntimeRecordView) -> DowntimeRecordView {
    DowntimeRecordView {
        total_snapshots: 0,
        snapshots_participated: 0,
        snapshots_missed: 0,
        participation_rate_bps: 10000,
        recovery_snapshots_completed: 0,
        ..r
    }
}

impl ValidatorDowntimeRecord {
    /// A fresh record: no snapshots, full participation.
    pub fn new(validator_id: ValidatorID) -> (r: Self)
        ensures
            r@ == fresh_record(validator_id@),
    {
        ValidatorDowntimeRecord {
            validator_id,
            total_snapshots: 0,
            snapshots_participated: 0,
            snapshots_missed: 0,
            participation_rate_bps: 10000,
            in_recovery: false,
            recovery_snapshots_completed: 0,
            last_downtime_event: None,
        }
    }

    /// Record one snapshot, participated in or missed, and update the rate.
    pub fn record_participation(&mut self, participated: bool)
        requires
            record_ok(old(self)@),
            can_count(old(self)@),
        ensures
            final(self)@ == after_snapshot(old(self)@, participated),
            record_ok(final(self)@),
    {
        self.total_snapshots = self.total_snapshots + 1;
        if participated {
            self.snapshots_participated = self.snapshots_participated + 1;
        } else {
            self.snapshots_missed = self.snapshots_missed + 1;
        }
        let p = self.snapshots_participated as u128;
        let t = self.total_snapshots as u128;
        assert(p * 10000 <= t * 10000) by (nonlinear_arith)
            requires
                p <= t,
        ;
        assert((p * 10000) / (t as int) <= 10000) by (nonlinear_arith)
            requires
                p <= t,
                t > 0,
        ;
        self.participation_rate_bps = ((p * 10000) / t) as u64;
    }

    /// Whether the missed snapshots reach `threshold`.
    pub fn exceeds_threshold(&self, threshold: u64) -> (r: bool)
        ensures
            r == (self.snapshots_missed >= threshold),
    {
        self.snapshots_missed >= threshold
    }

    /// Enter recovery.
    pub fn enter_recovery(&mut self)
        ensures
            final(self)@ == (DowntimeRecordView {
                in_recovery: true,
                recovery_snapshots_completed: 0,
                ..old(self)@
            }),
    {
        self.in_recovery = true;
        self.recovery_snapshots_completed = 0;
    }

    /// Count one recovery snapshot (only while in recovery).
    pub fn record_recovery_snapshot(&mut self)
        requires
            old(self).in_recovery ==> old(self).recovery_snapshots_completed < u64::MAX,
        ensures
            final(self)@ == (if old(self).in_recovery {
                DowntimeRecordView {
                    recovery_snapshots_completed: (old(self).recovery_snapshots_completed + 1) as u64,
                    ..old(self)@
                }
            } else {
                old(self)@
            }),
    {
        if self.in_recovery {
            self.recovery_snapshots_completed = self.recovery_snapshots_completed + 1;
        }
    }

    /// Leave recovery: missed snapshots are forgiven.
    pub fn exit_recovery(&mut self)
        ensures
            final(self)@ == (DowntimeRecordView {
                in_recovery: false,
                snapshots_missed: 0,
                recovery_snapshots_completed: 0,
                ..old(self)@
            }),
    {
        self.in_recovery = false;
        self.snapshots_missed = 0;
        self.recovery_snapshots_completed = 0;
    }

    /// Reset the period's counters.
    pub fn reset_period(&mut self)
        ensures
            final(self)@ == period_reset(old(self)@),
    {
        self.total_snapshots = 0;
        self.snapshots_participated = 0;
        self.snapshots_missed = 0;
        self.participation_rate_bps = 10000;
        self.recovery_snapshots_completed = 0;
    }
}

/// The record crosses the downtime threshold while not in recovery.
pub open spec fn violates(r: DowntimeRecordView, cfg: DowntimeConfig) -> bool {
    r.snapshots_missed >= cfg.downtime_threshold && !r.in_recovery
}

/// The record's participation is below the minimum while not in recovery
/// (and did not just enter it).
pub open spec fn warns(r: DowntimeRecordView, cfg: DowntimeConfig) -> bool {
    r.participation_rate_bps < cfg.min_participation_bps && !r.in_recovery && !violates(r, cfg)
}

/// A record after a threshold check.
pub open spec fn after_check(r: DowntimeRecordView, cfg: DowntimeConfig) -> DowntimeRecordView {
    if violates(r, cfg) {
        DowntimeRecordView { in_recovery: true, recovery_snapshots_completed: 0, ..r }
    } else {
        r
    }
}

/// The event of the given type for a record.
pub open spec fn event_for(
    r: DowntimeRecordView,
    t: DowntimeEventType,
    missed: u64,
    now: u64,
    cycle: u64,
) -> DowntimeEventView {
    DowntimeEventView {
        validator_id: r.validator_id,
        event_type: t,
        snapshots_missed: missed,
        participation_rate_bps: r.participation_rate_bps,
        timestamp: now,
        cycle,
    }
}

/// The events a threshold check raises for one record: a threshold event
/// when it violates, a warning when its participation is low.
pub open spec fn check_events_one(
    r: DowntimeRecordView,
    cfg: DowntimeConfig,
    now: u64,
    cycle: u64,
) -> Seq<DowntimeEventView> {
    if violates(r, cfg) {
        seq![event_for(r, DowntimeEventType::ThresholdExceeded, r.snapshots_missed, now, cycle)]
    } else if warns(r, cfg) {
        seq![event_for(r, DowntimeEventType::ParticipationWarning, r.snapshots_missed, now, cycle)]
    } else {
        Seq::empty()
    }
}

/// The events a threshold check raises, record by record.
pub open spec fn check_events(
    s: Seq<DowntimeRecordView>,
    cfg: DowntimeConfig,
    now: u64,
    cycle: u64,
) -> Seq<DowntimeEventView>
    decreases s.len(),
{
    if s.len() == 0 {
        Seq::empty()
    } else {
        check_events(s.drop_last(), cfg, now, cycle) + check_events_one(s.last(), cfg, now, cycle)
    }
}

/// The identifiers of the violating records, in order.
pub open spec fn violating_ids(s: Seq<DowntimeRecordView>, cfg: DowntimeConfig) -> Seq<Seq<u8>>
    decreases s.len(),
{
    if s.len() == 0 {
        Seq::empty()
    } else if violates(s.last(), cfg) {
        violating_ids(s.drop_last(), cfg).push(s.last().validator_id)
    } else {
        violating_ids(s.drop_last(), cfg)
    }
}

/// A record after one recovery step.
pub open spec fn after_recovery_step(r: DowntimeRecordView, cfg: DowntimeConfig) -> DowntimeRecordView {
    if !r.in_recovery {
        r
    } else if r.recovery_snapshots_completed + 1 >= cfg.recovery_period {
        DowntimeRecordView {
            in_recovery: false,
            snapshots_missed: 0,
            recovery_snapshots_completed: 0,
            ..r
        }
    } else {
        DowntimeRecordView {
            recovery_snapshots_completed: (r.recovery_snapshots_completed + 1) as u64,
            ..r
        }
    }
}

/// The record completes its recovery with this step.
pub open spec fn recovers(r: DowntimeRecordView, cfg: DowntimeConfig) -> bool {
    r.in_recovery && r.recovery_snapshots_completed + 1 >= cfg.recovery_period
}

/// The identifiers of the records that complete recovery, in order.
pub open spec fn recovering_ids(s: Seq<DowntimeRecordView>, cfg: DowntimeConfig) -> Seq<Seq<u8>>
    decreases s.len(),
{
    if s.len() == 0 {
        Seq::empty()
    } else if recovers(s.last(), cfg) {
        recovering_ids(s.drop_last(), cfg).push(s.last().validator_id)
    } else {
        recovering_ids(s.drop_last(), cfg)
    }
}

/// The events of a recovery step, record by record.
pub open spec fn recovery_events(
    s: Seq<DowntimeRecordView>,
    cfg: DowntimeConfig,
    now: u64,
    cycle: u64,
) -> Seq<DowntimeEventView>
    decreases s.len(),
{
    if s.len() == 0 {
        Seq::empty()
    } else if recovers(s.last(), cfg) {
        recovery_events(s.drop_last(), cfg, now, cycle).push(
            event_for(s.last(), DowntimeEventType::ExitedRecovery, 0, now, cycle),
        )
    } else {
        recovery_events(s.drop_last(), cfg, now, cycle)
    }
}

/// The identifiers of the records that satisfy `p`, in order.
pub open spec fn ids_where(
    s: Seq<DowntimeRecordView>,
    p: spec_fn(DowntimeRecordView) -> bool,
) -> Seq<Seq<u8>>
    decreases s.len(),
{
    if s.len() == 0 {
        Seq::empty()
    } else if p(s.last()) {
        ids_where(s.drop_last(), p).push(s.last().validator_id)
    } else {
        ids_where(s.drop_last(), p)
    }
}

/// The events of one validator, in order.
pub open spec fn downtime_events_of(h: Seq<DowntimeEventView>, id: Seq<u8>) -> Seq<DowntimeEventView>
    decreases h.len(),
{
    if h.len() == 0 {
        Seq::empty()
    } else if h.last().validator_id == id {
        downtime_events_of(h.drop_last(), id).push(h.last())
    } else {
        downtime_events_of(h.drop_last(), id)
    }
}

/// Downtime tracker.
pub struct DowntimeTracker {
    config: DowntimeConfig,
    records: IdTable<ValidatorDowntimeRecord>,
    events: Vec<DowntimeEvent>,
    current_cycle: u64,
}

impl DowntimeTracker {
    /// The configuration.
    pub closed spec fn cfg(&self) -> DowntimeConfig {
        self.config
    }

    /// The records, in the order the validators were first seen.
    pub closed spec fn records(&self) -> Seq<DowntimeRecordView> {
        self.records.pairs().map_values(|e: (Seq<u8>, ValidatorDowntimeRecord)| e.1@)
    }

    /// The records by validator.
    pub closed spec fn record_map(&self) -> Map<Seq<u8>, DowntimeRecordView> {
        self.records.map().map_values(|r: ValidatorDowntimeRecord| r@)
    }

    /// Every event, oldest first.
    pub closed spec fn events(&self) -> Seq<DowntimeEventView> {
        downtime_event_views(self.events@)
    }

    /// The current cycle.
    pub closed spec fn cycle(&self) -> u64 {
        self.current_cycle
    }

    /// One record per validator, filed under its identifier, with counters
    /// that make sense.
    pub closed spec fn wf(&self) -> bool {
        &&& self.records.wf()
        &&& forall|i: int|
            0 <= i < self.records.pairs().len() ==> (#[trigger] self.records.pairs()[i]).1.validator_id@
                == self.records.pairs()[i].0 && record_ok(self.records.pairs()[i].1@)
    }

    /// The records and the map agree.
    pub proof fn lemma_records_map(&self, k: Seq<u8>)
        requires
            self.wf(),
        ensures
            self.record_map().dom().contains(k) <==> exists|i: int|
                0 <= i < self.records().len() && self.records()[i].validator_id == k,
            forall|i: int|
                0 <= i < self.records().len() ==> self.record_map().dom().contains(
                    #[trigger] self.records()[i].validator_id,
                ) && self.record_map()[self.records()[i].validator_id] == self.records()[i],
            forall|i: int| 0 <= i < self.records().len() ==> record_ok(#[trigger] self.records()[i]),
            self.record_map().dom().finite(),
            self.record_map().dom().len() == self.records().len(),
    {
        let t = &self.records;
        t.lemma_dom(k);
        t.lemma_len();
        if self.record_map().dom().contains(k) {
            let i = choose|i: int| 0 <= i < t.pairs().len() && t.pairs()[i].0 == k;
            assert(self.records()[i].validator_id == k);
        }
        if exists|i: int| 0 <= i < self.records().len() && self.records()[i].validator_id == k {
            let i = choose|i: int| 0 <= i < self.records().len() && self.records()[i].validator_id == k;
            assert(t.pairs()[i].1.validator_id@ == t.pairs()[i].0);
        }
        assert forall|i: int| 0 <= i < self.records().len() implies self.record_map().dom().contains(
            #[trigger] self.records()[i].validator_id,
        ) && self.record_map()[self.records()[i].validator_id] == self.records()[i] by {
            t.lemma_at(i);
            assert(t.pairs()[i].1.validator_id@ == t.pairs()[i].0);
        }
        assert forall|i: int| 0 <= i < self.records().len() implies record_ok(#[trigger] self.records()[i]) by {
            assert(record_ok(t.pairs()[i].1@));
        }
        assert(self.record_map().dom() =~= t.map().dom());
    }

    /// A tracker with no records at cycle 0.
    pub fn new(config: DowntimeConfig) -> (r: Self)
        ensures
            r.wf(),
            r.cfg() == config,
            r.records() == Seq::<DowntimeRecordView>::empty(),
            r.record_map() == Map::<Seq<u8>, DowntimeRecordView>::empty(),
            r.events() == Seq::<DowntimeEventView>::empty(),
            r.cycle() == 0,
    {
        let r = DowntimeTracker { config, records: IdTable::new(), events: Vec::new(), current_cycle: 0 };
        assert(r.records() =~= Seq::<DowntimeRecordView>::empty());
        assert(r.record_map() =~= Map::<Seq<u8>, DowntimeRecordView>::empty());
        assert(r.events() =~= Seq::<DowntimeEventView>::empty());
        r
    }

    /// A tracker with the default configuration.
    pub fn default() -> (r: Self)
        ensures
            r.wf(),
            r.cfg() == (DowntimeConfig {
                downtime_threshold: 50,
                recovery_period: 100,
                min_participation_bps: 9000,
                penalty_reduction_per_snapshot_bps: 100,
            }),
            r.records() == Seq::<DowntimeRecordView>::empty(),
            r.events() == Seq::<DowntimeEventView>::empty(),
            r.cycle() == 0,
    {
        Self::new(DowntimeConfig::default())
    }

    /// Record a validator's participation in a snapshot, starting a record
    /// for a validator seen for the first time.
    pub fn record_participation(&mut self, validator_id: ValidatorID, participated: bool)
        requires
            old(self).wf(),
            old(self).record_map().dom().contains(validator_id@) ==> can_count(
                old(self).record_map()[validator_id@],
            ),
        ensures
            final(self).wf(),
            final(self).cfg() == old(self).cfg(),
            final(self).events() == old(self).events(),
            final(self).cycle() == old(self).cycle(),
            old(self).record_map().dom().contains(validator_id@) ==> final(self).record_map() == old(self).record_map().insert(
                validator_id@,
                after_snapshot(old(self).record_map()[validator_id@], participated),
            ),
            !old(self).record_map().dom().contains(validator_id@) ==> final(self).record_map()
                == old(self).record_map().insert(
                validator_id@,
                after_snapshot(fresh_record(validator_id@), participated),
            ) && final(self).records() == old(self).records().push(
                after_snapshot(fresh_record(validator_id@), participated),
            ),
    {
        let i = match self.records.find(&validator_id) {
            Some(i) => i,
            None => {
                let rec = ValidatorDowntimeRecord::new(validator_id.copy());
                let ghost rv = rec@;
                let ghost before = self.records.pairs();
                self.records.push(validator_id, rec);
                proof {
                    let newp = self.records.pairs();
                    assert forall|j: int| 0 <= j < newp.len() implies (#[trigger] newp[j]).1.validator_id@
                        == newp[j].0 && record_ok(newp[j].1@) by {
                        if j < before.len() {
                            assert(newp[j] == before[j]);
                        }
                    }
                }
                self.records.len() - 1
            },
        };
        let ghost mid = self.records.pairs();
        let ghost mid_recs = self.records();
        let ghost mid_map = self.record_map();
        proof {
            self.records.lemma_at(i as int);
            assert(record_ok(mid[i as int].1@));
        }
        {
            let rec = self.records.value_mut(i);
            rec.record_participation(participated);
        }
        proof {
            let v = self.records.pairs()[i as int].1;
            assert(self.records.pairs() =~= mid.update(i as int, (mid[i as int].0, v)));
            crate::table::lemma_seq_to_map_update(mid, i as int, v);
            assert forall|j: int| 0 <= j < self.records.pairs().len() implies (
            #[trigger] self.records.pairs()[j]).1.validator_id@ == self.records.pairs()[j].0 && record_ok(
                self.records.pairs()[j].1@,
            ) by {
                if j != i {
                    assert(self.records.pairs()[j] == mid[j]);
                }
            }
            assert(self.record_map() =~= mid_map.insert(validator_id@, v@));
            if !old(self).record_map().dom().contains(validator_id@) {
                assert(self.records() =~= old(self).records().push(v@));
                assert(mid_map =~= old(self).record_map().insert(validator_id@, fresh_record(validator_id@)));
            }
        }
    }

    /// Check every record at `now`: a record that crosses the downtime
    /// threshold outside recovery enters recovery and is reported; a record
    /// whose participation is low outside recovery raises a warning.
    pub fn check_downtime_violations_at(&mut self, now: u64) -> (r: Vec<ValidatorID>)
        requires
            old(self).wf(),
        ensures
            final(self).wf(),
            final(self).cfg() == old(self).cfg(),
            final(self).cycle() == old(self).cycle(),
            id_views(r@) == violating_ids(old(self).records(), old(self).cfg()),
            final(self).records() == old(self).records().map_values(
                |x: DowntimeRecordView| after_check(x, old(self).cfg()),
            ),
            final(self).events() == old(self).events() + check_events(
                old(self).records(),
                old(self).cfg(),
                now,
                old(self).cycle(),
            ),
    {
        let mut violations: Vec<ValidatorID> = Vec::new();
        let n = self.records.len();
        let ghost orig = self.records();
        let ghost orig_pairs = self.records.pairs();
        let ghost cfg = self.config;
        let ghost ev0 = self.events();
        let mut i: usize = 0;
        while i < n
            invariant
                n == orig.len(),
                orig == old(self).records(),
                orig_pairs == old(self).records.pairs(),
                orig_pairs.len() == n,
                self.records.pairs().len() == n,
                self.records.wf(),
                cfg == old(self).config,
                self.config == cfg,
                self.current_cycle == old(self).current_cycle,
                ev0 == old(self).events(),
                i <= n,
                forall|j: int| 0 <= j < n ==> (#[trigger] self.records.pairs()[j]).0 == orig_pairs[j].0,
                forall|j: int|
                    0 <= j < n ==> (#[trigger] self.records.pairs()[j]).1.validator_id@ == orig_pairs[j].0
                        && record_ok(self.records.pairs()[j].1@),
                forall|j: int| 0 <= j < i ==> #[trigger] self.records()[j] == after_check(orig[j], cfg),
                forall|j: int| i <= j < n ==> #[trigger] self.records()[j] == orig[j],
                id_views(violations@) == violating_ids(orig.take(i as int), cfg),
                self.events() == ev0 + check_events(orig.take(i as int), cfg, now, self.current_cycle),
            decreases n - i,
        {
            let ghost mid = self.records.pairs();
            let ghost mid_recs = self.records();
            let ghost mid_ev = self.events();
            proof {
                assert(orig.take(i + 1).drop_last() =~= orig.take(i as int));
                assert(mid_recs[i as int] == orig[i as int]);
                assert(mid[i as int].1@ == mid_recs[i as int]);
                assert(orig_pairs[i as int].1.validator_id@ == orig_pairs[i as int].0) by {
                    assert(old(self).records.pairs()[i as int].1.validator_id@ == old(self).records.pairs()[i as int].0);
                }
            }
            let threshold = self.config.downtime_threshold;
            let min_bps = self.config.min_participation_bps;
            let cycle = self.current_cycle;
            let (violated, warned, id, missed, rate) = {
                let rec = self.records.value_mut(i);
                let violated = rec.exceeds_threshold(threshold) && !rec.in_recovery;
                if violated {
                    rec.enter_recovery();
                }
                let warned = rec.participation_rate_bps < min_bps && !rec.in_recovery;
                (violated, warned, rec.validator_id.copy(), rec.snapshots_missed, rec.participation_rate_bps)
            };
            proof {
                let v = self.records.pairs()[i as int].1;
                assert(self.records.pairs() =~= mid.update(i as int, (mid[i as int].0, v)));
                crate::table::lemma_seq_to_map_update(mid, i as int, v);
                assert forall|j: int| 0 <= j < n && j != i implies #[trigger] self.records()[j] == mid_recs[j] by {
                    assert(self.records.pairs()[j] == mid[j]);
                }
                assert(self.records()[i as int] == v@);
                assert(v@ == after_check(orig[i as int], cfg));
                assert(violated == violates(orig[i as int], cfg));
                assert(warned == warns(orig[i as int], cfg));
            }
            if violated {
                let ghost v0 = violations@;
                violations.push(id.copy());
                proof {
                    assert(id_views(violations@) =~= id_views(v0).push(orig[i as int].validator_id));
                }
                let ghost e0 = self.events@;
                self.events.push(
                    DowntimeEvent {
                        validator_id: id,
                        event_type: DowntimeEventType::ThresholdExceeded,
                        snapshots_missed: missed,
                        participation_rate_bps: rate,
                        timestamp: now,
                        cycle,
                    },
                );
                proof {
                    assert(downtime_event_views(self.events@) =~= downtime_event_views(e0).push(
                        event_for(orig[i as int], DowntimeEventType::ThresholdExceeded, orig[i as int].snapshots_missed, now, cycle),
                    ));
                }
            } else if warned {
                let ghost e0 = self.events@;
                self.events.push(
                    DowntimeEvent {
                        validator_id: id,
                        event_type: DowntimeEventType::ParticipationWarning,
                        snapshots_missed: missed,
                        participation_rate_bps: rate,
                        timestamp: now,
                        cycle,
                    },
                );
                proof {
                    assert(downtime_event_views(self.events@) =~= downtime_event_views(e0).push(
                        event_for(orig[i as int], DowntimeEventType::ParticipationWarning, orig[i as int].snapshots_missed, now, cycle),
                    ));
                }
            }
            proof {
                let one = check_events_one(orig[i as int], cfg, now, cycle);
                assert(self.events() =~= mid_ev + one);
                assert(check_events(orig.take(i + 1), cfg, now, cycle) == check_events(orig.take(i as int), cfg, now, cycle) + one);
                assert(self.events() =~= ev0 + check_events(orig.take(i + 1), cfg, now, cycle));
                assert forall|j: int| 0 <= j < i + 1 implies #[trigger] self.records()[j] == after_check(orig[j], cfg) by {
                    if j < i {
                        assert(self.records()[j] == mid_recs[j]);
                    }
                }
                assert forall|j: int| i + 1 <= j < n implies #[trigger] self.records()[j] == orig[j] by {
                    assert(self.records()[j] == mid_recs[j]);
                }
                assert forall|j: int| 0 <= j < n implies (#[trigger] self.records.pairs()[j]).1.validator_id@
                    == orig_pairs[j].0 && record_ok(self.records.pairs()[j].1@) by {
                    if j != i {
                        assert(self.records.pairs()[j] == mid[j]);
                    }
                }
            }
            i = i + 1;
        }
        proof {
            assert(orig.take(n as int) =~= orig);
            assert(self.records() =~= orig.map_values(|x: DowntimeRecordView| after_check(x, cfg)));
            assert forall|j: int| 0 <= j < self.records.pairs().len() implies (
            #[trigger] self.records.pairs()[j]).1.validator_id@ == self.records.pairs()[j].0 && record_ok(
                self.records.pairs()[j].1@,
            ) by {
                assert(self.records.pairs()[j].0 == orig_pairs[j].0);
            }
        }
        violations
    }

    /// Check every record now (by the system clock).
    pub fn check_downtime_violations(&mut self) -> (r: Vec<ValidatorID>)
        requires
            old(self).wf(),
        ensures
            final(self).wf(),
            final(self).cfg() == old(self).cfg(),
            id_views(r@) == violating_ids(old(self).records(), old(self).cfg()),
            final(self).records() == old(self).records().map_values(
                |x: DowntimeRecordView| after_check(x, old(self).cfg()),
            ),
            exists|now: u64|
                final(self).events() == old(self).events() + #[trigger] check_events(
                    old(self).records(),
                    old(self).cfg(),
                    now,
                    old(self).cycle(),
                ),
    {
        let now = unix_time_secs();
        self.check_downtime_violations_at(now)
    }

    /// One recovery step at `now`: every record in recovery counts a
    /// snapshot; those that complete the recovery period leave recovery
    /// with their missed snapshots forgiven and are reported.
    pub fn process_recovery_at(&mut self, now: u64) -> (r: Vec<ValidatorID>)
        requires
            old(self).wf(),
            forall|j: int|
                0 <= j < old(self).records().len() ==> (#[trigger] old(self).records()[j]).recovery_snapshots_completed
                    < u64::MAX,
        ensures
            final(self).wf(),
            final(self).cfg() == old(self).cfg(),
            final(self).cycle() == old(self).cycle(),
            id_views(r@) == recovering_ids(old(self).records(), old(self).cfg()),
            final(self).records() == old(self).records().map_values(
                |x: DowntimeRecordView| after_recovery_step(x, old(self).cfg()),
            ),
            final(self).events() == old(self).events() + recovery_events(
                old(self).records(),
                old(self).cfg(),
                now,
                old(self).cycle(),
            ),
    {
        let mut recovered: Vec<ValidatorID> = Vec::new();
        let n = self.records.len();
        let ghost orig = self.records();
        let ghost orig_pairs = self.records.pairs();
        let ghost cfg = self.config;
        let ghost ev0 = self.events();
        let mut i: usize = 0;
        while i < n
            invariant
                n == orig.len(),
                orig == old(self).records(),
                orig_pairs == old(self).records.pairs(),
                orig_pairs.len() == n,
                self.records.pairs().len() == n,
                self.records.wf(),
                cfg == old(self).config,
                self.config == cfg,
                self.current_cycle == old(self).current_cycle,
                ev0 == old(self).events(),
                i <= n,
                forall|j: int| 0 <= j < n ==> (#[trigger] orig[j]).recovery_snapshots_completed < u64::MAX,
                forall|j: int| 0 <= j < n ==> (#[trigger] self.records.pairs()[j]).0 == orig_pairs[j].0,
                forall|j: int|
                    0 <= j < n ==> (#[trigger] self.records.pairs()[j]).1.validator_id@ == orig_pairs[j].0
                        && record_ok(self.records.pairs()[j].1@),
                forall|j: int| 0 <= j < i ==> #[trigger] self.records()[j] == after_recovery_step(orig[j], cfg),
                forall|j: int| i <= j < n ==> #[trigger] self.records()[j] == orig[j],
                id_views(recovered@) == recovering_ids(orig.take(i as int), cfg),
                self.events() == ev0 + recovery_events(orig.take(i as int), cfg, now, self.current_cycle),
            decreases n - i,
        {
            let ghost mid = self.records.pairs();
            let ghost mid_recs = self.records();
            let ghost mid_ev = self.events();
            proof {
                assert(orig.take(i + 1).drop_last() =~= orig.take(i as int));
                assert(mid_recs[i as int] == orig[i as int]);
                assert(mid[i as int].1@ == mid_recs[i as int]);
                assert(orig[i as int].recovery_snapshots_completed < u64::MAX);
            }
            let period = self.config.recovery_period;
            let cycle = self.current_cycle;
            let (done, id, rate) = {
                let rec = self.records.value_mut(i);
                let mut done = false;
                if rec.in_recovery {
                    rec.record_recovery_snapshot();
                    if rec.recovery_snapshots_completed >= period {
                        rec.exit_recovery();
                        done = true;
                    }
                }
                (done, rec.validator_id.copy(), rec.participation_rate_bps)
            };
            proof {
                let v = self.records.pairs()[i as int].1;
                assert(self.records.pairs() =~= mid.update(i as int, (mid[i as int].0, v)));
                crate::table::lemma_seq_to_map_update(mid, i as int, v);
                assert forall|j: int| 0 <= j < n && j != i implies #[trigger] self.records()[j] == mid_recs[j] by {
                    assert(self.records.pairs()[j] == mid[j]);
                }
                assert(self.records()[i as int] == v@);
                assert(v@ == after_recovery_step(orig[i as int], cfg));
                assert(done == recovers(orig[i as int], cfg));
            }
            if done {
                let ghost r0 = recovered@;
                recovered.push(id.copy());
                proof {
                    assert(id_views(recovered@) =~= id_views(r0).push(orig[i as int].validator_id));
                }
                let ghost e0 = self.events@;
                self.events.push(
                    DowntimeEvent {
                        validator_id: id,
                        event_type: DowntimeEventType::ExitedRecovery,
                        snapshots_missed: 0,
                        participation_rate_bps: rate,
                        timestamp: now,
                        cycle,
                    },
                );
                proof {
                    assert(downtime_event_views(self.events@) =~= downtime_event_views(e0).push(
                        event_for(orig[i as int], DowntimeEventType::ExitedRecovery, 0, now, cycle),
                    ));
                }
            }
            proof {
                assert(self.events() =~= ev0 + recovery_events(orig.take(i + 1), cfg, now, cycle));
                assert forall|j: int| 0 <= j < i + 1 implies #[trigger] self.records()[j] == after_recovery_step(orig[j], cfg) by {
                    if j < i {
                        assert(self.records()[j] == mid_recs[j]);
                    }
                }
                assert forall|j: int| i + 1 <= j < n implies #[trigger] self.records()[j] == orig[j] by {
                    assert(self.records()[j] == mid_recs[j]);
                }
                assert forall|j: int| 0 <= j < n implies (#[trigger] self.records.pairs()[j]).1.validator_id@
                    == orig_pairs[j].0 && record_ok(self.records.pairs()[j].1@) by {
                    if j != i {
                        assert(self.records.pairs()[j] == mid[j]);
                    }
                }
            }
            i = i + 1;
        }
        proof {
            assert(orig.take(n as int) =~= orig);
            assert(self.records() =~= orig.map_values(|x: DowntimeRecordView| after_recovery_step(x, cfg)));
            assert forall|j: int| 0 <= j < self.records.pairs().len() implies (
            #[trigger] self.records.pairs()[j]).1.validator_id@ == self.records.pairs()[j].0 && record_ok(
                self.records.pairs()[j].1@,
            ) by {
                assert(self.records.pairs()[j].0 == orig_pairs[j].0);
            }
        }
        recovered
    }

    /// One recovery step now (by the system clock).
    pub fn process_recovery(&mut self) -> (r: Vec<ValidatorID>)
        requires
            old(self).wf(),
            forall|j: int|
                0 <= j < old(self).records().len() ==> (#[trigger] old(self).records()[j]).recovery_snapshots_completed
                    < u64::MAX,
        ensures
            final(self).wf(),
            final(self).cfg() == old(self).cfg(),
            id_views(r@) == recovering_ids(old(self).records(), old(self).cfg()),
            final(self).records() == old(self).records().map_values(
                |x: DowntimeRecordView| after_recovery_step(x, old(self).cfg()),
            ),
            exists|now: u64|
                final(self).events() == old(self).events() + #[trigger] recovery_events(
                    old(self).records(),
                    old(self).cfg(),
                    now,
                    old(self).cycle(),
                ),
    {
        let now = unix_time_secs();
        self.process_recovery_at(now)
    }

    /// A validator's record.
    pub fn get_record(&self, validator_id: &ValidatorID) -> (r: Option<&ValidatorDowntimeRecord>)
        requires
            self.wf(),
        ensures
            r is None <==> !self.record_map().dom().contains(validator_id@),
            r matches Some(rec) ==> rec@ == self.record_map()[validator_id@],
    {
        self.records.get(validator_id)
    }

    /// Mutable access to a validator's record. The tracker stays well
    /// formed as long as the record keeps its validator and its counters
    /// make sense.
    pub fn get_record_mut(&mut self, validator_id: &ValidatorID) -> (r: Option<
        &mut ValidatorDowntimeRecord,
    >)
        requires
            old(self).wf(),
        ensures
            final(self).cfg() == old(self).cfg(),
            final(self).events() == old(self).events(),
            final(self).cycle() == old(self).cycle(),
            r is None <==> !old(self).record_map().dom().contains(validator_id@),
            r is None ==> final(self).record_map() == old(self).record_map() && final(self).wf(),
            r is Some ==> (*r->Some_0)@ == old(self).record_map()[validator_id@],
            r is Some ==> final(self).record_map() == old(self).record_map().insert(
                validator_id@,
                (*final(r->Some_0))@,
            ),
            r is Some && (*final(r->Some_0)).validator_id@ == validator_id@ && record_ok(
                (*final(r->Some_0))@,
            ) ==> final(self).wf(),
    {
        self.records.get_mut(validator_id)
    }

    /// The identifiers of the records that satisfy `which` (0: in
    /// recovery; 1: participation below the minimum), in order.
    fn ids_matching(&self, which: u8) -> (r: Vec<ValidatorID>)
        requires
            self.wf(),
        ensures
            id_views(r@) == ids_where(self.records(), record_filter(which, self.cfg())),
    {
        let ghost p = record_filter(which, self.cfg());
        let mut out: Vec<ValidatorID> = Vec::new();
        let mut i: usize = 0;
        let n = self.records.len();
        while i < n
            invariant
                self.wf(),
                p == record_filter(which, self.cfg()),
                n == self.records().len(),
                i <= n,
                id_views(out@) == ids_where(self.records().take(i as int), p),
            decreases n - i,
        {
            proof {
                assert(self.records().take(i + 1).drop_last() =~= self.records().take(i as int));
                assert(self.records()[i as int] == self.records.pairs()[i as int].1@);
            }
            let rec = self.records.value_at(i);
            let hit = if which == 0 {
                rec.in_recovery
            } else {
                rec.participation_rate_bps < self.config.min_participation_bps
            };
            if hit {
                let ghost o0 = out@;
                out.push(rec.validator_id.copy());
                assert(id_views(out@) =~= id_views(o0).push(self.records()[i as int].validator_id));
            }
            i = i + 1;
        }
        assert(self.records().take(n as int) =~= self.records());
        out
    }

    /// The validators in recovery, in order.
    pub fn get_validators_in_recovery(&self) -> (r: Vec<ValidatorID>)
        requires
            self.wf(),
        ensures
            id_views(r@) == ids_where(self.records(), record_filter(0, self.cfg())),
    {
        self.ids_matching(0)
    }

    /// The validators whose participation is below the minimum, in order.
    pub fn get_low_participation_validators(&self) -> (r: Vec<ValidatorID>)
        requires
            self.wf(),
        ensures
            id_views(r@) == ids_where(self.records(), record_filter(1, self.cfg())),
    {
        self.ids_matching(1)
    }

    /// Every event, oldest first.
    pub fn get_events(&self) -> (r: &[DowntimeEvent])
        ensures
            downtime_event_views(r@) == self.events(),
    {
        self.events.as_slice()
    }

    /// The events of one validator, oldest first.
    pub fn get_validator_events(&self, validator_id: &ValidatorID) -> (r: Vec<DowntimeEvent>)
        ensures
            downtime_event_views(r@) == downtime_events_of(self.events(), validator_id@),
    {
        let mut out: Vec<DowntimeEvent> = Vec::new();
        let mut i: usize = 0;
        while i < self.events.len()
            invariant
                i <= self.events().len(),
                self.events().len() == self.events@.len(),
                downtime_event_views(out@) == downtime_events_of(self.events().take(i as int), validator_id@),
            decreases self.events@.len() - i,
        {
            proof {
                assert(self.events().take(i + 1).drop_last() =~= self.events().take(i as int));
            }
            let e = &self.events[i];
            if e.validator_id.same_as(validator_id) {
                let ghost o0 = out@;
                out.push(e.clone());
                assert(downtime_event_views(out@) =~= downtime_event_views(o0).push(self.events()[i as int]));
            }
            i = i + 1;
        }
        assert(self.events().take(i as int) =~= self.events());
        out
    }

    /// The penalty reduction a validator has earned, in basis points: its
    /// completed recovery snapshots times the per-snapshot reduction while
    /// in recovery, else 0.
    pub fn get_penalty_reduction_bps(&self, validator_id: &ValidatorID) -> (r: u128)
        requires
            self.wf(),
        ensures
            r == (if self.record_map().dom().contains(validator_id@)
                && self.record_map()[validator_id@].in_recovery {
                self.record_map()[validator_id@].recovery_snapshots_completed
                    * self.cfg().penalty_reduction_per_snapshot_bps
            } else {
                0
            }),
    {
        match self.records.get(validator_id) {
            Some(rec) => {
                if rec.in_recovery {
                    let a = rec.recovery_snapshots_completed as u128;
                    let b = self.config.penalty_reduction_per_snapshot_bps as u128;
                    assert(a * b <= u64::MAX as int * u64::MAX as int) by (nonlinear_arith)
                        requires
                            a <= u64::MAX,
                            b <= u64::MAX,
                    ;
                    a * b
                } else {
                    0
                }
            },
            None => 0,
        }
    }

    /// Advance to the next cycle: the period counters of every record not
    /// in recovery are reset.
    pub fn advance_cycle(&mut self)
        requires
            old(self).wf(),
            old(self).cycle() < u64::MAX,
        ensures
            final(self).wf(),
            final(self).cfg() == old(self).cfg(),
            final(self).events() == old(self).events(),
            final(self).cycle() == old(self).cycle() + 1,
            final(self).records() == old(self).records().map_values(
                |x: DowntimeRecordView| if x.in_recovery {
                    x
                } else {
                    period_reset(x)
                },
            ),
    {
        self.current_cycle = self.current_cycle + 1;
        let n = self.records.len();
        let ghost orig = self.records();
        let ghost orig_pairs = self.records.pairs();
        let mut i: usize = 0;
        while i < n
            invariant
                n == orig.len(),
                orig == old(self).records(),
                orig_pairs == old(self).records.pairs(),
                orig_pairs.len() == n,
                self.records.pairs().len() == n,
                self.records.wf(),
                self.config == old(self).config,
                self.events == old(self).events,
                self.current_cycle == old(self).current_cycle + 1,
                i <= n,
                forall|j: int| 0 <= j < n ==> (#[trigger] self.records.pairs()[j]).0 == orig_pairs[j].0,
                forall|j: int|
                    0 <= j < n ==> (#[trigger] self.records.pairs()[j]).1.validator_id@ == orig_pairs[j].0
                        && record_ok(self.records.pairs()[j].1@),
                forall|j: int|
                    0 <= j < i ==> #[trigger] self.records()[j] == (if orig[j].in_recovery {
                        orig[j]
                    } else {
                        period_reset(orig[j])
                    }),
                forall|j: int| i <= j < n ==> #[trigger] self.records()[j] == orig[j],
            decreases n - i,
        {
            let ghost mid = self.records.pairs();
            let ghost mid_recs = self.records();
            proof {
                assert(mid_recs[i as int] == orig[i as int]);
                assert(mid[i as int].1@ == mid_recs[i as int]);
            }
            {
                let rec = self.records.value_mut(i);
                if !rec.in_recovery {
                    rec.reset_period();
                }
            }
            proof {
                let v = self.records.pairs()[i as int].1;
                assert(self.records.pairs() =~= mid.update(i as int, (mid[i as int].0, v)));
                assert forall|j: int| 0 <= j < n && j != i implies #[trigger] self.records()[j] == mid_recs[j] by {
                    assert(self.records.pairs()[j] == mid[j]);
                }
                assert(self.records()[i as int] == v@);
                assert forall|j: int| 0 <= j < i + 1 implies #[trigger] self.records()[j] == (if orig[j].in_recovery {
                    orig[j]
                } else {
                    period_reset(orig[j])
                }) by {
                    if j < i {
                        assert(self.records()[j] == mid_recs[j]);
                    }
                }
                assert forall|j: int| i + 1 <= j < n implies #[trigger] self.records()[j] == orig[j] by {
                    assert(self.records()[j] == mid_recs[j]);
                }
                assert forall|j: int| 0 <= j < n implies (#[trigger] self.records.pairs()[j]).1.validator_id@
                    == orig_pairs[j].0 && record_ok(self.records.pairs()[j].1@) by {
                    if j != i {
                        assert(self.records.pairs()[j] == mid[j]);
                    }
                }
            }
            i = i + 1;
        }
        proof {
            assert(self.records() =~= orig.map_values(
                |x: DowntimeRecordView| if x.in_recovery {
                    x
                } else {
                    period_reset(x)
                },
            ));
            assert forall|j: int| 0 <= j < self.records.pairs().len() implies (
            #[trigger] self.records.pairs()[j]).1.validator_id@ == self.records.pairs()[j].0 && record_ok(
                self.records.pairs()[j].1@,
            ) by {
                assert(self.records.pairs()[j].0 == orig_pairs[j].0);
            }
        }
    }

    /// The current cycle.
    pub fn current_cycle(&self) -> (r: u64)
        ensures
            r == self.cycle(),
    {
        self.current_cycle
    }

    /// The configuration.
    pub fn config(&self) -> (r: &DowntimeConfig)
        ensures
            *r == self.cfg(),
    {
        &self.config
    }

    /// Replace the configuration.
    pub fn set_config(&mut self, config: DowntimeConfig)
        ensures
            final(self).cfg() == config,
            final(self).records() == old(self).records(),
            final(self).record_map() == old(self).record_map(),
            final(self).events() == old(self).events(),
            final(self).cycle() == old(self).cycle(),
            old(self).wf() ==> final(self).wf(),
    {
        self.config = config;
    }

    /// The number of validators tracked.
    pub fn validator_count(&self) -> (r: usize)
        ensures
            r == self.records().len(),
    {
        self.records.len()
    }

    /// The number of validators in recovery.
    pub fn recovery_count(&self) -> (r: usize)
        requires
            self.wf(),
        ensures
            r == ids_where(self.records(), record_filter(0, self.cfg())).len(),
    {
        self.ids_matching(0).len()
    }

    /// The number of events recorded.
    pub fn event_count(&self) -> (r: usize)
        ensures
            r == self.events().len(),
    {
        self.events.len()
    }
}

/// The record filters behind the listings: in recovery (0) or
/// participation below the minimum (otherwise).
pub open spec fn record_filter(which: u8, cfg: DowntimeConfig) -> spec_fn(DowntimeRecordView) -> bool {
    |r: DowntimeRecordView| if which == 0 {
        r.in_recovery
    } else {
        r.participation_rate_bps < cfg.min_participation_bps
    }
}

/// Crossing the threshold puts a validator into recovery; the next check
/// neither reports it again nor warns about it while it recovers.
pub proof fn lemma_violation_reported_once(r: DowntimeRecordView, cfg: DowntimeConfig)
    requires
        violates(r, cfg),
    ensures
        after_check(r, cfg).in_recovery,
        !violates(after_check(r, cfg), cfg),
        !warns(after_check(r, cfg), cfg),
        after_check(after_check(r, cfg), cfg) == after_check(r, cfg),
{
}

/// Completing recovery forgives every missed snapshot and leaves recovery,
/// so the validator is not in violation unless the threshold is 0.
pub proof fn lemma_recovery_forgives(r: DowntimeRecordView, cfg: DowntimeConfig)
    requires
        recovers(r, cfg),
    ensures
        after_recovery_step(r, cfg).snapshots_missed == 0,
        !after_recovery_step(r, cfg).in_recovery,
        cfg.downtime_threshold > 0 ==> !violates(after_recovery_step(r, cfg), cfg),
{
}

/// The participation rate stays within 0 and 100% while the counters make
/// sense, and a missed snapshot never raises it.
pub proof fn lemma_rate_bounds(r: DowntimeRecordView)
    requires
        record_ok(r),
        can_count(r),
    ensures
        after_snapshot(r, false).participation_rate_bps <= 10000,
        after_snapshot(r, true).participation_rate_bps <= 10000,
        record_ok(after_snapshot(r, true)),
        record_ok(after_snapshot(r, false)),
{
    let t = (r.total_snapshots + 1) as int;
    let p = r.snapshots_participated as int;
    assert((p * 10000) / t <= 10000) by (nonlinear_arith)
        requires
            p <= t,
            t > 0,
            p >= 0,
    ;
    assert(((p + 1) * 10000) / t <= 10000) by (nonlinear_arith)
        requires
            p + 1 <= t,
            t > 0,
            p >= 0,
    ;
}

} // verus!
