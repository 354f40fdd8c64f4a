//! Validator commission management:
//! - commission rate setting and validation
//! - notice period enforcement for rate changes
//! - commission deduction from rewards
//! - audit trail of applied changes
use vstd::prelude::*;
use crate::clock::{reached, remaining_until, sat_add, unix_time_secs};
use crate::table::IdTable;
use crate::types::{Error, ValidatorID, id_views};

verus! {

/// Commission configuration.
#[derive(Debug, Clone, Copy, PartialEq, Eq, Structural)]
pub struct CommissionConfig {
    /// Minimum commission rate (percentage, 0-100)
    pub min_commission_rate: u64,
    /// Maximum commission rate (percentage, 0-100)
    pub max_commission_rate: u64,
    /// Notice period for commission changes (seconds)
    pub notice_period_secs: u64,
}

impl Default for CommissionConfig {
    fn default() -> (r: Self)
        ensures
            r == (CommissionConfig {
                min_commission_rate: 5,
                max_commission_rate: 20,
                notice_period_secs: 604800,
            }),
    {
        CommissionConfig { min_commission_rate: 5, max_commission_rate: 20, notice_period_secs: 604800 }
    }
}

/// Commission rate, as a percentage.
#[derive(Debug, Clone, Copy, PartialEq, Eq, Structural)]
pub struct CommissionRate {
    /// Commission rate as percentage (0-100)
    pub rate: u64,
}

/// The commission on `total` at `rate` percent, rounded down.
pub open spec fn commission_on(total: u64, rate: u64) -> int {
    (total * rate) / 100
}

impl CommissionRate {
    /// A commission rate; rates above 100% are refused.
    pub fn new(rate: u64) -> (r: Result<Self, Error>)
        ensures
            rate > 100 ==> r == Err::<Self, Error>(Error::RateAbove100 { rate }),
            rate <= 100 ==> r == Ok::<Self, Error>(CommissionRate { rate }),
    {
        if rate > 100 {
            return Err(Error::RateAbove100 { rate });
        }
        Ok(Self { rate })
    }

    /// Commission amount on `total_amount`.
    pub fn calculate_commission(&self, total_amount: u64) -> (r: u64)
        requires
            total_amount * self.rate <= u64::MAX,
        ensures
            r == commission_on(total_amount, self.rate),
    {
        (total_amount * self.rate) / 100
    }

    /// What remains of `total_amount` after the commission.
    pub fn calculate_after_commission(&self, total_amount: u64) -> (r: u64)
        requires
            total_amount * self.rate <= u64::MAX,
            commission_on(total_amount, self.rate) <= total_amount,
        ensures
            r == total_amount - commission_on(total_amount, self.rate),
    {
        total_amount - self.calculate_commission(total_amount)
    }
}

/// The commission and the remainder add up to the amount, and a rate of at
/// most 100% never takes more than the amount.
pub proof fn lemma_commission_split(total: u64, rate: u64)
    requires
        rate <= 100,
        total * rate <= u64::MAX,
    ensures
        0 <= commission_on(total, rate) <= total,
        commission_on(total, rate) + (total - commission_on(total, rate)) == total,
{
    assert(total * rate <= total * 100) by (nonlinear_arith)
        requires
            rate <= 100,
    ;
    assert((total * rate) / 100 <= total) by (nonlinear_arith)
        requires
            total * rate <= total * 100,
    ;
    assert(0 <= (total * rate) / 100) by (nonlinear_arith);
}

/// The abstract content of a commission change request.
pub struct CommissionChangeRequestView {
    pub validator_id: Seq<u8>,
    pub new_rate: u64,
    pub requested_at: u64,
    pub effective_at: u64,
    pub applied: bool,
}

/// Commission change request.
pub struct CommissionChangeRequest {
    /// Validator ID
    pub validator_id: ValidatorID,
    /// New commission rate
    pub new_rate: CommissionRate,
    /// Requested at
    pub requested_at: u64,
    /// Effective at (after notice period)
    pub effective_at: u64,
    /// Whether change has been applied
    pub applied: bool,
}

impl View for CommissionChangeRequest {
    type V = CommissionChangeRequestView;

    open spec fn view(&self) -> CommissionChangeRequestView {
        CommissionChangeRequestView {
            validator_id: self.validator_id@,
            new_rate: self.new_rate.rate,
            requested_at: self.requested_at,
            effective_at: self.effective_at,
            applied: self.applied,
        }
    }
}

/// The views of an optional request.
pub open spec fn opt_request_view(r: Option<CommissionChangeRequest>) -> Option<
    CommissionChangeRequestView,
> {
    match r {
        Some(x) => Some(x@),
        None => None,
    }
}

/// The views of a sequence of requests.
pub open spec fn request_views(s: Seq<CommissionChangeRequest>) -> Seq<CommissionChangeRequestView> {
    s.map_values(|x: CommissionChangeRequest| x@)
}

/// The request made at `now` with the given notice period.
pub open spec fn request_made_at(
    id: Seq<u8>,
    rate: u64,
    notice_period_secs: u64,
    now: u64,
) -> CommissionChangeRequestView {
    CommissionChangeRequestView {
        validator_id: id,
        new_rate: rate,
        requested_at: now,
        effective_at: sat_add(now, notice_period_secs),
        applied: false,
    }
}

impl Clone for CommissionChangeRequest {
    fn clone(&self) -> (r: Self)
        ensures
            r@ == self@,
    {
        CommissionChangeRequest {
            validator_id: self.validator_id.copy(),
            new_rate: self.new_rate,
            requested_at: self.requested_at,
            effective_at: self.effective_at,
            applied: self.applied,
        }
    }
}

impl CommissionChangeRequest {
    /// A change request made at `now`: effective once the notice period has
    /// passed (the time saturates at `u64::MAX`).
    pub fn new_at(
        validator_id: ValidatorID,
        new_rate: CommissionRate,
        notice_period_secs: u64,
        now: u64,
    ) -> (r: Self)
        ensures
            r@ == request_made_at(validator_id@, new_rate.rate, notice_period_secs, now),
    {
        let effective_at = now.saturating_add(notice_period_secs);
        Self { validator_id, new_rate, requested_at: now, effective_at, applied: false }
    }

    /// A change request made now.
    pub fn new(validator_id: ValidatorID, new_rate: CommissionRate, notice_period_secs: u64) -> (r:
        Self)
        ensures
            exists|now: u64|
                r@ == #[trigger] request_made_at(
                    validator_id@,
                    new_rate.rate,
                    notice_period_secs,
                    now,
                ),
    {
        let now = unix_time_secs();
        Self::new_at(validator_id, new_rate, notice_period_secs, now)
    }

    /// Whether the change is effective at `now`.
    pub fn is_effective_at(&self, now: u64) -> (r: bool)
        ensures
            r == (now >= self.effective_at),
    {
        now >= self.effective_at
    }

    /// Whether the change is effective now (by the system clock).
    pub fn is_effective(&self) -> (r: bool)
        ensures
            exists|now: u64| r == #[trigger] reached(self.effective_at, now),
    {
        let now = unix_time_secs();
        let r = self.is_effective_at(now);
        assert(r == reached(self.effective_at, now));
        r
    }

    /// Seconds of notice left at `now`.
    pub fn remaining_notice_period_at(&self, now: u64) -> (r: u64)
        ensures
            r == remaining_until(self.effective_at, now),
    {
        if now >= self.effective_at {
            0
        } else {
            self.effective_at - now
        }
    }

    /// Seconds of notice left now (by the system clock).
    pub fn remaining_notice_period(&self) -> (r: u64)
        ensures
            exists|now: u64| r == #[trigger] remaining_until(self.effective_at, now),
    {
        self.remaining_notice_period_at(unix_time_secs())
    }
}

/// The abstract content of a validator's commission information.
pub struct ValidatorCommissionInfoView {
    pub validator_id: Seq<u8>,
    pub current_rate: u64,
    pub pending_change: Option<CommissionChangeRequestView>,
    pub change_history: Seq<CommissionChangeRequestView>,
    pub total_commission_collected: u64,
}

/// Validator commission info.
pub struct ValidatorCommissionInfo {
    /// Validator ID
    pub validator_id: ValidatorID,
    /// Current commission rate
    pub current_rate: CommissionRate,
    /// Pending commission change
    pub pending_change: Option<CommissionChangeRequest>,
    /// Commission change history
    pub change_history: Vec<CommissionChangeRequest>,
    /// Total commission collected
    pub total_commission_collected: u64,
}

impl View for ValidatorCommissionInfo {
    type V = ValidatorCommissionInfoView;

    open spec fn view(&self) -> ValidatorCommissionInfoView {
        ValidatorCommissionInfoView {
            validator_id: self.validator_id@,
            current_rate: self.current_rate.rate,
            pending_change: opt_request_view(self.pending_change),
            change_history: request_views(self.change_history@),
            total_commission_collected: self.total_commission_collected,
        }
    }
}

/// The outcome of asking for a rate change at `now`.
pub open spec fn info_after_request(
    info: ValidatorCommissionInfoView,
    rate: u64,
    notice_period_secs: u64,
    now: u64,
) -> (ValidatorCommissionInfoView, Result<CommissionChangeRequestView, Error>) {
    match info.pending_change {
        Some(p) if !(now >= p.effective_at) => (
            info,
            Err(Error::PendingChangeNotEffective { effective_at: p.effective_at }),
        ),
        _ => {
            let req = request_made_at(info.validator_id, rate, notice_period_secs, now);
            (ValidatorCommissionInfoView { pending_change: Some(req), ..info }, Ok(req))
        },
    }
}

/// The outcome of applying the pending change at `now`: an unripe pending
/// change is dropped and refused.
pub open spec fn info_after_apply(info: ValidatorCommissionInfoView, now: u64) -> (
    ValidatorCommissionInfoView,
    Result<(), Error>,
) {
    match info.pending_change {
        None => (info, Err(Error::NoPendingChange)),
        Some(p) => if now >= p.effective_at {
            (
                ValidatorCommissionInfoView {
                    current_rate: p.new_rate,
                    pending_change: None,
                    change_history: info.change_history.push(
                        CommissionChangeRequestView { applied: true, ..p },
                    ),
                    ..info
                },
                Ok(()),
            )
        } else {
            (
                ValidatorCommissionInfoView { pending_change: None, ..info },
                Err(Error::PendingChangeNotEffective { effective_at: p.effective_at }),
            )
        },
    }
}

/// The view of a request result.
pub open spec fn request_result_view(r: Result<CommissionChangeRequest, Error>) -> Result<
    CommissionChangeRequestView,
    Error,
> {
    match r {
        Ok(x) => Ok(x@),
        Err(e) => Err(e),
    }
}

impl ValidatorCommissionInfo {
    /// Commission info with the initial rate and nothing collected.
    pub fn new(validator_id: ValidatorID, initial_rate: CommissionRate) -> (r: Self)
        ensures
            r@ == (ValidatorCommissionInfoView {
                validator_id: validator_id@,
                current_rate: initial_rate.rate,
                pending_change: None,
                change_history: Seq::empty(),
                total_commission_collected: 0,
            }),
    {
        let r = Self {
            validator_id,
            current_rate: initial_rate,
            pending_change: None,
            change_history: Vec::new(),
            total_commission_collected: 0,
        };
        assert(r@.change_history =~= Seq::<CommissionChangeRequestView>::empty());
        r
    }

    /// Request a rate change at `now`; refused while an earlier change is
    /// pending and not yet effective.
    pub fn request_change_at(
        &mut self,
        new_rate: CommissionRate,
        notice_period_secs: u64,
        now: u64,
    ) -> (r: Result<CommissionChangeRequest, Error>)
        ensures
            (final(self)@, request_result_view(r)) == info_after_request(
                old(self)@,
                new_rate.rate,
                notice_period_secs,
                now,
            ),
    {
        if let Some(pending) = &self.pending_change {
            if !pending.is_effective_at(now) {
                return Err(Error::PendingChangeNotEffective { effective_at: pending.effective_at });
            }
        }
        let request = CommissionChangeRequest::new_at(
            self.validator_id.copy(),
            new_rate,
            notice_period_secs,
            now,
        );
        self.pending_change = Some(request.clone());
        Ok(request)
    }

    /// Request a rate change now (by the system clock).
    pub fn request_change(&mut self, new_rate: CommissionRate, notice_period_secs: u64) -> (r:
        Result<CommissionChangeRequest, Error>)
        ensures
            exists|now: u64|
                (final(self)@, request_result_view(r)) == #[trigger] info_after_request(
                    old(self)@,
                    new_rate.rate,
                    notice_period_secs,
                    now,
                ),
    {
        let now = unix_time_secs();
        self.request_change_at(new_rate, notice_period_secs, now)
    }

    /// Apply the pending change at `now`.
    pub fn apply_pending_change_at(&mut self, now: u64) -> (r: Result<(), Error>)
        ensures
            (final(self)@, r) == info_after_apply(old(self)@, now),
    {
        let taken = self.pending_change.take();
        match taken {
            Some(mut pending) => {
                if !pending.is_effective_at(now) {
                    return Err(Error::PendingChangeNotEffective { effective_at: pending.effective_at });
                }
                self.current_rate = pending.new_rate;
                pending.applied = true;
                let ghost h0 = self.change_history@;
                let ghost pv = pending@;
                self.change_history.push(pending);
                assert(request_views(self.change_history@) =~= request_views(h0).push(pv));
                Ok(())
            },
            None => Err(Error::NoPendingChange),
        }
    }

    /// Apply the pending change now (by the system clock).
    pub fn apply_pending_change(&mut self) -> (r: Result<(), Error>)
        ensures
            exists|now: u64| (final(self)@, r) == #[trigger] info_after_apply(old(self)@, now),
    {
        let now = unix_time_secs();
        self.apply_pending_change_at(now)
    }

    /// Cancel the pending change.
    pub fn cancel_pending_change(&mut self) -> (r: Result<(), Error>)
        ensures
            r is Ok <==> old(self)@.pending_change is Some,
            r is Err ==> r->Err_0 == Error::NoPendingChange,
            final(self)@ == (ValidatorCommissionInfoView { pending_change: None, ..old(self)@ }),
    {
        if self.pending_change.is_some() {
            self.pending_change = None;
            Ok(())
        } else {
            Err(Error::NoPendingChange)
        }
    }

    /// Record collected commission.
    pub fn record_commission(&mut self, amount: u64)
        requires
            old(self).total_commission_collected + amount <= u64::MAX,
        ensures
            final(self)@ == (ValidatorCommissionInfoView {
                total_commission_collected: (old(self).total_commission_collected + amount) as u64,
                ..old(self)@
            }),
    {
        self.total_commission_collected = self.total_commission_collected + amount;
    }
}

/// Identifiers of the records that have a pending change, in order.
pub open spec fn ids_with_pending(s: Seq<ValidatorCommissionInfoView>) -> Seq<Seq<u8>>
    decreases s.len(),
{
    if s.len() == 0 {
        Seq::empty()
    } else if s.last().pending_change is Some {
        ids_with_pending(s.drop_last()).push(s.last().validator_id)
    } else {
        ids_with_pending(s.drop_last())
    }
}

/// Commission manager.
pub struct CommissionManager {
    config: CommissionConfig,
    validator_commissions: IdTable<ValidatorCommissionInfo>,
}

/// Whether `rate` falls outside `config`'s bounds, and how.
pub open spec fn bounds_error(config: CommissionConfig, rate: u64) -> Option<Error> {
    if rate < config.min_commission_rate {
        Some(Error::RateBelowMinimum { rate, minimum: config.min_commission_rate })
    } else if rate > config.max_commission_rate {
        Some(Error::RateAboveMaximum { rate, maximum: config.max_commission_rate })
    } else {
        None
    }
}

/// Whether `rate` is refused by `config`, and why.
pub open spec fn rate_error(config: CommissionConfig, rate: u64) -> Option<Error> {
    if bounds_error(config, rate) is Some {
        bounds_error(config, rate)
    } else if rate > 100 {
        Some(Error::RateAbove100 { rate })
    } else {
        None
    }
}

impl CommissionManager {
    /// Commission information of the validators, in registration order.
    pub closed spec fn records(&self) -> Seq<ValidatorCommissionInfoView> {
        self.validator_commissions.pairs().map_values(
            |e: (Seq<u8>, ValidatorCommissionInfo)| e.1@,
        )
    }

    /// Commission information by validator.
    pub closed spec fn infos(&self) -> Map<Seq<u8>, ValidatorCommissionInfoView> {
        self.validator_commissions.map().map_values(|i: ValidatorCommissionInfo| i@)
    }

    /// The configuration.
    pub closed spec fn cfg(&self) -> CommissionConfig {
        self.config
    }

    /// One record per validator, filed under the validator's own identifier.
    pub closed spec fn wf(&self) -> bool {
        &&& self.validator_commissions.wf()
        &&& forall|i: int|
            0 <= i < self.validator_commissions.pairs().len()
                ==> #[trigger] self.validator_commissions.pairs()[i].1.validator_id@
                == self.validator_commissions.pairs()[i].0
    }

    /// A validator has a record exactly when some record carries its
    /// identifier, and the map holds one entry per record.
    pub proof fn lemma_records_infos(&self, k: Seq<u8>)
        requires
            self.wf(),
        ensures
            self.infos().dom().contains(k) <==> exists|i: int|
                0 <= i < self.records().len() && self.records()[i].validator_id == k,
            forall|i: int|
                0 <= i < self.records().len() ==> self.infos().dom().contains(
                    #[trigger] self.records()[i].validator_id,
                ) && self.infos()[self.records()[i].validator_id] == self.records()[i],
            self.infos().dom().finite(),
            self.infos().dom().len() == self.records().len(),
    {
        let t = &self.validator_commissions;
        t.lemma_dom(k);
        t.lemma_len();
        if self.infos().dom().contains(k) {
            let i = choose|i: int| 0 <= i < t.pairs().len() && t.pairs()[i].0 == k;
            assert(self.records()[i].validator_id == k);
        }
        if exists|i: int| 0 <= i < self.records().len() && self.records()[i].validator_id == k {
            let i = choose|i: int| 0 <= i < self.records().len() && self.records()[i].validator_id == k;
            assert(t.pairs()[i].1.validator_id@ == t.pairs()[i].0);
        }
        assert forall|i: int| 0 <= i < self.records().len() implies self.infos().dom().contains(
            #[trigger] self.records()[i].validator_id,
        ) && self.infos()[self.records()[i].validator_id] == self.records()[i] by {
            t.lemma_at(i);
            assert(t.pairs()[i].1.validator_id@ == t.pairs()[i].0);
        }
        assert(self.infos().dom() =~= t.map().dom());
    }

    /// A manager with no validators.
    pub fn new(config: CommissionConfig) -> (r: Self)
        ensures
            r.wf(),
            r.cfg() == config,
            r.infos() == Map::<Seq<u8>, ValidatorCommissionInfoView>::empty(),
            r.records() == Seq::<ValidatorCommissionInfoView>::empty(),
    {
        let r = Self { config, validator_commissions: IdTable::new() };
        assert(r.infos() =~= Map::<Seq<u8>, ValidatorCommissionInfoView>::empty());
        assert(r.records() =~= Seq::<ValidatorCommissionInfoView>::empty());
        r
    }

    /// A manager with the default configuration.
    pub fn default() -> (r: Self)
        ensures
            r.wf(),
            r.cfg() == (CommissionConfig {
                min_commission_rate: 5,
                max_commission_rate: 20,
                notice_period_secs: 604800,
            }),
            r.infos() == Map::<Seq<u8>, ValidatorCommissionInfoView>::empty(),
    {
        Self::new(CommissionConfig::default())
    }

    /// Register a validator with an initial rate within the configured
    /// bounds; registering again replaces the validator's record.
    pub fn register_validator(&mut self, validator_id: ValidatorID, initial_rate: u64) -> (r:
        Result<(), Error>)
        requires
            old(self).wf(),
        ensures
            final(self).wf(),
            final(self).cfg() == old(self).cfg(),
            rate_error(old(self).cfg(), initial_rate) matches Some(e) ==> r == Err::<(), Error>(e)
                && final(self).infos() == old(self).infos(),
            rate_error(old(self).cfg(), initial_rate) is None ==> r is Ok && final(self).infos()
                == old(self).infos().insert(
                validator_id@,
                ValidatorCommissionInfoView {
                    validator_id: validator_id@,
                    current_rate: initial_rate,
                    pending_change: None,
                    change_history: Seq::empty(),
                    total_commission_collected: 0,
                },
            ),
    {
        if initial_rate < self.config.min_commission_rate {
            return Err(
                Error::RateBelowMinimum { rate: initial_rate, minimum: self.config.min_commission_rate },
            );
        }
        if initial_rate > self.config.max_commission_rate {
            return Err(
                Error::RateAboveMaximum { rate: initial_rate, maximum: self.config.max_commission_rate },
            );
        }
        let rate = match CommissionRate::new(initial_rate) {
            Ok(r) => r,
            Err(e) => {
                return Err(e);
            },
        };
        let info = ValidatorCommissionInfo::new(validator_id.copy(), rate);
        let ghost iv = info@;
        match self.validator_commissions.find(&validator_id) {
            Some(i) => {
                let ghost old_pairs = self.validator_commissions.pairs();
                self.validator_commissions.set_value(i, info);
                proof {
                    assert forall|j: int| 0 <= j < self.validator_commissions.pairs().len()
                        implies #[trigger] self.validator_commissions.pairs()[j].1.validator_id@
                        == self.validator_commissions.pairs()[j].0 by {
                        if j != i {
                            assert(self.validator_commissions.pairs()[j] == old_pairs[j]);
                        }
                    }
                }
            },
            None => {
                self.validator_commissions.push(validator_id, info);
            },
        }
        assert(self.infos() =~= old(self).infos().insert(validator_id@, iv));
        Ok(())
    }

    /// Request a rate change for a validator at `now`.
    pub fn request_commission_change_at(
        &mut self,
        validator_id: &ValidatorID,
        new_rate: u64,
        now: u64,
    ) -> (r: Result<CommissionChangeRequest, Error>)
        requires
            old(self).wf(),
        ensures
            final(self).wf(),
            final(self).cfg() == old(self).cfg(),
            bounds_error(old(self).cfg(), new_rate) matches Some(e) ==> r is Err && r->Err_0 == e
                && final(self).infos() == old(self).infos(),
            bounds_error(old(self).cfg(), new_rate) is None && !old(self).infos().dom().contains(
                validator_id@,
            ) ==> r is Err && r->Err_0 == Error::NotFound && final(self).infos() == old(self).infos(),
            bounds_error(old(self).cfg(), new_rate) is None && old(self).infos().dom().contains(
                validator_id@,
            ) && new_rate > 100 ==> r is Err && r->Err_0 == (Error::RateAbove100 { rate: new_rate })
                && final(self).infos() == old(self).infos(),
            rate_error(old(self).cfg(), new_rate) is None && old(self).infos().dom().contains(
                validator_id@,
            ) ==> {
                let out = info_after_request(
                    old(self).infos()[validator_id@],
                    new_rate,
                    old(self).cfg().notice_period_secs,
                    now,
                );
                &&& request_result_view(r) == out.1
                &&& final(self).infos() == old(self).infos().insert(validator_id@, out.0)
            },
    {
        if new_rate < self.config.min_commission_rate {
            return Err(
                Error::RateBelowMinimum { rate: new_rate, minimum: self.config.min_commission_rate },
            );
        }
        if new_rate > self.config.max_commission_rate {
            return Err(
                Error::RateAboveMaximum { rate: new_rate, maximum: self.config.max_commission_rate },
            );
        }
        let i = match self.validator_commissions.find(validator_id) {
            Some(i) => i,
            None => {
                return Err(Error::NotFound);
            },
        };
        let rate = match CommissionRate::new(new_rate) {
            Ok(r) => r,
            Err(e) => {
                return Err(e);
            },
        };
        let notice = self.config.notice_period_secs;
        let ghost old_pairs = self.validator_commissions.pairs();
        let r = {
            let info = self.validator_commissions.value_mut(i);
            info.request_change_at(rate, notice, now)
        };
        proof {
            let k = old_pairs[i as int].0;
            let v = self.validator_commissions.pairs()[i as int].1;
            crate::table::lemma_seq_to_map_update(old_pairs, i as int, v);
            assert(self.validator_commissions.pairs() =~= old_pairs.update(i as int, (k, v)));
            assert forall|j: int| 0 <= j < self.validator_commissions.pairs().len()
                implies #[trigger] self.validator_commissions.pairs()[j].1.validator_id@
                == self.validator_commissions.pairs()[j].0 by {
                assert(old(self).validator_commissions.pairs()[j].1.validator_id@
                    == old(self).validator_commissions.pairs()[j].0);
            }
            assert(self.infos() =~= old(self).infos().insert(validator_id@, v@));
        }
        r
    }

    /// Request a rate change for a validator now (by the system clock).
    pub fn request_commission_change(&mut self, validator_id: &ValidatorID, new_rate: u64) -> (r:
        Result<CommissionChangeRequest, Error>)
        requires
            old(self).wf(),
        ensures
            final(self).wf(),
            final(self).cfg() == old(self).cfg(),
            bounds_error(old(self).cfg(), new_rate) matches Some(e) ==> r is Err && r->Err_0 == e
                && final(self).infos() == old(self).infos(),
            bounds_error(old(self).cfg(), new_rate) is None && !old(self).infos().dom().contains(
                validator_id@,
            ) ==> r is Err && r->Err_0 == Error::NotFound && final(self).infos() == old(self).infos(),
            bounds_error(old(self).cfg(), new_rate) is None && old(self).infos().dom().contains(
                validator_id@,
            ) && new_rate > 100 ==> r is Err && r->Err_0 == (Error::RateAbove100 { rate: new_rate })
                && final(self).infos() == old(self).infos(),
            rate_error(old(self).cfg(), new_rate) is None && old(self).infos().dom().contains(
                validator_id@,
            ) ==> exists|now: u64|
                {
                    let out = #[trigger] info_after_request(
                        old(self).infos()[validator_id@],
                        new_rate,
                        old(self).cfg().notice_period_secs,
                        now,
                    );
                    &&& request_result_view(r) == out.1
                    &&& final(self).infos() == old(self).infos().insert(validator_id@, out.0)
                },
    {
        let now = unix_time_secs();
        self.request_commission_change_at(validator_id, new_rate, now)
    }

    /// Apply every pending change that is effective at `now`; returns the
    /// validators whose change was applied, in registration order.
    pub fn apply_pending_changes_at(&mut self, now: u64) -> (applied: Vec<ValidatorID>)
        requires
            old(self).wf(),
        ensures
            final(self).wf(),
            final(self).cfg() == old(self).cfg(),
            final(self).records().len() == old(self).records().len(),
            forall|i: int|
                0 <= i < old(self).records().len() ==> #[trigger] final(self).records()[i] == (
                if ripe_at(old(self).records()[i], now) {
                    info_after_apply(old(self).records()[i], now).0
                } else {
                    old(self).records()[i]
                }),
            id_views(applied@) == ids_ripe_at(old(self).records(), now),
    {
        let mut applied: Vec<ValidatorID> = Vec::new();
        let mut i: usize = 0;
        let n = self.validator_commissions.len();
        while i < n
            invariant
                n == old(self).records().len(),
                self.wf(),
                self.cfg() == old(self).cfg(),
                self.records().len() == n,
                i <= n,
                forall|j: int|
                    0 <= j < i ==> #[trigger] self.records()[j] == (if ripe_at(
                        old(self).records()[j],
                        now,
                    ) {
                        info_after_apply(old(self).records()[j], now).0
                    } else {
                        old(self).records()[j]
                    }),
                forall|j: int| i <= j < n ==> #[trigger] self.records()[j] == old(self).records()[j],
                id_views(applied@) == ids_ripe_at(old(self).records().take(i as int), now),
            decreases n - i,
        {
            let ghost before = self.validator_commissions.pairs();
            let ghost before_recs = self.records();
            proof {
                assert(old(self).records().take(i + 1).drop_last() =~= old(self).records().take(i as int));
                assert(self.records()[i as int] == old(self).records()[i as int]);
            }
            let ripe = match &self.validator_commissions.value_at(i).pending_change {
                Some(p) => p.is_effective_at(now),
                None => false,
            };
            assert(ripe == ripe_at(old(self).records()[i as int], now));
            if ripe {
                let id = self.validator_commissions.id_at(i).copy();
                let _ = {
                    let info = self.validator_commissions.value_mut(i);
                    info.apply_pending_change_at(now)
                };
                let ghost r0 = applied@;
                applied.push(id);
                proof {
                    let k = before[i as int].0;
                    let v = self.validator_commissions.pairs()[i as int].1;
                    assert(self.validator_commissions.pairs() =~= before.update(i as int, (k, v)));
                    crate::table::lemma_seq_to_map_update(before, i as int, v);
                    assert(before[i as int].1.validator_id@ == k);
                    assert(id_views(applied@) =~= id_views(r0).push(k));
                    assert forall|j: int| 0 <= j < self.validator_commissions.pairs().len()
                        implies #[trigger] self.validator_commissions.pairs()[j].1.validator_id@
                        == self.validator_commissions.pairs()[j].0 by {
                        assert(before[j].1.validator_id@ == before[j].0);
                    }
                    assert forall|j: int| 0 <= j < n && j != i implies #[trigger] self.records()[j]
                        == before_recs[j] by {
                        assert(self.validator_commissions.pairs()[j] == before[j]);
                    }
                    assert(self.records()[i as int] == info_after_apply(old(self).records()[i as int], now).0);
                }
            }
            i = i + 1;
            proof {
                assert forall|j: int| 0 <= j < i implies #[trigger] self.records()[j] == (if ripe_at(
                    old(self).records()[j],
                    now,
                ) {
                    info_after_apply(old(self).records()[j], now).0
                } else {
                    old(self).records()[j]
                }) by {
                    if j < i - 1 {
                        assert(before_recs[j] == (if ripe_at(old(self).records()[j], now) {
                            info_after_apply(old(self).records()[j], now).0
                        } else {
                            old(self).records()[j]
                        }));
                    }
                }
                assert forall|j: int| i <= j < n implies #[trigger] self.records()[j] == old(self).records()[j] by {
                    assert(before_recs[j] == old(self).records()[j]);
                }
            }
        }
        assert(old(self).records().take(n as int) =~= old(self).records());
        applied
    }

    /// Apply every pending change that is effective now (by the system clock).
    pub fn apply_pending_changes(&mut self) -> (applied: Vec<ValidatorID>)
        requires
            old(self).wf(),
        ensures
            final(self).wf(),
            final(self).cfg() == old(self).cfg(),
            exists|now: u64|
                id_views(applied@) == #[trigger] ids_ripe_at(old(self).records(), now)
                    && final(self).records() == records_after_applying(old(self).records(), now),
    {
        let now = unix_time_secs();
        let applied = self.apply_pending_changes_at(now);
        assert(self.records() =~= records_after_applying(old(self).records(), now));
        applied
    }

    /// Commission information of a validator.
    pub fn get_commission_info(&self, validator_id: &ValidatorID) -> (r: Option<
        &ValidatorCommissionInfo,
    >)
        requires
            self.wf(),
        ensures
            r is None <==> !self.infos().dom().contains(validator_id@),
            r matches Some(i) ==> i@ == self.infos()[validator_id@],
    {
        self.validator_commissions.get(validator_id)
    }

    /// Mutable access to a validator's commission information. The manager
    /// stays well formed as long as the record keeps its identifier.
    pub fn get_commission_info_mut(&mut self, validator_id: &ValidatorID) -> (r: Option<
        &mut ValidatorCommissionInfo,
    >)
        requires
            old(self).wf(),
        ensures
            final(self).cfg() == old(self).cfg(),
            r is None <==> !old(self).infos().dom().contains(validator_id@),
            r is None ==> final(self).infos() == old(self).infos() && final(self).wf(),
            r is Some ==> (*r->Some_0)@ == old(self).infos()[validator_id@],
            r is Some ==> final(self).infos() == old(self).infos().insert(
                validator_id@,
                (*final(r->Some_0))@,
            ),
            r is Some && (*final(r->Some_0)).validator_id@ == validator_id@ ==> final(self).wf(),
    {
        self.validator_commissions.get_mut(validator_id)
    }

    /// Current commission rate of a validator.
    pub fn get_current_rate(&self, validator_id: &ValidatorID) -> (r: Option<CommissionRate>)
        requires
            self.wf(),
        ensures
            r is None <==> !self.infos().dom().contains(validator_id@),
            r matches Some(c) ==> c.rate == self.infos()[validator_id@].current_rate,
    {
        match self.validator_commissions.get(validator_id) {
            Some(info) => Some(info.current_rate),
            None => None,
        }
    }

    /// Pending change of a validator.
    pub fn get_pending_change(&self, validator_id: &ValidatorID) -> (r: Option<
        &CommissionChangeRequest,
    >)
        requires
            self.wf(),
        ensures
            r is Some <==> self.infos().dom().contains(validator_id@) && self.infos()[validator_id@].pending_change is Some,
            r matches Some(p) ==> Some(p@) == self.infos()[validator_id@].pending_change,
    {
        match self.validator_commissions.get(validator_id) {
            Some(info) => match &info.pending_change {
                Some(p) => Some(p),
                None => None,
            },
            None => None,
        }
    }

    /// Commission a validator takes on `total_amount`.
    pub fn calculate_commission(&self, validator_id: &ValidatorID, total_amount: u64) -> (r:
        Option<u64>)
        requires
            self.wf(),
            self.infos().dom().contains(validator_id@) ==> total_amount * self.infos()[validator_id@].current_rate
                <= u64::MAX,
        ensures
            r is None <==> !self.infos().dom().contains(validator_id@),
            r matches Some(c) ==> c == commission_on(
                total_amount,
                self.infos()[validator_id@].current_rate,
            ),
    {
        match self.validator_commissions.get(validator_id) {
            Some(info) => Some(info.current_rate.calculate_commission(total_amount)),
            None => None,
        }
    }

    /// Record collected commission for a validator.
    pub fn record_commission(&mut self, validator_id: &ValidatorID, amount: u64) -> (r: Result<
        (),
        Error,
    >)
        requires
            old(self).wf(),
            old(self).infos().dom().contains(validator_id@) ==> old(self).infos()[validator_id@].total_commission_collected
                + amount <= u64::MAX,
        ensures
            final(self).wf(),
            final(self).cfg() == old(self).cfg(),
            r is Ok <==> old(self).infos().dom().contains(validator_id@),
            r is Err ==> r->Err_0 == Error::NotFound && final(self).infos() == old(self).infos(),
            r is Ok ==> final(self).infos() == old(self).infos().insert(
                validator_id@,
                ValidatorCommissionInfoView {
                    total_commission_collected: (old(self).infos()[validator_id@].total_commission_collected + amount) as u64,
                    ..old(self).infos()[validator_id@]
                },
            ),
    {
        match self.validator_commissions.find(validator_id) {
            Some(i) => {
                let ghost old_pairs = self.validator_commissions.pairs();
                {
                    let info = self.validator_commissions.value_mut(i);
                    info.record_commission(amount);
                }
                proof {
                    let k = old_pairs[i as int].0;
                    let v = self.validator_commissions.pairs()[i as int].1;
                    crate::table::lemma_seq_to_map_update(old_pairs, i as int, v);
                    assert(self.validator_commissions.pairs() =~= old_pairs.update(i as int, (k, v)));
                    assert forall|j: int| 0 <= j < self.validator_commissions.pairs().len()
                        implies #[trigger] self.validator_commissions.pairs()[j].1.validator_id@
                        == self.validator_commissions.pairs()[j].0 by {
                        assert(old(self).validator_commissions.pairs()[j].1.validator_id@
                            == old(self).validator_commissions.pairs()[j].0);
                    }
                    assert(self.infos() =~= old(self).infos().insert(validator_id@, v@));
                }
                Ok(())
            },
            None => Err(Error::NotFound),
        }
    }

    /// The configuration.
    pub fn config(&self) -> (r: &CommissionConfig)
        ensures
            *r == self.cfg(),
    {
        &self.config
    }

    /// Number of registered validators.
    pub fn validator_count(&self) -> (r: usize)
        requires
            self.wf(),
        ensures
            r == self.infos().dom().len(),
    {
        proof {
            self.lemma_records_infos(Seq::empty());
        }
        self.validator_commissions.len()
    }

    /// Validators with a pending change, in registration order.
    pub fn get_validators_with_pending_changes(&self) -> (r: Vec<ValidatorID>)
        requires
            self.wf(),
        ensures
            id_views(r@) == ids_with_pending(self.records()),
    {
        let mut r: Vec<ValidatorID> = Vec::new();
        let mut i: usize = 0;
        while i < self.validator_commissions.len()
            invariant
                self.wf(),
                i <= self.records().len(),
                self.records().len() == self.validator_commissions.pairs().len(),
                id_views(r@) == ids_with_pending(self.records().take(i as int)),
            decreases self.records().len() - i,
        {
            let info = self.validator_commissions.value_at(i);
            proof {
                assert(self.records().take(i + 1).drop_last() =~= self.records().take(i as int));
                assert(self.records()[i as int] == info@);
            }
            if info.pending_change.is_some() {
                let ghost r0 = r@;
                r.push(self.validator_commissions.id_at(i).copy());
                proof {
                    assert(self.validator_commissions.pairs()[i as int].1.validator_id@
                        == self.validator_commissions.pairs()[i as int].0);
                    assert(id_views(r@) =~= id_views(r0).push(info.validator_id@));
                }
            }
            i = i + 1;
        }
        assert(self.records().take(i as int) =~= self.records());
        r
    }
}

/// Whether a record's pending change is effective at `now`.
pub open spec fn ripe_at(info: ValidatorCommissionInfoView, now: u64) -> bool {
    info.pending_change matches Some(p) && now >= p.effective_at
}

/// Identifiers of the records whose pending change is effective at `now`.
pub open spec fn ids_ripe_at(s: Seq<ValidatorCommissionInfoView>, now: u64) -> Seq<Seq<u8>>
    decreases s.len(),
{
    if s.len() == 0 {
        Seq::empty()
    } else if ripe_at(s.last(), now) {
        ids_ripe_at(s.drop_last(), now).push(s.last().validator_id)
    } else {
        ids_ripe_at(s.drop_last(), now)
    }
}

/// The records after applying, at `now`, every pending change that is
/// effective then: each ripe record becomes its applied form (new rate, no
/// pending change, the change filed in its history); the others stay.
pub open spec fn records_after_applying(s: Seq<ValidatorCommissionInfoView>, now: u64) -> Seq<
    ValidatorCommissionInfoView,
> {
    s.map_values(
        |x: ValidatorCommissionInfoView|
            if ripe_at(x, now) {
                info_after_apply(x, now).0
            } else {
                x
            },
    )
}

/// A requested change that is applied once its notice period has passed sets
/// the validator's rate to the requested one and is kept in the history.
pub proof fn lemma_request_then_apply(
    info: ValidatorCommissionInfoView,
    rate: u64,
    notice: u64,
    t_request: u64,
    t_apply: u64,
)
    requires
        info.pending_change matches Some(p) ==> t_request >= p.effective_at,
        t_apply >= sat_add(t_request, notice),
    ensures
        ({
            let after_req = info_after_request(info, rate, notice, t_request);
            let after_apply = info_after_apply(after_req.0, t_apply);
            &&& after_req.1 is Ok
            &&& after_apply.1 is Ok
            &&& after_apply.0.current_rate == rate
            &&& after_apply.0.pending_change is None
            &&& after_apply.0.change_history == info.change_history.push(
                CommissionChangeRequestView {
                    applied: true,
                    ..request_made_at(info.validator_id, rate, notice, t_request)
                },
            )
        }),
{
}

/// While a change is pending and not yet effective, a new request is refused
/// and changes nothing.
pub proof fn lemma_no_overlapping_requests(
    info: ValidatorCommissionInfoView,
    rate: u64,
    notice: u64,
    now: u64,
)
    requires
        info.pending_change matches Some(p) && now < p.effective_at,
    ensures
        info_after_request(info, rate, notice, now).0 == info,
        info_after_request(info, rate, notice, now).1 is Err,
{
}

} // verus!
