//! Validator staking operations:
//! - stake deposits (minimum 1,000,000 SBTC)
//! - unstaking with a 7-day unbonding period
//! - stake tracking and validation
use vstd::prelude::*;
use crate::clock::{reached, remaining_until, sat_add, unix_time_secs};
use crate::seqsum::{sum_of, lemma_sum_push, lemma_sum_update, lemma_sum_remove, lemma_sum_bounds, lemma_sum_take_step};
use crate::table::IdTable;
use crate::types::{Error, ValidatorID, copy_bytes, id_views};

verus! {

/// Minimum stake amount (1,000,000 SBTC).
pub const MIN_STAKE_AMOUNT: u64 = 1_000_000;

/// Unbonding period in seconds (7 days).
pub const UNBONDING_PERIOD_SECS: u64 = 604_800;

/// Length of a transaction digest, in bytes.
pub const DIGEST_LEN: usize = 64;

/// The abstract content of a stake deposit.
pub struct StakeDepositView {
    pub validator_id: Seq<u8>,
    pub amount: u64,
    pub deposited_at: u64,
    pub deposit_tx: Seq<u8>,
}

/// Stake deposit record.
pub struct StakeDeposit {
    /// Validator ID
    pub validator_id: ValidatorID,
    /// Stake amount in SBTC
    pub amount: u64,
    /// Deposit timestamp
    pub deposited_at: u64,
    /// Transaction digest that deposited the stake
    pub deposit_tx: Vec<u8>,
}

impl View for StakeDeposit {
    type V = StakeDepositView;

    open spec fn view(&self) -> StakeDepositView {
        StakeDepositView {
            validator_id: self.validator_id@,
            amount: self.amount,
            deposited_at: self.deposited_at,
            deposit_tx: self.deposit_tx@,
        }
    }
}

/// Why a deposit of `amount` with a digest of `tx_len` bytes is refused.
pub open spec fn deposit_error(amount: u64, tx_len: nat) -> Option<Error> {
    if amount < MIN_STAKE_AMOUNT {
        Some(Error::StakeBelowMinimum { stake: amount, minimum: MIN_STAKE_AMOUNT })
    } else if tx_len != 64 {
        Some(Error::InvalidDigestLength { length: tx_len as usize })
    } else {
        None
    }
}

impl StakeDeposit {
    /// A deposit made at `now`; refused below the minimum stake or with a
    /// digest that is not 64 bytes.
    pub fn new_at(validator_id: ValidatorID, amount: u64, deposit_tx: Vec<u8>, now: u64) -> (r:
        Result<Self, Error>)
        ensures
            deposit_error(amount, deposit_tx@.len()) matches Some(e) ==> r == Err::<Self, Error>(e),
            deposit_error(amount, deposit_tx@.len()) is None ==> r is Ok && r->Ok_0@ == (
            StakeDepositView {
                validator_id: validator_id@,
                amount,
                deposited_at: now,
                deposit_tx: deposit_tx@,
            }),
    {
        if amount < MIN_STAKE_AMOUNT {
            return Err(Error::StakeBelowMinimum { stake: amount, minimum: MIN_STAKE_AMOUNT });
        }
        if deposit_tx.len() != DIGEST_LEN {
            return Err(Error::InvalidDigestLength { length: deposit_tx.len() });
        }
        Ok(Self { validator_id, amount, deposited_at: now, deposit_tx })
    }

    /// A deposit made now (by the system clock).
    pub fn new(validator_id: ValidatorID, amount: u64, deposit_tx: Vec<u8>) -> (r: Result<
        Self,
        Error,
    >)
        ensures
            deposit_error(amount, deposit_tx@.len()) matches Some(e) ==> r == Err::<Self, Error>(e),
            deposit_error(amount, deposit_tx@.len()) is None ==> r is Ok && r->Ok_0.validator_id@
                == validator_id@ && r->Ok_0.amount == amount && r->Ok_0.deposit_tx@
                == deposit_tx@,
    {
        let now = unix_time_secs();
        Self::new_at(validator_id, amount, deposit_tx, now)
    }
}

impl Clone for StakeDeposit {
    fn clone(&self) -> (r: Self)
        ensures
            r@ == self@,
    {
        StakeDeposit {
            validator_id: self.validator_id.copy(),
            amount: self.amount,
            deposited_at: self.deposited_at,
            deposit_tx: copy_bytes(&self.deposit_tx),
        }
    }
}

/// The abstract content of an unstaking request.
pub struct UnstakingRequestView {
    pub validator_id: Seq<u8>,
    pub amount: u64,
    pub requested_at: u64,
    pub unbonds_at: u64,
    pub completed: bool,
}

/// Unstaking request.
pub struct UnstakingRequest {
    /// Validator ID
    pub validator_id: ValidatorID,
    /// Amount to unstake
    pub amount: u64,
    /// Request timestamp
    pub requested_at: u64,
    /// Unbonding completion timestamp
    pub unbonds_at: u64,
    /// Whether the unstaking is complete
    pub completed: bool,
}

impl View for UnstakingRequest {
    type V = UnstakingRequestView;

    open spec fn view(&self) -> UnstakingRequestView {
        UnstakingRequestView {
            validator_id: self.validator_id@,
            amount: self.amount,
            requested_at: self.requested_at,
            unbonds_at: self.unbonds_at,
            completed: self.completed,
        }
    }
}

/// The views of a sequence of requests.
pub open spec fn unstake_views(s: Seq<UnstakingRequest>) -> Seq<UnstakingRequestView> {
    s.map_values(|r: UnstakingRequest| r@)
}

/// The views of a sequence of deposits.
pub open spec fn deposit_views(s: Seq<StakeDeposit>) -> Seq<StakeDepositView> {
    s.map_values(|d: StakeDeposit| d@)
}

/// The request for `amount` made at `now`.
pub open spec fn unstake_request_at(id: Seq<u8>, amount: u64, now: u64) -> UnstakingRequestView {
    UnstakingRequestView {
        validator_id: id,
        amount,
        requested_at: now,
        unbonds_at: sat_add(now, UNBONDING_PERIOD_SECS),
        completed: false,
    }
}

impl Clone for UnstakingRequest {
    fn clone(&self) -> (r: Self)
        ensures
            r@ == self@,
    {
        UnstakingRequest {
            validator_id: self.validator_id.copy(),
            amount: self.amount,
            requested_at: self.requested_at,
            unbonds_at: self.unbonds_at,
            completed: self.completed,
        }
    }
}

impl UnstakingRequest {
    /// A request made at `now`: it unbonds after the unbonding period (the
    /// time saturates at `u64::MAX`).
    pub fn new_at(validator_id: ValidatorID, amount: u64, now: u64) -> (r: Self)
        ensures
            r@ == unstake_request_at(validator_id@, amount, now),
    {
        let unbonds_at = now.saturating_add(UNBONDING_PERIOD_SECS);
        Self { validator_id, amount, requested_at: now, unbonds_at, completed: false }
    }

    /// A request made now (by the system clock).
    pub fn new(validator_id: ValidatorID, amount: u64) -> (r: Self)
        ensures
            exists|now: u64| r@ == #[trigger] unstake_request_at(validator_id@, amount, now),
    {
        let now = unix_time_secs();
        Self::new_at(validator_id, amount, now)
    }

    /// Whether the unbonding period is over at `now`.
    pub fn is_unbonded_at(&self, now: u64) -> (r: bool)
        ensures
            r == (now >= self.unbonds_at),
    {
        now >= self.unbonds_at
    }

    /// Whether the unbonding period is over now (by the system clock).
    pub fn is_unbonded(&self) -> (r: bool)
        ensures
            exists|now: u64| r == #[trigger] reached(self.unbonds_at, now),
    {
        let now = unix_time_secs();
        let r = self.is_unbonded_at(now);
        assert(r == reached(self.unbonds_at, now));
        r
    }

    /// Seconds of unbonding left at `now`.
    pub fn remaining_unbonding_time_at(&self, now: u64) -> (r: u64)
        ensures
            r == remaining_until(self.unbonds_at, now),
    {
        if now >= self.unbonds_at {
            0
        } else {
            self.unbonds_at - now
        }
    }

    /// Seconds of unbonding left now (by the system clock).
    pub fn remaining_unbonding_time(&self) -> (r: u64)
        ensures
            exists|now: u64| r == #[trigger] remaining_until(self.unbonds_at, now),
    {
        self.remaining_unbonding_time_at(unix_time_secs())
    }
}

/// The abstract content of a validator's stake.
pub struct ValidatorStakeView {
    pub validator_id: Seq<u8>,
    pub total_stake: u64,
    pub active_stake: u64,
    pub unbonding_stake: u64,
    pub deposits: Seq<StakeDepositView>,
    pub unstaking_requests: Seq<UnstakingRequestView>,
}

/// The amount of a request.
pub open spec fn request_amount() -> spec_fn(UnstakingRequestView) -> int {
    |r: UnstakingRequestView| r.amount as int
}

/// A consistent stake: the total is active plus unbonding, and the unbonding
/// stake is the sum of the open requests.
pub open spec fn stake_consistent(v: ValidatorStakeView) -> bool {
    &&& v.total_stake == v.active_stake + v.unbonding_stake
    &&& forall|i: int|
        0 <= i < v.unstaking_requests.len() ==> !(#[trigger] v.unstaking_requests[i]).completed
    &&& v.unbonding_stake == sum_of(v.unstaking_requests, request_amount())
}

/// Whether a request has unbonded by `now`.
pub open spec fn unbonded_by(r: UnstakingRequestView, now: u64) -> bool {
    !r.completed && now >= r.unbonds_at
}

/// The requests that have unbonded by `now`, marked completed.
pub open spec fn unbonded_requests(s: Seq<UnstakingRequestView>, now: u64) -> Seq<
    UnstakingRequestView,
>
    decreases s.len(),
{
    if s.len() == 0 {
        Seq::empty()
    } else if unbonded_by(s.last(), now) {
        unbonded_requests(s.drop_last(), now).push(
            UnstakingRequestView { completed: true, ..s.last() },
        )
    } else {
        unbonded_requests(s.drop_last(), now)
    }
}

/// The requests still unbonding at `now`.
pub open spec fn still_unbonding(s: Seq<UnstakingRequestView>, now: u64) -> Seq<
    UnstakingRequestView,
>
    decreases s.len(),
{
    if s.len() == 0 {
        Seq::empty()
    } else if unbonded_by(s.last(), now) {
        still_unbonding(s.drop_last(), now)
    } else {
        still_unbonding(s.drop_last(), now).push(s.last())
    }
}

/// The amount released by the requests that have unbonded by `now`.
pub open spec fn unbonded_amount(s: Seq<UnstakingRequestView>, now: u64) -> int
    decreases s.len(),
{
    if s.len() == 0 {
        0
    } else {
        unbonded_amount(s.drop_last(), now) + if unbonded_by(s.last(), now) {
            s.last().amount as int
        } else {
            0
        }
    }
}

/// The stake after releasing what has unbonded by `now`.
pub open spec fn stake_after_unbonding(v: ValidatorStakeView, now: u64) -> ValidatorStakeView {
    let released = unbonded_amount(v.unstaking_requests, now);
    ValidatorStakeView {
        unbonding_stake: (v.unbonding_stake - released) as u64,
        total_stake: (v.total_stake - released) as u64,
        unstaking_requests: still_unbonding(v.unstaking_requests, now),
        ..v
    }
}

/// The released amount is part of the open requests' sum.
pub proof fn lemma_unbonded_amount_bound(s: Seq<UnstakingRequestView>, now: u64)
    ensures
        0 <= unbonded_amount(s, now) <= sum_of(s, request_amount()),
        sum_of(still_unbonding(s, now), request_amount()) == sum_of(s, request_amount())
            - unbonded_amount(s, now),
    decreases s.len(),
{
    if s.len() > 0 {
        lemma_unbonded_amount_bound(s.drop_last(), now);
        if !unbonded_by(s.last(), now) {
            lemma_sum_push(still_unbonding(s.drop_last(), now), s.last(), request_amount());
        }
    }
}

/// Unstaked stake unbonds after the unbonding period and not before: when
/// unbonding is processed at `now`, a request made at `t` is released,
/// with its whole amount, exactly when `now` is at least the unbonding
/// period after `t` (saturated at `u64::MAX`); until then it stays
/// unbonding.
pub proof fn lemma_unbonding_period(
    reqs: Seq<UnstakingRequestView>,
    id: Seq<u8>,
    amount: u64,
    t: u64,
    now: u64,
)
    ensures
        ({
            let req = unstake_request_at(id, amount, t);
            let due = now >= sat_add(t, UNBONDING_PERIOD_SECS);
            &&& unbonded_amount(reqs.push(req), now) == unbonded_amount(reqs, now) + if due {
                amount as int
            } else {
                0
            }
            &&& still_unbonding(reqs.push(req), now) == if due {
                still_unbonding(reqs, now)
            } else {
                still_unbonding(reqs, now).push(req)
            }
        }),
{
    let req = unstake_request_at(id, amount, t);
    assert(reqs.push(req).drop_last() =~= reqs);
}

/// Requests that stay unbonding stay open.
pub proof fn lemma_still_unbonding_open(s: Seq<UnstakingRequestView>, now: u64)
    requires
        forall|i: int| 0 <= i < s.len() ==> !(#[trigger] s[i]).completed,
    ensures
        forall|i: int|
            0 <= i < still_unbonding(s, now).len() ==> !(#[trigger] still_unbonding(s, now)[i]).completed,
    decreases s.len(),
{
    if s.len() > 0 {
        assert forall|i: int| 0 <= i < s.drop_last().len() implies !(#[trigger] s.drop_last()[i]).completed by {
            assert(s.drop_last()[i] == s[i]);
        }
        lemma_still_unbonding_open(s.drop_last(), now);
        let t = still_unbonding(s.drop_last(), now);
        assert forall|i: int| 0 <= i < still_unbonding(s, now).len() implies !(#[trigger] still_unbonding(s, now)[i]).completed by {
            if i < t.len() {
                assert(still_unbonding(s, now)[i] == t[i]);
            }
        }
    }
}

/// Validator stake information.
pub struct ValidatorStake {
    /// Validator ID
    pub validator_id: ValidatorID,
    /// Total staked amount
    pub total_stake: u64,
    /// Active stake (not unbonding)
    pub active_stake: u64,
    /// Unbonding stake
    pub unbonding_stake: u64,
    /// Stake deposits
    pub deposits: Vec<StakeDeposit>,
    /// Pending unstaking requests
    pub unstaking_requests: Vec<UnstakingRequest>,
}

impl View for ValidatorStake {
    type V = ValidatorStakeView;

    open spec fn view(&self) -> ValidatorStakeView {
        ValidatorStakeView {
            validator_id: self.validator_id@,
            total_stake: self.total_stake,
            active_stake: self.active_stake,
            unbonding_stake: self.unbonding_stake,
            deposits: deposit_views(self.deposits@),
            unstaking_requests: unstake_views(self.unstaking_requests@),
        }
    }
}

/// The stake record of a validator with nothing staked.
pub open spec fn empty_stake_view(id: Seq<u8>) -> ValidatorStakeView {
    ValidatorStakeView {
        validator_id: id,
        total_stake: 0,
        active_stake: 0,
        unbonding_stake: 0,
        deposits: Seq::empty(),
        unstaking_requests: Seq::empty(),
    }
}

impl ValidatorStake {
    /// A stake record with nothing staked.
    pub fn new(validator_id: ValidatorID) -> (r: Self)
        ensures
            r@ == empty_stake_view(validator_id@),
            stake_consistent(r@),
    {
        let r = Self {
            validator_id,
            total_stake: 0,
            active_stake: 0,
            unbonding_stake: 0,
            deposits: Vec::new(),
            unstaking_requests: Vec::new(),
        };
        assert(r@.deposits =~= Seq::<StakeDepositView>::empty());
        assert(r@.unstaking_requests =~= Seq::<UnstakingRequestView>::empty());
        r
    }

    /// Add a deposit: it raises both the total and the active stake.
    pub fn add_deposit(&mut self, deposit: StakeDeposit)
        requires
            old(self).total_stake + deposit.amount <= u64::MAX,
            old(self).active_stake <= old(self).total_stake,
        ensures
            final(self)@ == (ValidatorStakeView {
                total_stake: (old(self).total_stake + deposit.amount) as u64,
                active_stake: (old(self).active_stake + deposit.amount) as u64,
                deposits: old(self)@.deposits.push(deposit@),
                ..old(self)@
            }),
            stake_consistent(old(self)@) ==> stake_consistent(final(self)@),
    {
        let ghost d = deposit@;
        self.total_stake = self.total_stake + deposit.amount;
        self.active_stake = self.active_stake + deposit.amount;
        self.deposits.push(deposit);
        assert(deposit_views(self.deposits@) =~= old(self)@.deposits.push(d));
    }

    /// Move `amount` of active stake into unbonding, at `now`.
    pub fn request_unstake_at(&mut self, amount: u64, now: u64) -> (r: Result<UnstakingRequest, Error>)
        requires
            stake_consistent(old(self)@),
        ensures
            stake_consistent(final(self)@),
            amount > old(self).active_stake ==> r == Err::<UnstakingRequest, Error>(
                Error::InsufficientActiveStake { requested: amount, active: old(self).active_stake },
            ) && final(self)@ == old(self)@,
            amount <= old(self).active_stake ==> r is Ok && {
                let req = unstake_request_at(old(self)@.validator_id, amount, now);
                &&& r->Ok_0@ == req
                &&& final(self)@ == (ValidatorStakeView {
                    active_stake: (old(self).active_stake - amount) as u64,
                    unbonding_stake: (old(self).unbonding_stake + amount) as u64,
                    unstaking_requests: old(self)@.unstaking_requests.push(req),
                    ..old(self)@
                })
            },
    {
        if amount > self.active_stake {
            return Err(
                Error::InsufficientActiveStake { requested: amount, active: self.active_stake },
            );
        }
        let request = UnstakingRequest::new_at(self.validator_id.copy(), amount, now);
        self.active_stake = self.active_stake - amount;
        self.unbonding_stake = self.unbonding_stake + amount;
        let ghost q0 = self.unstaking_requests@;
        self.unstaking_requests.push(request.clone());
        proof {
            assert(unstake_views(self.unstaking_requests@) =~= unstake_views(q0).push(request@));
            lemma_sum_push(unstake_views(q0), request@, request_amount());
        }
        Ok(request)
    }

    /// Move `amount` of active stake into unbonding, now (by the system
    /// clock).
    pub fn request_unstake(&mut self, amount: u64) -> (r: Result<UnstakingRequest, Error>)
        requires
            stake_consistent(old(self)@),
        ensures
            stake_consistent(final(self)@),
            amount > old(self).active_stake ==> r == Err::<UnstakingRequest, Error>(
                Error::InsufficientActiveStake { requested: amount, active: old(self).active_stake },
            ) && final(self)@ == old(self)@,
            amount <= old(self).active_stake ==> r is Ok && exists|now: u64|
                {
                    let req = #[trigger] unstake_request_at(old(self)@.validator_id, amount, now);
                    &&& r->Ok_0@ == req
                    &&& final(self)@ == (ValidatorStakeView {
                        active_stake: (old(self).active_stake - amount) as u64,
                        unbonding_stake: (old(self).unbonding_stake + amount) as u64,
                        unstaking_requests: old(self)@.unstaking_requests.push(req),
                        ..old(self)@
                    })
                },
    {
        let now = unix_time_secs();
        self.request_unstake_at(amount, now)
    }

    /// Release every request that has unbonded by `now`; returns them,
    /// marked completed, in request order.
    pub fn process_unbonding_at(&mut self, now: u64) -> (completed: Vec<UnstakingRequest>)
        requires
            stake_consistent(old(self)@),
        ensures
            stake_consistent(final(self)@),
            final(self)@ == stake_after_unbonding(old(self)@, now),
            unstake_views(completed@) == unbonded_requests(old(self)@.unstaking_requests, now),
    {
        let ghost reqs = self@.unstaking_requests;
        let ghost u0 = self.unbonding_stake;
        let mut completed: Vec<UnstakingRequest> = Vec::new();
        let mut remaining: Vec<UnstakingRequest> = Vec::new();
        let mut i: usize = 0;
        let n = self.unstaking_requests.len();
        proof {
            lemma_unbonded_amount_bound(reqs, now);
        }
        while i < n
            invariant
                n == reqs.len(),
                reqs == unstake_views(self.unstaking_requests@),
                i <= n,
                self.validator_id@ == old(self)@.validator_id,
                self.active_stake == old(self).active_stake,
                deposit_views(self.deposits@) == old(self)@.deposits,
                u0 == sum_of(reqs, request_amount()),
                old(self).total_stake == old(self).active_stake + u0,
                0 <= unbonded_amount(reqs.take(i as int), now) <= sum_of(
                    reqs.take(i as int),
                    request_amount(),
                ),
                sum_of(reqs.take(i as int), request_amount()) <= u0,
                self.unbonding_stake == u0 - unbonded_amount(reqs.take(i as int), now),
                self.total_stake == old(self).total_stake - unbonded_amount(reqs.take(i as int), now),
                unstake_views(completed@) == unbonded_requests(reqs.take(i as int), now),
                unstake_views(remaining@) == still_unbonding(reqs.take(i as int), now),
            decreases n - i,
        {
            proof {
                lemma_sum_bounds(reqs, request_amount(), i + 1);
                lemma_sum_take_step(reqs, request_amount(), i as int);
                assert(reqs.take(i + 1).drop_last() =~= reqs.take(i as int));
                assert(reqs.take(i + 1).last() == reqs[i as int]);
            }
            let req = &self.unstaking_requests[i];
            if !req.completed && req.is_unbonded_at(now) {
                let mut done = req.clone();
                done.completed = true;
                self.unbonding_stake = self.unbonding_stake - req.amount;
                self.total_stake = self.total_stake - req.amount;
                let ghost c0 = completed@;
                completed.push(done);
                assert(unstake_views(completed@) =~= unstake_views(c0).push(
                    UnstakingRequestView { completed: true, ..reqs[i as int] },
                ));
            } else {
                let ghost m0 = remaining@;
                remaining.push(req.clone());
                assert(unstake_views(remaining@) =~= unstake_views(m0).push(reqs[i as int]));
            }
            i = i + 1;
        }
        assert(reqs.take(n as int) =~= reqs);
        self.unstaking_requests = remaining;
        proof {
            lemma_still_unbonding_open(reqs, now);
            lemma_unbonded_amount_bound(reqs, now);
        }
        assert(self@ =~= stake_after_unbonding(old(self)@, now));
        completed
    }

    /// Release every request that has unbonded now (by the system clock).
    pub fn process_unbonding(&mut self) -> (completed: Vec<UnstakingRequest>)
        requires
            stake_consistent(old(self)@),
        ensures
            stake_consistent(final(self)@),
            exists|now: u64|
                final(self)@ == #[trigger] stake_after_unbonding(old(self)@, now) && unstake_views(
                    completed@,
                ) == unbonded_requests(old(self)@.unstaking_requests, now),
    {
        let now = unix_time_secs();
        self.process_unbonding_at(now)
    }

    /// Whether the active stake meets the minimum.
    pub fn meets_minimum_stake(&self) -> (r: bool)
        ensures
            r == (self.active_stake >= MIN_STAKE_AMOUNT),
    {
        self.active_stake >= MIN_STAKE_AMOUNT
    }
}

/// The total stake of a record.
pub open spec fn stake_total() -> spec_fn(ValidatorStakeView) -> int {
    |v: ValidatorStakeView| v.total_stake as int
}

/// Identifiers of the records satisfying `p`, in order.
pub open spec fn stake_ids_where(
    s: Seq<ValidatorStakeView>,
    p: spec_fn(ValidatorStakeView) -> bool,
) -> Seq<Seq<u8>>
    decreases s.len(),
{
    if s.len() == 0 {
        Seq::empty()
    } else if p(s.last()) {
        stake_ids_where(s.drop_last(), p).push(s.last().validator_id)
    } else {
        stake_ids_where(s.drop_last(), p)
    }
}

/// The stakes after `amount` is deposited for `id` at `now` with digest
/// `tx`: the validator's record (a fresh one if it had none) gains the
/// deposit, in its total and its active stake.
pub open spec fn stakes_after_deposit(
    m: Map<Seq<u8>, ValidatorStakeView>,
    id: Seq<u8>,
    amount: u64,
    tx: Seq<u8>,
    now: u64,
) -> Map<Seq<u8>, ValidatorStakeView> {
    let d = StakeDepositView { validator_id: id, amount, deposited_at: now, deposit_tx: tx };
    let before = if m.dom().contains(id) {
        m[id]
    } else {
        empty_stake_view(id)
    };
    m.insert(
        id,
        ValidatorStakeView {
            total_stake: (before.total_stake + amount) as u64,
            active_stake: (before.active_stake + amount) as u64,
            deposits: before.deposits.push(d),
            ..before
        },
    )
}

/// What asking to unstake `amount` of `id`'s stake at `now` gives, and the
/// stakes after: refused for an unknown validator or more than its active
/// stake; otherwise the amount moves from active to unbonding stake under a
/// new request.
pub open spec fn unstake_outcome(
    m: Map<Seq<u8>, ValidatorStakeView>,
    id: Seq<u8>,
    amount: u64,
    now: u64,
) -> (Result<UnstakingRequestView, Error>, Map<Seq<u8>, ValidatorStakeView>) {
    if !m.dom().contains(id) {
        (Err(Error::NotFound), m)
    } else if amount > m[id].active_stake {
        (Err(Error::InsufficientActiveStake { requested: amount, active: m[id].active_stake }), m)
    } else {
        let req = unstake_request_at(id, amount, now);
        (
            Ok(req),
            m.insert(
                id,
                ValidatorStakeView {
                    active_stake: (m[id].active_stake - amount) as u64,
                    unbonding_stake: (m[id].unbonding_stake + amount) as u64,
                    unstaking_requests: m[id].unstaking_requests.push(req),
                    ..m[id]
                },
            ),
        )
    }
}

/// The view of an unstaking result.
pub open spec fn unstake_result_view(r: Result<UnstakingRequest, Error>) -> Result<UnstakingRequestView, Error> {
    match r {
        Ok(q) => Ok(q@),
        Err(e) => Err(e),
    }
}

/// Records with active stake.
pub open spec fn has_active_stake() -> spec_fn(ValidatorStakeView) -> bool {
    |v: ValidatorStakeView| v.active_stake > 0
}

/// Records below the minimum active stake.
pub open spec fn below_minimum() -> spec_fn(ValidatorStakeView) -> bool {
    |v: ValidatorStakeView| v.active_stake < MIN_STAKE_AMOUNT
}

/// The completions of an unbonding pass: each validator that released
/// something, with what it released, in order.
pub open spec fn unbonding_completions(s: Seq<ValidatorStakeView>, now: u64) -> Seq<
    (Seq<u8>, Seq<UnstakingRequestView>),
>
    decreases s.len(),
{
    if s.len() == 0 {
        Seq::empty()
    } else if unbonded_requests(s.last().unstaking_requests, now).len() > 0 {
        unbonding_completions(s.drop_last(), now).push(
            (s.last().validator_id, unbonded_requests(s.last().unstaking_requests, now)),
        )
    } else {
        unbonding_completions(s.drop_last(), now)
    }
}

/// The view of an unbonding pass's result.
pub open spec fn completion_views(r: Seq<(ValidatorID, Vec<UnstakingRequest>)>) -> Seq<
    (Seq<u8>, Seq<UnstakingRequestView>),
> {
    r.map_values(|e: (ValidatorID, Vec<UnstakingRequest>)| (e.0@, unstake_views(e.1@)))
}

/// Staking manager: deposits, unstaking requests and unbonding for all
/// validators.
pub struct StakingManager {
    stakes: IdTable<ValidatorStake>,
    total_staked: u64,
}

impl StakingManager {
    /// Stakes of the validators, in order of their first deposit.
    pub closed spec fn records(&self) -> Seq<ValidatorStakeView> {
        self.stakes.pairs().map_values(|e: (Seq<u8>, ValidatorStake)| e.1@)
    }

    /// Stakes by validator.
    pub closed spec fn stakes_map(&self) -> Map<Seq<u8>, ValidatorStakeView> {
        self.stakes.map().map_values(|s: ValidatorStake| s@)
    }

    /// The recorded total across all validators.
    pub closed spec fn total(&self) -> u64 {
        self.total_staked
    }

    /// One consistent record per validator, filed under its identifier, and
    /// the recorded total is the sum of the validators' totals.
    pub closed spec fn wf(&self) -> bool {
        &&& self.stakes.wf()
        &&& forall|i: int|
            0 <= i < self.stakes.pairs().len() ==> #[trigger] self.stakes.pairs()[i].1.validator_id@
                == self.stakes.pairs()[i].0
        &&& forall|i: int|
            0 <= i < self.stakes.pairs().len() ==> stake_consistent(
                #[trigger] self.stakes.pairs()[i].1@,
            )
        &&& self.total_staked == sum_of(self.records(), stake_total())
    }

    /// The recorded total is the sum of the validators' totals, and every
    /// record is consistent (an invariant of every manager).
    pub proof fn lemma_total_is_sum(&self)
        requires
            self.wf(),
        ensures
            self.total() == sum_of(self.records(), stake_total()),
            forall|i: int| 0 <= i < self.records().len() ==> stake_consistent(#[trigger] self.records()[i]),
    {
        assert forall|i: int| 0 <= i < self.records().len() implies stake_consistent(#[trigger] self.records()[i]) by {
            assert(stake_consistent(self.stakes.pairs()[i].1@));
        }
    }

    /// A validator has a record exactly when some record carries its
    /// identifier, and that record is its map entry.
    pub proof fn lemma_records_map(&self, k: Seq<u8>)
        requires
            self.wf(),
        ensures
            self.stakes_map().dom().contains(k) <==> exists|i: int|
                0 <= i < self.records().len() && self.records()[i].validator_id == k,
            forall|i: int|
                0 <= i < self.records().len() ==> self.stakes_map().dom().contains(
                    #[trigger] self.records()[i].validator_id,
                ) && self.stakes_map()[self.records()[i].validator_id] == self.records()[i],
    {
        let t = &self.stakes;
        t.lemma_dom(k);
        if self.stakes_map().dom().contains(k) {
            let i = choose|i: int| 0 <= i < t.pairs().len() && t.pairs()[i].0 == k;
            assert(self.records()[i].validator_id == k);
        }
        if exists|i: int| 0 <= i < self.records().len() && self.records()[i].validator_id == k {
            let i = choose|i: int| 0 <= i < self.records().len() && self.records()[i].validator_id == k;
            assert(t.pairs()[i].1.validator_id@ == t.pairs()[i].0);
        }
        assert forall|i: int| 0 <= i < self.records().len() implies self.stakes_map().dom().contains(
            #[trigger] self.records()[i].validator_id,
        ) && self.stakes_map()[self.records()[i].validator_id] == self.records()[i] by {
            t.lemma_at(i);
            assert(t.pairs()[i].1.validator_id@ == t.pairs()[i].0);
        }
    }

    /// A manager with no stakes.
    pub fn new() -> (r: Self)
        ensures
            r.wf(),
            r.records() == Seq::<ValidatorStakeView>::empty(),
            r.stakes_map() == Map::<Seq<u8>, ValidatorStakeView>::empty(),
            r.total() == 0,
    {
        let r = Self { stakes: IdTable::new(), total_staked: 0 };
        assert(r.records() =~= Seq::<ValidatorStakeView>::empty());
        assert(r.stakes_map() =~= Map::<Seq<u8>, ValidatorStakeView>::empty());
        r
    }

    /// Replace record `i` by the result of a mutation, keeping the table's
    /// invariants; the total is left to the caller.
    proof fn lemma_record_replaced(
        old_pairs: Seq<(Seq<u8>, ValidatorStake)>,
        new_pairs: Seq<(Seq<u8>, ValidatorStake)>,
        i: int,
    )
        requires
            crate::table::keys_unique(old_pairs),
            0 <= i < old_pairs.len(),
            new_pairs == old_pairs.update(i, (old_pairs[i].0, new_pairs[i].1)),
            forall|j: int| 0 <= j < old_pairs.len() ==> #[trigger] old_pairs[j].1.validator_id@ == old_pairs[j].0,
            new_pairs[i].1.validator_id@ == old_pairs[i].1.validator_id@,
            forall|j: int| 0 <= j < old_pairs.len() ==> stake_consistent(#[trigger] old_pairs[j].1@),
            stake_consistent(new_pairs[i].1@),
        ensures
            crate::table::keys_unique(new_pairs),
            forall|j: int| 0 <= j < new_pairs.len() ==> #[trigger] new_pairs[j].1.validator_id@ == new_pairs[j].0,
            forall|j: int| 0 <= j < new_pairs.len() ==> stake_consistent(#[trigger] new_pairs[j].1@),
            new_pairs.map_values(|e: (Seq<u8>, ValidatorStake)| e.1@) == old_pairs.map_values(
                |e: (Seq<u8>, ValidatorStake)| e.1@,
            ).update(i, new_pairs[i].1@),
            crate::table::seq_to_map(new_pairs) == crate::table::seq_to_map(old_pairs).insert(
                old_pairs[i].0,
                new_pairs[i].1,
            ),
    {
        crate::table::lemma_seq_to_map_update(old_pairs, i, new_pairs[i].1);
        assert forall|j: int| 0 <= j < new_pairs.len() implies #[trigger] new_pairs[j].1.validator_id@ == new_pairs[j].0 by {
            if j != i {
                assert(new_pairs[j] == old_pairs[j]);
            }
        }
        assert forall|j: int| 0 <= j < new_pairs.len() implies stake_consistent(#[trigger] new_pairs[j].1@) by {
            if j != i {
                assert(new_pairs[j] == old_pairs[j]);
            }
        }
        assert(new_pairs.map_values(|e: (Seq<u8>, ValidatorStake)| e.1@) =~= old_pairs.map_values(
            |e: (Seq<u8>, ValidatorStake)| e.1@,
        ).update(i, new_pairs[i].1@));
    }

    /// Deposit stake for a validator at `now`, opening its record if it has
    /// none.
    pub fn deposit_stake_at(
        &mut self,
        validator_id: ValidatorID,
        amount: u64,
        deposit_tx: Vec<u8>,
        now: u64,
    ) -> (r: Result<(), Error>)
        requires
            old(self).wf(),
            deposit_error(amount, deposit_tx@.len()) is None ==> old(self).total() + amount <= u64::MAX,
        ensures
            final(self).wf(),
            deposit_error(amount, deposit_tx@.len()) matches Some(e) ==> r == Err::<(), Error>(e)
                && final(self).records() == old(self).records() && final(self).total() == old(self).total(),
            deposit_error(amount, deposit_tx@.len()) is None ==> r is Ok && {
                &&& final(self).stakes_map() == stakes_after_deposit(
                    old(self).stakes_map(),
                    validator_id@,
                    amount,
                    deposit_tx@,
                    now,
                )
                &&& final(self).total() == old(self).total() + amount
                &&& final(self).stakes_map()[validator_id@].active_stake == active_stake_of(
                    old(self).stakes_map(),
                    validator_id@,
                ) + amount
            },
    {
        if amount < MIN_STAKE_AMOUNT {
            return Err(Error::StakeBelowMinimum { stake: amount, minimum: MIN_STAKE_AMOUNT });
        }
        let deposit = match StakeDeposit::new_at(validator_id.copy(), amount, deposit_tx, now) {
            Ok(d) => d,
            Err(e) => {
                return Err(e);
            },
        };
        let ghost dv = deposit@;
        let ghost existed = self.stakes_map().dom().contains(validator_id@);
        let i = match self.stakes.find(&validator_id) {
            Some(i) => i,
            None => {
                let fresh = ValidatorStake::new(validator_id.copy());
                let ghost p0 = self.stakes.pairs();
                self.stakes.push(validator_id.copy(), fresh);
                proof {
                    crate::seqsum::lemma_sum_push(old(self).records(), fresh@, stake_total());
                    assert(self.records() =~= old(self).records().push(fresh@));
                    assert forall|j: int| 0 <= j < self.stakes.pairs().len() implies #[trigger] self.stakes.pairs()[j].1.validator_id@
                        == self.stakes.pairs()[j].0 by {
                        if j < p0.len() {
                            assert(self.stakes.pairs()[j] == p0[j]);
                        }
                    }
                    assert forall|j: int| 0 <= j < self.stakes.pairs().len() implies stake_consistent(
                        #[trigger] self.stakes.pairs()[j].1@,
                    ) by {
                        if j < p0.len() {
                            assert(self.stakes.pairs()[j] == p0[j]);
                        }
                    }
                }
                self.stakes.len() - 1
            },
        };
        let ghost mid = self.stakes.pairs();
        let ghost mid_map = self.stakes_map();
        proof {
            self.lemma_records_map(validator_id@);
            self.stakes.lemma_at(i as int);
            crate::seqsum::lemma_sum_bounds(self.records(), stake_total(), i as int);
            assert(self.records()[i as int] == mid[i as int].1@);
            assert(stake_consistent(mid[i as int].1@));
        }
        {
            let stake = self.stakes.value_mut(i);
            stake.add_deposit(deposit);
        }
        proof {
            let v = self.stakes.pairs()[i as int].1;
            assert(self.stakes.pairs() =~= mid.update(i as int, (mid[i as int].0, v)));
            Self::lemma_record_replaced(mid, self.stakes.pairs(), i as int);
            crate::seqsum::lemma_sum_update(
                mid.map_values(|e: (Seq<u8>, ValidatorStake)| e.1@),
                i as int,
                v@,
                stake_total(),
            );
        }
        self.total_staked = self.total_staked + amount;
        proof {
            let v = self.stakes.pairs()[i as int].1;
            assert(self.stakes_map() =~= mid_map.insert(validator_id@, v@));
            if !existed {
                assert(mid_map =~= old(self).stakes_map().insert(validator_id@, empty_stake_view(validator_id@)));
            }
        }
        Ok(())
    }

    /// Deposit stake for a validator now (by the system clock).
    pub fn deposit_stake(&mut self, validator_id: ValidatorID, amount: u64, deposit_tx: Vec<u8>) -> (r:
        Result<(), Error>)
        requires
            old(self).wf(),
            deposit_error(amount, deposit_tx@.len()) is None ==> old(self).total() + amount <= u64::MAX,
        ensures
            final(self).wf(),
            deposit_error(amount, deposit_tx@.len()) matches Some(e) ==> r == Err::<(), Error>(e)
                && final(self).records() == old(self).records() && final(self).total() == old(self).total(),
            deposit_error(amount, deposit_tx@.len()) is None ==> r is Ok && final(self).total()
                == old(self).total() + amount && final(self).stakes_map().dom() == old(self).stakes_map().dom().insert(validator_id@) && final(self).stakes_map()[validator_id@].active_stake
                == (if old(self).stakes_map().dom().contains(validator_id@) {
                old(self).stakes_map()[validator_id@].active_stake
            } else {
                0
            }) + amount,
    {
        let now = unix_time_secs();
        let r = self.deposit_stake_at(validator_id, amount, deposit_tx, now);
        proof {
            if r is Ok {
                assert(self.stakes_map().dom() =~= old(self).stakes_map().dom().insert(validator_id@));
            }
        }
        r
    }

    /// Move `amount` of a validator's active stake into unbonding, at `now`.
    pub fn request_unstake_at(&mut self, validator_id: &ValidatorID, amount: u64, now: u64) -> (r:
        Result<UnstakingRequest, Error>)
        requires
            old(self).wf(),
        ensures
            final(self).wf(),
            final(self).total() == old(self).total(),
            !old(self).stakes_map().dom().contains(validator_id@) ==> r is Err && r->Err_0
                == Error::NotFound && final(self).stakes_map() == old(self).stakes_map(),
            old(self).stakes_map().dom().contains(validator_id@) ==> {
                let before = old(self).stakes_map()[validator_id@];
                &&& amount > before.active_stake ==> r is Err && r->Err_0
                    == (Error::InsufficientActiveStake {
                    requested: amount,
                    active: before.active_stake,
                }) && final(self).stakes_map() == old(self).stakes_map()
                &&& amount <= before.active_stake ==> r is Ok && {
                    let req = unstake_request_at(validator_id@, amount, now);
                    &&& r->Ok_0@ == req
                    &&& final(self).stakes_map() == old(self).stakes_map().insert(
                        validator_id@,
                        ValidatorStakeView {
                            active_stake: (before.active_stake - amount) as u64,
                            unbonding_stake: (before.unbonding_stake + amount) as u64,
                            unstaking_requests: before.unstaking_requests.push(req),
                            ..before
                        },
                    )
                }
            },
    {
        let i = match self.stakes.find(validator_id) {
            Some(i) => i,
            None => {
                return Err(Error::NotFound);
            },
        };
        let ghost mid = self.stakes.pairs();
        proof {
            self.lemma_records_map(validator_id@);
            self.stakes.lemma_at(i as int);
            assert(self.records()[i as int] == mid[i as int].1@);
            assert(stake_consistent(mid[i as int].1@));
            assert(mid[i as int].1.validator_id@ == validator_id@);
        }
        let r = {
            let stake = self.stakes.value_mut(i);
            stake.request_unstake_at(amount, now)
        };
        proof {
            let v = self.stakes.pairs()[i as int].1;
            assert(self.stakes.pairs() =~= mid.update(i as int, (mid[i as int].0, v)));
            Self::lemma_record_replaced(mid, self.stakes.pairs(), i as int);
            crate::seqsum::lemma_sum_update(
                mid.map_values(|e: (Seq<u8>, ValidatorStake)| e.1@),
                i as int,
                v@,
                stake_total(),
            );
            assert(self.stakes_map() =~= old(self).stakes_map().insert(validator_id@, v@));
            if r is Err {
                assert(old(self).stakes_map().insert(validator_id@, v@) =~= old(self).stakes_map());
            }
        }
        r
    }

    /// Move `amount` of a validator's active stake into unbonding, now (by
    /// the system clock).
    pub fn request_unstake(&mut self, validator_id: &ValidatorID, amount: u64) -> (r: Result<
        UnstakingRequest,
        Error,
    >)
        requires
            old(self).wf(),
        ensures
            final(self).wf(),
            final(self).total() == old(self).total(),
            !old(self).stakes_map().dom().contains(validator_id@) ==> r is Err && r->Err_0
                == Error::NotFound,
            old(self).stakes_map().dom().contains(validator_id@) ==> {
                let before = old(self).stakes_map()[validator_id@];
                &&& (r is Ok <==> amount <= before.active_stake)
                &&& r is Ok ==> final(self).stakes_map()[validator_id@].active_stake
                    == before.active_stake - amount && r->Ok_0.amount == amount
                &&& r is Err ==> final(self).stakes_map() == old(self).stakes_map()
            },
    {
        let now = unix_time_secs();
        self.request_unstake_at(validator_id, amount, now)
    }

    /// Release, for every validator, what has unbonded by `now`; returns the
    /// validators that released something with their completed requests.
    pub fn process_unbonding_at(&mut self, now: u64) -> (r: Vec<(ValidatorID, Vec<UnstakingRequest>)>)
        requires
            old(self).wf(),
        ensures
            final(self).wf(),
            final(self).records() == stakes_after_unbonding(old(self).records(), now),
            completion_views(r@) == unbonding_completions(old(self).records(), now),
    {
        let mut out: Vec<(ValidatorID, Vec<UnstakingRequest>)> = Vec::new();
        let n = self.stakes.len();
        let mut i: usize = 0;
        let ghost orig = self.records();
        while i < n
            invariant
                n == orig.len(),
                orig == old(self).records(),
                self.wf(),
                self.records().len() == n,
                i <= n,
                forall|j: int| 0 <= j < i ==> #[trigger] self.records()[j] == stake_after_unbonding(orig[j], now),
                forall|j: int| i <= j < n ==> #[trigger] self.records()[j] == orig[j],
                completion_views(out@) == unbonding_completions(orig.take(i as int), now),
            decreases n - i,
        {
            let ghost mid = self.stakes.pairs();
            let ghost mid_recs = self.records();
            proof {
                assert(orig.take(i + 1).drop_last() =~= orig.take(i as int));
                assert(stake_consistent(mid[i as int].1@));
                assert(mid_recs[i as int] == orig[i as int]);
                assert forall|j: int| 0 <= j < mid_recs.len() implies (stake_total())(#[trigger] mid_recs[j]) >= 0 by {}
                crate::seqsum::lemma_sum_bounds(mid_recs, stake_total(), i as int);
                assert(mid_recs[i as int] == mid[i as int].1@);
            }
            let id = self.stakes.id_at(i).copy();
            let (before_total, completed) = {
                let stake = self.stakes.value_mut(i);
                let bt = stake.total_stake;
                let c = stake.process_unbonding_at(now);
                (bt, c)
            };
            proof {
                let v = self.stakes.pairs()[i as int].1;
                assert(self.stakes.pairs() =~= mid.update(i as int, (mid[i as int].0, v)));
                Self::lemma_record_replaced(mid, self.stakes.pairs(), i as int);
                crate::seqsum::lemma_sum_update(mid_recs, i as int, v@, stake_total());
                lemma_unbonded_amount_bound(orig[i as int].unstaking_requests, now);
            }
            let after_total = self.stakes.value_at(i).total_stake;
            self.total_staked = self.total_staked - (before_total - after_total);
            if completed.len() > 0 {
                let ghost o0 = out@;
                let ghost cv = unstake_views(completed@);
                out.push((id, completed));
                proof {
                    assert(mid[i as int].1.validator_id@ == mid[i as int].0);
                    assert(completion_views(out@) =~= completion_views(o0).push((orig[i as int].validator_id, cv)));
                }
            }
            proof {
                assert forall|j: int| 0 <= j < n && j != i implies #[trigger] self.records()[j] == mid_recs[j] by {
                    assert(self.stakes.pairs()[j] == mid[j]);
                }
            }
            i = i + 1;
        }
        assert(orig.take(n as int) =~= orig);
        assert(self.records() =~= stakes_after_unbonding(orig, now));
        out
    }

    /// Release, for every validator, what has unbonded now (by the system
    /// clock).
    pub fn process_unbonding(&mut self) -> (r: Vec<(ValidatorID, Vec<UnstakingRequest>)>)
        requires
            old(self).wf(),
        ensures
            final(self).wf(),
            exists|now: u64|
                final(self).records() == #[trigger] stakes_after_unbonding(old(self).records(), now)
                    && completion_views(r@) == unbonding_completions(old(self).records(), now),
    {
        let now = unix_time_secs();
        self.process_unbonding_at(now)
    }

    /// The stake record of a validator.
    pub fn get_stake(&self, validator_id: &ValidatorID) -> (r: Option<&ValidatorStake>)
        requires
            self.wf(),
        ensures
            r is None <==> !self.stakes_map().dom().contains(validator_id@),
            r matches Some(s) ==> s@ == self.stakes_map()[validator_id@],
    {
        self.stakes.get(validator_id)
    }

    /// The active stake of a validator (0 if it has no record).
    pub fn get_active_stake(&self, validator_id: &ValidatorID) -> (r: u64)
        requires
            self.wf(),
        ensures
            r == active_stake_of(self.stakes_map(), validator_id@),
    {
        match self.stakes.get(validator_id) {
            Some(s) => s.active_stake,
            None => 0,
        }
    }

    /// The total staked across all validators.
    pub fn total_staked(&self) -> (r: u64)
        ensures
            r == self.total(),
    {
        self.total_staked
    }

    /// Validators with active stake, in order.
    pub fn get_staked_validators(&self) -> (r: Vec<ValidatorID>)
        requires
            self.wf(),
        ensures
            id_views(r@) == stake_ids_where(self.records(), has_active_stake()),
    {
        let mut r: Vec<ValidatorID> = Vec::new();
        let mut i: usize = 0;
        while i < self.stakes.len()
            invariant
                self.wf(),
                i <= self.records().len(),
                self.records().len() == self.stakes.pairs().len(),
                id_views(r@) == stake_ids_where(self.records().take(i as int), has_active_stake()),
            decreases self.records().len() - i,
        {
            let st = self.stakes.value_at(i);
            proof {
                assert(self.records().take(i + 1).drop_last() =~= self.records().take(i as int));
                assert(self.records()[i as int] == st@);
            }
            if st.active_stake > 0 {
                let ghost r0 = r@;
                r.push(self.stakes.id_at(i).copy());
                proof {
                    assert(self.stakes.pairs()[i as int].1.validator_id@ == self.stakes.pairs()[i as int].0);
                    assert(id_views(r@) =~= id_views(r0).push(st.validator_id@));
                }
            }
            i = i + 1;
        }
        assert(self.records().take(i as int) =~= self.records());
        r
    }

    /// Whether a validator's active stake meets the minimum (false if it has
    /// no record).
    pub fn meets_minimum_stake(&self, validator_id: &ValidatorID) -> (r: bool)
        requires
            self.wf(),
        ensures
            r == (self.stakes_map().dom().contains(validator_id@) && self.stakes_map()[validator_id@].active_stake
                >= MIN_STAKE_AMOUNT),
    {
        match self.stakes.get(validator_id) {
            Some(s) => s.meets_minimum_stake(),
            None => false,
        }
    }

    /// Validators whose active stake is below the minimum, in order.
    pub fn get_below_minimum_stake(&self) -> (r: Vec<ValidatorID>)
        requires
            self.wf(),
        ensures
            id_views(r@) == stake_ids_where(self.records(), below_minimum()),
    {
        let mut r: Vec<ValidatorID> = Vec::new();
        let mut i: usize = 0;
        while i < self.stakes.len()
            invariant
                self.wf(),
                i <= self.records().len(),
                self.records().len() == self.stakes.pairs().len(),
                id_views(r@) == stake_ids_where(self.records().take(i as int), below_minimum()),
            decreases self.records().len() - i,
        {
            let st = self.stakes.value_at(i);
            proof {
                assert(self.records().take(i + 1).drop_last() =~= self.records().take(i as int));
                assert(self.records()[i as int] == st@);
            }
            if !st.meets_minimum_stake() {
                let ghost r0 = r@;
                r.push(self.stakes.id_at(i).copy());
                proof {
                    assert(self.stakes.pairs()[i as int].1.validator_id@ == self.stakes.pairs()[i as int].0);
                    assert(id_views(r@) =~= id_views(r0).push(st.validator_id@));
                }
            }
            i = i + 1;
        }
        assert(self.records().take(i as int) =~= self.records());
        r
    }

    /// Remove a validator's record; refused while it still has active or
    /// unbonding stake (a validator without a record is accepted as removed).
    pub fn remove_validator(&mut self, validator_id: &ValidatorID) -> (r: Result<(), Error>)
        requires
            old(self).wf(),
        ensures
            final(self).wf(),
            final(self).total() == old(self).total(),
            (old(self).stakes_map().dom().contains(validator_id@) && (old(self).stakes_map()[validator_id@].active_stake
                > 0 || old(self).stakes_map()[validator_id@].unbonding_stake > 0)) ==> r
                == Err::<(), Error>(Error::StakeStillBonded) && final(self).stakes_map() == old(self).stakes_map(),
            r is Ok ==> final(self).stakes_map() == old(self).stakes_map().remove(validator_id@),
            r is Ok <==> !(old(self).stakes_map().dom().contains(validator_id@) && (old(self).stakes_map()[validator_id@].active_stake > 0 || old(self).stakes_map()[validator_id@].unbonding_stake
                > 0)),
    {
        match self.stakes.find(validator_id) {
            Some(i) => {
                let st = self.stakes.value_at(i);
                if st.active_stake > 0 || st.unbonding_stake > 0 {
                    return Err(Error::StakeStillBonded);
                }
                let ghost mid = self.stakes.pairs();
                let ghost mid_recs = self.records();
                proof {
                    assert(stake_consistent(mid[i as int].1@));
                    crate::seqsum::lemma_sum_remove(mid_recs, i as int, stake_total());
                }
                let _ = self.stakes.remove_at(i);
                proof {
                    assert(self.records() =~= mid_recs.remove(i as int));
                    assert forall|j: int| 0 <= j < self.stakes.pairs().len() implies #[trigger] self.stakes.pairs()[j].1.validator_id@
                        == self.stakes.pairs()[j].0 && stake_consistent(self.stakes.pairs()[j].1@) by {
                        let j2 = if j < i { j } else { j + 1 };
                        assert(self.stakes.pairs()[j] == mid[j2]);
                        assert(stake_consistent(mid[j2].1@));
                    }
                    assert forall|j: int| 0 <= j < self.stakes.pairs().len() implies stake_consistent(
                        #[trigger] self.stakes.pairs()[j].1@) by {
                        let j2 = if j < i { j } else { j + 1 };
                        assert(self.stakes.pairs()[j] == mid[j2]);
                    }
                    assert(self.stakes_map() =~= old(self).stakes_map().remove(validator_id@));
                }
                Ok(())
            },
            None => {
                assert(old(self).stakes_map().remove(validator_id@) =~= old(self).stakes_map());
                Ok(())
            },
        }
    }
}

/// Every record after an unbonding pass at `now`.
pub open spec fn stakes_after_unbonding(s: Seq<ValidatorStakeView>, now: u64) -> Seq<ValidatorStakeView> {
    s.map_values(|v: ValidatorStakeView| stake_after_unbonding(v, now))
}

/// The active stake of `id` in `m` (0 without a record).
pub open spec fn active_stake_of(m: Map<Seq<u8>, ValidatorStakeView>, id: Seq<u8>) -> u64 {
    if m.dom().contains(id) {
        m[id].active_stake
    } else {
        0
    }
}

impl Default for StakingManager {
    fn default() -> (r: Self)
        ensures
            r.wf(),
            r.stakes_map() == Map::<Seq<u8>, ValidatorStakeView>::empty(),
            r.total() == 0,
    {
        Self::new()
    }
}

/// Records whose active stake is positive and at least `min`.
pub open spec fn active_at_least(min: u64) -> spec_fn(ValidatorStakeView) -> bool {
    |v: ValidatorStakeView| v.active_stake > 0 && v.active_stake >= min
}

/// Identifiers listed by `stake_ids_where` belong to records satisfying the
/// predicate, in the same order as the records.
pub proof fn lemma_stake_ids_where_members(
    s: Seq<ValidatorStakeView>,
    p: spec_fn(ValidatorStakeView) -> bool,
    k: Seq<u8>,
)
    ensures
        stake_ids_where(s, p).contains(k) <==> exists|i: int|
            0 <= i < s.len() && s[i].validator_id == k && p(s[i]),
    decreases s.len(),
{
    if s.len() > 0 {
        lemma_stake_ids_where_members(s.drop_last(), p, k);
        let t = stake_ids_where(s.drop_last(), p);
        if stake_ids_where(s, p).contains(k) {
            if p(s.last()) && s.last().validator_id == k {
                assert(s[s.len() - 1].validator_id == k);
            } else {
                if p(s.last()) {
                    let j = choose|j: int| 0 <= j < stake_ids_where(s, p).len() && stake_ids_where(s, p)[j] == k;
                    assert(j < t.len());
                    assert(t[j] == k);
                }
                let i = choose|i: int| 0 <= i < s.drop_last().len() && s.drop_last()[i].validator_id == k && p(s.drop_last()[i]);
                assert(s[i] == s.drop_last()[i]);
            }
        }
        if exists|i: int| 0 <= i < s.len() && s[i].validator_id == k && p(s[i]) {
            let i = choose|i: int| 0 <= i < s.len() && s[i].validator_id == k && p(s[i]);
            if i < s.len() - 1 {
                assert(s.drop_last()[i] == s[i]);
                assert(t.contains(k));
                let j = choose|j: int| 0 <= j < t.len() && t[j] == k;
                if p(s.last()) {
                    assert(stake_ids_where(s, p)[j] == k);
                }
            } else {
                assert(stake_ids_where(s, p).last() == k);
            }
        }
    }
}

/// With distinct record identifiers, `stake_ids_where` lists no identifier twice.
pub proof fn lemma_stake_ids_where_no_dup(s: Seq<ValidatorStakeView>, p: spec_fn(ValidatorStakeView) -> bool)
    requires
        forall|i: int, j: int|
            0 <= i < s.len() && 0 <= j < s.len() && i != j ==> s[i].validator_id != s[j].validator_id,
    ensures
        stake_ids_where(s, p).no_duplicates(),
    decreases s.len(),
{
    if s.len() > 0 {
        lemma_stake_ids_where_no_dup(s.drop_last(), p);
        if p(s.last()) {
            lemma_stake_ids_where_members(s.drop_last(), p, s.last().validator_id);
            if stake_ids_where(s.drop_last(), p).contains(s.last().validator_id) {
                let i = choose|i: int| 0 <= i < s.drop_last().len() && s.drop_last()[i].validator_id == s.last().validator_id && p(s.drop_last()[i]);
                assert(s[i].validator_id == s[s.len() - 1].validator_id);
            }
        }
    }
}

impl StakingManager {
    /// Records carry distinct identifiers.
    pub proof fn lemma_ids_distinct(&self)
        requires
            self.wf(),
        ensures
            forall|i: int, j: int|
                0 <= i < self.records().len() && 0 <= j < self.records().len() && i != j
                    ==> self.records()[i].validator_id != self.records()[j].validator_id,
    {
        assert forall|i: int, j: int|
            0 <= i < self.records().len() && 0 <= j < self.records().len() && i != j
                implies self.records()[i].validator_id != self.records()[j].validator_id by {
            assert(self.stakes.pairs()[i].1.validator_id@ == self.stakes.pairs()[i].0);
            assert(self.stakes.pairs()[j].1.validator_id@ == self.stakes.pairs()[j].0);
        }
    }

    /// The validators listed with at least `min` active stake are exactly
    /// those whose record has positive active stake of at least `min`, each
    /// listed once.
    pub proof fn lemma_eligible(&self, min: u64)
        requires
            self.wf(),
        ensures
            stake_ids_where(self.records(), active_at_least(min)).no_duplicates(),
            forall|k: Seq<u8>|
                stake_ids_where(self.records(), active_at_least(min)).contains(k) <==> (
                active_stake_of(self.stakes_map(), k) > 0 && active_stake_of(self.stakes_map(), k)
                    >= min),
    {
        self.lemma_ids_distinct();
        lemma_stake_ids_where_no_dup(self.records(), active_at_least(min));
        assert forall|k: Seq<u8>|
            stake_ids_where(self.records(), active_at_least(min)).contains(k) <==> (
            active_stake_of(self.stakes_map(), k) > 0 && active_stake_of(self.stakes_map(), k)
                >= min) by {
            lemma_stake_ids_where_members(self.records(), active_at_least(min), k);
            self.lemma_records_map(k);
            if active_stake_of(self.stakes_map(), k) > 0 {
                let i = choose|i: int| 0 <= i < self.records().len() && self.records()[i].validator_id == k;
                assert(self.stakes_map()[self.records()[i].validator_id] == self.records()[i]);
            }
        }
    }

    /// Validators whose active stake is positive and at least `min`, in order.
    pub fn validators_with_active_at_least(&self, min: u64) -> (r: Vec<ValidatorID>)
        requires
            self.wf(),
        ensures
            id_views(r@) == stake_ids_where(self.records(), active_at_least(min)),
    {
        let mut r: Vec<ValidatorID> = Vec::new();
        let mut i: usize = 0;
        while i < self.stakes.len()
            invariant
                self.wf(),
                i <= self.records().len(),
                self.records().len() == self.stakes.pairs().len(),
                id_views(r@) == stake_ids_where(self.records().take(i as int), active_at_least(min)),
            decreases self.records().len() - i,
        {
            let st = self.stakes.value_at(i);
            proof {
                assert(self.records().take(i + 1).drop_last() =~= self.records().take(i as int));
                assert(self.records()[i as int] == st@);
            }
            if st.active_stake > 0 && st.active_stake >= min {
                let ghost r0 = r@;
                r.push(self.stakes.id_at(i).copy());
                proof {
                    assert(self.stakes.pairs()[i as int].1.validator_id@ == self.stakes.pairs()[i as int].0);
                    assert(id_views(r@) =~= id_views(r0).push(st.validator_id@));
                }
            }
            i = i + 1;
        }
        assert(self.records().take(i as int) =~= self.records());
        r
    }
}

} // verus!
