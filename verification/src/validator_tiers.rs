//! Multi-tier validator system.
//!
//! Four tiers with different stake requirements, voting power multipliers
//! and reward multipliers:
//! - Bronze: 10,000 SBTC minimum, 0.5x voting power, 1.0x rewards
//! - Silver: 50,000 SBTC minimum, 1.0x voting power, 1.2x rewards
//! - Gold: 100,000 SBTC minimum, 1.5x voting power, 1.5x rewards
//! - Platinum: 500,000 SBTC minimum, 2.0x voting power, 2.0x rewards
//!
//! Multipliers are kept as exact integers: voting power in halves and
//! rewards in percent.
use vstd::prelude::*;
use crate::clock::unix_time_secs;
use crate::table::IdTable;
use crate::types::{Error, ValidatorID, id_views};

verus! {

/// Validator tier levels, in ascending order.
#[derive(Debug, Clone, Copy, PartialEq, Eq, Structural, PartialOrd, Ord, Hash)]
pub enum ValidatorTier {
    /// Bronze tier: 10,000 SBTC minimum
    Bronze,
    /// Silver tier: 50,000 SBTC minimum
    Silver,
    /// Gold tier: 100,000 SBTC minimum
    Gold,
    /// Platinum tier: 500,000 SBTC minimum
    Platinum,
}

/// The position of a tier in ascending order.
pub open spec fn tier_rank(t: ValidatorTier) -> int {
    match t {
        ValidatorTier::Bronze => 0,
        ValidatorTier::Silver => 1,
        ValidatorTier::Gold => 2,
        ValidatorTier::Platinum => 3,
    }
}

/// The minimum stake of a tier, in SBTC.
pub open spec fn tier_min_stake(t: ValidatorTier) -> u64 {
    match t {
        ValidatorTier::Bronze => 10_000,
        ValidatorTier::Silver => 50_000,
        ValidatorTier::Gold => 100_000,
        ValidatorTier::Platinum => 500_000,
    }
}

/// The highest tier whose minimum the stake reaches (Bronze below all).
pub open spec fn tier_for_stake(stake: u64) -> ValidatorTier {
    if stake >= 500_000 {
        ValidatorTier::Platinum
    } else if stake >= 100_000 {
        ValidatorTier::Gold
    } else if stake >= 50_000 {
        ValidatorTier::Silver
    } else {
        ValidatorTier::Bronze
    }
}

/// All tiers in ascending order.
pub open spec fn tiers_ascending() -> Seq<ValidatorTier> {
    seq![ValidatorTier::Bronze, ValidatorTier::Silver, ValidatorTier::Gold, ValidatorTier::Platinum]
}

/// The voting power multiplier of a tier, in halves (0.5x is 1).
pub open spec fn tier_voting_halves(t: ValidatorTier) -> u64 {
    match t {
        ValidatorTier::Bronze => 1,
        ValidatorTier::Silver => 2,
        ValidatorTier::Gold => 3,
        ValidatorTier::Platinum => 4,
    }
}

/// The reward multiplier of a tier, in percent (1.2x is 120).
pub open spec fn tier_reward_percent(t: ValidatorTier) -> u64 {
    match t {
        ValidatorTier::Bronze => 100,
        ValidatorTier::Silver => 120,
        ValidatorTier::Gold => 150,
        ValidatorTier::Platinum => 200,
    }
}

/// The name of a tier.
pub open spec fn tier_name(t: ValidatorTier) -> Seq<char> {
    match t {
        ValidatorTier::Bronze => "Bronze"@,
        ValidatorTier::Silver => "Silver"@,
        ValidatorTier::Gold => "Gold"@,
        ValidatorTier::Platinum => "Platinum"@,
    }
}

/// The tier a validator falls to at `stake`, if that is below `current`.
pub open spec fn tier_downgrade(current: ValidatorTier, stake: u64) -> Option<ValidatorTier> {
    if tier_rank(tier_for_stake(stake)) < tier_rank(current) {
        Some(tier_for_stake(stake))
    } else {
        None
    }
}

/// Stake still missing to reach `t`'s minimum.
pub open spec fn stake_needed(t: ValidatorTier, stake: u64) -> u64 {
    if stake < tier_min_stake(t) {
        (tier_min_stake(t) - stake) as u64
    } else {
        0
    }
}

/// The tiers above `current`, ascending, each with the stake still needed.
pub open spec fn upgrade_path_of(current: ValidatorTier, stake: u64) -> Seq<(ValidatorTier, u64)> {
    tiers_ascending().skip(tier_rank(current) + 1).map_values(
        |t: ValidatorTier| (t, stake_needed(t, stake)),
    )
}

/// `stake` scaled by `halves / 2`, rounded down and saturated at `u64::MAX`.
pub open spec fn scaled_by_halves(stake: u64, halves: u64) -> u64 {
    if stake * halves / 2 > u64::MAX {
        u64::MAX
    } else {
        (stake * halves / 2) as u64
    }
}

impl ValidatorTier {
    /// The position of this tier in ascending order.
    pub fn rank(&self) -> (r: u8)
        ensures
            r == tier_rank(*self),
    {
        match self {
            ValidatorTier::Bronze => 0,
            ValidatorTier::Silver => 1,
            ValidatorTier::Gold => 2,
            ValidatorTier::Platinum => 3,
        }
    }

    /// Minimum stake requirement for this tier in SBTC.
    pub fn min_stake(&self) -> (r: u64)
        ensures
            r == tier_min_stake(*self),
    {
        match self {
            ValidatorTier::Bronze => 10_000,
            ValidatorTier::Silver => 50_000,
            ValidatorTier::Gold => 100_000,
            ValidatorTier::Platinum => 500_000,
        }
    }

    /// Voting power multiplier for this tier, in halves (0.5x is 1, 2.0x is 4).
    pub fn voting_power_halves(&self) -> (r: u64)
        ensures
            r == tier_voting_halves(*self),
    {
        match self {
            ValidatorTier::Bronze => 1,
            ValidatorTier::Silver => 2,
            ValidatorTier::Gold => 3,
            ValidatorTier::Platinum => 4,
        }
    }

    /// Reward multiplier for this tier, in percent (1.2x is 120).
    pub fn reward_multiplier_percent(&self) -> (r: u64)
        ensures
            r == tier_reward_percent(*self),
    {
        match self {
            ValidatorTier::Bronze => 100,
            ValidatorTier::Silver => 120,
            ValidatorTier::Gold => 150,
            ValidatorTier::Platinum => 200,
        }
    }

    /// Determine tier from stake amount.
    pub fn from_stake(stake: u64) -> (r: ValidatorTier)
        ensures
            r == tier_for_stake(stake),
    {
        if stake >= ValidatorTier::Platinum.min_stake() {
            ValidatorTier::Platinum
        } else if stake >= ValidatorTier::Gold.min_stake() {
            ValidatorTier::Gold
        } else if stake >= ValidatorTier::Silver.min_stake() {
            ValidatorTier::Silver
        } else {
            ValidatorTier::Bronze
        }
    }

    /// All tiers in ascending order.
    pub fn all_tiers() -> (r: Vec<ValidatorTier>)
        ensures
            r@ == tiers_ascending(),
    {
        let r = vec![
            ValidatorTier::Bronze,
            ValidatorTier::Silver,
            ValidatorTier::Gold,
            ValidatorTier::Platinum,
        ];
        assert(r@ =~= tiers_ascending());
        r
    }

    /// The tier at position `rank` of the ascending order.
    pub fn at_rank(rank: u8) -> (r: ValidatorTier)
        requires
            rank < 4,
        ensures
            tier_rank(r) == rank,
            r == tiers_ascending()[rank as int],
    {
        if rank == 0 {
            ValidatorTier::Bronze
        } else if rank == 1 {
            ValidatorTier::Silver
        } else if rank == 2 {
            ValidatorTier::Gold
        } else {
            ValidatorTier::Platinum
        }
    }

    /// Tier name as string.
    pub fn name(&self) -> (r: &'static str)
        ensures
            r@ == tier_name(*self),
    {
        match self {
            ValidatorTier::Bronze => "Bronze",
            ValidatorTier::Silver => "Silver",
            ValidatorTier::Gold => "Gold",
            ValidatorTier::Platinum => "Platinum",
        }
    }

    /// Tier name as an owned string.
    pub fn to_string(&self) -> (r: String)
        ensures
            r@ == tier_name(*self),
    {
        self.name().to_owned()
    }

    /// Whether a validator at this tier with `stake` can move up to `target`.
    pub fn can_upgrade_to(&self, target: ValidatorTier, stake: u64) -> (r: bool)
        ensures
            r == (tier_rank(target) > tier_rank(*self) && stake >= tier_min_stake(target)),
    {
        target.rank() > self.rank() && stake >= target.min_stake()
    }

    /// The lower tier a validator at this tier falls to at `stake`, if any.
    pub fn will_downgrade_to(&self, stake: u64) -> (r: Option<ValidatorTier>)
        ensures
            r == tier_downgrade(*self, stake),
    {
        let new_tier = ValidatorTier::from_stake(stake);
        if new_tier.rank() < self.rank() {
            Some(new_tier)
        } else {
            None
        }
    }
}

/// A larger stake never gives a lower tier.
pub proof fn lemma_tier_monotone(s1: u64, s2: u64)
    requires
        s1 <= s2,
    ensures
        tier_rank(tier_for_stake(s1)) <= tier_rank(tier_for_stake(s2)),
{
}

/// The tier of a stake that meets Bronze's minimum is the highest tier whose
/// minimum the stake meets.
pub proof fn lemma_tier_for_stake_is_highest(stake: u64, t: ValidatorTier)
    requires
        stake >= tier_min_stake(ValidatorTier::Bronze),
    ensures
        stake >= tier_min_stake(tier_for_stake(stake)),
        stake >= tier_min_stake(t) ==> tier_rank(t) <= tier_rank(tier_for_stake(stake)),
{
}

/// Ranks and minimum stakes rise together, and a rank names one tier.
pub proof fn lemma_tier_order(a: ValidatorTier, b: ValidatorTier)
    ensures
        tier_rank(a) < tier_rank(b) <==> tier_min_stake(a) < tier_min_stake(b),
        tier_rank(a) == tier_rank(b) <==> a == b,
        0 <= tier_rank(a) < 4,
        tiers_ascending()[tier_rank(a)] == a,
{
}

/// A downgrade, when there is one, goes to the tier of the new stake and is
/// strictly lower; an upgrade is possible exactly to the higher tiers whose
/// minimum the stake meets.
pub proof fn lemma_downgrade_upgrade(current: ValidatorTier, target: ValidatorTier, stake: u64)
    ensures
        tier_downgrade(current, stake) matches Some(t) ==> t == tier_for_stake(stake) && tier_rank(t)
            < tier_rank(current),
        tier_downgrade(current, stake) is None ==> tier_rank(tier_for_stake(stake)) >= tier_rank(
            current,
        ),
        (tier_rank(target) > tier_rank(current) && stake >= tier_min_stake(target)) ==> tier_rank(
            tier_for_stake(stake),
        ) >= tier_rank(target),
{
}

/// The abstract content of a tier change event.
pub struct TierChangeEventView {
    pub validator_id: Seq<u8>,
    pub from_tier: ValidatorTier,
    pub to_tier: ValidatorTier,
    pub stake_amount: u64,
    pub timestamp: u64,
    pub cycle: u64,
}

/// Tier change event.
pub struct TierChangeEvent {
    /// Validator ID
    pub validator_id: ValidatorID,
    /// Previous tier
    pub from_tier: ValidatorTier,
    /// New tier
    pub to_tier: ValidatorTier,
    /// Stake amount at time of change
    pub stake_amount: u64,
    /// Timestamp of change
    pub timestamp: u64,
    /// Cycle when change occurred
    pub cycle: u64,
}

impl View for TierChangeEvent {
    type V = TierChangeEventView;

    open spec fn view(&self) -> TierChangeEventView {
        TierChangeEventView {
            validator_id: self.validator_id@,
            from_tier: self.from_tier,
            to_tier: self.to_tier,
            stake_amount: self.stake_amount,
            timestamp: self.timestamp,
            cycle: self.cycle,
        }
    }
}

/// The views of a sequence of events.
pub open spec fn tier_event_views(s: Seq<TierChangeEvent>) -> Seq<TierChangeEventView> {
    s.map_values(|e: TierChangeEvent| e@)
}

impl Clone for TierChangeEvent {
    fn clone(&self) -> (r: Self)
        ensures
            r@ == self@,
    {
        TierChangeEvent {
            validator_id: self.validator_id.copy(),
            from_tier: self.from_tier,
            to_tier: self.to_tier,
            stake_amount: self.stake_amount,
            timestamp: self.timestamp,
            cycle: self.cycle,
        }
    }
}

impl TierChangeEvent {
    /// Tier change event stamped with the given time.
    pub fn new_at(
        validator_id: ValidatorID,
        from_tier: ValidatorTier,
        to_tier: ValidatorTier,
        stake_amount: u64,
        cycle: u64,
        timestamp: u64,
    ) -> (r: Self)
        ensures
            r@ == (TierChangeEventView {
                validator_id: validator_id@,
                from_tier,
                to_tier,
                stake_amount,
                timestamp,
                cycle,
            }),
    {
        TierChangeEvent { validator_id, from_tier, to_tier, stake_amount, timestamp, cycle }
    }

    /// Tier change event stamped with the current time.
    pub fn new(
        validator_id: ValidatorID,
        from_tier: ValidatorTier,
        to_tier: ValidatorTier,
        stake_amount: u64,
        cycle: u64,
    ) -> (r: Self)
        ensures
            r.validator_id@ == validator_id@,
            r.from_tier == from_tier,
            r.to_tier == to_tier,
            r.stake_amount == stake_amount,
            r.cycle == cycle,
    {
        let timestamp = unix_time_secs();
        Self::new_at(validator_id, from_tier, to_tier, stake_amount, cycle, timestamp)
    }

    /// Check if this is an upgrade.
    pub fn is_upgrade(&self) -> (r: bool)
        ensures
            r == (tier_rank(self.to_tier) > tier_rank(self.from_tier)),
    {
        self.to_tier.rank() > self.from_tier.rank()
    }

    /// Check if this is a downgrade.
    pub fn is_downgrade(&self) -> (r: bool)
        ensures
            r == (tier_rank(self.to_tier) < tier_rank(self.from_tier)),
    {
        self.to_tier.rank() < self.from_tier.rank()
    }
}

/// Most tier changes a validator's history keeps.
pub const MAX_TIER_HISTORY: usize = 100;

/// The abstract content of a validator's tier information.
pub struct ValidatorTierInfoView {
    pub validator_id: Seq<u8>,
    pub current_tier: ValidatorTier,
    pub stake_amount: u64,
    pub tier_history: Seq<TierChangeEventView>,
    pub last_updated_cycle: u64,
}

/// Validator tier information.
pub struct ValidatorTierInfo {
    /// Validator ID
    pub validator_id: ValidatorID,
    /// Current tier
    pub current_tier: ValidatorTier,
    /// Current stake amount
    pub stake_amount: u64,
    /// Tier history (most recent first)
    pub tier_history: Vec<TierChangeEvent>,
    /// Cycle when tier was last updated
    pub last_updated_cycle: u64,
}

impl View for ValidatorTierInfo {
    type V = ValidatorTierInfoView;

    open spec fn view(&self) -> ValidatorTierInfoView {
        ValidatorTierInfoView {
            validator_id: self.validator_id@,
            current_tier: self.current_tier,
            stake_amount: self.stake_amount,
            tier_history: tier_event_views(self.tier_history@),
            last_updated_cycle: self.last_updated_cycle,
        }
    }
}

/// The history after recording `e` in front of `h`, keeping the newest 100.
pub open spec fn push_front_bounded(
    e: TierChangeEventView,
    h: Seq<TierChangeEventView>,
) -> Seq<TierChangeEventView> {
    let s = seq![e] + h;
    if s.len() > 100 {
        s.take(100)
    } else {
        s
    }
}

/// A stake update always records the new stake, whether or not the tier
/// changes: afterwards the record holds `new_stake` at the tier of that
/// stake, its effective voting power is that tier's multiple of the new
/// stake, and a change event is given exactly when the tier moved, from
/// the old tier to the new one.
pub proof fn lemma_update_takes_new_stake(info: ValidatorTierInfoView, new_stake: u64, cycle: u64, now: u64)
    ensures
        ({
            let (after, event) = tier_info_after_update(info, new_stake, cycle, now);
            &&& after.stake_amount == new_stake
            &&& after.current_tier == tier_for_stake(new_stake)
            &&& after.validator_id == info.validator_id
            &&& after.last_updated_cycle == cycle
            &&& scaled_by_halves(after.stake_amount, tier_voting_halves(after.current_tier)) == scaled_by_halves(
                new_stake,
                tier_voting_halves(tier_for_stake(new_stake)),
            )
            &&& (event is Some <==> tier_for_stake(new_stake) != info.current_tier)
            &&& event matches Some(e) ==> e.from_tier == info.current_tier && e.to_tier == tier_for_stake(
                new_stake,
            ) && e.stake_amount == new_stake
        }),
{
}

/// The tier information after a stake update at `now`, with the event if
/// the tier changed.
pub open spec fn tier_info_after_update(
    info: ValidatorTierInfoView,
    new_stake: u64,
    cycle: u64,
    now: u64,
) -> (ValidatorTierInfoView, Option<TierChangeEventView>) {
    let new_tier = tier_for_stake(new_stake);
    if new_tier != info.current_tier {
        let e = TierChangeEventView {
            validator_id: info.validator_id,
            from_tier: info.current_tier,
            to_tier: new_tier,
            stake_amount: new_stake,
            timestamp: now,
            cycle,
        };
        (
            ValidatorTierInfoView {
                current_tier: new_tier,
                stake_amount: new_stake,
                tier_history: push_front_bounded(e, info.tier_history),
                last_updated_cycle: cycle,
                ..info
            },
            Some(e),
        )
    } else {
        (ValidatorTierInfoView { stake_amount: new_stake, last_updated_cycle: cycle, ..info }, None)
    }
}

/// The view of an optional event.
pub open spec fn opt_tier_event_view(e: Option<TierChangeEvent>) -> Option<TierChangeEventView> {
    match e {
        Some(x) => Some(x@),
        None => None,
    }
}

impl ValidatorTierInfo {
    /// Create new validator tier info.
    pub fn new(validator_id: ValidatorID, stake_amount: u64, cycle: u64) -> (r: Self)
        ensures
            r@ == (ValidatorTierInfoView {
                validator_id: validator_id@,
                current_tier: tier_for_stake(stake_amount),
                stake_amount,
                tier_history: Seq::empty(),
                last_updated_cycle: cycle,
            }),
    {
        let tier = ValidatorTier::from_stake(stake_amount);
        let r = ValidatorTierInfo {
            validator_id,
            current_tier: tier,
            stake_amount,
            tier_history: Vec::new(),
            last_updated_cycle: cycle,
        };
        assert(r@.tier_history =~= Seq::<TierChangeEventView>::empty());
        r
    }

    /// Update stake at time `now` and report a tier change, if any.
    pub fn update_stake_at(&mut self, new_stake: u64, cycle: u64, now: u64) -> (r: Option<
        TierChangeEvent,
    >)
        ensures
            final(self)@.stake_amount == new_stake,
            final(self)@.current_tier == tier_for_stake(new_stake),
            final(self)@.validator_id == old(self)@.validator_id,
            final(self)@.last_updated_cycle == cycle,
            r is Some <==> tier_for_stake(new_stake) != old(self)@.current_tier,
            (final(self)@, opt_tier_event_view(r)) == tier_info_after_update(
                old(self)@,
                new_stake,
                cycle,
                now,
            ),
    {
        proof {
            lemma_update_takes_new_stake(self@, new_stake, cycle, now);
        }
        let old_tier = self.current_tier;
        let new_tier = ValidatorTier::from_stake(new_stake);

        self.stake_amount = new_stake;
        self.last_updated_cycle = cycle;

        if new_tier != old_tier {
            let event = TierChangeEvent::new_at(
                self.validator_id.copy(),
                old_tier,
                new_tier,
                new_stake,
                cycle,
                now,
            );
            self.current_tier = new_tier;
            let ghost h0 = self.tier_history@;
            self.tier_history.insert(0, event.clone());
            assert(tier_event_views(self.tier_history@) =~= seq![event@] + tier_event_views(h0));
            if self.tier_history.len() > MAX_TIER_HISTORY {
                let ghost h1 = self.tier_history@;
                self.tier_history.truncate(MAX_TIER_HISTORY);
                assert(tier_event_views(self.tier_history@) =~= tier_event_views(h1).take(100));
            }
            Some(event)
        } else {
            None
        }
    }

    /// Update stake and report a tier change, if any, stamped with the
    /// current time.
    pub fn update_stake(&mut self, new_stake: u64, cycle: u64) -> (r: Option<TierChangeEvent>)
        ensures
            final(self)@.stake_amount == new_stake,
            final(self)@.current_tier == tier_for_stake(new_stake),
            r is Some <==> tier_for_stake(new_stake) != old(self)@.current_tier,
            exists|now: u64|
                (final(self)@, opt_tier_event_view(r)) == tier_info_after_update(
                    old(self)@,
                    new_stake,
                    cycle,
                    now,
                ),
    {
        let now = unix_time_secs();
        self.update_stake_at(new_stake, cycle, now)
    }

    /// Effective voting power: stake times the tier's multiplier, rounded
    /// down (saturated at `u64::MAX`).
    pub fn effective_voting_power(&self) -> (r: u64)
        ensures
            r == scaled_by_halves(self.stake_amount, tier_voting_halves(self.current_tier)),
    {
        let halves = self.current_tier.voting_power_halves();
        assert((self.stake_amount as u128) * (halves as u128) <= u64::MAX as u128 * 4) by (nonlinear_arith)
            requires
                halves <= 4,
        ;
        let p: u128 = (self.stake_amount as u128) * (halves as u128) / 2;
        if p > u64::MAX as u128 {
            u64::MAX
        } else {
            p as u64
        }
    }

    /// Effective reward multiplier, in percent.
    pub fn reward_multiplier_percent(&self) -> (r: u64)
        ensures
            r == tier_reward_percent(self.current_tier),
    {
        self.current_tier.reward_multiplier_percent()
    }

    /// The tiers above the current one, ascending, each with the additional
    /// stake it needs.
    pub fn upgrade_path(&self) -> (r: Vec<(ValidatorTier, u64)>)
        ensures
            r@ == upgrade_path_of(self.current_tier, self.stake_amount),
    {
        let mut r: Vec<(ValidatorTier, u64)> = Vec::new();
        let start = self.current_tier.rank() + 1;
        let mut k: u8 = start;
        let ghost target = upgrade_path_of(self.current_tier, self.stake_amount);
        while k < 4
            invariant
                start == tier_rank(self.current_tier) + 1,
                start <= k <= 4,
                target == upgrade_path_of(self.current_tier, self.stake_amount),
                target.len() == 4 - start,
                r@ == target.take(k - start),
            decreases 4 - k,
        {
            let t = ValidatorTier::at_rank(k);
            let required = t.min_stake();
            let needed = if self.stake_amount < required {
                required - self.stake_amount
            } else {
                0
            };
            r.push((t, needed));
            proof {
                assert(target[k - start] == (t, stake_needed(t, self.stake_amount)));
                assert(r@ =~= target.take(k + 1 - start));
            }
            k = k + 1;
        }
        assert(r@ =~= target);
        r
    }

    /// Whether this validator can move up to `target` with its stake.
    pub fn can_upgrade_to(&self, target: ValidatorTier) -> (r: bool)
        ensures
            r == (tier_rank(target) > tier_rank(self.current_tier) && self.stake_amount
                >= tier_min_stake(target)),
    {
        self.current_tier.can_upgrade_to(target, self.stake_amount)
    }

    /// Number of recorded tier changes.
    pub fn tier_change_count(&self) -> (r: usize)
        ensures
            r == self.tier_history@.len(),
    {
        self.tier_history.len()
    }

    /// Most recent tier change.
    pub fn last_tier_change(&self) -> (r: Option<&TierChangeEvent>)
        ensures
            self.tier_history@.len() == 0 ==> r is None,
            self.tier_history@.len() > 0 ==> r == Some(&self.tier_history@[0]),
    {
        if self.tier_history.len() == 0 {
            None
        } else {
            Some(&self.tier_history[0])
        }
    }
}

/// Identifiers of the records at `tier`, in order.
pub open spec fn ids_at_tier(s: Seq<ValidatorTierInfoView>, tier: ValidatorTier) -> Seq<Seq<u8>>
    decreases s.len(),
{
    if s.len() == 0 {
        Seq::empty()
    } else if s.last().current_tier == tier {
        ids_at_tier(s.drop_last(), tier).push(s.last().validator_id)
    } else {
        ids_at_tier(s.drop_last(), tier)
    }
}

/// Number of records at `tier`.
pub open spec fn count_at_tier(s: Seq<ValidatorTierInfoView>, tier: ValidatorTier) -> nat
    decreases s.len(),
{
    if s.len() == 0 {
        0
    } else {
        count_at_tier(s.drop_last(), tier) + if s.last().current_tier == tier {
            1nat
        } else {
            0nat
        }
    }
}

/// Total effective voting power of the records.
pub open spec fn total_power(s: Seq<ValidatorTierInfoView>) -> nat
    decreases s.len(),
{
    if s.len() == 0 {
        0
    } else {
        total_power(s.drop_last()) + scaled_by_halves(
            s.last().stake_amount,
            tier_voting_halves(s.last().current_tier),
        ) as nat
    }
}

/// Events of the given validator, in order.
pub open spec fn tier_events_of(s: Seq<TierChangeEventView>, id: Seq<u8>) -> Seq<TierChangeEventView>
    decreases s.len(),
{
    if s.len() == 0 {
        Seq::empty()
    } else if s.last().validator_id == id {
        tier_events_of(s.drop_last(), id).push(s.last())
    } else {
        tier_events_of(s.drop_last(), id)
    }
}

/// Validator tier manager: tier assignments and transitions for all
/// validators.
pub struct ValidatorTierManager {
    tiers: IdTable<ValidatorTierInfo>,
    current_cycle: u64,
    all_tier_changes: Vec<TierChangeEvent>,
}

impl ValidatorTierManager {
    /// Tier information of the registered validators, in registration order.
    pub closed spec fn records(&self) -> Seq<ValidatorTierInfoView> {
        self.tiers.pairs().map_values(|e: (Seq<u8>, ValidatorTierInfo)| e.1@)
    }

    /// Tier information by validator.
    pub closed spec fn infos(&self) -> Map<Seq<u8>, ValidatorTierInfoView> {
        self.tiers.map().map_values(|i: ValidatorTierInfo| i@)
    }

    /// All tier changes, oldest first.
    pub closed spec fn changes(&self) -> Seq<TierChangeEventView> {
        tier_event_views(self.all_tier_changes@)
    }

    /// The current cycle.
    pub closed spec fn cycle(&self) -> u64 {
        self.current_cycle
    }

    /// One record per validator, filed under the validator's own identifier.
    pub closed spec fn wf(&self) -> bool {
        &&& self.tiers.wf()
        &&& forall|i: int|
            0 <= i < self.tiers.pairs().len() ==> #[trigger] self.tiers.pairs()[i].1.validator_id@
                == self.tiers.pairs()[i].0
    }

    /// The records and the map agree: a validator is registered exactly when
    /// some record carries its identifier, and that record is its map entry.
    pub proof fn lemma_records_infos(&self, k: Seq<u8>)
        requires
            self.wf(),
        ensures
            self.infos().dom().contains(k) <==> exists|i: int|
                0 <= i < self.records().len() && self.records()[i].validator_id == k,
            forall|i: int|
                0 <= i < self.records().len() ==> self.infos().dom().contains(
                    #[trigger] self.records()[i].validator_id,
                ) && self.infos()[self.records()[i].validator_id] == self.records()[i],
            self.infos().dom().finite(),
            self.infos().dom().len() == self.records().len(),
    {
        self.tiers.lemma_dom(k);
        self.tiers.lemma_len();
        if self.infos().dom().contains(k) {
            let i = choose|i: int| 0 <= i < self.tiers.pairs().len() && self.tiers.pairs()[i].0 == k;
            assert(self.records()[i].validator_id == k);
        }
        if exists|i: int| 0 <= i < self.records().len() && self.records()[i].validator_id == k {
            let i = choose|i: int| 0 <= i < self.records().len() && self.records()[i].validator_id == k;
            assert(self.tiers.pairs()[i].1.validator_id@ == self.tiers.pairs()[i].0);
        }
        assert forall|i: int| 0 <= i < self.records().len() implies self.infos().dom().contains(
            #[trigger] self.records()[i].validator_id,
        ) && self.infos()[self.records()[i].validator_id] == self.records()[i] by {
            self.tiers.lemma_at(i);
            assert(self.tiers.pairs()[i].1.validator_id@ == self.tiers.pairs()[i].0);
        }
        assert(self.infos().dom() =~= self.tiers.map().dom());
    }

    /// Create new validator tier manager.
    pub fn new() -> (r: Self)
        ensures
            r.wf(),
            r.records() == Seq::<ValidatorTierInfoView>::empty(),
            r.infos() == Map::<Seq<u8>, ValidatorTierInfoView>::empty(),
            r.changes() == Seq::<TierChangeEventView>::empty(),
            r.cycle() == 0,
    {
        let r = ValidatorTierManager {
            tiers: IdTable::new(),
            current_cycle: 0,
            all_tier_changes: Vec::new(),
        };
        assert(r.records() =~= Seq::<ValidatorTierInfoView>::empty());
        assert(r.infos() =~= Map::<Seq<u8>, ValidatorTierInfoView>::empty());
        assert(r.changes() =~= Seq::<TierChangeEventView>::empty());
        r
    }

    /// Register a validator with initial stake; it starts at the tier of
    /// that stake in the current cycle.
    pub fn register_validator(&mut self, validator_id: ValidatorID, stake: u64) -> (r: Result<
        ValidatorTier,
        Error,
    >)
        requires
            old(self).wf(),
        ensures
            final(self).wf(),
            stake < tier_min_stake(ValidatorTier::Bronze) ==> r == Err::<ValidatorTier, Error>(
                Error::StakeBelowMinimum { stake, minimum: 10_000 },
            ),
            stake >= tier_min_stake(ValidatorTier::Bronze) && old(self).infos().dom().contains(
                validator_id@,
            ) ==> r == Err::<ValidatorTier, Error>(Error::AlreadyRegistered),
            r is Err ==> final(self).records() == old(self).records(),
            r is Ok <==> stake >= tier_min_stake(ValidatorTier::Bronze) && !old(self).infos().dom().contains(validator_id@),
            r is Ok ==> {
                let info = ValidatorTierInfoView {
                    validator_id: validator_id@,
                    current_tier: tier_for_stake(stake),
                    stake_amount: stake,
                    tier_history: Seq::empty(),
                    last_updated_cycle: old(self).cycle(),
                };
                &&& r == Ok::<ValidatorTier, Error>(tier_for_stake(stake))
                &&& final(self).records() == old(self).records().push(info)
                &&& final(self).infos() == old(self).infos().insert(validator_id@, info)
            },
            final(self).changes() == old(self).changes(),
            final(self).cycle() == old(self).cycle(),
    {
        let bronze_min = ValidatorTier::Bronze.min_stake();
        if stake < bronze_min {
            return Err(Error::StakeBelowMinimum { stake, minimum: bronze_min });
        }
        if self.tiers.contains(&validator_id) {
            return Err(Error::AlreadyRegistered);
        }
        let tier_info = ValidatorTierInfo::new(validator_id.copy(), stake, self.current_cycle);
        let tier = tier_info.current_tier;
        let ghost info_v = tier_info@;
        self.tiers.push(validator_id, tier_info);
        assert(self.records() =~= old(self).records().push(info_v));
        assert(self.infos() =~= old(self).infos().insert(validator_id@, info_v));
        Ok(tier)
    }

    /// Update a validator's stake at time `now` and record a tier change,
    /// if any.
    pub fn update_validator_stake_at(
        &mut self,
        validator_id: &ValidatorID,
        new_stake: u64,
        now: u64,
    ) -> (r: Result<Option<TierChangeEvent>, Error>)
        requires
            old(self).wf(),
        ensures
            final(self).wf(),
            final(self).cycle() == old(self).cycle(),
            !old(self).infos().dom().contains(validator_id@) ==> r is Err && r->Err_0
                == Error::NotFound,
            old(self).infos().dom().contains(validator_id@) && new_stake < tier_min_stake(
                ValidatorTier::Bronze,
            ) ==> r is Err && r->Err_0 == (Error::StakeBelowMinimum {
                stake: new_stake,
                minimum: 10_000,
            }),
            r is Ok <==> old(self).infos().dom().contains(validator_id@) && new_stake
                >= tier_min_stake(ValidatorTier::Bronze),
            r is Err ==> final(self).infos() == old(self).infos() && final(self).changes() == old(self).changes(),
            r matches Ok(ev) ==> {
                let upd = tier_info_after_update(
                    old(self).infos()[validator_id@],
                    new_stake,
                    old(self).cycle(),
                    now,
                );
                &&& opt_tier_event_view(ev) == upd.1
                &&& final(self).infos() == old(self).infos().insert(validator_id@, upd.0)
                &&& final(self).changes() == match upd.1 {
                    Some(e) => old(self).changes().push(e),
                    None => old(self).changes(),
                }
            },
    {
        let idx = match self.tiers.find(validator_id) {
            Some(i) => i,
            None => {
                return Err(Error::NotFound);
            },
        };
        let bronze_min = ValidatorTier::Bronze.min_stake();
        if new_stake < bronze_min {
            return Err(Error::StakeBelowMinimum { stake: new_stake, minimum: bronze_min });
        }
        proof {
            self.tiers.lemma_at(idx as int);
        }
        let ghost old_pairs = self.tiers.pairs();
        let cycle = self.current_cycle;
        let event = {
            let info = self.tiers.value_mut(idx);
            info.update_stake_at(new_stake, cycle, now)
        };
        proof {
            let k = old_pairs[idx as int].0;
            let v = self.tiers.pairs()[idx as int].1;
            assert(self.tiers.pairs() =~= old_pairs.update(idx as int, (k, v)));
            crate::table::lemma_seq_to_map_update(old_pairs, idx as int, v);
            assert forall|i: int| 0 <= i < self.tiers.pairs().len() implies #[trigger] self.tiers.pairs()[i].1.validator_id@
                == self.tiers.pairs()[i].0 by {
                if i != idx {
                    assert(self.tiers.pairs()[i] == old_pairs[i]);
                    assert(old(self).tiers.pairs()[i].1.validator_id@ == old(self).tiers.pairs()[i].0);
                } else {
                    assert(old(self).tiers.pairs()[i].1.validator_id@ == old(self).tiers.pairs()[i].0);
                }
            }
            assert(self.infos() =~= old(self).infos().insert(validator_id@, v@));
        }
        match &event {
            Some(e) => {
                let ghost c0 = self.all_tier_changes@;
                self.all_tier_changes.push(e.clone());
                assert(tier_event_views(self.all_tier_changes@) =~= tier_event_views(c0).push(e@));
            },
            None => {},
        }
        Ok(event)
    }

    /// Update a validator's stake and record a tier change, if any, stamped
    /// with the current time.
    pub fn update_validator_stake(&mut self, validator_id: &ValidatorID, new_stake: u64) -> (r:
        Result<Option<TierChangeEvent>, Error>)
        requires
            old(self).wf(),
        ensures
            final(self).wf(),
            final(self).cycle() == old(self).cycle(),
            !old(self).infos().dom().contains(validator_id@) ==> r is Err && r->Err_0
                == Error::NotFound,
            old(self).infos().dom().contains(validator_id@) && new_stake < tier_min_stake(
                ValidatorTier::Bronze,
            ) ==> r is Err && r->Err_0 == (Error::StakeBelowMinimum {
                stake: new_stake,
                minimum: 10_000,
            }),
            r is Ok <==> old(self).infos().dom().contains(validator_id@) && new_stake
                >= tier_min_stake(ValidatorTier::Bronze),
            r is Err ==> final(self).infos() == old(self).infos() && final(self).changes() == old(self).changes(),
            r matches Ok(ev) ==> exists|now: u64|
                #![trigger tier_info_after_update(old(self).infos()[validator_id@], new_stake, old(self).cycle(), now)]
                {
                    let upd = tier_info_after_update(
                        old(self).infos()[validator_id@],
                        new_stake,
                        old(self).cycle(),
                        now,
                    );
                    &&& opt_tier_event_view(ev) == upd.1
                    &&& final(self).infos() == old(self).infos().insert(validator_id@, upd.0)
                    &&& final(self).changes() == match upd.1 {
                        Some(e) => old(self).changes().push(e),
                        None => old(self).changes(),
                    }
                },
    {
        let now = unix_time_secs();
        self.update_validator_stake_at(validator_id, new_stake, now)
    }

    /// The tier of a validator.
    pub fn get_tier(&self, validator_id: &ValidatorID) -> (r: Option<ValidatorTier>)
        requires
            self.wf(),
        ensures
            r is None <==> !self.infos().dom().contains(validator_id@),
            r matches Some(t) ==> t == self.infos()[validator_id@].current_tier,
    {
        match self.tiers.get(validator_id) {
            Some(info) => Some(info.current_tier),
            None => None,
        }
    }

    /// The tier information of a validator.
    pub fn get_tier_info(&self, validator_id: &ValidatorID) -> (r: Option<&ValidatorTierInfo>)
        requires
            self.wf(),
        ensures
            r is None <==> !self.infos().dom().contains(validator_id@),
            r matches Some(i) ==> i@ == self.infos()[validator_id@],
    {
        self.tiers.get(validator_id)
    }

    /// Effective voting power of a validator (0 if unknown).
    pub fn get_voting_power(&self, validator_id: &ValidatorID) -> (r: u64)
        requires
            self.wf(),
        ensures
            !self.infos().dom().contains(validator_id@) ==> r == 0,
            self.infos().dom().contains(validator_id@) ==> r == scaled_by_halves(
                self.infos()[validator_id@].stake_amount,
                tier_voting_halves(self.infos()[validator_id@].current_tier),
            ),
    {
        match self.tiers.get(validator_id) {
            Some(info) => info.effective_voting_power(),
            None => 0,
        }
    }

    /// Reward multiplier of a validator in percent (100 if unknown).
    pub fn get_reward_multiplier_percent(&self, validator_id: &ValidatorID) -> (r: u64)
        requires
            self.wf(),
        ensures
            !self.infos().dom().contains(validator_id@) ==> r == 100,
            self.infos().dom().contains(validator_id@) ==> r == tier_reward_percent(
                self.infos()[validator_id@].current_tier,
            ),
    {
        match self.tiers.get(validator_id) {
            Some(info) => info.reward_multiplier_percent(),
            None => 100,
        }
    }

    /// The validators at `tier`, in registration order.
    pub fn get_validators_by_tier(&self, tier: ValidatorTier) -> (r: Vec<ValidatorID>)
        requires
            self.wf(),
        ensures
            id_views(r@) == ids_at_tier(self.records(), tier),
    {
        let mut r: Vec<ValidatorID> = Vec::new();
        let mut i: usize = 0;
        while i < self.tiers.len()
            invariant
                self.wf(),
                i <= self.records().len(),
                self.records().len() == self.tiers.pairs().len(),
                id_views(r@) == ids_at_tier(self.records().take(i as int), tier),
            decreases self.records().len() - i,
        {
            let info = self.tiers.value_at(i);
            proof {
                assert(self.records().take(i + 1).drop_last() =~= self.records().take(i as int));
                assert(self.records()[i as int] == info@);
            }
            if info.current_tier == tier {
                let ghost r0 = r@;
                r.push(self.tiers.id_at(i).copy());
                proof {
                    assert(self.tiers.pairs()[i as int].1.validator_id@ == self.tiers.pairs()[i as int].0);
                    assert(id_views(r@) =~= id_views(r0).push(info.validator_id@));
                }
            }
            i = i + 1;
        }
        assert(self.records().take(i as int) =~= self.records());
        r
    }

    /// Number of validators at each tier, tiers in ascending order.
    pub fn get_tier_distribution(&self) -> (r: Vec<(ValidatorTier, usize)>)
        requires
            self.wf(),
        ensures
            r@.len() == 4,
            forall|k: int|
                0 <= k < 4 ==> (#[trigger] r@[k]).0 == tiers_ascending()[k] && r@[k].1
                    == count_at_tier(self.records(), tiers_ascending()[k]),
    {
        let mut counts: [usize; 4] = [0, 0, 0, 0];
        let mut i: usize = 0;
        while i < self.tiers.len()
            invariant
                i <= self.records().len(),
                self.records().len() == self.tiers.pairs().len(),
                forall|k: int|
                    0 <= k < 4 ==> #[trigger] counts@[k] == count_at_tier(
                        self.records().take(i as int),
                        tiers_ascending()[k],
                    ),
                forall|k: int|
                    0 <= k < 4 ==> count_at_tier(self.records().take(i as int), #[trigger] tiers_ascending()[k]) <= i,
            decreases self.records().len() - i,
        {
            let info = self.tiers.value_at(i);
            let k = info.current_tier.rank() as usize;
            proof {
                assert(self.records().take(i + 1).drop_last() =~= self.records().take(i as int));
                assert(self.records()[i as int] == info@);
                assert(tiers_ascending()[k as int] == info.current_tier);
            }
            counts[k] = counts[k] + 1;
            i = i + 1;
            proof {
                assert forall|j: int| 0 <= j < 4 implies #[trigger] counts@[j] == count_at_tier(
                    self.records().take(i as int),
                    tiers_ascending()[j],
                ) by {
                    assert(tiers_ascending()[j] == tiers_ascending()[k as int] <==> j == k);
                }
            }
        }
        assert(self.records().take(i as int) =~= self.records());
        let r = vec![
            (ValidatorTier::Bronze, counts[0]),
            (ValidatorTier::Silver, counts[1]),
            (ValidatorTier::Gold, counts[2]),
            (ValidatorTier::Platinum, counts[3]),
        ];
        r
    }

    /// Total effective voting power across all validators.
    pub fn total_voting_power(&self) -> (r: u64)
        requires
            self.wf(),
            total_power(self.records()) <= u64::MAX,
        ensures
            r == total_power(self.records()),
    {
        let mut sum: u64 = 0;
        let mut i: usize = 0;
        while i < self.tiers.len()
            invariant
                i <= self.records().len(),
                self.records().len() == self.tiers.pairs().len(),
                total_power(self.records()) <= u64::MAX,
                sum == total_power(self.records().take(i as int)),
            decreases self.records().len() - i,
        {
            let info = self.tiers.value_at(i);
            proof {
                assert(self.records().take(i + 1).drop_last() =~= self.records().take(i as int));
                assert(self.records()[i as int] == info@);
                lemma_total_power_prefix(self.records(), i + 1);
            }
            sum = sum + info.effective_voting_power();
            i = i + 1;
        }
        assert(self.records().take(i as int) =~= self.records());
        sum
    }

    /// Advance to next cycle.
    pub fn advance_cycle(&mut self)
        requires
            old(self).cycle() < u64::MAX,
        ensures
            final(self).cycle() == old(self).cycle() + 1,
            final(self).records() == old(self).records(),
            final(self).infos() == old(self).infos(),
            final(self).changes() == old(self).changes(),
            final(self).wf() == old(self).wf(),
    {
        self.current_cycle = self.current_cycle + 1;
    }

    /// The current cycle.
    pub fn current_cycle(&self) -> (r: u64)
        ensures
            r == self.cycle(),
    {
        self.current_cycle
    }

    /// All tier change events, oldest first.
    pub fn get_tier_changes(&self) -> (r: &Vec<TierChangeEvent>)
        ensures
            tier_event_views(r@) == self.changes(),
    {
        &self.all_tier_changes
    }

    /// Tier change events of one validator, oldest first.
    pub fn get_validator_tier_changes(&self, validator_id: &ValidatorID) -> (r: Vec<TierChangeEvent>)
        ensures
            tier_event_views(r@) == tier_events_of(self.changes(), validator_id@),
    {
        let mut r: Vec<TierChangeEvent> = Vec::new();
        let mut i: usize = 0;
        while i < self.all_tier_changes.len()
            invariant
                i <= self.all_tier_changes@.len(),
                tier_event_views(r@) == tier_events_of(self.changes().take(i as int), validator_id@),
            decreases self.all_tier_changes@.len() - i,
        {
            let e = &self.all_tier_changes[i];
            proof {
                assert(self.changes().take(i + 1).drop_last() =~= self.changes().take(i as int));
                assert(self.changes()[i as int] == e@);
            }
            if e.validator_id.same_as(validator_id) {
                let ghost r0 = r@;
                r.push(e.clone());
                assert(tier_event_views(r@) =~= tier_event_views(r0).push(e@));
            }
            i = i + 1;
        }
        assert(self.changes().take(i as int) =~= self.changes());
        r
    }

    /// Remove a validator from the tier system.
    pub fn remove_validator(&mut self, validator_id: &ValidatorID) -> (r: Result<(), Error>)
        requires
            old(self).wf(),
        ensures
            final(self).wf(),
            r is Ok <==> old(self).infos().dom().contains(validator_id@),
            r is Err ==> r->Err_0 == Error::NotFound && final(self).infos() == old(self).infos(),
            final(self).infos() == old(self).infos().remove(validator_id@),
            final(self).changes() == old(self).changes(),
            final(self).cycle() == old(self).cycle(),
    {
        match self.tiers.find(validator_id) {
            Some(i) => {
                let ghost old_pairs = self.tiers.pairs();
                let _ = self.tiers.remove_at(i);
                proof {
                    assert forall|j: int| 0 <= j < self.tiers.pairs().len() implies #[trigger] self.tiers.pairs()[j].1.validator_id@
                        == self.tiers.pairs()[j].0 by {
                        let j2 = if j < i { j } else { j + 1 };
                        assert(self.tiers.pairs()[j] == old_pairs[j2]);
                        assert(old(self).tiers.pairs()[j2].1.validator_id@ == old(self).tiers.pairs()[j2].0);
                    }
                    assert(self.infos() =~= old(self).infos().remove(validator_id@));
                }
                Ok(())
            },
            None => {
                assert(old(self).infos().remove(validator_id@) =~= old(self).infos());
                Err(Error::NotFound)
            },
        }
    }

    /// Number of registered validators.
    pub fn validator_count(&self) -> (r: usize)
        requires
            self.wf(),
        ensures
            r == self.infos().dom().len(),
            r == self.records().len(),
    {
        proof {
            self.lemma_records_infos(Seq::empty());
        }
        self.tiers.len()
    }

    /// Forget all validators and all tier changes.
    pub fn clear(&mut self)
        ensures
            final(self).wf(),
            final(self).records() == Seq::<ValidatorTierInfoView>::empty(),
            final(self).infos() == Map::<Seq<u8>, ValidatorTierInfoView>::empty(),
            final(self).changes() == Seq::<TierChangeEventView>::empty(),
            final(self).cycle() == old(self).cycle(),
    {
        self.tiers.clear();
        self.all_tier_changes.clear();
        assert(self.records() =~= Seq::<ValidatorTierInfoView>::empty());
        assert(self.infos() =~= Map::<Seq<u8>, ValidatorTierInfoView>::empty());
        assert(self.changes() =~= Seq::<TierChangeEventView>::empty());
    }
}

/// A prefix's total voting power is at most the whole's.
pub proof fn lemma_total_power_prefix(s: Seq<ValidatorTierInfoView>, n: int)
    requires
        0 <= n <= s.len(),
    ensures
        total_power(s.take(n)) <= total_power(s),
    decreases s.len() - n,
{
    if n < s.len() {
        lemma_total_power_prefix(s, n + 1);
        assert(s.take(n + 1).drop_last() =~= s.take(n));
    } else {
        assert(s.take(n) =~= s);
    }
}

impl Default for ValidatorTierManager {
    fn default() -> (r: Self)
        ensures
            r.wf(),
            r.infos() == Map::<Seq<u8>, ValidatorTierInfoView>::empty(),
            r.changes() == Seq::<TierChangeEventView>::empty(),
            r.cycle() == 0,
    {
        Self::new()
    }
}

} // verus!
