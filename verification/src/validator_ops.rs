//! Validator operations: registration with a stake deposit, participation,
//! unstaking and queries, across the validator set and the staking
//! manager.
use vstd::prelude::*;
use crate::clock::unix_time_secs;
use crate::staking::{
    StakingManager, UnstakingRequest, ValidatorStakeView, MIN_STAKE_AMOUNT, below_minimum,
    stake_ids_where, stakes_after_deposit, unstake_outcome, unstake_result_view, active_stake_of,
};
use crate::types::{Error, ValidatorID, id_views};
use crate::validator::{
    ValidatorInfo, ValidatorInfoView, ValidatorMetadata, ValidatorSet, ValidatorSetChangeEventView,
    active_keys, fresh_info, info_views, low_participation_keys, stake_weight,
};

verus! {

/// The participation rate, in basis points, below which a validator is
/// reported for downtime (more than 10% of snapshots missed).
pub const MIN_PARTICIPATION_BPS: u64 = 9000;

/// Coordinates the validator set and the staking manager.
pub struct ValidatorOperations {
    validator_set: ValidatorSet,
    staking_manager: StakingManager,
}

impl ValidatorOperations {
    /// The validator set.
    pub closed spec fn set(&self) -> ValidatorSet {
        self.validator_set
    }

    /// The staking manager.
    pub closed spec fn staking(&self) -> StakingManager {
        self.staking_manager
    }

    /// Both parts are well formed.
    pub open spec fn wf(&self) -> bool {
        self.set().wf() && self.staking().wf()
    }

    /// An empty validator set (with its default minimum stake) and no
    /// stake.
    pub fn new() -> (r: Self)
        ensures
            r.wf(),
            r.set().records() == Seq::<ValidatorInfoView>::empty(),
            r.set().total() == 0,
            r.set().cycle() == 0,
            r.set().history() == Seq::<ValidatorSetChangeEventView>::empty(),
            r.set().min() == 10_000,
            r.staking().stakes_map() == Map::<Seq<u8>, ValidatorStakeView>::empty(),
            r.staking().total() == 0,
    {
        ValidatorOperations { validator_set: ValidatorSet::new(), staking_manager: StakingManager::new() }
    }

    /// Register a validator at `now` with a stake deposit: refused below
    /// `MIN_STAKE_AMOUNT`; then the validator joins the set (refused when
    /// it is there already); then its stake is deposited (refused for a
    /// digest that is not 64 bytes, the validator staying in the set).
    pub fn register_validator_at(&mut self, metadata: ValidatorMetadata, deposit_tx: Vec<u8>, now: u64) -> (r:
        Result<(), Error>)
        requires
            old(self).wf(),
            metadata.stake_amount >= MIN_STAKE_AMOUNT && !old(self).set().infos().dom().contains(
                metadata@.address,
            ) ==> old(self).set().total() + metadata.stake_amount <= u64::MAX && (deposit_tx@.len() == 64
                ==> old(self).staking().total() + metadata.stake_amount <= u64::MAX),
        ensures
            final(self).wf(),
            final(self).set().cycle() == old(self).set().cycle(),
            final(self).set().history() == old(self).set().history(),
            final(self).set().min() == old(self).set().min(),
            metadata.stake_amount < MIN_STAKE_AMOUNT ==> r == Err::<(), Error>(
                Error::StakeBelowMinimum { stake: metadata.stake_amount, minimum: MIN_STAKE_AMOUNT },
            ),
            metadata.stake_amount >= MIN_STAKE_AMOUNT && old(self).set().infos().dom().contains(
                metadata@.address,
            ) ==> r == Err::<(), Error>(Error::AlreadyRegistered),
            metadata.stake_amount < MIN_STAKE_AMOUNT || old(self).set().infos().dom().contains(
                metadata@.address,
            ) ==> final(self).set().records() == old(self).set().records() && final(self).set().total()
                == old(self).set().total() && final(self).staking().records() == old(self).staking().records()
                && final(self).staking().total() == old(self).staking().total(),
            metadata.stake_amount >= MIN_STAKE_AMOUNT && !old(self).set().infos().dom().contains(
                metadata@.address,
            ) ==> {
                &&& final(self).set().records() == old(self).set().records().push(fresh_info(metadata@))
                &&& final(self).set().total() == old(self).set().total() + metadata.stake_amount
                &&& deposit_tx@.len() != 64 ==> r == Err::<(), Error>(
                    Error::InvalidDigestLength { length: deposit_tx@.len() as usize },
                ) && final(self).staking().records() == old(self).staking().records()
                    && final(self).staking().total() == old(self).staking().total()
                &&& deposit_tx@.len() == 64 ==> r is Ok && final(self).staking().stakes_map()
                    == stakes_after_deposit(
                    old(self).staking().stakes_map(),
                    metadata@.address,
                    metadata.stake_amount,
                    deposit_tx@,
                    now,
                ) && final(self).staking().total() == old(self).staking().total() + metadata.stake_amount
            },
    {
        let validator_id = metadata.id();
        let stake = metadata.stake_amount;
        if stake < MIN_STAKE_AMOUNT {
            return Err(Error::StakeBelowMinimum { stake, minimum: MIN_STAKE_AMOUNT });
        }
        match self.validator_set.add_validator(metadata) {
            Ok(()) => {},
            Err(e) => {
                return Err(e);
            },
        }
        self.staking_manager.deposit_stake_at(validator_id, stake, deposit_tx, now)
    }

    /// Register a validator now (by the system clock); see
    /// `register_validator_at`.
    pub fn register_validator(&mut self, metadata: ValidatorMetadata, deposit_tx: Vec<u8>) -> (r: Result<
        (),
        Error,
    >)
        requires
            old(self).wf(),
            metadata.stake_amount >= MIN_STAKE_AMOUNT && !old(self).set().infos().dom().contains(
                metadata@.address,
            ) ==> old(self).set().total() + metadata.stake_amount <= u64::MAX && (deposit_tx@.len() == 64
                ==> old(self).staking().total() + metadata.stake_amount <= u64::MAX),
        ensures
            final(self).wf(),
            final(self).set().cycle() == old(self).set().cycle(),
            final(self).set().history() == old(self).set().history(),
            final(self).set().min() == old(self).set().min(),
            metadata.stake_amount < MIN_STAKE_AMOUNT ==> r == Err::<(), Error>(
                Error::StakeBelowMinimum { stake: metadata.stake_amount, minimum: MIN_STAKE_AMOUNT },
            ),
            metadata.stake_amount >= MIN_STAKE_AMOUNT && old(self).set().infos().dom().contains(
                metadata@.address,
            ) ==> r == Err::<(), Error>(Error::AlreadyRegistered),
            metadata.stake_amount < MIN_STAKE_AMOUNT || old(self).set().infos().dom().contains(
                metadata@.address,
            ) ==> final(self).set().records() == old(self).set().records() && final(self).set().total()
                == old(self).set().total() && final(self).staking().records() == old(self).staking().records()
                && final(self).staking().total() == old(self).staking().total(),
            metadata.stake_amount >= MIN_STAKE_AMOUNT && !old(self).set().infos().dom().contains(
                metadata@.address,
            ) ==> {
                &&& final(self).set().records() == old(self).set().records().push(fresh_info(metadata@))
                &&& final(self).set().total() == old(self).set().total() + metadata.stake_amount
                &&& deposit_tx@.len() != 64 ==> r == Err::<(), Error>(
                    Error::InvalidDigestLength { length: deposit_tx@.len() as usize },
                ) && final(self).staking().records() == old(self).staking().records()
                    && final(self).staking().total() == old(self).staking().total()
                &&& deposit_tx@.len() == 64 ==> r is Ok && final(self).staking().total()
                    == old(self).staking().total() + metadata.stake_amount && exists|now: u64|
                    final(self).staking().stakes_map() == #[trigger] stakes_after_deposit(
                        old(self).staking().stakes_map(),
                        metadata@.address,
                        metadata.stake_amount,
                        deposit_tx@,
                        now,
                    )
            },
    {
        let now = unix_time_secs();
        let ghost old_map = self.staking().stakes_map();
        let ghost addr = metadata@.address;
        let ghost amount = metadata.stake_amount;
        let ghost tx = deposit_tx@;
        let r = self.register_validator_at(metadata, deposit_tx, now);
        proof {
            if amount >= MIN_STAKE_AMOUNT && !old(self).set().infos().dom().contains(addr) && tx.len() == 64 {
                assert(self.staking().stakes_map() == stakes_after_deposit(old_map, addr, amount, tx, now));
            }
        }
        r
    }

    /// Record a validator's participation in a snapshot (ignored for
    /// validators not in the set).
    pub fn record_snapshot_participation(&mut self, validator_id: &ValidatorID, participated: bool)
        requires
            old(self).wf(),
            old(self).set().infos().dom().contains(validator_id@) ==> old(self).set().infos()[validator_id@].total_snapshots
                < u64::MAX,
        ensures
            final(self).wf(),
            final(self).staking() == old(self).staking(),
            final(self).set().total() == old(self).set().total(),
            final(self).set().infos().dom() == old(self).set().infos().dom(),
            old(self).set().infos().dom().contains(validator_id@) ==> final(self).set().infos()[validator_id@]
                == (ValidatorInfoView {
                total_snapshots: (old(self).set().infos()[validator_id@].total_snapshots + 1) as u64,
                snapshots_participated: if participated {
                    (old(self).set().infos()[validator_id@].snapshots_participated + 1) as u64
                } else {
                    old(self).set().infos()[validator_id@].snapshots_participated
                },
                ..old(self).set().infos()[validator_id@]
            }),
            forall|k: Seq<u8>|
                k != validator_id@ && old(self).set().infos().dom().contains(k) ==> final(self).set().infos()[k]
                    == old(self).set().infos()[k],
    {
        self.validator_set.record_participation(validator_id, participated);
    }

    /// Ask, at `now`, to unstake `amount` of a validator's active stake; see
    /// `unstake_outcome`.
    pub fn request_unstake_at(&mut self, validator_id: &ValidatorID, amount: u64, now: u64) -> (r: Result<
        UnstakingRequest,
        Error,
    >)
        requires
            old(self).wf(),
        ensures
            final(self).wf(),
            final(self).set() == old(self).set(),
            final(self).staking().total() == old(self).staking().total(),
            (unstake_result_view(r), final(self).staking().stakes_map()) == unstake_outcome(
                old(self).staking().stakes_map(),
                validator_id@,
                amount,
                now,
            ),
    {
        self.staking_manager.request_unstake_at(validator_id, amount, now)
    }

    /// Ask now (by the system clock) to unstake; see `unstake_outcome`.
    pub fn request_unstake(&mut self, validator_id: &ValidatorID, amount: u64) -> (r: Result<
        UnstakingRequest,
        Error,
    >)
        requires
            old(self).wf(),
        ensures
            final(self).wf(),
            final(self).set() == old(self).set(),
            exists|now: u64|
                (unstake_result_view(r), final(self).staking().stakes_map()) == #[trigger] unstake_outcome(
                    old(self).staking().stakes_map(),
                    validator_id@,
                    amount,
                    now,
                ),
    {
        let now = unix_time_secs();
        self.request_unstake_at(validator_id, amount, now)
    }

    /// A validator's entry in the set.
    pub fn get_validator(&self, validator_id: &ValidatorID) -> (r: Option<ValidatorInfo>)
        requires
            self.wf(),
        ensures
            r is None <==> !self.set().infos().dom().contains(validator_id@),
            r matches Some(i) ==> i@ == self.set().infos()[validator_id@],
    {
        self.validator_set.get_validator(validator_id)
    }

    /// A validator's active stake (0 if it has none).
    pub fn get_validator_stake(&self, validator_id: &ValidatorID) -> (r: u64)
        requires
            self.wf(),
        ensures
            r == active_stake_of(self.staking().stakes_map(), validator_id@),
    {
        self.staking_manager.get_active_stake(validator_id)
    }

    /// The active validators' entries, in order.
    pub fn get_active_validators(&self) -> (r: Vec<ValidatorInfo>)
        ensures
            info_views(r@).map_values(|v: ValidatorInfoView| v.metadata.address) == active_keys(
                self.set().records(),
            ),
    {
        self.validator_set.get_active_validators()
    }

    /// The total stake held by the staking manager.
    pub fn total_staked(&self) -> (r: u64)
        ensures
            r == self.staking().total(),
    {
        self.staking_manager.total_staked()
    }

    /// The validator set's cycle.
    pub fn current_cycle(&self) -> (r: u64)
        ensures
            r == self.set().cycle(),
    {
        self.validator_set.current_cycle()
    }

    /// Whether the listed validators hold at least two thirds of the set's
    /// stake.
    pub fn has_quorum(&self, validator_ids: &[ValidatorID]) -> (r: bool)
        requires
            self.wf(),
            stake_weight(id_views(validator_ids@), self.set().infos()) <= u64::MAX,
        ensures
            r == (stake_weight(id_views(validator_ids@), self.set().infos()) * 3 >= self.set().total() * 2),
    {
        self.validator_set.has_quorum(validator_ids)
    }

    /// The validators whose active stake is below `MIN_STAKE_AMOUNT`, in
    /// order.
    pub fn get_validators_below_minimum(&self) -> (r: Vec<ValidatorID>)
        requires
            self.wf(),
        ensures
            id_views(r@) == stake_ids_where(self.staking().records(), below_minimum()),
    {
        self.staking_manager.get_below_minimum_stake()
    }

    /// The validators whose participation this cycle is below 90%, in
    /// order.
    pub fn get_low_participation_validators(&self) -> (r: Vec<ValidatorID>)
        requires
            self.wf(),
        ensures
            id_views(r@) == low_participation_keys(self.set().records(), MIN_PARTICIPATION_BPS),
    {
        self.validator_set.apply_participation_penalties(MIN_PARTICIPATION_BPS)
    }
}

} // verus!
