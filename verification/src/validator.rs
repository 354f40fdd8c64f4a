//! Validator set management:
//! - validator registration and stake tracking
//! - stake-weighted voting (2/3 quorum)
//! - reconfiguration at cycle boundaries
//! - participation tracking and penalties
use vstd::prelude::*;
use crate::clock::unix_time_secs;
use crate::seqsum::{
    sum_of, lemma_sum_push, lemma_sum_remove, lemma_sum_update, lemma_sum_bounds, lemma_sum_take_step,
    lemma_sum_le, lemma_sum_add, lemma_sum_nonneg,
};
use crate::staking::{StakingManager, stake_ids_where, active_at_least, active_stake_of};
use crate::table::IdTable;
use crate::types::{Error, SilverAddress, ValidatorID, copy_bytes, id_views};

verus! {

/// The abstract content of validator metadata.
pub struct ValidatorMetadataView {
    pub address: Seq<u8>,
    pub stake_amount: u64,
    pub network_address: Seq<char>,
    pub p2p_address: Seq<char>,
}

/// What a validator declares when it joins: its address, its stake and
/// where it can be reached.
pub struct ValidatorMetadata {
    pub silver_address: SilverAddress,
    pub stake_amount: u64,
    pub network_address: String,
    pub p2p_address: String,
}

impl View for ValidatorMetadata {
    type V = ValidatorMetadataView;

    open spec fn view(&self) -> ValidatorMetadataView {
        ValidatorMetadataView {
            address: self.silver_address@,
            stake_amount: self.stake_amount,
            network_address: self.network_address@,
            p2p_address: self.p2p_address@,
        }
    }
}

impl ValidatorMetadata {
    /// Metadata with the given fields.
    pub fn new(
        silver_address: SilverAddress,
        stake_amount: u64,
        network_address: String,
        p2p_address: String,
    ) -> (r: Self)
        ensures
            r@ == (ValidatorMetadataView {
                address: silver_address@,
                stake_amount,
                network_address: network_address@,
                p2p_address: p2p_address@,
            }),
    {
        ValidatorMetadata { silver_address, stake_amount, network_address, p2p_address }
    }

    /// The validator's identifier: its address.
    pub fn id(&self) -> (r: ValidatorID)
        ensures
            r@ == self@.address,
    {
        ValidatorID { bytes: copy_bytes(&self.silver_address.bytes) }
    }
}

impl Clone for ValidatorMetadata {
    fn clone(&self) -> (r: Self)
        ensures
            r@ == self@,
    {
        ValidatorMetadata {
            silver_address: SilverAddress { bytes: copy_bytes(&self.silver_address.bytes) },
            stake_amount: self.stake_amount,
            network_address: self.network_address.clone(),
            p2p_address: self.p2p_address.clone(),
        }
    }
}

/// The abstract content of a validator's entry in the set.
pub struct ValidatorInfoView {
    pub metadata: ValidatorMetadataView,
    pub stake: u64,
    pub active: bool,
    pub snapshots_participated: u64,
    pub total_snapshots: u64,
}

/// Validator information.
pub struct ValidatorInfo {
    /// Validator metadata
    pub metadata: ValidatorMetadata,
    /// Current stake amount
    pub stake: u64,
    /// Whether validator is active
    pub active: bool,
    /// Number of snapshots participated in this cycle
    pub snapshots_participated: u64,
    /// Total snapshots in this cycle
    pub total_snapshots: u64,
}

impl View for ValidatorInfo {
    type V = ValidatorInfoView;

    open spec fn view(&self) -> ValidatorInfoView {
        ValidatorInfoView {
            metadata: self.metadata@,
            stake: self.stake,
            active: self.active,
            snapshots_participated: self.snapshots_participated,
            total_snapshots: self.total_snapshots,
        }
    }
}

/// The views of a sequence of infos.
pub open spec fn info_views(s: Seq<ValidatorInfo>) -> Seq<ValidatorInfoView> {
    s.map_values(|i: ValidatorInfo| i@)
}

/// A fresh entry for `metadata`: active, with the declared stake and no
/// participation yet.
pub open spec fn fresh_info(metadata: ValidatorMetadataView) -> ValidatorInfoView {
    ValidatorInfoView {
        metadata,
        stake: metadata.stake_amount,
        active: true,
        snapshots_participated: 0,
        total_snapshots: 0,
    }
}

/// Participation in basis points (1/10000), rounded down; 0 before any
/// snapshot.
pub open spec fn participation_bps(participated: u64, total: u64) -> int {
    if total == 0 {
        0
    } else {
        (participated * 10000) / (total as int)
    }
}

/// Whether the participation rate `participated / total` (0 before any
/// snapshot) is below `threshold_bps` basis points.
pub open spec fn rate_below(participated: u64, total: u64, threshold_bps: u64) -> bool {
    if total == 0 {
        threshold_bps > 0
    } else {
        participated * 10000 < threshold_bps * total
    }
}

/// The participation test agrees with the participation rate: once a
/// snapshot has been counted, a validator is below a threshold exactly when
/// its rate in basis points (rounded down) is below it. So a validator that
/// took part in every snapshot is below no threshold of at most 100%, and
/// one that took part in none is below every positive threshold.
pub proof fn lemma_rate_below_is_rate_under_threshold(participated: u64, total: u64, threshold_bps: u64)
    requires
        total > 0,
        participated <= total,
    ensures
        rate_below(participated, total, threshold_bps) <==> participation_bps(participated, total) < threshold_bps,
        participated == total && threshold_bps <= 10000 ==> !rate_below(participated, total, threshold_bps),
        participated == 0 && threshold_bps > 0 ==> rate_below(participated, total, threshold_bps),
{
    let x: int = participated * 10000;
    let t: int = total as int;
    let th: int = threshold_bps as int;
    assert((x / t < th) <==> (x < th * t)) by (nonlinear_arith)
        requires
            t > 0,
            x >= 0,
            th >= 0,
    {
        let q = x / t;
        assert(q * t <= x < q * t + t);
        if q < th {
            assert(q + 1 <= th);
            assert((q + 1) * t <= th * t);
        } else {
            assert(th * t <= q * t);
        }
    }
    assert(participation_bps(participated, total) == x / t);
    if participated == total {
        assert(x == 10000 * t);
        assert(x / t == 10000) by (nonlinear_arith)
            requires
                x == 10000 * t,
                t > 0,
        ;
    }
}

impl Clone for ValidatorInfo {
    fn clone(&self) -> (r: Self)
        ensures
            r@ == self@,
    {
        ValidatorInfo {
            metadata: self.metadata.clone(),
            stake: self.stake,
            active: self.active,
            snapshots_participated: self.snapshots_participated,
            total_snapshots: self.total_snapshots,
        }
    }
}

impl ValidatorInfo {
    /// A fresh entry for `metadata`.
    pub fn new(metadata: ValidatorMetadata) -> (r: Self)
        ensures
            r@ == fresh_info(metadata@),
    {
        let stake = metadata.stake_amount;
        ValidatorInfo { metadata, stake, active: true, snapshots_participated: 0, total_snapshots: 0 }
    }

    /// The validator's identifier.
    pub fn id(&self) -> (r: ValidatorID)
        ensures
            r@ == self@.metadata.address,
    {
        self.metadata.id()
    }

    /// The validator's address.
    pub fn address(&self) -> (r: &SilverAddress)
        ensures
            r@ == self@.metadata.address,
    {
        &self.metadata.silver_address
    }

    /// The validator's stake.
    pub fn stake_amount(&self) -> (r: u64)
        ensures
            r == self.stake,
    {
        self.stake
    }

    /// Whether the validator is active.
    pub fn is_active(&self) -> (r: bool)
        ensures
            r == self.active,
    {
        self.active
    }

    /// Participation rate in basis points (0 before any snapshot).
    pub fn participation_rate_bps(&self) -> (r: u64)
        requires
            self.snapshots_participated <= self.total_snapshots,
        ensures
            r == participation_bps(self.snapshots_participated, self.total_snapshots),
            r <= 10000,
    {
        if self.total_snapshots == 0 {
            return 0;
        }
        let p = (self.snapshots_participated as u128) * 10000;
        let q = p / (self.total_snapshots as u128);
        proof {
            assert(p <= (self.total_snapshots as u128) * 10000);
            assert(q <= 10000) by (nonlinear_arith)
                requires
                    p <= (self.total_snapshots as u128) * 10000,
                    q == p / (self.total_snapshots as u128),
                    self.total_snapshots > 0,
            ;
        }
        q as u64
    }

    /// Whether the participation rate is below `threshold_bps` basis points.
    pub fn participation_below(&self, threshold_bps: u64) -> (r: bool)
        ensures
            r == rate_below(self.snapshots_participated, self.total_snapshots, threshold_bps),
            self.total_snapshots > 0 && self.snapshots_participated <= self.total_snapshots ==> r == (
            participation_bps(self.snapshots_participated, self.total_snapshots) < threshold_bps),
            self.total_snapshots == 0 ==> r == (threshold_bps > 0),
    {
        proof {
            if self.total_snapshots > 0 && self.snapshots_participated <= self.total_snapshots {
                lemma_rate_below_is_rate_under_threshold(
                    self.snapshots_participated,
                    self.total_snapshots,
                    threshold_bps,
                );
            }
        }
        if self.total_snapshots == 0 {
            threshold_bps > 0
        } else {
            let a = threshold_bps as u128;
            let b = self.total_snapshots as u128;
            assert(a * b <= (u64::MAX as u128) * (u64::MAX as u128)) by (nonlinear_arith)
                requires
                    a <= u64::MAX as u128,
                    b <= u64::MAX as u128,
            ;
            (self.snapshots_participated as u128) * 10000 < a * b
        }
    }

    /// Record one snapshot, participated in or not.
    pub fn record_participation(&mut self, participated: bool)
        requires
            old(self).total_snapshots < u64::MAX,
            participated ==> old(self).snapshots_participated < u64::MAX,
        ensures
            final(self)@ == (ValidatorInfoView {
                total_snapshots: (old(self).total_snapshots + 1) as u64,
                snapshots_participated: if participated {
                    (old(self).snapshots_participated + 1) as u64
                } else {
                    old(self).snapshots_participated
                },
                ..old(self)@
            }),
    {
        self.total_snapshots = self.total_snapshots + 1;
        if participated {
            self.snapshots_participated = self.snapshots_participated + 1;
        }
    }

    /// Reset the cycle's participation counters.
    pub fn reset_cycle_stats(&mut self)
        ensures
            final(self)@ == (ValidatorInfoView {
                snapshots_participated: 0,
                total_snapshots: 0,
                ..old(self)@
            }),
    {
        self.snapshots_participated = 0;
        self.total_snapshots = 0;
    }
}

/// The abstract content of a validator set change event.
pub struct ValidatorSetChangeEventView {
    pub cycle: u64,
    pub added: Seq<Seq<u8>>,
    pub removed: Seq<Seq<u8>>,
    pub total_validators: usize,
    pub total_stake: u64,
    pub timestamp: u64,
}

/// Validator set change event.
pub struct ValidatorSetChangeEvent {
    /// Cycle when change occurred
    pub cycle: u64,
    /// Validators added
    pub added: Vec<ValidatorID>,
    /// Validators removed
    pub removed: Vec<ValidatorID>,
    /// Total validators after change
    pub total_validators: usize,
    /// Total stake after change
    pub total_stake: u64,
    /// Timestamp of change
    pub timestamp: u64,
}

impl View for ValidatorSetChangeEvent {
    type V = ValidatorSetChangeEventView;

    open spec fn view(&self) -> ValidatorSetChangeEventView {
        ValidatorSetChangeEventView {
            cycle: self.cycle,
            added: id_views(self.added@),
            removed: id_views(self.removed@),
            total_validators: self.total_validators,
            total_stake: self.total_stake,
            timestamp: self.timestamp,
        }
    }
}

/// The views of a sequence of events.
pub open spec fn change_views(s: Seq<ValidatorSetChangeEvent>) -> Seq<ValidatorSetChangeEventView> {
    s.map_values(|e: ValidatorSetChangeEvent| e@)
}

/// A copy of a list of identifiers.
pub fn copy_ids(ids: &Vec<ValidatorID>) -> (r: Vec<ValidatorID>)
    ensures
        id_views(r@) == id_views(ids@),
{
    let mut r: Vec<ValidatorID> = Vec::new();
    let mut i: usize = 0;
    while i < ids.len()
        invariant
            i <= ids@.len(),
            id_views(r@) == id_views(ids@.take(i as int)),
        decreases ids@.len() - i,
    {
        let ghost r0 = r@;
        r.push(ids[i].copy());
        assert(ids@.take(i + 1) =~= ids@.take(i as int).push(ids@[i as int]));
        assert(id_views(r@) =~= id_views(r0).push(ids@[i as int]@));
        assert(id_views(r@) =~= id_views(ids@.take(i + 1)));
        i = i + 1;
    }
    assert(ids@.take(i as int) =~= ids@);
    r
}

impl Clone for ValidatorSetChangeEvent {
    fn clone(&self) -> (r: Self)
        ensures
            r@ == self@,
    {
        ValidatorSetChangeEvent {
            cycle: self.cycle,
            added: copy_ids(&self.added),
            removed: copy_ids(&self.removed),
            total_validators: self.total_validators,
            total_stake: self.total_stake,
            timestamp: self.timestamp,
        }
    }
}

impl ValidatorSetChangeEvent {
    /// A change event stamped with the given time.
    pub fn new_at(
        cycle: u64,
        added: Vec<ValidatorID>,
        removed: Vec<ValidatorID>,
        total_validators: usize,
        total_stake: u64,
        timestamp: u64,
    ) -> (r: Self)
        ensures
            r@ == (ValidatorSetChangeEventView {
                cycle,
                added: id_views(added@),
                removed: id_views(removed@),
                total_validators,
                total_stake,
                timestamp,
            }),
    {
        ValidatorSetChangeEvent { cycle, added, removed, total_validators, total_stake, timestamp }
    }

    /// A change event stamped with the current time.
    pub fn new(
        cycle: u64,
        added: Vec<ValidatorID>,
        removed: Vec<ValidatorID>,
        total_validators: usize,
        total_stake: u64,
    ) -> (r: Self)
        ensures
            r@.cycle == cycle,
            r@.added == id_views(added@),
            r@.removed == id_views(removed@),
            r@.total_validators == total_validators,
            r@.total_stake == total_stake,
    {
        let timestamp = unix_time_secs();
        Self::new_at(cycle, added, removed, total_validators, total_stake, timestamp)
    }
}

/// The stake of an entry.
pub open spec fn info_stake() -> spec_fn(ValidatorInfoView) -> int {
    |v: ValidatorInfoView| v.stake as int
}

/// The (identifier, amount) pairs of a list of delegations.
pub open spec fn delegation_views(d: Seq<(ValidatorID, u64)>) -> Seq<(Seq<u8>, u64)> {
    d.map_values(|e: (ValidatorID, u64)| (e.0@, e.1))
}

/// The amount of a delegation if it goes to `k`.
pub open spec fn delegated_to(k: Seq<u8>) -> spec_fn((Seq<u8>, u64)) -> int {
    |e: (Seq<u8>, u64)| if e.0 == k { e.1 as int } else { 0 }
}

/// Total stake delegated to `k`.
pub open spec fn delegated_of(d: Seq<(Seq<u8>, u64)>, k: Seq<u8>) -> int {
    sum_of(d, delegated_to(k))
}

/// Whether `k` may sit in a set whose minimum stake is `min`.
pub open spec fn eligible(m: Map<Seq<u8>, crate::staking::ValidatorStakeView>, min: u64, k: Seq<u8>) -> bool {
    active_stake_of(m, k) > 0 && active_stake_of(m, k) >= min
}

/// The stake `k` carries after reconfiguration: active plus delegated.
pub open spec fn target_stake(
    m: Map<Seq<u8>, crate::staking::ValidatorStakeView>,
    d: Seq<(Seq<u8>, u64)>,
    k: Seq<u8>,
) -> int {
    active_stake_of(m, k) + delegated_of(d, k)
}

/// What an existing entry contributes to the reconfigured total.
pub open spec fn kept_contribution(
    m: Map<Seq<u8>, crate::staking::ValidatorStakeView>,
    min: u64,
    d: Seq<(Seq<u8>, u64)>,
) -> spec_fn(ValidatorInfoView) -> int {
    |v: ValidatorInfoView| if eligible(m, min, v.metadata.address) { target_stake(m, d, v.metadata.address) } else { 0 }
}

/// What a candidate contributes to the reconfigured total.
pub open spec fn added_contribution(
    old: Map<Seq<u8>, ValidatorInfoView>,
    m: Map<Seq<u8>, crate::staking::ValidatorStakeView>,
    d: Seq<(Seq<u8>, u64)>,
) -> spec_fn(Seq<u8>) -> int {
    |k: Seq<u8>| if !old.dom().contains(k) { target_stake(m, d, k) } else { 0 }
}

/// The existing entries that stay, with their stake brought up to date.
pub open spec fn kept_records(
    s: Seq<ValidatorInfoView>,
    m: Map<Seq<u8>, crate::staking::ValidatorStakeView>,
    min: u64,
    d: Seq<(Seq<u8>, u64)>,
) -> Seq<ValidatorInfoView>
    decreases s.len(),
{
    if s.len() == 0 {
        Seq::empty()
    } else if eligible(m, min, s.last().metadata.address) {
        kept_records(s.drop_last(), m, min, d).push(
            ValidatorInfoView {
                stake: target_stake(m, d, s.last().metadata.address) as u64,
                ..s.last()
            },
        )
    } else {
        kept_records(s.drop_last(), m, min, d)
    }
}

/// Identifiers of the existing entries that leave.
pub open spec fn removed_keys(
    s: Seq<ValidatorInfoView>,
    m: Map<Seq<u8>, crate::staking::ValidatorStakeView>,
    min: u64,
) -> Seq<Seq<u8>>
    decreases s.len(),
{
    if s.len() == 0 {
        Seq::empty()
    } else if eligible(m, min, s.last().metadata.address) {
        removed_keys(s.drop_last(), m, min)
    } else {
        removed_keys(s.drop_last(), m, min).push(s.last().metadata.address)
    }
}

/// Candidates that are not in the set yet.
pub open spec fn added_keys(cands: Seq<Seq<u8>>, old: Map<Seq<u8>, ValidatorInfoView>) -> Seq<
    Seq<u8>,
>
    decreases cands.len(),
{
    if cands.len() == 0 {
        Seq::empty()
    } else if !old.dom().contains(cands.last()) {
        added_keys(cands.drop_last(), old).push(cands.last())
    } else {
        added_keys(cands.drop_last(), old)
    }
}

/// The entry of a validator that joins at reconfiguration.
pub open spec fn joined_info(k: Seq<u8>, stake: u64) -> ValidatorInfoView {
    ValidatorInfoView {
        metadata: ValidatorMetadataView {
            address: k,
            stake_amount: stake,
            network_address: Seq::empty(),
            p2p_address: Seq::empty(),
        },
        stake,
        active: true,
        snapshots_participated: 0,
        total_snapshots: 0,
    }
}

/// The entries of the validators that join.
pub open spec fn added_records(
    keys: Seq<Seq<u8>>,
    m: Map<Seq<u8>, crate::staking::ValidatorStakeView>,
    d: Seq<(Seq<u8>, u64)>,
) -> Seq<ValidatorInfoView> {
    keys.map_values(|k: Seq<u8>| joined_info(k, target_stake(m, d, k) as u64))
}

/// Identifiers of the active entries.
pub open spec fn active_keys(s: Seq<ValidatorInfoView>) -> Seq<Seq<u8>>
    decreases s.len(),
{
    if s.len() == 0 {
        Seq::empty()
    } else if s.last().active {
        active_keys(s.drop_last()).push(s.last().metadata.address)
    } else {
        active_keys(s.drop_last())
    }
}

/// Identifiers of the entries whose participation is below `threshold_bps`.
pub open spec fn low_participation_keys(s: Seq<ValidatorInfoView>, threshold_bps: u64) -> Seq<
    Seq<u8>,
>
    decreases s.len(),
{
    if s.len() == 0 {
        Seq::empty()
    } else if rate_below(s.last().snapshots_participated, s.last().total_snapshots, threshold_bps) {
        low_participation_keys(s.drop_last(), threshold_bps).push(s.last().metadata.address)
    } else {
        low_participation_keys(s.drop_last(), threshold_bps)
    }
}

/// Events of one cycle, in order.
pub open spec fn changes_in_cycle(s: Seq<ValidatorSetChangeEventView>, cycle: u64) -> Seq<
    ValidatorSetChangeEventView,
>
    decreases s.len(),
{
    if s.len() == 0 {
        Seq::empty()
    } else if s.last().cycle == cycle {
        changes_in_cycle(s.drop_last(), cycle).push(s.last())
    } else {
        changes_in_cycle(s.drop_last(), cycle)
    }
}

/// The stake weight of a list of validators: the sum of the stakes of those
/// in the set, counted once per listing.
pub open spec fn stake_weight(ids: Seq<Seq<u8>>, infos: Map<Seq<u8>, ValidatorInfoView>) -> int {
    sum_of(ids, |k: Seq<u8>| if infos.dom().contains(k) { infos[k].stake as int } else { 0 })
}

/// Delegated stake is never negative.
pub proof fn lemma_delegated_nonneg(d: Seq<(Seq<u8>, u64)>, k: Seq<u8>)
    ensures
        delegated_of(d, k) >= 0,
{
    assert forall|j: int| 0 <= j < d.len() implies (delegated_to(k))(#[trigger] d[j]) >= 0 by {}
    crate::seqsum::lemma_sum_nonneg(d, delegated_to(k));
}

/// Total stake delegated to `id`.
pub fn delegated_stake(delegations: &Vec<(ValidatorID, u64)>, id: &ValidatorID) -> (r: u64)
    requires
        delegated_of(delegation_views(delegations@), id@) <= u64::MAX,
    ensures
        r == delegated_of(delegation_views(delegations@), id@),
{
    let ghost d = delegation_views(delegations@);
    let mut total: u64 = 0;
    let mut i: usize = 0;
    proof {
        assert forall|j: int| 0 <= j < d.len() implies (delegated_to(id@))(#[trigger] d[j]) >= 0 by {}
    }
    while i < delegations.len()
        invariant
            d == delegation_views(delegations@),
            i <= d.len(),
            delegated_of(d, id@) <= u64::MAX,
            forall|j: int| 0 <= j < d.len() ==> (delegated_to(id@))(#[trigger] d[j]) >= 0,
            total == sum_of(d.take(i as int), delegated_to(id@)),
        decreases d.len() - i,
    {
        proof {
            lemma_sum_take_step(d, delegated_to(id@), i as int);
            lemma_sum_bounds(d, delegated_to(id@), i + 1);
        }
        if delegations[i].0.same_as(id) {
            total = total + delegations[i].1;
        }
        i = i + 1;
    }
    assert(d.take(i as int) =~= d);
    total
}

/// The validator set.
pub struct ValidatorSet {
    validators: IdTable<ValidatorInfo>,
    total_stake: u64,
    current_cycle: u64,
    change_history: Vec<ValidatorSetChangeEvent>,
    min_stake: u64,
}

impl ValidatorSet {
    /// The entries, in order.
    pub closed spec fn records(&self) -> Seq<ValidatorInfoView> {
        self.validators.pairs().map_values(|e: (Seq<u8>, ValidatorInfo)| e.1@)
    }

    /// The entries by validator.
    pub closed spec fn infos(&self) -> Map<Seq<u8>, ValidatorInfoView> {
        self.validators.map().map_values(|i: ValidatorInfo| i@)
    }

    /// The recorded total stake.
    pub closed spec fn total(&self) -> u64 {
        self.total_stake
    }

    /// The current cycle.
    pub closed spec fn cycle(&self) -> u64 {
        self.current_cycle
    }

    /// The reconfiguration history, oldest first.
    pub closed spec fn history(&self) -> Seq<ValidatorSetChangeEventView> {
        change_views(self.change_history@)
    }

    /// The minimum stake.
    pub closed spec fn min(&self) -> u64 {
        self.min_stake
    }

    /// One entry per validator, filed under its address; participation never
    /// exceeds the snapshots counted; the total is the sum of the stakes.
    pub closed spec fn wf(&self) -> bool {
        &&& self.validators.wf()
        &&& forall|i: int|
            0 <= i < self.validators.pairs().len() ==> #[trigger] self.validators.pairs()[i].1.metadata.silver_address@
                == self.validators.pairs()[i].0
        &&& forall|i: int|
            0 <= i < self.validators.pairs().len() ==> (#[trigger] self.validators.pairs()[i]).1.snapshots_participated
                <= self.validators.pairs()[i].1.total_snapshots
        &&& self.total_stake == sum_of(self.records(), info_stake())
    }

    /// The recorded total is the sum of the entries' stakes, and a validator
    /// is in the set exactly when an entry carries its address.
    pub proof fn lemma_wf(&self, k: Seq<u8>)
        requires
            self.wf(),
        ensures
            self.total() == sum_of(self.records(), info_stake()),
            self.infos().dom().contains(k) <==> exists|i: int|
                0 <= i < self.records().len() && self.records()[i].metadata.address == k,
            forall|i: int|
                0 <= i < self.records().len() ==> self.infos().dom().contains(
                    #[trigger] self.records()[i].metadata.address,
                ) && self.infos()[self.records()[i].metadata.address] == self.records()[i],
            forall|i: int|
                0 <= i < self.records().len() ==> (#[trigger] self.records()[i]).snapshots_participated
                    <= self.records()[i].total_snapshots,
            self.infos().dom().finite(),
            self.infos().dom().len() == self.records().len(),
    {
        let t = &self.validators;
        t.lemma_dom(k);
        t.lemma_len();
        if self.infos().dom().contains(k) {
            let i = choose|i: int| 0 <= i < t.pairs().len() && t.pairs()[i].0 == k;
            assert(self.records()[i].metadata.address == k);
        }
        if exists|i: int| 0 <= i < self.records().len() && self.records()[i].metadata.address == k {
            let i = choose|i: int| 0 <= i < self.records().len() && self.records()[i].metadata.address == k;
            assert(t.pairs()[i].1.metadata.silver_address@ == t.pairs()[i].0);
        }
        assert forall|i: int| 0 <= i < self.records().len() implies self.infos().dom().contains(
            #[trigger] self.records()[i].metadata.address,
        ) && self.infos()[self.records()[i].metadata.address] == self.records()[i] by {
            t.lemma_at(i);
            assert(t.pairs()[i].1.metadata.silver_address@ == t.pairs()[i].0);
        }
        assert forall|i: int| 0 <= i < self.records().len() implies (#[trigger] self.records()[i]).snapshots_participated
            <= self.records()[i].total_snapshots by {
            assert(t.pairs()[i].1.snapshots_participated <= t.pairs()[i].1.total_snapshots);
        }
        assert(self.infos().dom() =~= t.map().dom());
    }

    /// A set with the default minimum stake (10,000 SBTC).
    pub fn new() -> (r: Self)
        ensures
            r.wf(),
            r.records() == Seq::<ValidatorInfoView>::empty(),
            r.total() == 0,
            r.cycle() == 0,
            r.history() == Seq::<ValidatorSetChangeEventView>::empty(),
            r.min() == 10_000,
    {
        Self::with_min_stake(10_000)
    }

    /// A set with the given minimum stake.
    pub fn with_min_stake(min_stake: u64) -> (r: Self)
        ensures
            r.wf(),
            r.records() == Seq::<ValidatorInfoView>::empty(),
            r.total() == 0,
            r.cycle() == 0,
            r.history() == Seq::<ValidatorSetChangeEventView>::empty(),
            r.min() == min_stake,
    {
        let r = Self {
            validators: IdTable::new(),
            total_stake: 0,
            current_cycle: 0,
            change_history: Vec::new(),
            min_stake,
        };
        assert(r.records() =~= Seq::<ValidatorInfoView>::empty());
        assert(r.history() =~= Seq::<ValidatorSetChangeEventView>::empty());
        r
    }

    /// Add a validator with the stake its metadata declares.
    pub fn add_validator(&mut self, metadata: ValidatorMetadata) -> (r: Result<(), Error>)
        requires
            old(self).wf(),
            !old(self).infos().dom().contains(metadata@.address) ==> old(self).total() + metadata.stake_amount
                <= u64::MAX,
        ensures
            final(self).wf(),
            final(self).cycle() == old(self).cycle(),
            final(self).history() == old(self).history(),
            final(self).min() == old(self).min(),
            old(self).infos().dom().contains(metadata@.address) ==> r == Err::<(), Error>(
                Error::AlreadyRegistered,
            ) && final(self).records() == old(self).records() && final(self).total() == old(self).total(),
            !old(self).infos().dom().contains(metadata@.address) ==> r is Ok && final(self).records()
                == old(self).records().push(fresh_info(metadata@)) && final(self).total() == old(self).total() + metadata.stake_amount,
    {
        let validator_id = metadata.id();
        let stake = metadata.stake_amount;
        if self.validators.contains(&validator_id) {
            return Err(Error::AlreadyRegistered);
        }
        let info = ValidatorInfo::new(metadata);
        let ghost p0 = self.validators.pairs();
        let ghost iv = info@;
        self.validators.push(validator_id, info);
        self.total_stake = self.total_stake + stake;
        proof {
            assert(self.records() =~= old(self).records().push(iv));
            lemma_sum_push(old(self).records(), iv, info_stake());
            assert forall|j: int| 0 <= j < self.validators.pairs().len() implies #[trigger] self.validators.pairs()[j].1.metadata.silver_address@
                == self.validators.pairs()[j].0 by {
                if j < p0.len() {
                    assert(self.validators.pairs()[j] == p0[j]);
                }
            }
            assert forall|j: int| 0 <= j < self.validators.pairs().len() implies (#[trigger] self.validators.pairs()[j]).1.snapshots_participated
                <= self.validators.pairs()[j].1.total_snapshots by {
                if j < p0.len() {
                    assert(self.validators.pairs()[j] == p0[j]);
                }
            }
        }
        Ok(())
    }

    /// Remove a validator; its stake leaves the total.
    pub fn remove_validator(&mut self, validator_id: &ValidatorID) -> (r: Result<(), Error>)
        requires
            old(self).wf(),
        ensures
            final(self).wf(),
            final(self).cycle() == old(self).cycle(),
            final(self).history() == old(self).history(),
            final(self).min() == old(self).min(),
            r is Ok <==> old(self).infos().dom().contains(validator_id@),
            r is Err ==> r->Err_0 == Error::NotFound && final(self).records() == old(self).records(),
            final(self).infos() == old(self).infos().remove(validator_id@),
            r is Ok ==> final(self).total() == old(self).total() - old(self).infos()[validator_id@].stake,
    {
        match self.validators.find(validator_id) {
            Some(i) => {
                let ghost mid = self.validators.pairs();
                let ghost recs = self.records();
                proof {
                    self.validators.lemma_at(i as int);
                    assert forall|j: int| 0 <= j < recs.len() implies (info_stake())(#[trigger] recs[j]) >= 0 by {}
                    lemma_sum_bounds(recs, info_stake(), i as int);
                    lemma_sum_remove(recs, i as int, info_stake());
                    assert(recs[i as int] == mid[i as int].1@);
                }
                let (_, info) = self.validators.remove_at(i);
                self.total_stake = self.total_stake - info.stake;
                proof {
                    assert(self.records() =~= recs.remove(i as int));
                    assert forall|j: int| 0 <= j < self.validators.pairs().len() implies #[trigger] self.validators.pairs()[j].1.metadata.silver_address@
                        == self.validators.pairs()[j].0 by {
                        let j2 = if j < i { j } else { j + 1 };
                        assert(self.validators.pairs()[j] == mid[j2]);
                    }
                    assert forall|j: int| 0 <= j < self.validators.pairs().len() implies (#[trigger] self.validators.pairs()[j]).1.snapshots_participated
                        <= self.validators.pairs()[j].1.total_snapshots by {
                        let j2 = if j < i { j } else { j + 1 };
                        assert(self.validators.pairs()[j] == mid[j2]);
                    }
                    assert(self.infos() =~= old(self).infos().remove(validator_id@));
                }
                Ok(())
            },
            None => {
                assert(old(self).infos().remove(validator_id@) =~= old(self).infos());
                Err(Error::NotFound)
            },
        }
    }

    /// A copy of a validator's entry.
    pub fn get_validator(&self, validator_id: &ValidatorID) -> (r: Option<ValidatorInfo>)
        requires
            self.wf(),
        ensures
            r is None <==> !self.infos().dom().contains(validator_id@),
            r matches Some(i) ==> i@ == self.infos()[validator_id@],
    {
        match self.validators.get(validator_id) {
            Some(info) => Some(info.clone()),
            None => None,
        }
    }

    /// Whether a validator is in the set.
    pub fn contains_validator(&self, validator_id: &ValidatorID) -> (r: bool)
        requires
            self.wf(),
        ensures
            r == self.infos().dom().contains(validator_id@),
    {
        self.validators.contains(validator_id)
    }

    /// Copies of all entries, in order.
    pub fn get_all_validators(&self) -> (r: Vec<ValidatorInfo>)
        ensures
            info_views(r@) == self.records(),
    {
        let mut r: Vec<ValidatorInfo> = Vec::new();
        let mut i: usize = 0;
        while i < self.validators.len()
            invariant
                i <= self.records().len(),
                self.records().len() == self.validators.pairs().len(),
                info_views(r@) == self.records().take(i as int),
            decreases self.records().len() - i,
        {
            let info = self.validators.value_at(i);
            let ghost r0 = r@;
            r.push(info.clone());
            assert(self.records()[i as int] == info@);
            assert(info_views(r@) =~= info_views(r0).push(info@));
            assert(self.records().take(i + 1) =~= self.records().take(i as int).push(info@));
            assert(info_views(r@) =~= self.records().take(i + 1));
            i = i + 1;
        }
        assert(self.records().take(i as int) =~= self.records());
        r
    }

    /// Copies of the active entries, in order.
    pub fn get_active_validators(&self) -> (r: Vec<ValidatorInfo>)
        ensures
            info_views(r@).map_values(|v: ValidatorInfoView| v.metadata.address) == active_keys(self.records()),
            forall|j: int| 0 <= j < r@.len() ==> (#[trigger] r@[j]).active,
    {
        let mut r: Vec<ValidatorInfo> = Vec::new();
        let mut i: usize = 0;
        while i < self.validators.len()
            invariant
                i <= self.records().len(),
                self.records().len() == self.validators.pairs().len(),
                info_views(r@).map_values(|v: ValidatorInfoView| v.metadata.address) == active_keys(self.records().take(i as int)),
                forall|j: int| 0 <= j < r@.len() ==> (#[trigger] r@[j]).active,
            decreases self.records().len() - i,
        {
            let info = self.validators.value_at(i);
            proof {
                assert(self.records().take(i + 1).drop_last() =~= self.records().take(i as int));
                assert(self.records()[i as int] == info@);
            }
            if info.active {
                let ghost r0 = r@;
                r.push(info.clone());
                assert(info_views(r@).map_values(|v: ValidatorInfoView| v.metadata.address) =~= info_views(r0).map_values(|v: ValidatorInfoView| v.metadata.address).push(info@.metadata.address));
            }
            i = i + 1;
        }
        assert(self.records().take(i as int) =~= self.records());
        r
    }

    /// The total stake.
    pub fn total_stake(&self) -> (r: u64)
        ensures
            r == self.total(),
    {
        self.total_stake
    }

    /// Number of validators in the set.
    pub fn validator_count(&self) -> (r: usize)
        requires
            self.wf(),
        ensures
            r == self.records().len(),
            r == self.infos().dom().len(),
    {
        proof {
            self.lemma_wf(Seq::empty());
        }
        self.validators.len()
    }

    /// Number of active validators.
    pub fn active_validator_count(&self) -> (r: usize)
        ensures
            r == active_keys(self.records()).len(),
    {
        let mut n: usize = 0;
        let mut i: usize = 0;
        while i < self.validators.len()
            invariant
                i <= self.records().len(),
                self.records().len() == self.validators.pairs().len(),
                n == active_keys(self.records().take(i as int)).len(),
                n <= i,
            decreases self.records().len() - i,
        {
            let info = self.validators.value_at(i);
            proof {
                assert(self.records().take(i + 1).drop_last() =~= self.records().take(i as int));
                assert(self.records()[i as int] == info@);
            }
            if info.active {
                n = n + 1;
            }
            i = i + 1;
        }
        assert(self.records().take(i as int) =~= self.records());
        n
    }

    /// Sum of the stakes of the listed validators that are in the set.
    pub fn calculate_stake_weight(&self, validator_ids: &[ValidatorID]) -> (r: u64)
        requires
            self.wf(),
            stake_weight(id_views(validator_ids@), self.infos()) <= u64::MAX,
        ensures
            r == stake_weight(id_views(validator_ids@), self.infos()),
    {
        let ghost ids = id_views(validator_ids@);
        let ghost f = |k: Seq<u8>| if self.infos().dom().contains(k) { self.infos()[k].stake as int } else { 0 };
        let mut w: u64 = 0;
        let mut i: usize = 0;
        proof {
            assert forall|j: int| 0 <= j < ids.len() implies f(#[trigger] ids[j]) >= 0 by {}
        }
        while i < validator_ids.len()
            invariant
                self.wf(),
                ids == id_views(validator_ids@),
                f == (|k: Seq<u8>| if self.infos().dom().contains(k) { self.infos()[k].stake as int } else { 0 }),
                i <= ids.len(),
                forall|j: int| 0 <= j < ids.len() ==> f(#[trigger] ids[j]) >= 0,
                sum_of(ids, f) <= u64::MAX,
                w == sum_of(ids.take(i as int), f),
            decreases ids.len() - i,
        {
            proof {
                lemma_sum_take_step(ids, f, i as int);
                lemma_sum_bounds(ids, f, i + 1);
            }
            match self.validators.get(&validator_ids[i]) {
                Some(info) => {
                    w = w + info.stake;
                },
                None => {},
            }
            i = i + 1;
        }
        assert(ids.take(i as int) =~= ids);
        w
    }

    /// Whether the listed validators hold at least two thirds of the stake.
    pub fn has_quorum(&self, validator_ids: &[ValidatorID]) -> (r: bool)
        requires
            self.wf(),
            stake_weight(id_views(validator_ids@), self.infos()) <= u64::MAX,
        ensures
            r == (stake_weight(id_views(validator_ids@), self.infos()) * 3 >= self.total() * 2),
    {
        let w = self.calculate_stake_weight(validator_ids);
        (w as u128) * 3 >= (self.total_stake as u128) * 2
    }

    /// Record a validator's participation in a snapshot (ignored for
    /// validators not in the set).
    pub fn record_participation(&mut self, validator_id: &ValidatorID, participated: bool)
        requires
            old(self).wf(),
            old(self).infos().dom().contains(validator_id@) ==> old(self).infos()[validator_id@].total_snapshots
                < u64::MAX,
        ensures
            final(self).wf(),
            final(self).total() == old(self).total(),
            final(self).cycle() == old(self).cycle(),
            final(self).history() == old(self).history(),
            final(self).min() == old(self).min(),
            !old(self).infos().dom().contains(validator_id@) ==> final(self).infos() == old(self).infos(),
            old(self).infos().dom().contains(validator_id@) ==> final(self).infos() == old(self).infos().insert(
                validator_id@,
                ValidatorInfoView {
                    total_snapshots: (old(self).infos()[validator_id@].total_snapshots + 1) as u64,
                    snapshots_participated: if participated {
                        (old(self).infos()[validator_id@].snapshots_participated + 1) as u64
                    } else {
                        old(self).infos()[validator_id@].snapshots_participated
                    },
                    ..old(self).infos()[validator_id@]
                },
            ),
    {
        match self.validators.find(validator_id) {
            Some(i) => {
                let ghost mid = self.validators.pairs();
                let ghost recs = self.records();
                proof {
                    self.validators.lemma_at(i as int);
                    assert(mid[i as int].1.snapshots_participated <= mid[i as int].1.total_snapshots);
                }
                {
                    let info = self.validators.value_mut(i);
                    info.record_participation(participated);
                }
                proof {
                    let v = self.validators.pairs()[i as int].1;
                    assert(self.validators.pairs() =~= mid.update(i as int, (mid[i as int].0, v)));
                    crate::table::lemma_seq_to_map_update(mid, i as int, v);
                    assert(self.records() =~= recs.update(i as int, v@));
                    lemma_sum_update(recs, i as int, v@, info_stake());
                    assert forall|j: int| 0 <= j < self.validators.pairs().len() implies #[trigger] self.validators.pairs()[j].1.metadata.silver_address@
                        == self.validators.pairs()[j].0 by {
                        if j != i {
                            assert(self.validators.pairs()[j] == mid[j]);
                        }
                    }
                    assert forall|j: int| 0 <= j < self.validators.pairs().len() implies (#[trigger] self.validators.pairs()[j]).1.snapshots_participated
                        <= self.validators.pairs()[j].1.total_snapshots by {
                        if j != i {
                            assert(self.validators.pairs()[j] == mid[j]);
                        }
                    }
                    assert(self.infos() =~= old(self).infos().insert(validator_id@, v@));
                }
            },
            None => {},
        }
    }

    /// The current cycle.
    pub fn current_cycle(&self) -> (r: u64)
        ensures
            r == self.cycle(),
    {
        self.current_cycle
    }

    /// Advance to the next cycle, resetting every validator's participation.
    pub fn advance_cycle(&mut self) -> (r: u64)
        requires
            old(self).wf(),
            old(self).cycle() < u64::MAX,
        ensures
            final(self).wf(),
            r == final(self).cycle(),
            final(self).cycle() == old(self).cycle() + 1,
            final(self).total() == old(self).total(),
            final(self).history() == old(self).history(),
            final(self).min() == old(self).min(),
            final(self).records() == old(self).records().map_values(
                |v: ValidatorInfoView| ValidatorInfoView { snapshots_participated: 0, total_snapshots: 0, ..v },
            ),
    {
        self.current_cycle = self.current_cycle + 1;
        let n = self.validators.len();
        let mut i: usize = 0;
        let ghost orig = self.records();
        let ghost orig_pairs = self.validators.pairs();
        while i < n
            invariant
                n == orig.len(),
                orig == old(self).records(),
                orig_pairs.len() == n,
                self.validators.pairs().len() == n,
                self.total_stake == old(self).total_stake,
                self.current_cycle == old(self).current_cycle + 1,
                self.change_history == old(self).change_history,
                self.min_stake == old(self).min_stake,
                i <= n,
                forall|j: int| 0 <= j < n ==> (#[trigger] self.validators.pairs()[j]).0 == orig_pairs[j].0,
                forall|j: int| 0 <= j < n ==> (#[trigger] self.validators.pairs()[j]).1.metadata@ == orig_pairs[j].1.metadata@,
                forall|j: int| 0 <= j < n ==> (#[trigger] self.validators.pairs()[j]).1.stake == orig_pairs[j].1.stake,
                forall|j: int| 0 <= j < i ==> #[trigger] self.records()[j] == (ValidatorInfoView { snapshots_participated: 0, total_snapshots: 0, ..orig[j] }),
                forall|j: int| i <= j < n ==> #[trigger] self.records()[j] == orig[j],
                orig_pairs == old(self).validators.pairs(),
            decreases n - i,
        {
            let ghost mid = self.validators.pairs();
            let ghost mid_recs = self.records();
            assert(mid_recs[i as int] == orig[i as int]);
            assert(mid[i as int].1@ == mid_recs[i as int]);
            {
                let info = self.validators.value_mut(i);
                info.reset_cycle_stats();
            }
            proof {
                let v = self.validators.pairs()[i as int].1;
                assert(self.validators.pairs() =~= mid.update(i as int, (mid[i as int].0, v)));
                assert forall|j: int| 0 <= j < n && j != i implies #[trigger] self.validators.pairs()[j] == mid[j] by {}
                assert forall|j: int| 0 <= j < n && j != i implies #[trigger] self.records()[j] == mid_recs[j] by {
                    assert(self.validators.pairs()[j] == mid[j]);
                }
                assert(self.records()[i as int] == v@);
                assert(self.records()[i as int] == (ValidatorInfoView { snapshots_participated: 0, total_snapshots: 0, ..orig[i as int] }));
            }
            i = i + 1;
        }
        proof {
            let newp = self.validators.pairs();
            assert forall|a: int, b: int| 0 <= a < newp.len() && 0 <= b < newp.len() && a != b implies newp[a].0 != newp[b].0 by {
                assert(orig_pairs[a].0 != orig_pairs[b].0);
            }
            assert forall|j: int| 0 <= j < newp.len() implies #[trigger] newp[j].1.metadata.silver_address@ == newp[j].0 by {
                assert(orig_pairs[j].1.metadata.silver_address@ == orig_pairs[j].0);
            }
            assert forall|j: int| 0 <= j < newp.len() implies (#[trigger] newp[j]).1.snapshots_participated <= newp[j].1.total_snapshots by {
                assert(self.records()[j] == newp[j].1@);
            }
            assert(self.records() =~= orig.map_values(
                |v: ValidatorInfoView| ValidatorInfoView { snapshots_participated: 0, total_snapshots: 0, ..v },
            ));
            lemma_stake_sum_same(orig, self.records());
        }
        self.current_cycle
    }

    /// Validators whose participation rate this cycle is below
    /// `threshold_bps` basis points, in order.
    pub fn apply_participation_penalties(&self, threshold_bps: u64) -> (r: Vec<ValidatorID>)
        requires
            self.wf(),
        ensures
            id_views(r@) == low_participation_keys(self.records(), threshold_bps),
    {
        let mut r: Vec<ValidatorID> = Vec::new();
        let mut i: usize = 0;
        while i < self.validators.len()
            invariant
                self.wf(),
                i <= self.records().len(),
                self.records().len() == self.validators.pairs().len(),
                id_views(r@) == low_participation_keys(self.records().take(i as int), threshold_bps),
            decreases self.records().len() - i,
        {
            let info = self.validators.value_at(i);
            proof {
                assert(self.records().take(i + 1).drop_last() =~= self.records().take(i as int));
                assert(self.records()[i as int] == info@);
            }
            if info.participation_below(threshold_bps) {
                let ghost r0 = r@;
                r.push(info.id());
                assert(id_views(r@) =~= id_views(r0).push(info@.metadata.address));
            }
            i = i + 1;
        }
        assert(self.records().take(i as int) =~= self.records());
        r
    }

    /// The validators that may sit in the set after reconfiguration, in the
    /// staking manager's order.
    pub open spec fn candidates(&self, staking: &StakingManager) -> Seq<Seq<u8>> {
        stake_ids_where(staking.records(), active_at_least(self.min()))
    }

    /// Reconfigure the set at the end of a cycle, stamping the change with
    /// `now`:
    /// 1. validators whose active stake is zero or below the minimum leave;
    /// 2. staked validators at or above the minimum that are not in the set
    ///    join, in the staking manager's order;
    /// 3. every remaining validator's stake becomes its active plus its
    ///    delegated stake, and the total is their sum;
    /// 4. the change is recorded in the history.
    /// Refused, changing nothing, when no validator qualifies.
    pub fn reconfigure_at_cycle_end_at(
        &mut self,
        staking_manager: &StakingManager,
        delegations: &Vec<(ValidatorID, u64)>,
        now: u64,
    ) -> (r: Result<ValidatorSetChangeEvent, Error>)
        requires
            old(self).wf(),
            staking_manager.wf(),
            sum_of(
                old(self).records(),
                kept_contribution(staking_manager.stakes_map(), old(self).min(), delegation_views(delegations@)),
            ) + sum_of(
                old(self).candidates(staking_manager),
                added_contribution(old(self).infos(), staking_manager.stakes_map(), delegation_views(delegations@)),
            ) <= u64::MAX,
        ensures
            final(self).wf(),
            final(self).cycle() == old(self).cycle(),
            final(self).min() == old(self).min(),
            old(self).candidates(staking_manager).len() == 0 ==> r == Err::<ValidatorSetChangeEvent, Error>(
                Error::NoStakedValidators,
            ) && final(self).records() == old(self).records() && final(self).total() == old(self).total()
                && final(self).history() == old(self).history(),
            old(self).candidates(staking_manager).len() > 0 ==> r is Ok && {
                let m = staking_manager.stakes_map();
                let dv = delegation_views(delegations@);
                let added = added_keys(old(self).candidates(staking_manager), old(self).infos());
                let recs = kept_records(old(self).records(), m, old(self).min(), dv) + added_records(added, m, dv);
                &&& final(self).records() == recs
                &&& final(self).total() == sum_of(recs, info_stake())
                &&& r->Ok_0@ == (ValidatorSetChangeEventView {
                    cycle: old(self).cycle(),
                    added,
                    removed: removed_keys(old(self).records(), m, old(self).min()),
                    total_validators: recs.len() as usize,
                    total_stake: final(self).total(),
                    timestamp: now,
                })
                &&& final(self).history() == old(self).history().push(r->Ok_0@)
            },
    {
        let ghost m = staking_manager.stakes_map();
        let ghost dv = delegation_views(delegations@);
        let ghost min = self.min_stake;
        let ghost kc = kept_contribution(m, min, dv);
        let ghost orig = self.records();
        let ghost orig_pairs = self.validators.pairs();
        let ghost old_infos = self.infos();
        let ghost ac = added_contribution(old_infos, m, dv);
        let cands = staking_manager.validators_with_active_at_least(self.min_stake);
        let ghost cv = id_views(cands@);
        if cands.len() == 0 {
            return Err(Error::NoStakedValidators);
        }
        proof {
            staking_manager.lemma_eligible(min);
            self.lemma_wf(Seq::empty());
            assert forall|j: int| 0 <= j < orig.len() implies kc(#[trigger] orig[j]) >= 0 by {
                lemma_delegated_nonneg(dv, orig[j].metadata.address);
            }
            assert forall|j: int| 0 <= j < cv.len() implies ac(#[trigger] cv[j]) >= 0 by {
                lemma_delegated_nonneg(dv, cv[j]);
            }
            crate::seqsum::lemma_sum_nonneg(orig, kc);
            crate::seqsum::lemma_sum_nonneg(cv, ac);
        }
        let n = self.validators.len();
        let mut new_t: IdTable<ValidatorInfo> = IdTable::new();
        let mut removed: Vec<ValidatorID> = Vec::new();
        let mut total: u64 = 0;
        let mut i: usize = 0;
        assert(new_t.pairs().map_values(|e: (Seq<u8>, ValidatorInfo)| e.1@) =~= kept_records(orig.take(0), m, min, dv));
        while i < n
            invariant
                self.wf(),
                staking_manager.wf(),
                n == orig.len(),
                orig == self.records(),
                orig_pairs == self.validators.pairs(),
                m == staking_manager.stakes_map(),
                dv == delegation_views(delegations@),
                min == self.min_stake,
                kc == kept_contribution(m, min, dv),
                forall|j: int| 0 <= j < orig.len() ==> kc(#[trigger] orig[j]) >= 0,
                sum_of(orig, kc) <= u64::MAX,
                i <= n,
                new_t.wf(),
                forall|j: int| 0 <= j < new_t.pairs().len() ==> #[trigger] new_t.pairs()[j].1.metadata.silver_address@ == new_t.pairs()[j].0,
                forall|j: int| 0 <= j < new_t.pairs().len() ==> (#[trigger] new_t.pairs()[j]).1.snapshots_participated <= new_t.pairs()[j].1.total_snapshots,
                forall|k: Seq<u8>| new_t.map().dom().contains(k) ==> exists|j: int| 0 <= j < i && orig_pairs[j].0 == k,
                new_t.pairs().map_values(|e: (Seq<u8>, ValidatorInfo)| e.1@) == kept_records(orig.take(i as int), m, min, dv),
                id_views(removed@) == removed_keys(orig.take(i as int), m, min),
                total == sum_of(orig.take(i as int), kc),
                total == sum_of(new_t.pairs().map_values(|e: (Seq<u8>, ValidatorInfo)| e.1@), info_stake()),
            decreases n - i,
        {
            proof {
                assert(orig.take(i + 1).drop_last() =~= orig.take(i as int));
                assert(orig.take(i + 1).last() == orig[i as int]);
                crate::seqsum::lemma_sum_take_step(orig, kc, i as int);
                crate::seqsum::lemma_sum_bounds(orig, kc, i + 1);
                crate::seqsum::lemma_sum_bounds(orig, kc, i as int);
                assert(orig[i as int] == orig_pairs[i as int].1@);
                assert(orig_pairs[i as int].1.metadata.silver_address@ == orig_pairs[i as int].0);
            }
            let id = self.validators.id_at(i).copy();
            let active = staking_manager.get_active_stake(&id);
            if active > 0 && active >= self.min_stake {
                let deleg = delegated_stake(delegations, &id);
                let st = active + deleg;
                let mut info = self.validators.value_at(i).clone();
                info.stake = st;
                let ghost p0 = new_t.pairs();
                let ghost r0 = p0.map_values(|e: (Seq<u8>, ValidatorInfo)| e.1@);
                proof {
                    new_t.lemma_dom(id@);
                    if new_t.map().dom().contains(id@) {
                        let j = choose|j: int| 0 <= j < i && orig_pairs[j].0 == id@;
                        assert(orig_pairs[j].0 == orig_pairs[i as int].0);
                    }
                }
                let ghost iv = info@;
                new_t.push(id, info);
                total = total + st;
                proof {
                    let r1 = new_t.pairs().map_values(|e: (Seq<u8>, ValidatorInfo)| e.1@);
                    assert(r1 =~= r0.push(iv));
                    lemma_sum_push(r0, iv, info_stake());
                    assert forall|j: int| 0 <= j < new_t.pairs().len() implies #[trigger] new_t.pairs()[j].1.metadata.silver_address@ == new_t.pairs()[j].0 by {
                        if j < p0.len() {
                            assert(new_t.pairs()[j] == p0[j]);
                        }
                    }
                    assert forall|j: int| 0 <= j < new_t.pairs().len() implies (#[trigger] new_t.pairs()[j]).1.snapshots_participated <= new_t.pairs()[j].1.total_snapshots by {
                        if j < p0.len() {
                            assert(new_t.pairs()[j] == p0[j]);
                        } else {
                            assert(orig_pairs[i as int].1.snapshots_participated <= orig_pairs[i as int].1.total_snapshots);
                        }
                    }
                    assert forall|k: Seq<u8>| new_t.map().dom().contains(k) implies exists|j: int| 0 <= j < i + 1 && orig_pairs[j].0 == k by {
                        if k != id@ {
                            assert(old_new_dom_contains(p0, k));
                        }
                    }
                }
            } else {
                let ghost rm0 = removed@;
                removed.push(id);
                assert(id_views(removed@) =~= id_views(rm0).push(orig[i as int].metadata.address));
            }
            i = i + 1;
        }
        assert(orig.take(n as int) =~= orig);
        proof {
            self.lemma_wf(Seq::empty());
            assert forall|k: Seq<u8>| new_t.map().dom().contains(k) implies old_infos.dom().contains(k) by {
                let q = choose|q: int| 0 <= q < n && orig_pairs[q].0 == k;
                assert(orig_pairs[q].1.metadata.silver_address@ == orig_pairs[q].0);
                assert(orig[q].metadata.address == k);
            }
        }
        let ghost kept_all = sum_of(orig, kc);
        let mut added: Vec<ValidatorID> = Vec::new();
        let nc = cands.len();
        let mut j: usize = 0;
        assert(added_records(added_keys(cv.take(0), old_infos), m, dv) =~= Seq::<ValidatorInfoView>::empty());
        assert(kept_records(orig, m, min, dv) + Seq::<ValidatorInfoView>::empty() =~= kept_records(orig, m, min, dv));
        while j < nc
            invariant
                self.wf(),
                staking_manager.wf(),
                n == orig.len(),
                orig == self.records(),
                orig_pairs == self.validators.pairs(),
                old_infos == self.infos(),
                m == staking_manager.stakes_map(),
                dv == delegation_views(delegations@),
                min == self.min_stake,
                cv == id_views(cands@),
                nc == cv.len(),
                cv == stake_ids_where(staking_manager.records(), active_at_least(min)),
                cv.no_duplicates(),
                ac == added_contribution(old_infos, m, dv),
                forall|jj: int| 0 <= jj < cv.len() ==> ac(#[trigger] cv[jj]) >= 0,
                kept_all + sum_of(cv, ac) <= u64::MAX,
                kept_all >= 0,
                j <= nc,
                new_t.wf(),
                forall|q: int| 0 <= q < new_t.pairs().len() ==> #[trigger] new_t.pairs()[q].1.metadata.silver_address@ == new_t.pairs()[q].0,
                forall|q: int| 0 <= q < new_t.pairs().len() ==> (#[trigger] new_t.pairs()[q]).1.snapshots_participated <= new_t.pairs()[q].1.total_snapshots,
                forall|k: Seq<u8>| new_t.map().dom().contains(k) ==> old_infos.dom().contains(k) || exists|q: int| 0 <= q < j && cv[q] == k,
                new_t.pairs().map_values(|e: (Seq<u8>, ValidatorInfo)| e.1@) == kept_records(orig, m, min, dv) + added_records(added_keys(cv.take(j as int), old_infos), m, dv),
                id_views(added@) == added_keys(cv.take(j as int), old_infos),
                total == kept_all + sum_of(cv.take(j as int), ac),
                total == sum_of(new_t.pairs().map_values(|e: (Seq<u8>, ValidatorInfo)| e.1@), info_stake()),
            decreases nc - j,
        {
            proof {
                assert(cv.take(j + 1).drop_last() =~= cv.take(j as int));
                assert(cv.take(j + 1).last() == cv[j as int]);
                crate::seqsum::lemma_sum_take_step(cv, ac, j as int);
                crate::seqsum::lemma_sum_bounds(cv, ac, j + 1);
                crate::seqsum::lemma_sum_bounds(cv, ac, j as int);
            }
            let c = &cands[j];
            if !self.validators.contains(c) {
                let active = staking_manager.get_active_stake(c);
                let deleg = delegated_stake(delegations, c);
                let st = active + deleg;
                let info = ValidatorInfo {
                    metadata: ValidatorMetadata {
                        silver_address: SilverAddress { bytes: copy_bytes(&c.bytes) },
                        stake_amount: st,
                        network_address: String::new(),
                        p2p_address: String::new(),
                    },
                    stake: st,
                    active: true,
                    snapshots_participated: 0,
                    total_snapshots: 0,
                };
                let ghost p0 = new_t.pairs();
                let ghost r0 = p0.map_values(|e: (Seq<u8>, ValidatorInfo)| e.1@);
                proof {
                    new_t.lemma_dom(c@);
                    if new_t.map().dom().contains(c@) {
                        if !old_infos.dom().contains(c@) {
                            let q = choose|q: int| 0 <= q < j && cv[q] == c@;
                            assert(cv[q] == cv[j as int]);
                        }
                    }
                    assert(info@ == joined_info(c@, st));
                }
                let ghost iv = info@;
                let ghost ak0 = added_keys(cv.take(j as int), old_infos);
                new_t.push(c.copy(), info);
                let ghost ad0 = added@;
                added.push(c.copy());
                total = total + st;
                proof {
                    let r1 = new_t.pairs().map_values(|e: (Seq<u8>, ValidatorInfo)| e.1@);
                    assert(r1 =~= r0.push(iv));
                    lemma_sum_push(r0, iv, info_stake());
                    assert(added_keys(cv.take(j + 1), old_infos) == ak0.push(c@));
                    assert(added_records(ak0.push(c@), m, dv) =~= added_records(ak0, m, dv).push(iv));
                    assert(r1 =~= kept_records(orig, m, min, dv) + added_records(added_keys(cv.take(j + 1), old_infos), m, dv));
                    assert(id_views(added@) =~= id_views(ad0).push(c@));
                    assert forall|q: int| 0 <= q < new_t.pairs().len() implies #[trigger] new_t.pairs()[q].1.metadata.silver_address@ == new_t.pairs()[q].0 by {
                        if q < p0.len() {
                            assert(new_t.pairs()[q] == p0[q]);
                        }
                    }
                    assert forall|q: int| 0 <= q < new_t.pairs().len() implies (#[trigger] new_t.pairs()[q]).1.snapshots_participated <= new_t.pairs()[q].1.total_snapshots by {
                        if q < p0.len() {
                            assert(new_t.pairs()[q] == p0[q]);
                        }
                    }
                    assert forall|k: Seq<u8>| new_t.map().dom().contains(k) implies old_infos.dom().contains(k) || exists|q: int| 0 <= q < j + 1 && cv[q] == k by {
                        if k == c@ {
                            assert(cv[j as int] == k);
                        }
                    }
                }
            } else {
                proof {
                    assert(added_keys(cv.take(j + 1), old_infos) == added_keys(cv.take(j as int), old_infos));
                }
            }
            j = j + 1;
        }
        assert(cv.take(nc as int) =~= cv);
        let count = new_t.len();
        let cycle = self.current_cycle;
        self.validators = new_t;
        self.total_stake = total;
        let event = ValidatorSetChangeEvent::new_at(cycle, added, removed, count, total, now);
        let ghost h0 = self.change_history@;
        self.change_history.push(event.clone());
        proof {
            assert(change_views(self.change_history@) =~= change_views(h0).push(event@));
        }
        Ok(event)
    }

    /// Reconfigure the set at the end of a cycle, stamping the change with
    /// the current time.
    pub fn reconfigure_at_cycle_end(
        &mut self,
        staking_manager: &StakingManager,
        delegations: &Vec<(ValidatorID, u64)>,
    ) -> (r: Result<ValidatorSetChangeEvent, Error>)
        requires
            old(self).wf(),
            staking_manager.wf(),
            sum_of(
                old(self).records(),
                kept_contribution(staking_manager.stakes_map(), old(self).min(), delegation_views(delegations@)),
            ) + sum_of(
                old(self).candidates(staking_manager),
                added_contribution(old(self).infos(), staking_manager.stakes_map(), delegation_views(delegations@)),
            ) <= u64::MAX,
        ensures
            final(self).wf(),
            final(self).cycle() == old(self).cycle(),
            final(self).min() == old(self).min(),
            old(self).candidates(staking_manager).len() == 0 ==> r == Err::<ValidatorSetChangeEvent, Error>(
                Error::NoStakedValidators,
            ) && final(self).records() == old(self).records() && final(self).total() == old(self).total()
                && final(self).history() == old(self).history(),
            old(self).candidates(staking_manager).len() > 0 ==> r is Ok && {
                let m = staking_manager.stakes_map();
                let dv = delegation_views(delegations@);
                let added = added_keys(old(self).candidates(staking_manager), old(self).infos());
                let recs = kept_records(old(self).records(), m, old(self).min(), dv) + added_records(added, m, dv);
                &&& final(self).records() == recs
                &&& final(self).total() == sum_of(recs, info_stake())
                &&& r->Ok_0@.cycle == old(self).cycle()
                &&& r->Ok_0@.added == added
                &&& r->Ok_0@.removed == removed_keys(old(self).records(), m, old(self).min())
                &&& r->Ok_0@.total_validators == recs.len() as usize
                &&& r->Ok_0@.total_stake == final(self).total()
                &&& final(self).history() == old(self).history().push(r->Ok_0@)
            },
    {
        let now = unix_time_secs();
        self.reconfigure_at_cycle_end_at(staking_manager, delegations, now)
    }

    /// The reconfiguration history, oldest first.
    pub fn get_change_history(&self) -> (r: Vec<ValidatorSetChangeEvent>)
        ensures
            change_views(r@) == self.history(),
    {
        let mut r: Vec<ValidatorSetChangeEvent> = Vec::new();
        let mut i: usize = 0;
        while i < self.change_history.len()
            invariant
                i <= self.change_history@.len(),
                change_views(r@) == self.history().take(i as int),
            decreases self.change_history@.len() - i,
        {
            let ghost r0 = r@;
            r.push(self.change_history[i].clone());
            assert(self.history().take(i + 1) =~= self.history().take(i as int).push(self.change_history@[i as int]@));
            assert(change_views(r@) =~= change_views(r0).push(self.change_history@[i as int]@));
            i = i + 1;
        }
        assert(self.history().take(i as int) =~= self.history());
        r
    }

    /// The changes recorded for one cycle, oldest first.
    pub fn get_cycle_changes(&self, cycle: u64) -> (r: Vec<ValidatorSetChangeEvent>)
        ensures
            change_views(r@) == changes_in_cycle(self.history(), cycle),
    {
        let mut r: Vec<ValidatorSetChangeEvent> = Vec::new();
        let mut i: usize = 0;
        while i < self.change_history.len()
            invariant
                i <= self.change_history@.len(),
                change_views(r@) == changes_in_cycle(self.history().take(i as int), cycle),
            decreases self.change_history@.len() - i,
        {
            let e = &self.change_history[i];
            proof {
                assert(self.history().take(i + 1).drop_last() =~= self.history().take(i as int));
                assert(self.history()[i as int] == e@);
            }
            if e.cycle == cycle {
                let ghost r0 = r@;
                r.push(e.clone());
                assert(change_views(r@) =~= change_views(r0).push(e@));
            }
            i = i + 1;
        }
        assert(self.history().take(i as int) =~= self.history());
        r
    }

    /// The minimum stake.
    pub fn min_stake(&self) -> (r: u64)
        ensures
            r == self.min(),
    {
        self.min_stake
    }

    /// Set the minimum stake.
    pub fn set_min_stake(&mut self, min_stake: u64)
        ensures
            final(self).min() == min_stake,
            final(self).records() == old(self).records(),
            final(self).infos() == old(self).infos(),
            final(self).total() == old(self).total(),
            final(self).cycle() == old(self).cycle(),
            final(self).history() == old(self).history(),
            final(self).wf() == old(self).wf(),
    {
        self.min_stake = min_stake;
    }

    /// Remove every validator; the total becomes 0.
    pub fn clear(&mut self)
        ensures
            final(self).wf(),
            final(self).records() == Seq::<ValidatorInfoView>::empty(),
            final(self).total() == 0,
            final(self).cycle() == old(self).cycle(),
            final(self).history() == old(self).history(),
            final(self).min() == old(self).min(),
    {
        self.validators.clear();
        self.total_stake = 0;
        assert(self.records() =~= Seq::<ValidatorInfoView>::empty());
    }
}

/// Entries that differ only in their participation have the same stake sum.
pub proof fn lemma_stake_sum_same(a: Seq<ValidatorInfoView>, b: Seq<ValidatorInfoView>)
    requires
        a.len() == b.len(),
        forall|j: int| 0 <= j < a.len() ==> (#[trigger] a[j]).stake == b[j].stake,
    ensures
        sum_of(a, info_stake()) == sum_of(b, info_stake()),
    decreases a.len(),
{
    if a.len() > 0 {
        assert forall|j: int| 0 <= j < a.drop_last().len() implies (#[trigger] a.drop_last()[j]).stake == b.drop_last()[j].stake by {
            assert(a.drop_last()[j] == a[j]);
            assert(b.drop_last()[j] == b[j]);
        }
        lemma_stake_sum_same(a.drop_last(), b.drop_last());
    }
}

/// The entries kept at reconfiguration are those of eligible validators,
/// and every eligible validator's entry is kept.
proof fn lemma_kept_members(
    s: Seq<ValidatorInfoView>,
    m: Map<Seq<u8>, crate::staking::ValidatorStakeView>,
    min: u64,
    d: Seq<(Seq<u8>, u64)>,
)
    ensures
        forall|i: int|
            0 <= i < kept_records(s, m, min, d).len() ==> eligible(
                m,
                min,
                #[trigger] kept_records(s, m, min, d)[i].metadata.address,
            ),
        forall|j: int|
            0 <= j < s.len() && eligible(m, min, #[trigger] s[j].metadata.address) ==> exists|i: int|
                0 <= i < kept_records(s, m, min, d).len() && kept_records(s, m, min, d)[i].metadata.address
                    == s[j].metadata.address,
    decreases s.len(),
{
    if s.len() > 0 {
        let t = s.drop_last();
        lemma_kept_members(t, m, min, d);
        let kt = kept_records(t, m, min, d);
        let k = kept_records(s, m, min, d);
        assert forall|j: int| 0 <= j < s.len() && eligible(m, min, #[trigger] s[j].metadata.address) implies exists|i: int|
            0 <= i < k.len() && k[i].metadata.address == s[j].metadata.address by {
            if j < s.len() - 1 {
                assert(t[j] == s[j]);
                let i = choose|i: int| 0 <= i < kt.len() && kt[i].metadata.address == t[j].metadata.address;
                assert(k[i] == kt[i]);
            } else {
                assert(k[kt.len() as int].metadata.address == s[j].metadata.address);
            }
        }
        assert forall|i: int| 0 <= i < k.len() implies eligible(m, min, #[trigger] k[i].metadata.address) by {
            if i < kt.len() {
                assert(k[i] == kt[i]);
            }
        }
    }
}

/// The validators that join at reconfiguration are candidates, and every
/// candidate not yet in the set joins.
proof fn lemma_added_members(cands: Seq<Seq<u8>>, old: Map<Seq<u8>, ValidatorInfoView>)
    ensures
        forall|i: int| 0 <= i < added_keys(cands, old).len() ==> cands.contains(#[trigger] added_keys(cands, old)[i]),
        forall|k: Seq<u8>| cands.contains(k) && !old.dom().contains(k) ==> added_keys(cands, old).contains(k),
    decreases cands.len(),
{
    if cands.len() > 0 {
        let t = cands.drop_last();
        lemma_added_members(t, old);
        let at = added_keys(t, old);
        let a = added_keys(cands, old);
        assert forall|i: int| 0 <= i < a.len() implies cands.contains(#[trigger] a[i]) by {
            if i < at.len() {
                assert(a[i] == at[i]);
                let j = choose|j: int| 0 <= j < t.len() && t[j] == at[i];
                assert(cands[j] == t[j]);
            } else {
                assert(cands[cands.len() - 1] == a[i]);
            }
        }
        assert forall|k: Seq<u8>| cands.contains(k) && !old.dom().contains(k) implies a.contains(k) by {
            let j = choose|j: int| 0 <= j < cands.len() && cands[j] == k;
            if j < cands.len() - 1 {
                assert(t[j] == k);
                assert(t.contains(k));
                assert(at.contains(k));
                let i = choose|i: int| 0 <= i < at.len() && at[i] == k;
                assert(a[i] == at[i]);
            } else {
                assert(a[a.len() - 1] == k);
            }
        }
    }
}

impl ValidatorSet {
    /// Reconfiguration leaves exactly the eligible validators in the set:
    /// every validator in it afterwards has positive active stake reaching
    /// the minimum, and every validator with such stake is in it.
    pub proof fn lemma_reconfiguration_members(&self, staking: &StakingManager, delegations: Seq<(Seq<u8>, u64)>)
        requires
            self.wf(),
            staking.wf(),
        ensures
            ({
                let m = staking.stakes_map();
                let recs = kept_records(self.records(), m, self.min(), delegations) + added_records(
                    added_keys(self.candidates(staking), self.infos()),
                    m,
                    delegations,
                );
                &&& forall|i: int| 0 <= i < recs.len() ==> eligible(m, self.min(), #[trigger] recs[i].metadata.address)
                &&& forall|k: Seq<u8>|
                    eligible(m, self.min(), k) ==> exists|i: int| 0 <= i < recs.len() && #[trigger] recs[i].metadata.address == k
            }),
    {
        let m = staking.stakes_map();
        let min = self.min();
        let s = self.records();
        let cands = self.candidates(staking);
        let kept = kept_records(s, m, min, delegations);
        let keys = added_keys(cands, self.infos());
        let added = added_records(keys, m, delegations);
        let recs = kept + added;
        staking.lemma_eligible(min);
        lemma_kept_members(s, m, min, delegations);
        lemma_added_members(cands, self.infos());
        assert forall|i: int| 0 <= i < recs.len() implies eligible(m, min, #[trigger] recs[i].metadata.address) by {
            if i < kept.len() {
                assert(recs[i] == kept[i]);
            } else {
                assert(recs[i] == added[i - kept.len()]);
                assert(added[i - kept.len()].metadata.address == keys[i - kept.len()]);
                assert(cands.contains(keys[i - kept.len()]));
            }
        }
        assert forall|k: Seq<u8>| eligible(m, min, k) implies exists|i: int| 0 <= i < recs.len() && #[trigger] recs[i].metadata.address == k by {
            assert(cands.contains(k));
            self.lemma_wf(k);
            if self.infos().dom().contains(k) {
                let j = choose|j: int| 0 <= j < s.len() && s[j].metadata.address == k;
                assert(eligible(m, min, s[j].metadata.address));
                let i = choose|i: int| 0 <= i < kept.len() && kept[i].metadata.address == s[j].metadata.address;
                assert(recs[i] == kept[i]);
            } else {
                assert(keys.contains(k));
                let i = choose|i: int| 0 <= i < keys.len() && keys[i] == k;
                assert(recs[kept.len() + i] == added[i]);
                assert(added[i].metadata.address == keys[i]);
            }
        }
    }
}

/// The stake of the entries whose validator is among `keys`.
pub open spec fn stake_in_keys(keys: Set<Seq<u8>>) -> spec_fn(ValidatorInfoView) -> int {
    |v: ValidatorInfoView| if keys.contains(v.metadata.address) { v.stake as int } else { 0 }
}

/// No two entries are for the same validator.
pub open spec fn addresses_distinct(s: Seq<ValidatorInfoView>) -> bool {
    forall|i: int, j: int|
        0 <= i < s.len() && 0 <= j < s.len() && i != j ==> s[i].metadata.address != s[j].metadata.address
}

/// `infos` files each entry of `s` under its validator, and nothing else.
pub open spec fn indexes(infos: Map<Seq<u8>, ValidatorInfoView>, s: Seq<ValidatorInfoView>) -> bool {
    &&& forall|k: Seq<u8>|
        infos.dom().contains(k) <==> exists|i: int| 0 <= i < s.len() && s[i].metadata.address == k
    &&& forall|i: int|
        0 <= i < s.len() ==> infos.dom().contains(#[trigger] s[i].metadata.address)
            && infos[s[i].metadata.address] == s[i]
}

/// Over entries for distinct validators, the stake filed under one
/// validator is that validator's entry's stake, or nothing.
proof fn lemma_stake_of_one(s: Seq<ValidatorInfoView>, k: Seq<u8>)
    requires
        addresses_distinct(s),
    ensures
        (forall|i: int| 0 <= i < s.len() ==> s[i].metadata.address != k) ==> sum_of(
            s,
            stake_in_keys(set![k]),
        ) == 0,
        forall|i: int|
            0 <= i < s.len() && s[i].metadata.address == k ==> sum_of(s, stake_in_keys(set![k]))
                == s[i].stake,
    decreases s.len(),
{
    if s.len() > 0 {
        let t = s.drop_last();
        assert forall|i: int, j: int|
            0 <= i < t.len() && 0 <= j < t.len() && i != j implies t[i].metadata.address
            != t[j].metadata.address by {
            assert(t[i] == s[i] && t[j] == s[j]);
        }
        lemma_stake_of_one(t, k);
        let n = s.len() - 1;
        if s[n].metadata.address == k {
            assert forall|i: int| 0 <= i < t.len() implies t[i].metadata.address != k by {
                assert(t[i] == s[i]);
            }
            assert forall|i: int| 0 <= i < s.len() && s[i].metadata.address == k implies sum_of(
                s,
                stake_in_keys(set![k]),
            ) == s[i].stake by {
                if i != n {
                    assert(s[i].metadata.address != s[n].metadata.address);
                }
            }
        } else {
            assert forall|i: int| 0 <= i < s.len() && s[i].metadata.address == k implies sum_of(
                s,
                stake_in_keys(set![k]),
            ) == s[i].stake by {
                assert(t[i] == s[i]);
            }
            if forall|i: int| 0 <= i < s.len() ==> s[i].metadata.address != k {
                assert forall|i: int| 0 <= i < t.len() implies t[i].metadata.address != k by {
                    assert(t[i] == s[i]);
                }
            }
        }
    }
}

/// The stake weight of a list of distinct validators is the stake of the
/// entries whose validator is listed.
proof fn lemma_list_weight(
    s: Seq<ValidatorInfoView>,
    infos: Map<Seq<u8>, ValidatorInfoView>,
    ids: Seq<Seq<u8>>,
)
    requires
        addresses_distinct(s),
        indexes(infos, s),
        ids.no_duplicates(),
    ensures
        stake_weight(ids, infos) == sum_of(s, stake_in_keys(ids.to_set())),
    decreases ids.len(),
{
    if ids.len() == 0 {
        assert forall|j: int| 0 <= j < s.len() implies (stake_in_keys(ids.to_set()))(#[trigger] s[j])
            == 0 by {}
        lemma_sum_le(s, stake_in_keys(ids.to_set()), |v: ValidatorInfoView| 0int);
        assert forall|j: int| 0 <= j < s.len() implies (stake_in_keys(ids.to_set()))(#[trigger] s[j])
            >= 0 by {}
        lemma_sum_nonneg(s, stake_in_keys(ids.to_set()));
        lemma_sum_zero(s);
    } else {
        let rest = ids.drop_last();
        let k = ids.last();
        assert(rest.no_duplicates()) by {
            assert forall|i: int, j: int| 0 <= i < rest.len() && 0 <= j < rest.len() && i != j implies rest[i]
                != rest[j] by {
                assert(rest[i] == ids[i] && rest[j] == ids[j]);
            }
        }
        lemma_list_weight(s, infos, rest);
        assert(!rest.to_set().contains(k)) by {
            if rest.contains(k) {
                let i = choose|i: int| 0 <= i < rest.len() && rest[i] == k;
                assert(ids[i] == ids[ids.len() - 1]);
            }
        }
        assert(ids.to_set() =~= rest.to_set().insert(k)) by {
            assert forall|x: Seq<u8>| ids.contains(x) <==> rest.contains(x) || x == k by {
                if ids.contains(x) {
                    let i = choose|i: int| 0 <= i < ids.len() && ids[i] == x;
                    if i < ids.len() - 1 {
                        assert(rest[i] == x);
                    }
                }
                if rest.contains(x) {
                    let i = choose|i: int| 0 <= i < rest.len() && rest[i] == x;
                    assert(ids[i] == x);
                }
                if x == k {
                    assert(ids[ids.len() - 1] == x);
                }
            }
        }
        assert(rest.push(k) =~= ids);
        lemma_sum_push(rest, k, |x: Seq<u8>| if infos.dom().contains(x) { infos[x].stake as int } else { 0 });
        assert forall|j: int| 0 <= j < s.len() implies (stake_in_keys(rest.to_set()))(#[trigger] s[j])
            + (stake_in_keys(set![k]))(s[j]) == (stake_in_keys(ids.to_set()))(s[j]) + 0 by {}
        lemma_sum_add(
            s,
            stake_in_keys(rest.to_set()),
            stake_in_keys(set![k]),
            stake_in_keys(ids.to_set()),
            |v: ValidatorInfoView| 0int,
        );
        lemma_sum_zero(s);
        lemma_stake_of_one(s, k);
        if infos.dom().contains(k) {
            let i = choose|i: int| 0 <= i < s.len() && s[i].metadata.address == k;
            assert(infos[s[i].metadata.address] == s[i]);
        }
    }
}

/// The zero function sums to zero.
proof fn lemma_sum_zero(s: Seq<ValidatorInfoView>)
    ensures
        sum_of(s, |v: ValidatorInfoView| 0int) == 0,
    decreases s.len(),
{
    if s.len() > 0 {
        lemma_sum_zero(s.drop_last());
    }
}

impl ValidatorSet {
    /// Two quorums overlap in a third of the stake: if two lists of
    /// distinct validators each hold at least two thirds of the set's
    /// stake, the validators on both lists hold at least a third of it, so
    /// they cannot all be among validators holding less than a third.
    pub proof fn lemma_quorums_intersect(&self, a: Seq<Seq<u8>>, b: Seq<Seq<u8>>, common: Seq<Seq<u8>>)
        requires
            self.wf(),
            a.no_duplicates(),
            b.no_duplicates(),
            common.no_duplicates(),
            common.to_set() == a.to_set().intersect(b.to_set()),
            stake_weight(a, self.infos()) * 3 >= self.total() * 2,
            stake_weight(b, self.infos()) * 3 >= self.total() * 2,
        ensures
            stake_weight(common, self.infos()) * 3 >= self.total(),
    {
        let s = self.records();
        let infos = self.infos();
        self.lemma_wf(Seq::<u8>::empty());
        assert forall|i: int, j: int|
            0 <= i < s.len() && 0 <= j < s.len() && i != j implies s[i].metadata.address
            != s[j].metadata.address by {
            assert(self.validators.pairs()[i].1.metadata.silver_address@ == self.validators.pairs()[i].0);
            assert(self.validators.pairs()[j].1.metadata.silver_address@ == self.validators.pairs()[j].0);
        }
        assert forall|k: Seq<u8>|
            infos.dom().contains(k) <==> exists|i: int| 0 <= i < s.len() && s[i].metadata.address == k by {
            self.lemma_wf(k);
        }
        let sa = a.to_set();
        let sb = b.to_set();
        let u = sa.union(sb);
        let n = sa.intersect(sb);
        lemma_list_weight(s, infos, a);
        lemma_list_weight(s, infos, b);
        lemma_list_weight(s, infos, common);
        assert forall|j: int| 0 <= j < s.len() implies (stake_in_keys(sa))(#[trigger] s[j]) + (
        stake_in_keys(sb))(s[j]) == (stake_in_keys(u))(s[j]) + (stake_in_keys(n))(s[j]) by {}
        lemma_sum_add(s, stake_in_keys(sa), stake_in_keys(sb), stake_in_keys(u), stake_in_keys(n));
        assert forall|j: int| 0 <= j < s.len() implies (stake_in_keys(u))(#[trigger] s[j]) <= (
        info_stake())(s[j]) by {}
        lemma_sum_le(s, stake_in_keys(u), info_stake());
    }
}

impl ValidatorSet {
    /// Two quorums always share an honest validator: if two lists of
    /// distinct validators each hold at least two thirds of the set's
    /// stake, and the faulty validators hold less than a third of it, some
    /// validator on both lists is not faulty.
    pub proof fn lemma_quorums_share_honest(&self, a: Seq<Seq<u8>>, b: Seq<Seq<u8>>, faulty: Seq<Seq<u8>>)
        requires
            self.wf(),
            a.no_duplicates(),
            b.no_duplicates(),
            faulty.no_duplicates(),
            stake_weight(a, self.infos()) * 3 >= self.total() * 2,
            stake_weight(b, self.infos()) * 3 >= self.total() * 2,
            stake_weight(faulty, self.infos()) * 3 < self.total(),
        ensures
            exists|k: Seq<u8>| a.contains(k) && b.contains(k) && !faulty.contains(k),
    {
        let s = self.records();
        let infos = self.infos();
        self.lemma_wf(Seq::<u8>::empty());
        assert forall|i: int, j: int|
            0 <= i < s.len() && 0 <= j < s.len() && i != j implies s[i].metadata.address
            != s[j].metadata.address by {
            assert(self.validators.pairs()[i].1.metadata.silver_address@ == self.validators.pairs()[i].0);
            assert(self.validators.pairs()[j].1.metadata.silver_address@ == self.validators.pairs()[j].0);
        }
        assert forall|k: Seq<u8>|
            infos.dom().contains(k) <==> exists|i: int| 0 <= i < s.len() && s[i].metadata.address == k by {
            self.lemma_wf(k);
        }
        if !(exists|k: Seq<u8>| a.contains(k) && b.contains(k) && !faulty.contains(k)) {
            let sa = a.to_set();
            let sb = b.to_set();
            let sf = faulty.to_set();
            let u = sa.union(sb);
            let n = sa.intersect(sb);
            lemma_list_weight(s, infos, a);
            lemma_list_weight(s, infos, b);
            lemma_list_weight(s, infos, faulty);
            assert forall|j: int| 0 <= j < s.len() implies (stake_in_keys(sa))(#[trigger] s[j]) + (
            stake_in_keys(sb))(s[j]) == (stake_in_keys(u))(s[j]) + (stake_in_keys(n))(s[j]) by {}
            lemma_sum_add(s, stake_in_keys(sa), stake_in_keys(sb), stake_in_keys(u), stake_in_keys(n));
            assert forall|j: int| 0 <= j < s.len() implies (stake_in_keys(u))(#[trigger] s[j]) <= (
            info_stake())(s[j]) by {}
            lemma_sum_le(s, stake_in_keys(u), info_stake());
            assert forall|j: int| 0 <= j < s.len() implies (stake_in_keys(n))(#[trigger] s[j]) <= (
            stake_in_keys(sf))(s[j]) by {
                let k = s[j].metadata.address;
                if n.contains(k) {
                    assert(a.contains(k) && b.contains(k));
                    assert(faulty.contains(k));
                }
            }
            lemma_sum_le(s, stake_in_keys(n), stake_in_keys(sf));
        }
    }
}

/// A key of a table, other than a freshly pushed one, was there before.
pub open spec fn old_new_dom_contains(p: Seq<(Seq<u8>, ValidatorInfo)>, k: Seq<u8>) -> bool {
    crate::table::seq_to_map(p).dom().contains(k)
}

impl Default for ValidatorSet {
    fn default() -> (r: Self)
        ensures
            r.wf(),
            r.records() == Seq::<ValidatorInfoView>::empty(),
            r.total() == 0,
            r.cycle() == 0,
            r.min() == 10_000,
    {
        Self::new()
    }
}

} // verus!
