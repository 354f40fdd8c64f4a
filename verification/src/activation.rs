//! Activation of approved protocol upgrades at cycle boundaries: an
//! upgrade is scheduled for a cycle, activated when that cycle starts, and
//! the version it replaces stays supported for a transition period, after
//! which its removal is scheduled.
use vstd::prelude::*;
use crate::protocol::{ApprovedUpgrade, FeatureFlags, ProtocolVersion, UpgradeView, VersionTable};
use crate::types::Error;

verus! {

/// Activation coordinator for protocol upgrades.
pub struct ActivationCoordinator {
    active_version: ProtocolVersion,
    supported_versions: VersionTable,
    scheduled_activations: Vec<(u64, ApprovedUpgrade)>,
    transition_period: u64,
    removal_schedule: Vec<(ProtocolVersion, u64)>,
}

/// The abstract state of a coordinator.
pub struct CoordinatorView {
    pub active: ProtocolVersion,
    pub supported: Map<ProtocolVersion, Set<Seq<char>>>,
    pub scheduled: Map<u64, UpgradeView>,
    pub transition_period: u64,
    pub removals: Map<ProtocolVersion, u64>,
}

/// The map a list of (key, value) pairs stands for: a later pair for the
/// same key wins.
pub open spec fn pairs_map<K, V>(s: Seq<(K, V)>) -> Map<K, V>
    decreases s.len(),
{
    if s.len() == 0 {
        Map::empty()
    } else {
        pairs_map(s.drop_last()).insert(s.last().0, s.last().1)
    }
}

/// No key appears twice.
pub open spec fn keys_distinct<K, V>(s: Seq<(K, V)>) -> bool {
    forall|i: int, j: int| 0 <= i < s.len() && 0 <= j < s.len() && i != j ==> s[i].0 != s[j].0
}

/// A key is in the map exactly when some pair carries it, and with
/// distinct keys the map sends it to that pair's value.
pub proof fn lemma_pairs_map<K, V>(s: Seq<(K, V)>, k: K)
    ensures
        pairs_map(s).dom().contains(k) <==> exists|i: int| 0 <= i < s.len() && s[i].0 == k,
        keys_distinct(s) ==> forall|i: int|
            0 <= i < s.len() && s[i].0 == k ==> pairs_map(s)[k] == #[trigger] s[i].1,
    decreases s.len(),
{
    if s.len() > 0 {
        lemma_pairs_map(s.drop_last(), k);
        if pairs_map(s).dom().contains(k) && k != s.last().0 {
            let i = choose|i: int| 0 <= i < s.drop_last().len() && s.drop_last()[i].0 == k;
            assert(s[i].0 == k);
        }
        if exists|i: int| 0 <= i < s.len() && s[i].0 == k {
            let i = choose|i: int| 0 <= i < s.len() && s[i].0 == k;
            if i < s.len() - 1 {
                assert(s.drop_last()[i].0 == k);
            }
        }
        if keys_distinct(s) {
            assert(keys_distinct(s.drop_last()));
            assert forall|i: int| 0 <= i < s.len() && s[i].0 == k implies pairs_map(s)[k] == #[trigger] s[i].1 by {
                if i < s.len() - 1 {
                    assert(s.drop_last()[i] == s[i]);
                    assert(s.last().0 != k);
                }
            }
        }
    }
}

/// Replacing or appending a pair in a list with distinct keys.
pub proof fn lemma_pairs_put<K, V>(s: Seq<(K, V)>, k: K, v: V, i: int)
    requires
        keys_distinct(s),
        0 <= i < s.len() && s[i].0 == k,
    ensures
        keys_distinct(s.update(i, (k, v))),
        pairs_map(s.update(i, (k, v))) =~= pairs_map(s).insert(k, v),
    decreases s.len(),
{
    let t = s.update(i, (k, v));
    assert forall|a: int, b: int| 0 <= a < t.len() && 0 <= b < t.len() && a != b implies t[a].0 != t[b].0 by {
        if a != i && b != i {
            assert(t[a] == s[a] && t[b] == s[b]);
        } else if a == i {
            assert(t[b] == s[b]);
        } else {
            assert(t[a] == s[a]);
        }
    }
    if i == s.len() - 1 {
        assert(t.drop_last() =~= s.drop_last());
    } else {
        assert(keys_distinct(s.drop_last()));
        assert(t.drop_last() =~= s.drop_last().update(i, (k, v)));
        lemma_pairs_put(s.drop_last(), k, v, i);
        assert(s.last().0 != k);
    }
}

/// Appending a pair with a fresh key.
pub proof fn lemma_pairs_push<K, V>(s: Seq<(K, V)>, k: K, v: V)
    requires
        keys_distinct(s),
        !pairs_map(s).dom().contains(k),
    ensures
        keys_distinct(s.push((k, v))),
        pairs_map(s.push((k, v))) == pairs_map(s).insert(k, v),
{
    let t = s.push((k, v));
    assert(t.drop_last() =~= s);
    lemma_pairs_map(s, k);
    assert forall|a: int, b: int| 0 <= a < t.len() && 0 <= b < t.len() && a != b implies t[a].0 != t[b].0 by {
        if a == s.len() {
            assert(s[b].0 != k);
        } else if b == s.len() {
            assert(s[a].0 != k);
        }
    }
}

/// Removing a pair from a list with distinct keys.
pub proof fn lemma_pairs_remove<K, V>(s: Seq<(K, V)>, i: int)
    requires
        keys_distinct(s),
        0 <= i < s.len(),
    ensures
        keys_distinct(s.remove(i)),
        pairs_map(s.remove(i)) =~= pairs_map(s).remove(s[i].0),
    decreases s.len(),
{
    let t = s.remove(i);
    assert forall|a: int, b: int| 0 <= a < t.len() && 0 <= b < t.len() && a != b implies t[a].0 != t[b].0 by {
        let a2 = if a < i { a } else { a + 1 };
        let b2 = if b < i { b } else { b + 1 };
        assert(t[a] == s[a2] && t[b] == s[b2]);
    }
    if i == s.len() - 1 {
        assert(t =~= s.drop_last());
        lemma_pairs_map(s.drop_last(), s.last().0);
    } else {
        assert(keys_distinct(s.drop_last()));
        assert(t.drop_last() =~= s.drop_last().remove(i));
        assert(t.last() == s.last());
        lemma_pairs_remove(s.drop_last(), i);
        assert(s.last().0 != s[i].0);
    }
}

impl ActivationCoordinator {
    /// The scheduled upgrades, by cycle.
    pub closed spec fn scheduled_list(&self) -> Seq<(u64, UpgradeView)> {
        self.scheduled_activations@.map_values(|e: (u64, ApprovedUpgrade)| (e.0, e.1@))
    }

    /// The coordinator's state.
    pub closed spec fn state(&self) -> CoordinatorView {
        CoordinatorView {
            active: self.active_version,
            supported: self.supported_versions.map(),
            scheduled: pairs_map(self.scheduled_list()),
            transition_period: self.transition_period,
            removals: pairs_map(self.removal_schedule@),
        }
    }

    /// One entry per version, per cycle and per removal.
    pub closed spec fn wf(&self) -> bool {
        &&& self.supported_versions.wf()
        &&& keys_distinct(self.scheduled_list())
        &&& keys_distinct(self.removal_schedule@)
    }

    /// A coordinator whose only version is the active one.
    pub fn new(initial_version: ProtocolVersion, transition_period: u64) -> (r: Self)
        ensures
            r.wf(),
            r.state() == (CoordinatorView {
                active: initial_version,
                supported: Map::<ProtocolVersion, Set<Seq<char>>>::empty().insert(
                    initial_version,
                    Set::empty(),
                ),
                scheduled: Map::empty(),
                transition_period,
                removals: Map::empty(),
            }),
    {
        let r = ActivationCoordinator {
            active_version: initial_version,
            supported_versions: VersionTable::single(initial_version, FeatureFlags::new()),
            scheduled_activations: Vec::new(),
            transition_period,
            removal_schedule: Vec::new(),
        };
        assert(r.scheduled_list() =~= Seq::<(u64, UpgradeView)>::empty());
        assert(pairs_map(r.scheduled_list()) =~= Map::<u64, UpgradeView>::empty());
        assert(pairs_map(r.removal_schedule@) =~= Map::<ProtocolVersion, u64>::empty());
        r
    }

    /// The active version.
    pub fn active_version(&self) -> (r: ProtocolVersion)
        ensures
            r == self.state().active,
    {
        self.active_version
    }

    /// The supported versions.
    pub fn supported_versions(&self) -> (r: Vec<ProtocolVersion>)
        requires
            self.wf(),
        ensures
            r@.to_set() == self.state().supported.dom(),
    {
        self.supported_versions.versions()
    }

    /// Whether `version` is supported.
    pub fn is_version_supported(&self, version: &ProtocolVersion) -> (r: bool)
        requires
            self.wf(),
        ensures
            r == self.state().supported.dom().contains(*version),
    {
        self.supported_versions.find(version).is_some()
    }

    /// The feature flags of `version`.
    pub fn get_feature_flags(&self, version: &ProtocolVersion) -> (r: Option<FeatureFlags>)
        requires
            self.wf(),
        ensures
            r is None <==> !self.state().supported.dom().contains(*version),
            r matches Some(f) ==> f@ == self.state().supported[*version],
    {
        match self.supported_versions.get(version) {
            Some(f) => Some(f.copy()),
            None => None,
        }
    }

    /// The position of the upgrade scheduled for `cycle`.
    fn find_scheduled(&self, cycle: u64) -> (r: Option<usize>)
        requires
            self.wf(),
        ensures
            r is None <==> !self.state().scheduled.dom().contains(cycle),
            r matches Some(i) ==> i < self.scheduled_list().len() && self.scheduled_list()[i as int].0
                == cycle && self.state().scheduled[cycle] == self.scheduled_list()[i as int].1,
    {
        let mut i: usize = 0;
        while i < self.scheduled_activations.len()
            invariant
                self.wf(),
                i <= self.scheduled_activations@.len(),
                forall|j: int| 0 <= j < i ==> self.scheduled_list()[j].0 != cycle,
            decreases self.scheduled_activations@.len() - i,
        {
            if self.scheduled_activations[i].0 == cycle {
                proof {
                    lemma_pairs_map(self.scheduled_list(), cycle);
                    assert(self.scheduled_list()[i as int].0 == cycle);
                }
                return Some(i);
            }
            i = i + 1;
        }
        proof {
            lemma_pairs_map(self.scheduled_list(), cycle);
        }
        None
    }

    /// Schedule an upgrade for its activation cycle: refused when that
    /// cycle has an upgrade scheduled already.
    pub fn schedule_activation(&mut self, upgrade: ApprovedUpgrade) -> (r: Result<(), Error>)
        requires
            old(self).wf(),
        ensures
            final(self).wf(),
            old(self).state().scheduled.dom().contains(upgrade@.activation_cycle) ==> r == Err::<
                (),
                Error,
            >(Error::ActivationAlreadyScheduled) && final(self).state() == old(self).state(),
            !old(self).state().scheduled.dom().contains(upgrade@.activation_cycle) ==> r is Ok
                && final(self).state() == (CoordinatorView {
                scheduled: old(self).state().scheduled.insert(upgrade@.activation_cycle, upgrade@),
                ..old(self).state()
            }),
    {
        let cycle = upgrade.proposal.activation_cycle;
        if self.find_scheduled(cycle).is_some() {
            return Err(Error::ActivationAlreadyScheduled);
        }
        let ghost uv = upgrade@;
        proof {
            lemma_pairs_push(self.scheduled_list(), cycle, uv);
        }
        self.scheduled_activations.push((cycle, upgrade));
        assert(self.scheduled_list() =~= old(self).scheduled_list().push((cycle, uv)));
        Ok(())
    }

    /// The upgrade scheduled for `cycle`.
    pub fn get_scheduled_activation(&self, cycle: u64) -> (r: Option<ApprovedUpgrade>)
        requires
            self.wf(),
        ensures
            r is None <==> !self.state().scheduled.dom().contains(cycle),
            r matches Some(u) ==> u@ == self.state().scheduled[cycle],
    {
        match self.find_scheduled(cycle) {
            Some(i) => Some(self.scheduled_activations[i].1.copy()),
            None => None,
        }
    }

    /// Activate, at the start of `cycle`, the upgrade scheduled for it: its
    /// version becomes the active one and is supported with its flags, the
    /// upgrade is unscheduled, and the replaced version's removal is
    /// scheduled after the transition period. Refused when nothing is
    /// scheduled for `cycle`.
    pub fn activate_at_cycle(&mut self, cycle: u64) -> (r: Result<ProtocolVersion, Error>)
        requires
            old(self).wf(),
            old(self).state().scheduled.dom().contains(cycle) ==> cycle + old(self).state().transition_period
                <= u64::MAX,
        ensures
            final(self).wf(),
            activation_outcome(old(self).state(), final(self).state(), cycle, r),
    {
        let i = match self.find_scheduled(cycle) {
            Some(i) => i,
            None => {
                return Err(Error::NoActivationScheduled);
            },
        };
        let ghost sl = self.scheduled_list();
        proof {
            lemma_pairs_remove(sl, i as int);
        }
        let (_c, upgrade) = self.scheduled_activations.remove(i);
        assert(self.scheduled_list() =~= sl.remove(i as int));
        let old_version = self.active_version;
        let new_version = upgrade.proposal.new_version;
        self.active_version = new_version;
        self.supported_versions.insert(new_version, upgrade.proposal.feature_flags);
        self.schedule_version_removal(old_version, cycle + self.transition_period);
        Ok(new_version)
    }

    /// Record that `version` is to be removed at `removal_cycle`.
    fn schedule_version_removal(&mut self, version: ProtocolVersion, removal_cycle: u64)
        requires
            old(self).wf(),
        ensures
            final(self).wf(),
            final(self).state() == (CoordinatorView {
                removals: old(self).state().removals.insert(version, removal_cycle),
                ..old(self).state()
            }),
    {
        let mut i: usize = 0;
        while i < self.removal_schedule.len()
            invariant
                self.wf(),
                self.state() == old(self).state(),
                self.removal_schedule@ == old(self).removal_schedule@,
                i <= self.removal_schedule@.len(),
                forall|j: int| 0 <= j < i ==> self.removal_schedule@[j].0 != version,
            decreases self.removal_schedule@.len() - i,
        {
            if self.removal_schedule[i].0 == version {
                proof {
                    lemma_pairs_put(self.removal_schedule@, version, removal_cycle, i as int);
                }
                self.removal_schedule.set(i, (version, removal_cycle));
                return;
            }
            i = i + 1;
        }
        proof {
            lemma_pairs_map(self.removal_schedule@, version);
            lemma_pairs_push(self.removal_schedule@, version, removal_cycle);
        }
        self.removal_schedule.push((version, removal_cycle));
    }

    /// Stop supporting `version`: refused for the active version or a
    /// version that is not supported.
    pub fn remove_version_support(&mut self, version: ProtocolVersion) -> (r: Result<(), Error>)
        requires
            old(self).wf(),
        ensures
            final(self).wf(),
            version == old(self).state().active ==> r == Err::<(), Error>(
                Error::CannotRemoveActiveVersion,
            ) && final(self).state() == old(self).state(),
            version != old(self).state().active && !old(self).state().supported.dom().contains(version)
                ==> r == Err::<(), Error>(Error::VersionNotSupported) && final(self).state() == old(
                self,
            ).state(),
            version != old(self).state().active && old(self).state().supported.dom().contains(version)
                ==> r is Ok && final(self).state() == (CoordinatorView {
                supported: old(self).state().supported.remove(version),
                ..old(self).state()
            }),
    {
        if version == self.active_version {
            return Err(Error::CannotRemoveActiveVersion);
        }
        if !self.supported_versions.remove(&version) {
            assert(old(self).supported_versions.map().remove(version) =~= old(self).supported_versions.map());
            return Err(Error::VersionNotSupported);
        }
        Ok(())
    }

    /// One check of a version's scheduled removal, at `current_cycle`: once
    /// the cycle reaches `removal_cycle`, the version stops being supported
    /// (whether or not it is active) and leaves the removal schedule, and
    /// the check reports that it is done; before, nothing changes.
    pub fn remove_due_version(
        &mut self,
        version: ProtocolVersion,
        removal_cycle: u64,
        current_cycle: u64,
    ) -> (r: bool)
        requires
            old(self).wf(),
        ensures
            final(self).wf(),
            r == (current_cycle >= removal_cycle),
            !r ==> final(self).state() == old(self).state(),
            r ==> final(self).state() == (CoordinatorView {
                supported: old(self).state().supported.remove(version),
                removals: old(self).state().removals.remove(version),
                ..old(self).state()
            }),
    {
        if current_cycle < removal_cycle {
            return false;
        }
        let removed = self.supported_versions.remove(&version);
        proof {
            if !removed {
                assert(old(self).supported_versions.map().remove(version) =~= old(self).supported_versions.map());
            }
        }
        let mut i: usize = 0;
        while i < self.removal_schedule.len()
            invariant
                self.wf(),
                self.removal_schedule@ == old(self).removal_schedule@,
                self.state() == (CoordinatorView {
                    supported: old(self).state().supported.remove(version),
                    ..old(self).state()
                }),
                i <= self.removal_schedule@.len(),
                current_cycle >= removal_cycle,
                forall|j: int| 0 <= j < i ==> self.removal_schedule@[j].0 != version,
            decreases self.removal_schedule@.len() - i,
        {
            if self.removal_schedule[i].0 == version {
                proof {
                    lemma_pairs_remove(self.removal_schedule@, i as int);
                }
                self.removal_schedule.remove(i);
                return true;
            }
            i = i + 1;
        }
        proof {
            lemma_pairs_map(self.removal_schedule@, version);
            assert(self.state().removals.remove(version) =~= self.state().removals);
        }
        true
    }

    /// At the start of `cycle`, activate the upgrade scheduled for it, if
    /// any.
    pub fn process_cycle_boundary(&mut self, cycle: u64) -> (r: Result<Option<ProtocolVersion>, Error>)
        requires
            old(self).wf(),
            old(self).state().scheduled.dom().contains(cycle) ==> cycle + old(self).state().transition_period
                <= u64::MAX,
        ensures
            final(self).wf(),
            !old(self).state().scheduled.dom().contains(cycle) ==> r == Ok::<
                Option<ProtocolVersion>,
                Error,
            >(None) && final(self).state() == old(self).state(),
            old(self).state().scheduled.dom().contains(cycle) ==> r is Ok && r->Ok_0 is Some
                && activation_outcome(
                old(self).state(),
                final(self).state(),
                cycle,
                Ok(r->Ok_0->Some_0),
            ),
    {
        if self.find_scheduled(cycle).is_some() {
            match self.activate_at_cycle(cycle) {
                Ok(v) => Ok(Some(v)),
                Err(e) => Err(e),
            }
        } else {
            Ok(None)
        }
    }

    /// The coordinator's statistics.
    pub fn get_stats(&self) -> (r: ActivationStats)
        requires
            self.wf(),
        ensures
            r.active_version == self.state().active,
            r.supported_versions@.to_set() == self.state().supported.dom(),
            r.scheduled_activations == self.state().scheduled.dom().len(),
            r.transition_period == self.state().transition_period,
    {
        proof {
            lemma_pairs_len(self.scheduled_list());
        }
        ActivationStats {
            active_version: self.active_version,
            supported_versions: self.supported_versions.versions(),
            scheduled_activations: self.scheduled_activations.len(),
            transition_period: self.transition_period,
        }
    }

    /// The versions whose removal is scheduled, with their removal cycle.
    pub fn removal_schedule(&self) -> (r: Vec<(ProtocolVersion, u64)>)
        ensures
            pairs_map(r@) == self.state().removals,
    {
        let mut out: Vec<(ProtocolVersion, u64)> = Vec::new();
        let mut i: usize = 0;
        while i < self.removal_schedule.len()
            invariant
                i <= self.removal_schedule@.len(),
                out@ == self.removal_schedule@.take(i as int),
            decreases self.removal_schedule@.len() - i,
        {
            out.push(self.removal_schedule[i]);
            i = i + 1;
            assert(out@ =~= self.removal_schedule@.take(i as int));
        }
        assert(self.removal_schedule@.take(i as int) =~= self.removal_schedule@);
        out
    }
}

/// With distinct keys the map has one entry per pair.
pub proof fn lemma_pairs_len<K, V>(s: Seq<(K, V)>)
    requires
        keys_distinct(s),
    ensures
        pairs_map(s).dom().finite(),
        pairs_map(s).dom().len() == s.len(),
    decreases s.len(),
{
    if s.len() > 0 {
        assert(keys_distinct(s.drop_last()));
        lemma_pairs_len(s.drop_last());
        lemma_pairs_map(s.drop_last(), s.last().0);
        if pairs_map(s.drop_last()).dom().contains(s.last().0) {
            let j = choose|j: int| 0 <= j < s.drop_last().len() && s.drop_last()[j].0 == s.last().0;
            assert(s[j].0 == s[s.len() - 1].0);
        }
    }
}

/// What activating at the start of `cycle` does: refused when nothing is
/// scheduled for it; otherwise the scheduled version becomes the active one
/// and is supported with its flags, the upgrade is unscheduled, and the
/// replaced version is due for removal `transition_period` cycles later.
pub open spec fn activation_outcome(
    pre: CoordinatorView,
    post: CoordinatorView,
    cycle: u64,
    r: Result<ProtocolVersion, Error>,
) -> bool {
    if !pre.scheduled.dom().contains(cycle) {
        r == Err::<ProtocolVersion, Error>(Error::NoActivationScheduled) && post == pre
    } else {
        let u = pre.scheduled[cycle];
        &&& r == Ok::<ProtocolVersion, Error>(u.new_version)
        &&& post.active == u.new_version
        &&& post.supported == pre.supported.insert(u.new_version, u.feature_flags)
        &&& post.scheduled == pre.scheduled.remove(cycle)
        &&& post.transition_period == pre.transition_period
        &&& post.removals == pre.removals.insert(pre.active, (cycle + pre.transition_period) as u64)
    }
}

/// An activation keeps both versions supported: the new one with its
/// flags and the replaced one until its scheduled removal.
pub proof fn lemma_activation_keeps_both(
    pre: CoordinatorView,
    post: CoordinatorView,
    cycle: u64,
    r: Result<ProtocolVersion, Error>,
)
    requires
        activation_outcome(pre, post, cycle, r),
        pre.scheduled.dom().contains(cycle),
        pre.supported.dom().contains(pre.active),
    ensures
        post.supported.dom().contains(post.active),
        post.supported.dom().contains(pre.active),
        post.removals.dom().contains(pre.active),
        !post.scheduled.dom().contains(cycle),
{
}

/// Statistics about an activation coordinator.
pub struct ActivationStats {
    /// Active protocol version
    pub active_version: ProtocolVersion,
    /// Supported protocol versions
    pub supported_versions: Vec<ProtocolVersion>,
    /// Number of scheduled activations
    pub scheduled_activations: usize,
    /// Transition period (cycles)
    pub transition_period: u64,
}

} // verus!
