//! Protocol versions, feature flags, upgrades and the transactions whose
//! features they govern.
use vstd::prelude::*;

verus! {

/// A protocol version: major, minor and patch numbers.
#[derive(Debug, Clone, Copy, PartialEq, Eq, Structural, Hash)]
pub struct ProtocolVersion {
    pub major: u32,
    pub minor: u32,
    pub patch: u32,
}

/// `a` comes before `b`: by major, then minor, then patch number.
pub open spec fn version_lt(a: ProtocolVersion, b: ProtocolVersion) -> bool {
    a.major < b.major || (a.major == b.major && (a.minor < b.minor || (a.minor == b.minor
        && a.patch < b.patch)))
}

impl ProtocolVersion {
    /// The version `major.minor.patch`.
    pub fn new(major: u32, minor: u32, patch: u32) -> (r: Self)
        ensures
            r == (ProtocolVersion { major, minor, patch }),
    {
        ProtocolVersion { major, minor, patch }
    }

    /// Whether this version comes before `other`.
    pub fn less_than(&self, other: &ProtocolVersion) -> (r: bool)
        ensures
            r == version_lt(*self, *other),
    {
        self.major < other.major || (self.major == other.major && (self.minor < other.minor || (
        self.minor == other.minor && self.patch < other.patch)))
    }
}

/// A set of enabled protocol features, by name.
pub struct FeatureFlags {
    enabled: Vec<String>,
}

/// The names in a list of strings.
pub open spec fn string_views(s: Seq<String>) -> Seq<Seq<char>> {
    s.map_values(|x: String| x@)
}

impl View for FeatureFlags {
    type V = Set<Seq<char>>;

    closed spec fn view(&self) -> Set<Seq<char>> {
        string_views(self.enabled@).to_set()
    }
}

impl FeatureFlags {
    /// No feature enabled.
    pub fn new() -> (r: Self)
        ensures
            r@ == Set::<Seq<char>>::empty(),
    {
        let r = FeatureFlags { enabled: Vec::new() };
        assert(string_views(r.enabled@) =~= Seq::<Seq<char>>::empty());
        assert(r@ =~= Set::<Seq<char>>::empty());
        r
    }

    /// Enable a feature.
    pub fn enable(&mut self, feature: &str)
        ensures
            final(self)@ == old(self)@.insert(feature@),
    {
        let ghost before = string_views(self.enabled@);
        self.enabled.push(feature.to_owned());
        proof {
            assert(string_views(self.enabled@) =~= before.push(feature@));
            assert(before.push(feature@).to_set() =~= before.to_set().insert(feature@)) by {
                assert forall|x: Seq<char>| #[trigger] before.push(feature@).contains(x) <==> before.contains(x)
                    || x == feature@ by {
                    if before.push(feature@).contains(x) {
                        let i = choose|i: int| 0 <= i < before.len() + 1 && before.push(feature@)[i] == x;
                        if i < before.len() {
                            assert(before[i] == x);
                        }
                    }
                    if before.contains(x) {
                        let i = choose|i: int| 0 <= i < before.len() && before[i] == x;
                        assert(before.push(feature@)[i] == x);
                    }
                    if x == feature@ {
                        assert(before.push(feature@)[before.len() as int] == x);
                    }
                }
            }
        }
    }

    /// Whether a feature is enabled.
    pub fn is_enabled(&self, feature: &str) -> (r: bool)
        ensures
            r == self@.contains(feature@),
    {
        let f = feature.to_owned();
        let ghost names = string_views(self.enabled@);
        let mut i: usize = 0;
        while i < self.enabled.len()
            invariant
                i <= self.enabled@.len(),
                names == string_views(self.enabled@),
                f@ == feature@,
                forall|j: int| 0 <= j < i ==> names[j] != feature@,
            decreases self.enabled@.len() - i,
        {
            if self.enabled[i] == f {
                proof {
                    assert(names[i as int] == feature@);
                    assert(names.contains(feature@));
                }
                return true;
            }
            i = i + 1;
        }
        proof {
            if names.contains(feature@) {
                let j = choose|j: int| 0 <= j < names.len() && names[j] == feature@;
                assert(names[j] != feature@);
            }
        }
        false
    }

    /// A copy of the flags.
    pub fn copy(&self) -> (r: Self)
        ensures
            r@ == self@,
    {
        let mut v: Vec<String> = Vec::new();
        let mut i: usize = 0;
        while i < self.enabled.len()
            invariant
                i <= self.enabled@.len(),
                string_views(v@) == string_views(self.enabled@).take(i as int),
            decreases self.enabled@.len() - i,
        {
            let ghost v0 = string_views(v@);
            v.push(self.enabled[i].clone());
            proof {
                assert(string_views(v@) =~= v0.push(self.enabled@[i as int]@));
                assert(string_views(self.enabled@).take(i + 1) =~= string_views(self.enabled@).take(
                    i as int,
                ).push(self.enabled@[i as int]@));
            }
            i = i + 1;
        }
        assert(string_views(self.enabled@).take(i as int) =~= string_views(self.enabled@));
        FeatureFlags { enabled: v }
    }
}

/// A command of a composite transaction.
#[derive(Debug, Clone, Copy, PartialEq, Eq, Structural)]
pub enum Command {
    TransferObjects,
    SplitCoins,
    MergeCoins,
    Publish,
    Call,
    MakeMoveVec,
    DeleteObject,
    ShareObject,
    FreezeObject,
}

/// The kind of a transaction.
pub enum TransactionKind {
    /// A chain of commands
    CompositeChain(Vec<Command>),
    /// The genesis transaction
    Genesis,
    /// A consensus commit
    ConsensusCommit,
}

/// A transaction, as far as its features go: its kind.
pub struct Transaction {
    pub kind: TransactionKind,
}

/// A proposal to upgrade the protocol.
pub struct UpgradeProposal {
    /// The version to activate
    pub new_version: ProtocolVersion,
    /// The cycle at whose start it activates
    pub activation_cycle: u64,
    /// The features of the new version
    pub feature_flags: FeatureFlags,
}

/// An approved upgrade.
pub struct ApprovedUpgrade {
    /// The proposal
    pub proposal: UpgradeProposal,
}

/// The abstract content of an upgrade.
pub struct UpgradeView {
    pub new_version: ProtocolVersion,
    pub activation_cycle: u64,
    pub feature_flags: Set<Seq<char>>,
}

impl View for ApprovedUpgrade {
    type V = UpgradeView;

    open spec fn view(&self) -> UpgradeView {
        UpgradeView {
            new_version: self.proposal.new_version,
            activation_cycle: self.proposal.activation_cycle,
            feature_flags: self.proposal.feature_flags@,
        }
    }
}

impl ApprovedUpgrade {
    /// A copy of the upgrade.
    pub fn copy(&self) -> (r: Self)
        ensures
            r@ == self@,
    {
        ApprovedUpgrade {
            proposal: UpgradeProposal {
                new_version: self.proposal.new_version,
                activation_cycle: self.proposal.activation_cycle,
                feature_flags: self.proposal.feature_flags.copy(),
            },
        }
    }
}

/// A table of versions with their feature flags, one entry per version.
pub struct VersionTable {
    entries: Vec<(ProtocolVersion, FeatureFlags)>,
}

impl VersionTable {
    /// The entries, in the order the versions were added.
    pub closed spec fn entries(&self) -> Seq<(ProtocolVersion, Set<Seq<char>>)> {
        self.entries@.map_values(|e: (ProtocolVersion, FeatureFlags)| (e.0, e.1@))
    }

    /// The flags by version.
    pub open spec fn map(&self) -> Map<ProtocolVersion, Set<Seq<char>>> {
        Map::new(
            |v: ProtocolVersion| exists|i: int| 0 <= i < self.entries().len() && self.entries()[i].0 == v,
            |v: ProtocolVersion|
                self.entries()[choose|i: int| 0 <= i < self.entries().len() && self.entries()[i].0 == v].1,
        )
    }

    /// No version appears twice.
    pub open spec fn wf(&self) -> bool {
        forall|i: int, j: int|
            0 <= i < self.entries().len() && 0 <= j < self.entries().len() && i != j ==> self.entries()[i].0
                != self.entries()[j].0
    }

    /// An entry found at `i` is the map's entry for its version.
    pub proof fn lemma_at(&self, i: int)
        requires
            self.wf(),
            0 <= i < self.entries().len(),
        ensures
            self.map().dom().contains(self.entries()[i].0),
            self.map()[self.entries()[i].0] == self.entries()[i].1,
    {
        let v = self.entries()[i].0;
        assert(self.map().dom().contains(v));
        let c = choose|k: int| 0 <= k < self.entries().len() && self.entries()[k].0 == v;
        assert(c == i);
    }

    /// A table with one version.
    pub fn single(v: ProtocolVersion, flags: FeatureFlags) -> (r: Self)
        ensures
            r.wf(),
            r.map() == Map::<ProtocolVersion, Set<Seq<char>>>::empty().insert(v, flags@),
            r.entries() == seq![(v, flags@)],
    {
        let mut entries: Vec<(ProtocolVersion, FeatureFlags)> = Vec::new();
        entries.push((v, flags));
        let r = VersionTable { entries };
        assert(r.entries() =~= seq![(v, r.entries@[0].1@)]);
        proof {
            r.lemma_at(0);
        }
        assert(r.map() =~= Map::<ProtocolVersion, Set<Seq<char>>>::empty().insert(v, r.entries@[0].1@));
        r
    }

    /// The position of version `v`.
    pub fn find(&self, v: &ProtocolVersion) -> (r: Option<usize>)
        requires
            self.wf(),
        ensures
            r is None <==> !self.map().dom().contains(*v),
            r matches Some(i) ==> i < self.entries().len() && self.entries()[i as int].0 == *v
                && self.map()[*v] == self.entries()[i as int].1,
    {
        let mut i: usize = 0;
        while i < self.entries.len()
            invariant
                self.wf(),
                i <= self.entries@.len(),
                forall|j: int| 0 <= j < i ==> self.entries()[j].0 != *v,
            decreases self.entries@.len() - i,
        {
            if self.entries[i].0 == *v {
                proof {
                    assert(self.entries()[i as int].0 == *v);
                    self.lemma_at(i as int);
                }
                return Some(i);
            }
            i = i + 1;
        }
        None
    }

    /// The flags of version `v`.
    pub fn get(&self, v: &ProtocolVersion) -> (r: Option<&FeatureFlags>)
        requires
            self.wf(),
        ensures
            r is None <==> !self.map().dom().contains(*v),
            r matches Some(f) ==> f@ == self.map()[*v],
    {
        match self.find(v) {
            Some(i) => Some(&self.entries[i].1),
            None => None,
        }
    }

    /// Files `flags` under `v`, in place of the version's flags or added.
    pub fn insert(&mut self, v: ProtocolVersion, flags: FeatureFlags)
        requires
            old(self).wf(),
        ensures
            final(self).wf(),
            final(self).map() == old(self).map().insert(v, flags@),
    {
        let ghost fv = flags@;
        match self.find(&v) {
            Some(i) => {
                self.entries.set(i, (v, flags));
                proof {
                    assert(self.entries() =~= old(self).entries().update(i as int, (v, fv)));
                    assert forall|k: ProtocolVersion| #[trigger] self.map().dom().contains(k) <==> old(self).map().insert(v, fv).dom().contains(k) by {
                        if old(self).map().dom().contains(k) {
                            let j = choose|j: int| 0 <= j < old(self).entries().len() && old(self).entries()[j].0 == k;
                            assert(self.entries()[j].0 == k);
                        }
                        if self.map().dom().contains(k) {
                            let j = choose|j: int| 0 <= j < self.entries().len() && self.entries()[j].0 == k;
                            if j != i {
                                assert(old(self).entries()[j].0 == k);
                            }
                        }
                    }
                    assert forall|k: ProtocolVersion| #[trigger] self.map().dom().contains(k) implies self.map()[k] == old(self).map().insert(v, fv)[k] by {
                        let j = choose|j: int| 0 <= j < self.entries().len() && self.entries()[j].0 == k;
                        self.lemma_at(j);
                        if j != i {
                            old(self).lemma_at(j);
                        }
                    }
                    assert(self.map() =~= old(self).map().insert(v, fv));
                }
            },
            None => {
                self.entries.push((v, flags));
                proof {
                    let n = old(self).entries().len() as int;
                    assert(self.entries() =~= old(self).entries().push((v, fv)));
                    assert forall|k: ProtocolVersion| #[trigger] self.map().dom().contains(k) <==> old(self).map().insert(v, fv).dom().contains(k) by {
                        if old(self).map().dom().contains(k) {
                            let j = choose|j: int| 0 <= j < old(self).entries().len() && old(self).entries()[j].0 == k;
                            assert(self.entries()[j].0 == k);
                        }
                        if k == v {
                            assert(self.entries()[n].0 == k);
                        }
                        if self.map().dom().contains(k) {
                            let j = choose|j: int| 0 <= j < self.entries().len() && self.entries()[j].0 == k;
                            if j != n {
                                assert(old(self).entries()[j].0 == k);
                            }
                        }
                    }
                    assert forall|k: ProtocolVersion| #[trigger] self.map().dom().contains(k) implies self.map()[k] == old(self).map().insert(v, fv)[k] by {
                        let j = choose|j: int| 0 <= j < self.entries().len() && self.entries()[j].0 == k;
                        self.lemma_at(j);
                        if j != n {
                            old(self).lemma_at(j);
                        }
                    }
                    assert(self.map() =~= old(self).map().insert(v, fv));
                }
            },
        }
    }

    /// Removes version `v`; false when it is absent.
    pub fn remove(&mut self, v: &ProtocolVersion) -> (r: bool)
        requires
            old(self).wf(),
        ensures
            final(self).wf(),
            r == old(self).map().dom().contains(*v),
            final(self).map() == old(self).map().remove(*v),
    {
        match self.find(v) {
            Some(i) => {
                self.entries.remove(i);
                proof {
                    assert(self.entries() =~= old(self).entries().remove(i as int));
                    assert forall|a: int, b: int| 0 <= a < self.entries().len() && 0 <= b < self.entries().len() && a != b implies self.entries()[a].0 != self.entries()[b].0 by {
                        let a2 = if a < i { a } else { a + 1 };
                        let b2 = if b < i { b } else { b + 1 };
                        assert(self.entries()[a] == old(self).entries()[a2]);
                        assert(self.entries()[b] == old(self).entries()[b2]);
                    }
                    assert forall|k: ProtocolVersion| #[trigger] self.map().dom().contains(k) <==> old(self).map().remove(*v).dom().contains(k) by {
                        if old(self).map().dom().contains(k) && k != *v {
                            let j = choose|j: int| 0 <= j < old(self).entries().len() && old(self).entries()[j].0 == k;
                            if j < i {
                                assert(self.entries()[j].0 == k);
                            } else {
                                assert(self.entries()[j - 1].0 == k);
                            }
                        }
                        if self.map().dom().contains(k) {
                            let j = choose|j: int| 0 <= j < self.entries().len() && self.entries()[j].0 == k;
                            let j2 = if j < i { j } else { j + 1 };
                            assert(old(self).entries()[j2].0 == k);
                        }
                    }
                    assert forall|k: ProtocolVersion| #[trigger] self.map().dom().contains(k) implies self.map()[k] == old(self).map().remove(*v)[k] by {
                        let j = choose|j: int| 0 <= j < self.entries().len() && self.entries()[j].0 == k;
                        self.lemma_at(j);
                        let j2 = if j < i { j } else { j + 1 };
                        old(self).lemma_at(j2);
                    }
                    assert(self.map() =~= old(self).map().remove(*v));
                }
                true
            },
            None => {
                assert(self.map() =~= old(self).map().remove(*v));
                false
            },
        }
    }

    /// The versions, in order.
    pub fn versions(&self) -> (r: Vec<ProtocolVersion>)
        requires
            self.wf(),
        ensures
            r@ == self.entries().map_values(|e: (ProtocolVersion, Set<Seq<char>>)| e.0),
            r@.to_set() == self.map().dom(),
    {
        let mut out: Vec<ProtocolVersion> = Vec::new();
        let mut i: usize = 0;
        while i < self.entries.len()
            invariant
                i <= self.entries@.len(),
                out@ == self.entries().take(i as int).map_values(|e: (ProtocolVersion, Set<Seq<char>>)| e.0),
            decreases self.entries@.len() - i,
        {
            out.push(self.entries[i].0);
            i = i + 1;
            assert(out@ =~= self.entries().take(i as int).map_values(|e: (ProtocolVersion, Set<Seq<char>>)| e.0));
        }
        assert(self.entries().take(i as int) =~= self.entries());
        assert forall|k: ProtocolVersion| out@.to_set().contains(k) <==> self.map().dom().contains(k) by {
            if out@.contains(k) {
                let j = choose|j: int| 0 <= j < out@.len() && out@[j] == k;
                assert(self.entries()[j].0 == k);
            }
            if self.map().dom().contains(k) {
                let j = choose|j: int| 0 <= j < self.entries().len() && self.entries()[j].0 == k;
                assert(out@[j] == k);
            }
        }
        assert(out@.to_set() =~= self.map().dom());
        out
    }

    /// The number of versions.
    pub fn len(&self) -> (r: usize)
        ensures
            r == self.entries().len(),
    {
        self.entries.len()
    }
}

} // verus!
