//! Backward compatibility during protocol upgrades: transactions are
//! checked against the active protocol version, its supported versions and
//! their feature flags; a transaction that needs an inactive feature, or a
//! feature newer than the active version, is refused.
use vstd::prelude::*;
use crate::protocol::{
    Command, FeatureFlags, ProtocolVersion, Transaction, TransactionKind, VersionTable, version_lt,
};
use crate::types::Error;

verus! {

/// Minimum versions required by features, one entry per feature.
struct Requirements {
    entries: Vec<(String, ProtocolVersion)>,
}

impl Requirements {
    closed spec fn entries(&self) -> Seq<(Seq<char>, ProtocolVersion)> {
        self.entries@.map_values(|e: (String, ProtocolVersion)| (e.0@, e.1))
    }

    closed spec fn wf(&self) -> bool {
        forall|i: int, j: int|
            0 <= i < self.entries().len() && 0 <= j < self.entries().len() && i != j ==> self.entries()[i].0
                != self.entries()[j].0
    }

    closed spec fn map(&self) -> Map<Seq<char>, ProtocolVersion> {
        Map::new(
            |f: Seq<char>| exists|i: int| 0 <= i < self.entries().len() && self.entries()[i].0 == f,
            |f: Seq<char>|
                self.entries()[choose|i: int| 0 <= i < self.entries().len() && self.entries()[i].0 == f].1,
        )
    }

    proof fn lemma_at(&self, i: int)
        requires
            self.wf(),
            0 <= i < self.entries().len(),
        ensures
            self.map().dom().contains(self.entries()[i].0),
            self.map()[self.entries()[i].0] == self.entries()[i].1,
    {
        let f = self.entries()[i].0;
        assert(self.map().dom().contains(f));
        let c = choose|k: int| 0 <= k < self.entries().len() && self.entries()[k].0 == f;
        assert(c == i);
    }

    fn find(&self, f: &String) -> (r: Option<usize>)
        requires
            self.wf(),
        ensures
            r is None <==> !self.map().dom().contains(f@),
            r matches Some(i) ==> i < self.entries().len() && self.entries()[i as int].0 == f@
                && self.map()[f@] == self.entries()[i as int].1,
    {
        let mut i: usize = 0;
        while i < self.entries.len()
            invariant
                self.wf(),
                i <= self.entries@.len(),
                forall|j: int| 0 <= j < i ==> self.entries()[j].0 != f@,
            decreases self.entries@.len() - i,
        {
            if self.entries[i].0 == *f {
                proof {
                    assert(self.entries()[i as int].0 == f@);
                    self.lemma_at(i as int);
                }
                return Some(i);
            }
            i = i + 1;
        }
        None
    }

    fn insert(&mut self, f: String, v: ProtocolVersion)
        requires
            old(self).wf(),
        ensures
            final(self).wf(),
            final(self).map() == old(self).map().insert(f@, v),
            final(self).entries().len() == old(self).entries().len() + (if old(self).map().dom().contains(
                f@,
            ) {
                0int
            } else {
                1int
            }),
    {
        let ghost fv = f@;
        match self.find(&f) {
            Some(i) => {
                self.entries.set(i, (f, v));
                proof {
                    assert(self.entries() =~= old(self).entries().update(i as int, (fv, v)));
                    assert forall|k: Seq<char>| #[trigger] self.map().dom().contains(k) <==> old(self).map().insert(fv, v).dom().contains(k) by {
                        if old(self).map().dom().contains(k) {
                            let j = choose|j: int| 0 <= j < old(self).entries().len() && old(self).entries()[j].0 == k;
                            assert(self.entries()[j].0 == k);
                        }
                        if self.map().dom().contains(k) {
                            let j = choose|j: int| 0 <= j < self.entries().len() && self.entries()[j].0 == k;
                            if j != i {
                                assert(old(self).entries()[j].0 == k);
                            }
                        }
                    }
                    assert forall|k: Seq<char>| #[trigger] self.map().dom().contains(k) implies self.map()[k] == old(self).map().insert(fv, v)[k] by {
                        let j = choose|j: int| 0 <= j < self.entries().len() && self.entries()[j].0 == k;
                        self.lemma_at(j);
                        if j != i {
                            old(self).lemma_at(j);
                        }
                    }
                    assert(self.map() =~= old(self).map().insert(fv, v));
                }
            },
            None => {
                self.entries.push((f, v));
                proof {
                    let n = old(self).entries().len() as int;
                    assert(self.entries() =~= old(self).entries().push((fv, v)));
                    assert forall|a: int, b: int| 0 <= a < self.entries().len() && 0 <= b < self.entries().len() && a != b implies self.entries()[a].0 != self.entries()[b].0 by {
                        if a == n && b < n {
                            if old(self).entries()[b].0 == fv {
                                assert(old(self).map().dom().contains(fv));
                            }
                        } else if b == n && a < n {
                            if old(self).entries()[a].0 == fv {
                                assert(old(self).map().dom().contains(fv));
                            }
                        }
                    }
                    assert forall|k: Seq<char>| #[trigger] self.map().dom().contains(k) <==> old(self).map().insert(fv, v).dom().contains(k) by {
                        if old(self).map().dom().contains(k) {
                            let j = choose|j: int| 0 <= j < old(self).entries().len() && old(self).entries()[j].0 == k;
                            assert(self.entries()[j].0 == k);
                        }
                        if k == fv {
                            assert(self.entries()[n].0 == k);
                        }
                        if self.map().dom().contains(k) {
                            let j = choose|j: int| 0 <= j < self.entries().len() && self.entries()[j].0 == k;
                            if j != n {
                                assert(old(self).entries()[j].0 == k);
                            }
                        }
                    }
                    assert forall|k: Seq<char>| #[trigger] self.map().dom().contains(k) implies self.map()[k] == old(self).map().insert(fv, v)[k] by {
                        let j = choose|j: int| 0 <= j < self.entries().len() && self.entries()[j].0 == k;
                        self.lemma_at(j);
                        if j != n {
                            old(self).lemma_at(j);
                        }
                    }
                    assert(self.map() =~= old(self).map().insert(fv, v));
                }
            },
        }
    }
}

/// Compatibility checker for protocol transitions.
pub struct CompatibilityChecker {
    active_version: ProtocolVersion,
    supported_versions: VersionTable,
    feature_requirements: Requirements,
}

/// The abstract state of a compatibility checker.
pub struct CheckerView {
    pub active: ProtocolVersion,
    pub supported: Map<ProtocolVersion, Set<Seq<char>>>,
    pub requirements: Map<Seq<char>, ProtocolVersion>,
    pub requirement_count: nat,
}

/// Whether a feature is enabled in version `v` of `state`.
pub open spec fn enabled_in(state: CheckerView, feature: Seq<char>, v: ProtocolVersion) -> bool {
    state.supported.dom().contains(v) && state.supported[v].contains(feature)
}

/// Why one required feature is refused under the active version, if it
/// is: not enabled, or newer than the active version.
pub open spec fn feature_fault(state: CheckerView, feature: Seq<char>, index: usize) -> Option<Error> {
    if !enabled_in(state, feature, state.active) {
        Some(Error::FeatureNotEnabled { index })
    } else if state.requirements.dom().contains(feature) && version_lt(
        state.active,
        state.requirements[feature],
    ) {
        Some(Error::FeatureVersionTooLow { index })
    } else {
        None
    }
}

/// Why a transaction that needs `features` is refused, if it is: the
/// active version is not supported, or the first refused feature.
pub open spec fn transaction_fault(state: CheckerView, features: Seq<Seq<char>>) -> Option<Error> {
    if !state.supported.dom().contains(state.active) {
        Some(Error::VersionNotSupported)
    } else {
        first_feature_fault(state, features, 0)
    }
}

/// The first refused feature from position `from` on.
pub open spec fn first_feature_fault(state: CheckerView, features: Seq<Seq<char>>, from: int) -> Option<
    Error,
>
    decreases features.len() - from,
{
    if from < 0 || from >= features.len() {
        None
    } else if feature_fault(state, features[from], from as usize) is Some {
        feature_fault(state, features[from], from as usize)
    } else {
        first_feature_fault(state, features, from + 1)
    }
}

/// A transaction of a batch that is refused, and why.
#[derive(Debug, Clone, Copy, PartialEq, Eq, Structural)]
pub struct BatchError {
    /// Position of the transaction in the batch
    pub position: usize,
    /// Why it is refused
    pub cause: Error,
}

/// The first refused transaction of a batch from position `from` on.
pub open spec fn first_batch_fault(state: CheckerView, batch: Seq<Seq<Seq<char>>>, from: int) -> Option<
    BatchError,
>
    decreases batch.len() - from,
{
    if from < 0 || from >= batch.len() {
        None
    } else if transaction_fault(state, batch[from]) is Some {
        Some(BatchError { position: from as usize, cause: transaction_fault(state, batch[from])->Some_0 })
    } else {
        first_batch_fault(state, batch, from + 1)
    }
}

/// The features named in each transaction of a batch.
pub open spec fn batch_views(b: Seq<Vec<String>>) -> Seq<Seq<Seq<char>>> {
    b.map_values(|t: Vec<String>| t@.map_values(|s: String| s@))
}

impl CompatibilityChecker {
    /// The checker's state.
    pub closed spec fn state(&self) -> CheckerView {
        CheckerView {
            active: self.active_version,
            supported: self.supported_versions.map(),
            requirements: self.feature_requirements.map(),
            requirement_count: self.feature_requirements.entries().len(),
        }
    }

    /// One entry per version and per feature.
    pub closed spec fn wf(&self) -> bool {
        self.supported_versions.wf() && self.feature_requirements.wf()
    }

    /// A checker whose only version is the active one, with no feature.
    pub fn new(initial_version: ProtocolVersion) -> (r: Self)
        ensures
            r.wf(),
            r.state() == (CheckerView {
                active: initial_version,
                supported: Map::<ProtocolVersion, Set<Seq<char>>>::empty().insert(
                    initial_version,
                    Set::empty(),
                ),
                requirements: Map::empty(),
                requirement_count: 0,
            }),
    {
        let r = CompatibilityChecker {
            active_version: initial_version,
            supported_versions: VersionTable::single(initial_version, FeatureFlags::new()),
            feature_requirements: Requirements { entries: Vec::new() },
        };
        assert(r.feature_requirements.entries() =~= Seq::<(Seq<char>, ProtocolVersion)>::empty());
        assert(r.feature_requirements.map() =~= Map::<Seq<char>, ProtocolVersion>::empty());
        r
    }

    /// Make `version` the active version.
    pub fn update_active_version(&mut self, version: ProtocolVersion)
        requires
            old(self).wf(),
        ensures
            final(self).wf(),
            final(self).state() == (CheckerView { active: version, ..old(self).state() }),
    {
        self.active_version = version;
    }

    /// Support `version` with the given flags (replacing its flags when it
    /// is supported already).
    pub fn add_supported_version(&mut self, version: ProtocolVersion, flags: FeatureFlags)
        requires
            old(self).wf(),
        ensures
            final(self).wf(),
            final(self).state() == (CheckerView {
                supported: old(self).state().supported.insert(version, flags@),
                ..old(self).state()
            }),
    {
        self.supported_versions.insert(version, flags);
    }

    /// Stop supporting `version`: refused for the active version or a
    /// version that is not supported.
    pub fn remove_supported_version(&mut self, version: ProtocolVersion) -> (r: Result<(), Error>)
        requires
            old(self).wf(),
        ensures
            final(self).wf(),
            version == old(self).state().active ==> r == Err::<(), Error>(
                Error::CannotRemoveActiveVersion,
            ) && final(self).state() == old(self).state(),
            version != old(self).state().active && !old(self).state().supported.dom().contains(version)
                ==> r == Err::<(), Error>(Error::VersionNotSupported) && final(self).state() == old(
                self,
            ).state(),
            version != old(self).state().active && old(self).state().supported.dom().contains(version)
                ==> r is Ok && final(self).state() == (CheckerView {
                supported: old(self).state().supported.remove(version),
                ..old(self).state()
            }),
    {
        if version == self.active_version {
            return Err(Error::CannotRemoveActiveVersion);
        }
        if !self.supported_versions.remove(&version) {
            assert(old(self).supported_versions.map().remove(version) =~= old(self).supported_versions.map());
            return Err(Error::VersionNotSupported);
        }
        Ok(())
    }

    /// Require at least `min_version` for `feature` (replacing an earlier
    /// requirement).
    pub fn register_feature_requirement(&mut self, feature: String, min_version: ProtocolVersion)
        requires
            old(self).wf(),
        ensures
            final(self).wf(),
            final(self).state().active == old(self).state().active,
            final(self).state().supported == old(self).state().supported,
            final(self).state().requirements == old(self).state().requirements.insert(
                feature@,
                min_version,
            ),
    {
        self.feature_requirements.insert(feature, min_version);
    }

    /// Whether `version` is supported.
    pub fn is_version_supported(&self, version: &ProtocolVersion) -> (r: bool)
        requires
            self.wf(),
        ensures
            r == self.state().supported.dom().contains(*version),
    {
        self.supported_versions.find(version).is_some()
    }

    /// Whether `feature` is enabled in the active version.
    pub fn is_feature_enabled(&self, feature: &str) -> (r: bool)
        requires
            self.wf(),
        ensures
            r == enabled_in(self.state(), feature@, self.state().active),
    {
        self.is_feature_enabled_in_version(feature, &self.active_version)
    }

    /// Whether `feature` is enabled in `version`.
    pub fn is_feature_enabled_in_version(&self, feature: &str, version: &ProtocolVersion) -> (r: bool)
        requires
            self.wf(),
        ensures
            r == enabled_in(self.state(), feature@, *version),
    {
        match self.supported_versions.get(version) {
            Some(flags) => flags.is_enabled(feature),
            None => false,
        }
    }

    /// Check a transaction that needs `required_features` against the
    /// active version; see `transaction_fault`.
    pub fn validate_transaction_compatibility(
        &self,
        _transaction: &Transaction,
        required_features: &[String],
    ) -> (r: Result<(), Error>)
        requires
            self.wf(),
        ensures
            transaction_fault(self.state(), required_features@.map_values(|s: String| s@)) is None
                ==> r is Ok,
            transaction_fault(self.state(), required_features@.map_values(|s: String| s@)) matches Some(
                e,
            ) ==> r == Err::<(), Error>(e),
    {
        let ghost names = required_features@.map_values(|s: String| s@);
        let version = self.active_version;
        if !self.is_version_supported(&version) {
            return Err(Error::VersionNotSupported);
        }
        let mut i: usize = 0;
        while i < required_features.len()
            invariant
                self.wf(),
                version == self.state().active,
                self.state().supported.dom().contains(version),
                names == required_features@.map_values(|s: String| s@),
                i <= names.len(),
                first_feature_fault(self.state(), names, 0) == first_feature_fault(self.state(), names, i as int),
            decreases names.len() - i,
        {
            let feature = &required_features[i];
            if !self.is_feature_enabled(feature.as_str()) {
                return Err(Error::FeatureNotEnabled { index: i });
            }
            match self.feature_requirements.find(feature) {
                Some(k) => {
                    if version.less_than(&self.feature_requirements.entries[k].1) {
                        return Err(Error::FeatureVersionTooLow { index: i });
                    }
                },
                None => {},
            }
            i = i + 1;
        }
        Ok(())
    }

    /// Check a batch, each transaction with the features it needs
    /// (`required_features[i]` for `transactions[i]`); the first refused
    /// transaction is reported with its position and the reason.
    pub fn validate_batch_compatibility(
        &self,
        transactions: &[Transaction],
        required_features: &Vec<Vec<String>>,
    ) -> (r: Result<(), BatchError>)
        requires
            self.wf(),
            required_features@.len() == transactions@.len(),
        ensures
            first_batch_fault(self.state(), batch_views(required_features@), 0) is None ==> r is Ok,
            first_batch_fault(self.state(), batch_views(required_features@), 0) matches Some(e) ==> r
                == Err::<(), BatchError>(e),
    {
        let ghost b = batch_views(required_features@);
        let mut i: usize = 0;
        while i < transactions.len()
            invariant
                self.wf(),
                b == batch_views(required_features@),
                required_features@.len() == transactions@.len(),
                i <= b.len(),
                first_batch_fault(self.state(), b, 0) == first_batch_fault(self.state(), b, i as int),
            decreases b.len() - i,
        {
            let features = &required_features[i];
            proof {
                assert(b[i as int] == features@.map_values(|s: String| s@));
            }
            match self.validate_transaction_compatibility(&transactions[i], features.as_slice()) {
                Ok(()) => {},
                Err(e) => {
                    return Err(BatchError { position: i, cause: e });
                },
            }
            i = i + 1;
        }
        Ok(())
    }

    /// The checker's statistics.
    pub fn get_stats(&self) -> (r: CompatibilityStats)
        requires
            self.wf(),
        ensures
            r.active_version == self.state().active,
            r.supported_versions@.to_set() == self.state().supported.dom(),
            r.registered_features == self.state().requirement_count,
    {
        CompatibilityStats {
            active_version: self.active_version,
            supported_versions: self.supported_versions.versions(),
            registered_features: self.feature_requirements.entries.len(),
        }
    }
}

/// Statistics about a compatibility checker.
pub struct CompatibilityStats {
    /// Active protocol version
    pub active_version: ProtocolVersion,
    /// Supported protocol versions
    pub supported_versions: Vec<ProtocolVersion>,
    /// Number of registered feature requirements
    pub registered_features: usize,
}

/// The feature a command needs, if any.
pub open spec fn command_feature(c: Command) -> Option<Seq<char>> {
    match c {
        Command::Publish => Some("module_publishing"@),
        Command::Call => Some("smart_contracts"@),
        Command::MakeMoveVec => Some("move_vectors"@),
        Command::ShareObject => Some("shared_objects"@),
        Command::FreezeObject => Some("immutable_objects"@),
        _ => None,
    }
}

/// The features a chain of commands needs, in order, one per command that
/// needs one.
pub open spec fn command_features(cs: Seq<Command>) -> Seq<Seq<char>>
    decreases cs.len(),
{
    if cs.len() == 0 {
        Seq::empty()
    } else {
        match command_feature(cs.last()) {
            Some(f) => command_features(cs.drop_last()).push(f),
            None => command_features(cs.drop_last()),
        }
    }
}

/// The features a transaction needs.
pub open spec fn transaction_features(t: Transaction) -> Seq<Seq<char>> {
    match t.kind {
        TransactionKind::CompositeChain(cs) => command_features(cs@),
        TransactionKind::Genesis => seq!["genesis"@],
        TransactionKind::ConsensusCommit => seq!["consensus_commit"@],
    }
}

/// Feature extractor for transactions.
pub struct FeatureExtractor;

impl FeatureExtractor {
    /// The features a transaction needs.
    pub fn extract_features(transaction: &Transaction) -> (r: Vec<String>)
        ensures
            r@.map_values(|s: String| s@) == transaction_features(*transaction),
    {
        let mut features: Vec<String> = Vec::new();
        match &transaction.kind {
            TransactionKind::CompositeChain(commands) => {
                let mut i: usize = 0;
                while i < commands.len()
                    invariant
                        i <= commands@.len(),
                        features@.map_values(|s: String| s@) == command_features(commands@.take(i as int)),
                    decreases commands@.len() - i,
                {
                    proof {
                        assert(commands@.take(i + 1).drop_last() =~= commands@.take(i as int));
                    }
                    let ghost f0 = features@.map_values(|s: String| s@);
                    let name: Option<&str> = match commands[i] {
                        Command::Publish => Some("module_publishing"),
                        Command::Call => Some("smart_contracts"),
                        Command::MakeMoveVec => Some("move_vectors"),
                        Command::ShareObject => Some("shared_objects"),
                        Command::FreezeObject => Some("immutable_objects"),
                        _ => None,
                    };
                    match name {
                        Some(n) => {
                            features.push(n.to_owned());
                            assert(features@.map_values(|s: String| s@) =~= f0.push(n@));
                        },
                        None => {},
                    }
                    i = i + 1;
                }
                assert(commands@.take(i as int) =~= commands@);
            },
            TransactionKind::Genesis => {
                features.push("genesis".to_owned());
                assert(features@.map_values(|s: String| s@) =~= seq!["genesis"@]);
            },
            TransactionKind::ConsensusCommit => {
                features.push("consensus_commit".to_owned());
                assert(features@.map_values(|s: String| s@) =~= seq!["consensus_commit"@]);
            },
        }
        features
    }
}

/// A transaction is accepted exactly when the active version is supported
/// and every feature it needs is enabled there and not newer than it.
pub proof fn lemma_accepts_iff_all_features_ok(state: CheckerView, features: Seq<Seq<char>>)
    ensures
        transaction_fault(state, features) is None <==> (state.supported.dom().contains(state.active)
            && forall|i: int|
            0 <= i < features.len() ==> #[trigger] feature_fault(state, features[i], i as usize) is None),
{
    lemma_first_fault_none(state, features, 0);
}

/// No fault from `from` on exactly when every feature from `from` on is
/// accepted.
pub proof fn lemma_first_fault_none(state: CheckerView, features: Seq<Seq<char>>, from: int)
    requires
        0 <= from,
    ensures
        first_feature_fault(state, features, from) is None <==> forall|i: int|
            from <= i < features.len() ==> #[trigger] feature_fault(state, features[i], i as usize) is None,
    decreases features.len() - from,
{
    if from < features.len() {
        lemma_first_fault_none(state, features, from + 1);
    }
}

} // verus!
