//! Consensus-storage integration: the storage layer is initialized first,
//! then the consensus callbacks are connected to it, and the persistence
//! counters track what was written.
use vstd::prelude::*;
use vstd::string::StringExecFns;
use crate::text::{decimal, decimal_text};

verus! {

/// Integration status summary.
#[derive(Debug, Clone, Copy, PartialEq, Eq, Structural)]
pub struct IntegrationStatus {
    /// Whether the storage layer is initialized
    pub storage_initialized: bool,
    /// Whether the snapshot callback is connected
    pub snapshot_callback_connected: bool,
    /// Whether the finalization callback is connected
    pub finalization_callback_connected: bool,
    /// Whether the validator state callback is connected
    pub validator_state_callback_connected: bool,
    /// Whether the shutdown callback is connected
    pub shutdown_callback_connected: bool,
    /// Number of snapshots persisted
    pub snapshots_persisted: u64,
    /// Number of validator state updates persisted
    pub validator_updates_persisted: u64,
    /// Number of transactions persisted
    pub transactions_persisted: u64,
}

/// Storage is initialized and every callback is connected.
pub open spec fn fully_connected(s: IntegrationStatus) -> bool {
    s.storage_initialized && s.snapshot_callback_connected && s.finalization_callback_connected
        && s.validator_state_callback_connected && s.shutdown_callback_connected
}

impl IntegrationStatus {
    /// Whether every connection is established.
    pub fn all_connected(&self) -> (r: bool)
        ensures
            r == fully_connected(*self),
    {
        self.storage_initialized && self.snapshot_callback_connected
            && self.finalization_callback_connected && self.validator_state_callback_connected
            && self.shutdown_callback_connected
    }
}

/// The missing connections, in order, as they are reported.
pub open spec fn missing_connections(s: IntegrationStatus) -> Seq<Seq<char>> {
    let a = if !s.storage_initialized {
        seq!["Storage layer not initialized"@]
    } else {
        Seq::empty()
    };
    let b = if !s.snapshot_callback_connected {
        a.push("Snapshot creation callback not connected"@)
    } else {
        a
    };
    let c = if !s.finalization_callback_connected {
        b.push("Snapshot finalization callback not connected"@)
    } else {
        b
    };
    let d = if !s.validator_state_callback_connected {
        c.push("Validator state callback not connected"@)
    } else {
        c
    };
    if !s.shutdown_callback_connected {
        d.push("Shutdown callback not connected"@)
    } else {
        d
    }
}

/// The texts joined with ", ".
pub open spec fn joined(s: Seq<Seq<char>>) -> Seq<char>
    decreases s.len(),
{
    if s.len() == 0 {
        Seq::empty()
    } else if s.len() == 1 {
        s[0]
    } else {
        joined(s.drop_last()) + ", "@ + s.last()
    }
}

/// The text of a flag.
pub open spec fn flag_text(b: bool) -> Seq<char> {
    if b {
        "true"@
    } else {
        "false"@
    }
}

/// The one-line summary of a status.
pub open spec fn status_line(s: IntegrationStatus) -> Seq<char> {
    "Consensus-Storage Integration Status: storage_init="@ + flag_text(s.storage_initialized)
        + ", snapshot_cb="@ + flag_text(s.snapshot_callback_connected) + ", finalization_cb="@
        + flag_text(s.finalization_callback_connected) + ", validator_cb="@ + flag_text(
        s.validator_state_callback_connected,
    ) + ", shutdown_cb="@ + flag_text(s.shutdown_callback_connected) + ", snapshots_persisted="@
        + decimal_text(s.snapshots_persisted as nat) + ", validator_updates="@ + decimal_text(
        s.validator_updates_persisted as nat,
    ) + ", transactions_persisted="@ + decimal_text(s.transactions_persisted as nat)
}

fn flag_str(b: bool) -> (r: &'static str)
    ensures
        r@ == flag_text(b),
{
    if b {
        "true"
    } else {
        "false"
    }
}

/// Consensus-storage integration manager.
pub struct ConsensusStorageIntegration {
    storage_initialized: bool,
    snapshot_callback_connected: bool,
    finalization_callback_connected: bool,
    validator_state_callback_connected: bool,
    shutdown_callback_connected: bool,
    snapshots_persisted: u64,
    validator_updates_persisted: u64,
    transactions_persisted: u64,
}

/// The status with nothing connected and nothing persisted.
pub open spec fn initial_status() -> IntegrationStatus {
    IntegrationStatus {
        storage_initialized: false,
        snapshot_callback_connected: false,
        finalization_callback_connected: false,
        validator_state_callback_connected: false,
        shutdown_callback_connected: false,
        snapshots_persisted: 0,
        validator_updates_persisted: 0,
        transactions_persisted: 0,
    }
}

/// Which callback a registration connects: snapshot creation (0),
/// snapshot finalization (1), validator state (2) or shutdown (3).
pub open spec fn connected(s: IntegrationStatus, which: u8) -> IntegrationStatus {
    if which == 0 {
        IntegrationStatus { snapshot_callback_connected: true, ..s }
    } else if which == 1 {
        IntegrationStatus { finalization_callback_connected: true, ..s }
    } else if which == 2 {
        IntegrationStatus { validator_state_callback_connected: true, ..s }
    } else {
        IntegrationStatus { shutdown_callback_connected: true, ..s }
    }
}

impl ConsensusStorageIntegration {
    /// The integration's state.
    pub closed spec fn state(&self) -> IntegrationStatus {
        IntegrationStatus {
            storage_initialized: self.storage_initialized,
            snapshot_callback_connected: self.snapshot_callback_connected,
            finalization_callback_connected: self.finalization_callback_connected,
            validator_state_callback_connected: self.validator_state_callback_connected,
            shutdown_callback_connected: self.shutdown_callback_connected,
            snapshots_persisted: self.snapshots_persisted,
            validator_updates_persisted: self.validator_updates_persisted,
            transactions_persisted: self.transactions_persisted,
        }
    }

    /// A manager with nothing connected and nothing persisted.
    pub fn new() -> (r: Self)
        ensures
            r.state() == initial_status(),
    {
        ConsensusStorageIntegration {
            storage_initialized: false,
            snapshot_callback_connected: false,
            finalization_callback_connected: false,
            validator_state_callback_connected: false,
            shutdown_callback_connected: false,
            snapshots_persisted: 0,
            validator_updates_persisted: 0,
            transactions_persisted: 0,
        }
    }

    /// Initialize the storage layer.
    pub fn initialize_storage(&mut self) -> (r: Result<(), String>)
        ensures
            r is Ok,
            final(self).state() == (IntegrationStatus { storage_initialized: true, ..old(self).state() }),
    {
        self.storage_initialized = true;
        Ok(())
    }

    /// Connect one callback (see `connected`); refused before the storage
    /// layer is initialized.
    fn register(&mut self, which: u8) -> (r: Result<(), String>)
        ensures
            !old(self).state().storage_initialized ==> r is Err && r->Err_0@
                == "Storage layer not initialized"@ && final(self).state() == old(self).state(),
            old(self).state().storage_initialized ==> r is Ok && final(self).state() == connected(
                old(self).state(),
                which,
            ),
    {
        if !self.storage_initialized {
            return Err("Storage layer not initialized".to_owned());
        }
        if which == 0 {
            self.snapshot_callback_connected = true;
        } else if which == 1 {
            self.finalization_callback_connected = true;
        } else if which == 2 {
            self.validator_state_callback_connected = true;
        } else {
            self.shutdown_callback_connected = true;
        }
        Ok(())
    }

    /// Connect the snapshot creation callback.
    pub fn register_snapshot_creation_callback(&mut self) -> (r: Result<(), String>)
        ensures
            !old(self).state().storage_initialized ==> r is Err && r->Err_0@
                == "Storage layer not initialized"@ && final(self).state() == old(self).state(),
            old(self).state().storage_initialized ==> r is Ok && final(self).state() == connected(
                old(self).state(),
                0,
            ),
    {
        self.register(0)
    }

    /// Connect the snapshot finalization callback.
    pub fn register_snapshot_finalization_callback(&mut self) -> (r: Result<(), String>)
        ensures
            !old(self).state().storage_initialized ==> r is Err && r->Err_0@
                == "Storage layer not initialized"@ && final(self).state() == old(self).state(),
            old(self).state().storage_initialized ==> r is Ok && final(self).state() == connected(
                old(self).state(),
                1,
            ),
    {
        self.register(1)
    }

    /// Connect the validator state callback.
    pub fn register_validator_state_callback(&mut self) -> (r: Result<(), String>)
        ensures
            !old(self).state().storage_initialized ==> r is Err && r->Err_0@
                == "Storage layer not initialized"@ && final(self).state() == old(self).state(),
            old(self).state().storage_initialized ==> r is Ok && final(self).state() == connected(
                old(self).state(),
                2,
            ),
    {
        self.register(2)
    }

    /// Connect the shutdown callback.
    pub fn register_shutdown_callback(&mut self) -> (r: Result<(), String>)
        ensures
            !old(self).state().storage_initialized ==> r is Err && r->Err_0@
                == "Storage layer not initialized"@ && final(self).state() == old(self).state(),
            old(self).state().storage_initialized ==> r is Ok && final(self).state() == connected(
                old(self).state(),
                3,
            ),
    {
        self.register(3)
    }

    /// Check every connection: refused with the list of the missing ones.
    pub fn verify_all_connections(&self) -> (r: Result<(), String>)
        ensures
            fully_connected(self.state()) ==> r is Ok,
            !fully_connected(self.state()) ==> r is Err && r->Err_0@ == "Connection verification failed: "@
                + joined(missing_connections(self.state())),
    {
        let mut errors: Vec<&str> = Vec::new();
        if !self.storage_initialized {
            errors.push("Storage layer not initialized");
        }
        if !self.snapshot_callback_connected {
            errors.push("Snapshot creation callback not connected");
        }
        if !self.finalization_callback_connected {
            errors.push("Snapshot finalization callback not connected");
        }
        if !self.validator_state_callback_connected {
            errors.push("Validator state callback not connected");
        }
        if !self.shutdown_callback_connected {
            errors.push("Shutdown callback not connected");
        }
        let ghost texts = errors@.map_values(|e: &str| e@);
        proof {
            assert(texts =~= missing_connections(self.state()));
        }
        if errors.len() == 0 {
            return Ok(());
        }
        let mut msg = "Connection verification failed: ".to_owned();
        let mut i: usize = 0;
        while i < errors.len()
            invariant
                i <= errors@.len(),
                texts == errors@.map_values(|e: &str| e@),
                msg@ == "Connection verification failed: "@ + joined(texts.take(i as int)),
            decreases errors@.len() - i,
        {
            proof {
                assert(texts.take(i + 1).drop_last() =~= texts.take(i as int));
                assert(texts.take(i + 1).last() == errors@[i as int]@);
            }
            if i > 0 {
                msg.append(", ");
            }
            msg.append(errors[i]);
            proof {
                if i == 0 {
                    assert(joined(texts.take(1)) == texts.take(1)[0]);
                    assert(texts.take(0) =~= Seq::<Seq<char>>::empty());
                }
            }
            i = i + 1;
        }
        assert(texts.take(i as int) =~= texts);
        Err(msg)
    }

    /// Count one persisted snapshot.
    pub fn record_snapshot_persisted(&mut self)
        ensures
            final(self).state() == (IntegrationStatus {
                snapshots_persisted: vstd::wrapping::u64_specs::wrapping_add(
                    old(self).state().snapshots_persisted,
                    1,
                ),
                ..old(self).state()
            }),
    {
        self.snapshots_persisted = self.snapshots_persisted.wrapping_add(1);
    }

    /// Count one persisted validator state update.
    pub fn record_validator_update_persisted(&mut self)
        ensures
            final(self).state() == (IntegrationStatus {
                validator_updates_persisted: vstd::wrapping::u64_specs::wrapping_add(
                    old(self).state().validator_updates_persisted,
                    1,
                ),
                ..old(self).state()
            }),
    {
        self.validator_updates_persisted = self.validator_updates_persisted.wrapping_add(1);
    }

    /// Count `count` persisted transactions.
    pub fn record_transactions_persisted(&mut self, count: u64)
        ensures
            final(self).state() == (IntegrationStatus {
                transactions_persisted: vstd::wrapping::u64_specs::wrapping_add(
                    old(self).state().transactions_persisted,
                    count,
                ),
                ..old(self).state()
            }),
    {
        self.transactions_persisted = self.transactions_persisted.wrapping_add(count);
    }

    /// Snapshots persisted.
    pub fn snapshots_persisted(&self) -> (r: u64)
        ensures
            r == self.state().snapshots_persisted,
    {
        self.snapshots_persisted
    }

    /// Validator state updates persisted.
    pub fn validator_updates_persisted(&self) -> (r: u64)
        ensures
            r == self.state().validator_updates_persisted,
    {
        self.validator_updates_persisted
    }

    /// Transactions persisted.
    pub fn transactions_persisted(&self) -> (r: u64)
        ensures
            r == self.state().transactions_persisted,
    {
        self.transactions_persisted
    }

    /// The integration status.
    pub fn get_status(&self) -> (r: IntegrationStatus)
        ensures
            r == self.state(),
    {
        IntegrationStatus {
            storage_initialized: self.storage_initialized,
            snapshot_callback_connected: self.snapshot_callback_connected,
            finalization_callback_connected: self.finalization_callback_connected,
            validator_state_callback_connected: self.validator_state_callback_connected,
            shutdown_callback_connected: self.shutdown_callback_connected,
            snapshots_persisted: self.snapshots_persisted,
            validator_updates_persisted: self.validator_updates_persisted,
            transactions_persisted: self.transactions_persisted,
        }
    }

    /// The status line that is logged.
    pub fn log_status(&self) -> (r: String)
        ensures
            r@ == status_line(self.state()),
    {
        let mut s = "Consensus-Storage Integration Status: storage_init=".to_owned();
        s.append(flag_str(self.storage_initialized));
        s.append(", snapshot_cb=");
        s.append(flag_str(self.snapshot_callback_connected));
        s.append(", finalization_cb=");
        s.append(flag_str(self.finalization_callback_connected));
        s.append(", validator_cb=");
        s.append(flag_str(self.validator_state_callback_connected));
        s.append(", shutdown_cb=");
        s.append(flag_str(self.shutdown_callback_connected));
        s.append(", snapshots_persisted=");
        s.append(decimal(self.snapshots_persisted).as_str());
        s.append(", validator_updates=");
        s.append(decimal(self.validator_updates_persisted).as_str());
        s.append(", transactions_persisted=");
        s.append(decimal(self.transactions_persisted).as_str());
        s
    }
}

impl Default for ConsensusStorageIntegration {
    fn default() -> (r: Self)
        ensures
            r.state() == initial_status(),
    {
        Self::new()
    }
}

/// Once storage is initialized and the four callbacks are registered, in
/// any order, every connection is established and the check passes.
pub proof fn lemma_full_setup_connects(s: IntegrationStatus, order: Seq<u8>)
    requires
        s.storage_initialized,
        order.to_set() =~= set![0u8, 1u8, 2u8, 3u8],
    ensures
        fully_connected(connect_all(s, order)),
        missing_connections(connect_all(s, order)).len() == 0,
    decreases order.len(),
{
    lemma_connect_all_keeps(s, order);
    assert forall|w: u8| #[trigger] order.contains(w) implies is_connected(connect_all(s, order), w) by {
        lemma_connect_all_connects(s, order, w);
    }
    assert(order.contains(0u8) && order.contains(1u8) && order.contains(2u8) && order.contains(3u8)) by {
        assert(order.to_set().contains(0u8));
        assert(order.to_set().contains(1u8));
        assert(order.to_set().contains(2u8));
        assert(order.to_set().contains(3u8));
    }
}

/// Whether callback `which` is connected in `s`.
pub open spec fn is_connected(s: IntegrationStatus, which: u8) -> bool {
    if which == 0 {
        s.snapshot_callback_connected
    } else if which == 1 {
        s.finalization_callback_connected
    } else if which == 2 {
        s.validator_state_callback_connected
    } else {
        s.shutdown_callback_connected
    }
}

/// The status after registering the callbacks in `order`, storage being
/// initialized.
pub open spec fn connect_all(s: IntegrationStatus, order: Seq<u8>) -> IntegrationStatus
    decreases order.len(),
{
    if order.len() == 0 {
        s
    } else {
        connected(connect_all(s, order.drop_last()), order.last())
    }
}

/// Registering keeps storage initialized and keeps what was connected.
pub proof fn lemma_connect_all_keeps(s: IntegrationStatus, order: Seq<u8>)
    ensures
        connect_all(s, order).storage_initialized == s.storage_initialized,
        forall|w: u8| is_connected(s, w) ==> #[trigger] is_connected(connect_all(s, order), w),
    decreases order.len(),
{
    if order.len() > 0 {
        lemma_connect_all_keeps(s, order.drop_last());
        assert forall|w: u8| is_connected(s, w) implies #[trigger] is_connected(connect_all(s, order), w) by {
            assert(is_connected(connect_all(s, order.drop_last()), w));
        }
    }
}

/// A callback in `order` ends up connected.
pub proof fn lemma_connect_all_connects(s: IntegrationStatus, order: Seq<u8>, w: u8)
    requires
        order.contains(w),
    ensures
        is_connected(connect_all(s, order), w),
    decreases order.len(),
{
    if order.last() == w {
    } else {
        let k = choose|k: int| 0 <= k < order.len() && order[k] == w;
        assert(order.drop_last()[k] == w);
        lemma_connect_all_connects(s, order.drop_last(), w);
        let prev = connect_all(s, order.drop_last());
        assert(is_connected(prev, w));
    }
}

} // verus!
