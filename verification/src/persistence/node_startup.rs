//! Node startup with persistence: the database path is checked, the
//! genesis block's hash is derived, the persisted state is recovered and
//! checked for consistency, and the startup is summed up.
use vstd::prelude::*;
use vstd::string::StringSliceAdditionalSpecFns;
use vstd::string::StringExecFns;
use crate::clock::unix_time_millis;
use crate::persistence::logging::{
    LogEvent, LogEventView, LogLevel, OperationStatus, OperationType, PersistenceLogger, entry_at, entry_event,
    event_view, event_views, number_field, operation_type_text, text_field, wide_field,
};
use crate::text::{decimal, decimal_text};
use crate::text::{digit_char, parse_u64, parsed_u64, reads_true, is_true_word};

verus! {

/// Startup configuration.
#[derive(Debug)]
pub struct StartupConfig {
    /// Path to the database directory
    pub database_path: String,
    /// Path to the genesis configuration file
    pub genesis_config_path: Option<String>,
    /// Whether to verify database integrity on startup
    pub verify_integrity: bool,
    /// Whether to verify consistency of recovered state
    pub verify_consistency: bool,
    /// Maximum time to wait for startup in seconds
    pub startup_timeout_secs: u64,
}

impl Default for StartupConfig {
    fn default() -> (r: Self)
        ensures
            r.database_path@ == "./data/blockchain"@,
            r.genesis_config_path is None,
            r.verify_integrity,
            r.verify_consistency,
            r.startup_timeout_secs == 300,
    {
        StartupConfig {
            database_path: "./data/blockchain".to_owned(),
            genesis_config_path: None,
            verify_integrity: true,
            verify_consistency: true,
            startup_timeout_secs: 300,
        }
    }
}

/// Startup result with the recovered state's summary.
#[derive(Debug)]
pub struct StartupResult {
    /// Whether startup was successful
    pub success: bool,
    /// Genesis block hash (if loaded or created)
    pub genesis_block_hash: Option<String>,
    /// Latest snapshot sequence number (if recovered)
    pub latest_snapshot_sequence: Option<u64>,
    /// Latest block number (if recovered)
    pub latest_block_number: Option<u64>,
    /// Number of validators recovered
    pub validator_count: u64,
    /// Total stake of all validators
    pub total_stake: u128,
    /// Number of snapshots recovered
    pub snapshots_recovered: u64,
    /// Number of transactions recovered
    pub transactions_recovered: u64,
    /// Whether consistency verification passed
    pub consistency_verified: bool,
    /// Error message (if startup failed)
    pub error_message: Option<String>,
    /// Startup duration in milliseconds
    pub startup_duration_ms: u64,
}

/// The abstract content of a startup result.
pub struct StartupResultView {
    pub success: bool,
    pub genesis_block_hash: Option<Seq<char>>,
    pub latest_snapshot_sequence: Option<u64>,
    pub latest_block_number: Option<u64>,
    pub validator_count: u64,
    pub total_stake: u128,
    pub snapshots_recovered: u64,
    pub transactions_recovered: u64,
    pub consistency_verified: bool,
    pub error_message: Option<Seq<char>>,
    pub startup_duration_ms: u64,
}

/// A copy of an optional text.
fn copy_text(s: &Option<String>) -> (r: Option<String>)
    ensures
        setting_text(r) == setting_text(*s),
{
    match s {
        Some(t) => Some(t.clone()),
        None => None,
    }
}

impl Clone for StartupConfig {
    fn clone(&self) -> (r: Self)
        ensures
            r.database_path@ == self.database_path@,
            setting_text(r.genesis_config_path) == setting_text(self.genesis_config_path),
            r.verify_integrity == self.verify_integrity,
            r.verify_consistency == self.verify_consistency,
            r.startup_timeout_secs == self.startup_timeout_secs,
    {
        StartupConfig {
            database_path: self.database_path.clone(),
            genesis_config_path: copy_text(&self.genesis_config_path),
            verify_integrity: self.verify_integrity,
            verify_consistency: self.verify_consistency,
            startup_timeout_secs: self.startup_timeout_secs,
        }
    }
}

impl Clone for StartupResult {
    fn clone(&self) -> (r: Self)
        ensures
            r@ == self@,
    {
        StartupResult {
            success: self.success,
            genesis_block_hash: copy_text(&self.genesis_block_hash),
            latest_snapshot_sequence: self.latest_snapshot_sequence,
            latest_block_number: self.latest_block_number,
            validator_count: self.validator_count,
            total_stake: self.total_stake,
            snapshots_recovered: self.snapshots_recovered,
            transactions_recovered: self.transactions_recovered,
            consistency_verified: self.consistency_verified,
            error_message: copy_text(&self.error_message),
            startup_duration_ms: self.startup_duration_ms,
        }
    }
}

impl View for StartupResult {
    type V = StartupResultView;

    open spec fn view(&self) -> StartupResultView {
        StartupResultView {
            success: self.success,
            genesis_block_hash: match self.genesis_block_hash {
                Some(h) => Some(h@),
                None => None,
            },
            latest_snapshot_sequence: self.latest_snapshot_sequence,
            latest_block_number: self.latest_block_number,
            validator_count: self.validator_count,
            total_stake: self.total_stake,
            snapshots_recovered: self.snapshots_recovered,
            transactions_recovered: self.transactions_recovered,
            consistency_verified: self.consistency_verified,
            error_message: match self.error_message {
                Some(e) => Some(e@),
                None => None,
            },
            startup_duration_ms: self.startup_duration_ms,
        }
    }
}

/// A result with nothing recovered and nothing achieved.
pub open spec fn empty_result() -> StartupResultView {
    StartupResultView {
        success: false,
        genesis_block_hash: None,
        latest_snapshot_sequence: None,
        latest_block_number: None,
        validator_count: 0,
        total_stake: 0,
        snapshots_recovered: 0,
        transactions_recovered: 0,
        consistency_verified: false,
        error_message: None,
        startup_duration_ms: 0,
    }
}

impl Default for StartupResult {
    fn default() -> (r: Self)
        ensures
            r@ == empty_result(),
    {
        StartupResult {
            success: false,
            genesis_block_hash: None,
            latest_snapshot_sequence: None,
            latest_block_number: None,
            validator_count: 0,
            total_stake: 0,
            snapshots_recovered: 0,
            transactions_recovered: 0,
            consistency_verified: false,
            error_message: None,
            startup_duration_ms: 0,
        }
    }
}

/// What BLAKE3 hashes `input` to (32 bytes).
pub uninterp spec fn blake3_digest(input: Seq<u8>) -> Seq<u8>;

/// Hashes with `blake3::hash` and takes the hash's bytes (`as_bytes`,
/// `OUT_LEN` = 32 of them). The contract claims that the bytes are
/// `blake3_digest` of the input and that there are 32.
#[verifier::external_body]
fn blake3_hash(input: &[u8]) -> (r: Vec<u8>)
    ensures
        r@ == blake3_digest(input@),
        r@.len() == 32,
{
    blake3::hash(input).as_bytes().to_vec()
}

/// The lowercase hexadecimal digit of `n` (below 16).
pub open spec fn hex_digit(n: nat) -> char {
    if n < 10 {
        digit_char(n)
    } else if n == 10 {
        'a'
    } else if n == 11 {
        'b'
    } else if n == 12 {
        'c'
    } else if n == 13 {
        'd'
    } else if n == 14 {
        'e'
    } else {
        'f'
    }
}

/// Two lowercase hexadecimal digits per byte, the high one first.
pub open spec fn lower_hex(b: Seq<u8>) -> Seq<char>
    decreases b.len(),
{
    if b.len() == 0 {
        Seq::empty()
    } else {
        lower_hex(b.drop_last()) + seq![hex_digit((b.last() / 16) as nat), hex_digit((b.last() % 16) as nat)]
    }
}

/// Encodes bytes with `hex::encode`, which the hex crate documents as two
/// lowercase hexadecimal digits per byte (its `HEX_CHARS_LOWER` table, high
/// nibble first); the contract claims exactly that.
#[verifier::external_body]
fn hex_encode(data: &[u8]) -> (r: String)
    ensures
        r@ == lower_hex(data@),
{
    hex::encode(data)
}

/// The text from which the genesis block's hash is derived.
pub open spec fn genesis_seed() -> Seq<u8> {
    "SilverBitcoin Genesis Block".spec_bytes()
}

/// The genesis block's hash: the lowercase hex of the BLAKE3 hash of the
/// genesis seed.
pub open spec fn genesis_hash_text() -> Seq<char> {
    lower_hex(blake3_digest(genesis_seed()))
}

/// The recovered state passes the consistency checks: the latest snapshot's
/// sequence number is the count of recovered snapshots (they are numbered
/// from 1), validators have stake,
/// blocks come with snapshots, and the genesis block is known.
pub open spec fn consistent(r: StartupResultView) -> bool {
    &&& !(r.snapshots_recovered > 0 && r.latest_snapshot_sequence is Some
        && r.latest_snapshot_sequence->Some_0 != r.snapshots_recovered)
    &&& !(r.validator_count > 0 && r.total_stake == 0)
    &&& !(r.latest_block_number is Some && r.latest_block_number->Some_0 > 0
        && r.snapshots_recovered == 0)
    &&& r.genesis_block_hash is Some
}

/// The outcome of a successful startup that took `duration` milliseconds:
/// the genesis block is known, block 0 is the latest, nothing else was
/// recovered, and consistency is verified when the configuration asks for
/// it.
pub open spec fn started(verify_consistency: bool, duration: u64) -> StartupResultView {
    StartupResultView {
        success: true,
        genesis_block_hash: Some(genesis_hash_text()),
        latest_snapshot_sequence: None,
        latest_block_number: Some(0),
        validator_count: 0,
        total_stake: 0,
        snapshots_recovered: 0,
        transactions_recovered: 0,
        consistency_verified: verify_consistency,
        error_message: None,
        startup_duration_ms: duration,
    }
}

/// The state recovered from the database before it is checked: the
/// genesis block and block 0, nothing else.
pub open spec fn recovered_result() -> StartupResultView {
    StartupResultView {
        genesis_block_hash: Some(genesis_hash_text()),
        latest_block_number: Some(0),
        ..empty_result()
    }
}

/// The problems the consistency check finds, in the order it looks for
/// them.
pub open spec fn consistency_issues(r: StartupResultView) -> Seq<Seq<char>> {
    let gap: Seq<Seq<char>> = if r.snapshots_recovered > 0 && r.latest_snapshot_sequence is Some
        && r.latest_snapshot_sequence->Some_0 != r.snapshots_recovered {
        seq![
            "Snapshot sequence gap: expected "@ + decimal_text(r.snapshots_recovered as nat) + ", got "@
                + decimal_text(r.latest_snapshot_sequence->Some_0 as nat),
        ]
    } else {
        Seq::empty()
    };
    let stake: Seq<Seq<char>> = if r.validator_count > 0 && r.total_stake == 0 {
        seq!["Validators exist but total stake is zero"@]
    } else {
        Seq::empty()
    };
    let blocks: Seq<Seq<char>> = if r.latest_block_number is Some && r.latest_block_number->Some_0 > 0
        && r.snapshots_recovered == 0 {
        seq!["Blocks exist but no snapshots recovered"@]
    } else {
        Seq::empty()
    };
    let genesis: Seq<Seq<char>> = if r.genesis_block_hash is None {
        seq!["Genesis block not found"@]
    } else {
        Seq::empty()
    };
    gap + stake + blocks + genesis
}

/// Texts joined with `sep` between them.
pub open spec fn joined(s: Seq<Seq<char>>, sep: Seq<char>) -> Seq<char>
    decreases s.len(),
{
    if s.len() == 0 {
        Seq::empty()
    } else if s.len() == 1 {
        s[0]
    } else {
        joined(s.drop_last(), sep) + sep + s.last()
    }
}

/// What the consistency check reports: that all checks passed, or the
/// issues it found.
pub open spec fn consistency_details(r: StartupResultView) -> Seq<char> {
    if consistency_issues(r).len() == 0 {
        "all checks passed"@
    } else {
        "consistency issues: "@ + joined(consistency_issues(r), "; "@)
    }
}

/// The events of a consistency check of `r`: its start and its result.
pub open spec fn consistency_events(r: StartupResultView) -> Seq<LogEventView> {
    seq![
        event_view(LogLevel::Info, "Consistency check started"@, seq![text_field("check_type"@, "recovered_state"@)]),
        event_view(
            if consistent(r) { LogLevel::Info } else { LogLevel::Error },
            if consistent(r) { "Consistency check passed"@ } else { "Consistency check failed"@ },
            seq![text_field("check_type"@, "recovered_state"@), text_field("details"@, consistency_details(r))],
        ),
    ]
}

/// The start of a recovery of the complete state.
pub open spec fn recovery_start_event() -> LogEventView {
    event_view(LogLevel::Info, "Recovery operation started"@, seq![text_field("recovery_type"@, "complete_state"@)])
}

/// The completion of a recovery of the complete state with `n` snapshots.
pub open spec fn recovery_completion_event(n: u64) -> LogEventView {
    event_view(
        LogLevel::Info,
        "Recovery operation completed"@,
        seq![
            text_field("recovery_type"@, "complete_state"@),
            number_field("items_recovered"@, n),
            number_field("duration_ms"@, 100),
        ],
    )
}

/// The events of a recovery from a database whose opening gave `opened`:
/// its start, and its completion when the database opened.
pub open spec fn recovery_events(opened: Result<(), String>) -> Seq<LogEventView> {
    match opened {
        Ok(_) => seq![recovery_start_event(), recovery_completion_event(0)],
        Err(_) => seq![recovery_start_event()],
    }
}

/// The context of the startup's log entry.
pub open spec fn startup_context(path: Seq<char>) -> Seq<char> {
    "database_path="@ + path
}

/// The start of a node startup at `millis`: the event, then the entry.
pub open spec fn startup_start_events(path: Seq<char>, millis: i64) -> Seq<LogEventView> {
    seq![
        event_view(
            LogLevel::Info,
            "Persistence operation started"@,
            seq![
                text_field("operation"@, operation_type_text(OperationType::NodeStartup)),
                number_field("data_size"@, 0),
                text_field("context"@, startup_context(path)),
            ],
        ),
        entry_event(entry_at(OperationType::NodeStartup, OperationStatus::Started, 0, millis, None, startup_context(path), None)),
    ]
}

/// The summary event of a startup that recovered `r`.
pub open spec fn startup_info_event(r: StartupResultView) -> LogEventView {
    event_view(
        LogLevel::Info,
        "Node startup information"@,
        seq![
            text_field("genesis_block_hash"@, match r.genesis_block_hash {
                Some(h) => h,
                None => "unknown"@,
            }),
            number_field("latest_snapshot_sequence"@, match r.latest_snapshot_sequence {
                Some(n) => n,
                None => 0,
            }),
            number_field("latest_block_number"@, match r.latest_block_number {
                Some(n) => n,
                None => 0,
            }),
            number_field("validator_count"@, r.validator_count),
            wide_field("total_stake"@, r.total_stake),
        ],
    )
}

/// The view of a startup's outcome.
pub open spec fn startup_result_view(r: Result<StartupResult, String>) -> Result<StartupResultView, Seq<char>> {
    match r {
        Ok(s) => Ok(s@),
        Err(e) => Err(e@),
    }
}

/// A startup at `millis` that took `d` milliseconds, with the database at
/// `path` opening as `genesis_db` to load the genesis block and as
/// `recovery_db` to recover the state: its outcome and the events it logs.
/// An empty path is refused; a database that does not open stops the
/// startup with the reason; otherwise the genesis block is loaded, the
/// state recovered, checked when `verify` asks for it, and summed up.
pub open spec fn startup_run(
    path: Seq<char>,
    verify: bool,
    genesis_db: Result<(), String>,
    recovery_db: Result<(), String>,
    millis: i64,
    d: u64,
) -> (Result<StartupResultView, Seq<char>>, Seq<LogEventView>) {
    let start = startup_start_events(path, millis);
    if path.len() == 0 {
        (
            Err("Database path cannot be empty"@),
            start.push(
                event_view(
                    LogLevel::Error,
                    "Database initialization failed"@,
                    seq![text_field("database_path"@, path), text_field("error"@, "Database path cannot be empty"@)],
                ),
            ),
        )
    } else {
        let initialized = start.push(
            event_view(
                LogLevel::Info,
                "Database initialized successfully"@,
                seq![text_field("database_path"@, path), number_field("column_families"@, 7)],
            ),
        );
        match genesis_db {
            Err(e) => (Err("Failed to open database: "@ + e@), initialized),
            Ok(_) => match recovery_db {
                Err(e) => (Err("Failed to open database for recovery: "@ + e@), initialized + recovery_events(recovery_db)),
                Ok(_) => {
                    let recovered = initialized + recovery_events(recovery_db);
                    let checked = if verify {
                        recovered + consistency_events(recovered_result())
                    } else {
                        recovered
                    };
                    (Ok(started(verify, d)), checked.push(startup_info_event(recovered_result())))
                },
            },
        }
    }
}

/// The column families a healthy database has, in the order they are
/// checked.
pub open spec fn column_family_names() -> Seq<Seq<char>> {
    seq![
        "CF_BLOCKS"@,
        "CF_SNAPSHOTS"@,
        "CF_TRANSACTIONS"@,
        "CF_OBJECTS"@,
        "CF_VALIDATORS"@,
        "CF_METADATA"@,
        "CF_INDEXES"@,
    ]
}

/// The name of the column family at position `i`.
fn column_family_name(i: usize) -> (r: &'static str)
    requires
        i < 7,
    ensures
        r@ == column_family_names()[i as int],
{
    if i == 0 {
        "CF_BLOCKS"
    } else if i == 1 {
        "CF_SNAPSHOTS"
    } else if i == 2 {
        "CF_TRANSACTIONS"
    } else if i == 3 {
        "CF_OBJECTS"
    } else if i == 4 {
        "CF_VALIDATORS"
    } else if i == 5 {
        "CF_METADATA"
    } else {
        "CF_INDEXES"
    }
}

/// The checks of a database's integrity, in the order they are made.
#[derive(Debug, Clone, Copy, PartialEq, Eq, Structural)]
pub enum IntegrityCheck {
    /// Open the database
    Open,
    /// Check that the column family at this position of
    /// `column_family_names` is accessible
    ColumnFamily(usize),
    /// Look for corruption markers
    CorruptionMarkers,
    /// Check that keys and values are consistent
    KeyValueConsistency,
    /// Check that the database can be read and written
    ReadWriteAccess,
}

/// The check after `c`, if any.
pub open spec fn next_check(c: IntegrityCheck) -> Option<IntegrityCheck> {
    match c {
        IntegrityCheck::Open => Some(IntegrityCheck::ColumnFamily(0)),
        IntegrityCheck::ColumnFamily(i) => if i + 1 < column_family_names().len() {
            Some(IntegrityCheck::ColumnFamily((i + 1) as usize))
        } else {
            Some(IntegrityCheck::CorruptionMarkers)
        },
        IntegrityCheck::CorruptionMarkers => Some(IntegrityCheck::KeyValueConsistency),
        IntegrityCheck::KeyValueConsistency => Some(IntegrityCheck::ReadWriteAccess),
        IntegrityCheck::ReadWriteAccess => None,
    }
}

/// A check that names something that exists.
pub open spec fn check_ok(c: IntegrityCheck) -> bool {
    match c {
        IntegrityCheck::ColumnFamily(i) => i < column_family_names().len(),
        _ => true,
    }
}

/// The error that ends verification when check `c` fails with `e`.
pub open spec fn check_failure_text(c: IntegrityCheck, e: Seq<char>) -> Seq<char> {
    match c {
        IntegrityCheck::Open => "Failed to open database: "@ + e,
        IntegrityCheck::ColumnFamily(i) => "Failed to verify column family "@ + column_family_names()[i as int]
            + ": "@ + e,
        IntegrityCheck::CorruptionMarkers => "Failed to check corruption markers: "@ + e,
        IntegrityCheck::KeyValueConsistency => "Failed to verify key-value consistency: "@ + e,
        IntegrityCheck::ReadWriteAccess => "Failed to verify read/write access: "@ + e,
    }
}

/// Node startup manager.
pub struct NodeStartupManager;

impl NodeStartupManager {
    /// Start the node: check the database path, load the genesis block,
    /// recover the persisted state, check its consistency when asked, and
    /// time the whole; the log events it makes are appended to `events`.
    /// The database at the path opened as `genesis_db` to load the genesis
    /// block and as `recovery_db` to recover the state; see `startup_run`.
    pub fn initialize_node(
        config: StartupConfig,
        genesis_db: Result<(), String>,
        recovery_db: Result<(), String>,
        events: &mut Vec<LogEvent>,
    ) -> (r: Result<StartupResult, String>)
        ensures
            config.database_path@.len() == 0 ==> r is Err && r->Err_0@ == "Database path cannot be empty"@,
            config.database_path@.len() > 0 && genesis_db is Ok && recovery_db is Ok ==> r is Ok,
            exists|millis: i64, d: u64|
                {
                    let run = #[trigger] startup_run(
                        config.database_path@,
                        config.verify_consistency,
                        genesis_db,
                        recovery_db,
                        millis,
                        d,
                    );
                    &&& startup_result_view(r) == run.0
                    &&& event_views(final(events)@) == event_views(old(events)@) + run.1
                },
    {
        let ghost before = event_views(events@);
        let start = unix_time_millis();
        let mut result = StartupResult::default();
        let mut context = "database_path=".to_owned();
        context.append(config.database_path.as_str());
        let mut first = PersistenceLogger::log_operation_start(OperationType::NodeStartup, 0, context.as_str());
        let ghost millis = choose|millis: i64|
            first@[1]@ == #[trigger] entry_event(
                entry_at(OperationType::NodeStartup, OperationStatus::Started, 0, millis, None, context@, None),
            );
        assert(event_views(first@) =~= startup_start_events(config.database_path@, millis));
        events.append(&mut first);
        let ghost e0 = event_views(events@);
        assert(e0 =~= before + startup_start_events(config.database_path@, millis));
        match Self::initialize_database(&config) {
            Ok(()) => {
                events.push(PersistenceLogger::log_database_initialized(config.database_path.as_str(), 7));
            },
            Err(e) => {
                events.push(
                    PersistenceLogger::log_database_initialization_failure(config.database_path.as_str(), e.as_str()),
                );
                proof {
                    assert(event_views(events@) =~= before + startup_run(
                        config.database_path@,
                        config.verify_consistency,
                        genesis_db,
                        recovery_db,
                        millis,
                        0,
                    ).1);
                    assert(startup_result_view(Err::<StartupResult, String>(e)) == startup_run(
                        config.database_path@,
                        config.verify_consistency,
                        genesis_db,
                        recovery_db,
                        millis,
                        0,
                    ).0);
                }
                return Err(e);
            },
        }
        let ghost e1 = event_views(events@);
        match Self::load_or_create_genesis_block(&config, genesis_db) {
            Ok((hash, number)) => {
                result.genesis_block_hash = Some(hash);
                result.latest_block_number = Some(number);
            },
            Err(e) => {
                proof {
                    assert(event_views(events@) =~= before + startup_run(
                        config.database_path@,
                        config.verify_consistency,
                        genesis_db,
                        recovery_db,
                        millis,
                        0,
                    ).1);
                }
                return Err(e);
            },
        }
        let ghost rv = recovery_db;
        match Self::recover_state(&config, recovery_db, events) {
            Ok((snapshots, validators, transactions, stake)) => {
                result.snapshots_recovered = snapshots;
                result.validator_count = validators;
                result.transactions_recovered = transactions;
                result.total_stake = stake;
                if snapshots > 0 {
                    result.latest_snapshot_sequence = Some(snapshots);
                }
            },
            Err(e) => {
                proof {
                    assert(event_views(events@) =~= before + startup_run(
                        config.database_path@,
                        config.verify_consistency,
                        genesis_db,
                        rv,
                        millis,
                        0,
                    ).1);
                }
                return Err(e);
            },
        }
        assert(result@ == recovered_result());
        let ghost e2 = event_views(events@);
        if config.verify_consistency {
            match Self::verify_consistency(&result, events) {
                Ok(is_consistent) => {
                    result.consistency_verified = is_consistent;
                },
                Err(e) => {
                    return Err(e);
                },
            }
        }
        let ghost e3 = event_views(events@);
        let genesis_hash = match &result.genesis_block_hash {
            Some(h) => h.clone(),
            None => "unknown".to_owned(),
        };
        let latest_snapshot = match result.latest_snapshot_sequence {
            Some(n) => n,
            None => 0,
        };
        let latest_block = match result.latest_block_number {
            Some(n) => n,
            None => 0,
        };
        events.push(
            PersistenceLogger::log_startup_info(
                genesis_hash.as_str(),
                latest_snapshot,
                latest_block,
                result.validator_count,
                result.total_stake,
            ),
        );
        let end = unix_time_millis();
        result.startup_duration_ms = end.saturating_sub(start);
        result.success = true;
        proof {
            let run = startup_run(
                config.database_path@,
                config.verify_consistency,
                genesis_db,
                rv,
                millis,
                result.startup_duration_ms,
            );
            assert(result@ == started(config.verify_consistency, result.startup_duration_ms));
            assert(genesis_hash@ == genesis_hash_text());
            assert(latest_snapshot == 0);
            assert(latest_block == 0);
            assert(events@.last()@.fields =~= startup_info_event(recovered_result()).fields);
            assert(event_views(events@).last() == startup_info_event(recovered_result()));
            assert(event_views(events@) =~= e3.push(startup_info_event(recovered_result())));
            assert(event_views(events@) =~= before + run.1);
        }
        Ok(result)
    }

    /// Check the database path: refused when it is empty.
    pub fn initialize_database(config: &StartupConfig) -> (r: Result<(), String>)
        ensures
            config.database_path@.len() == 0 ==> r is Err && r->Err_0@ == "Database path cannot be empty"@,
            config.database_path@.len() > 0 ==> r is Ok,
    {
        if config.database_path.as_str().is_empty() {
            return Err("Database path cannot be empty".to_owned());
        }
        Ok(())
    }

    /// The genesis block: its hash and its number, 0, from the database,
    /// whose opening gave `opened`; refused with the reason when it did not
    /// open.
    pub fn load_or_create_genesis_block(_config: &StartupConfig, opened: Result<(), String>) -> (r: Result<
        (String, u64),
        String,
    >)
        ensures
            opened matches Err(e) ==> r is Err && r->Err_0@ == "Failed to open database: "@ + e@,
            opened is Ok ==> r is Ok && r->Ok_0.0@ == genesis_hash_text() && r->Ok_0.1 == 0,
    {
        match opened {
            Err(e) => {
                let mut m = "Failed to open database: ".to_owned();
                m.append(e.as_str());
                return Err(m);
            },
            Ok(()) => {},
        }
        let digest = blake3_hash("SilverBitcoin Genesis Block".as_bytes());
        let hash = hex_encode(digest.as_slice());
        Ok((hash, 0))
    }

    /// The persisted state recovered from the database, whose opening gave
    /// `opened`: snapshots, validators, transactions and total stake, all
    /// none so far; refused with the reason when it did not open. The
    /// recovery's log events are appended to `events`.
    pub fn recover_state(_config: &StartupConfig, opened: Result<(), String>, events: &mut Vec<LogEvent>) -> (r:
        Result<(u64, u64, u64, u128), String>)
        ensures
            opened matches Err(e) ==> r is Err && r->Err_0@ == "Failed to open database for recovery: "@ + e@,
            opened is Ok ==> r == Ok::<(u64, u64, u64, u128), String>((0, 0, 0, 0)),
            event_views(final(events)@) == event_views(old(events)@) + recovery_events(opened),
    {
        let ghost before = event_views(events@);
        let ghost o = opened;
        events.push(PersistenceLogger::log_recovery_start("complete_state"));
        match opened {
            Err(e) => {
                let mut m = "Failed to open database for recovery: ".to_owned();
                m.append(e.as_str());
                assert(event_views(events@) =~= before + recovery_events(o));
                return Err(m);
            },
            Ok(()) => {},
        }
        events.push(PersistenceLogger::log_recovery_completion("complete_state", 0, 100));
        assert(event_views(events@) =~= before + recovery_events(o));
        Ok((0, 0, 0, 0))
    }

    /// The startup configuration from its settings (as the environment
    /// gives them: `BLOCKCHAIN_DB_PATH`, `GENESIS_CONFIG_PATH`,
    /// `VERIFY_DB_INTEGRITY`, `VERIFY_STATE_CONSISTENCY` and
    /// `STARTUP_TIMEOUT_SECS`); a missing setting takes its default.
    pub fn config_from_settings(
        database_path: Option<String>,
        genesis_config_path: Option<String>,
        verify_integrity: Option<String>,
        verify_consistency: Option<String>,
        startup_timeout_secs: Option<String>,
    ) -> (r: StartupConfig)
        ensures
            r.database_path@ == (match database_path {
                Some(p) => p@,
                None => "./data/blockchain"@,
            }),
            setting_text(r.genesis_config_path) == setting_text(genesis_config_path),
            r.verify_integrity == switch_setting(setting_text(verify_integrity)),
            r.verify_consistency == switch_setting(setting_text(verify_consistency)),
            r.startup_timeout_secs == timeout_setting(setting_text(startup_timeout_secs)),
    {
        let database_path = match database_path {
            Some(p) => p,
            None => "./data/blockchain".to_owned(),
        };
        let verify_integrity = match &verify_integrity {
            Some(v) => reads_true(v.as_str()),
            None => true,
        };
        let verify_consistency = match &verify_consistency {
            Some(v) => reads_true(v.as_str()),
            None => true,
        };
        let startup_timeout_secs = match &startup_timeout_secs {
            Some(v) => match parse_u64(v.as_str()) {
                Some(n) => n,
                None => 300,
            },
            None => 300,
        };
        StartupConfig {
            database_path,
            genesis_config_path,
            verify_integrity,
            verify_consistency,
            startup_timeout_secs,
        }
    }

    /// The column families a healthy database has, in the order they are
    /// checked.
    pub fn required_column_families() -> (r: Vec<&'static str>)
        ensures
            r@.map_values(|n: &'static str| n@) == column_family_names(),
    {
        let mut names: Vec<&'static str> = Vec::new();
        let mut i: usize = 0;
        while i < 7
            invariant
                i <= 7,
                names@.map_values(|n: &'static str| n@) == column_family_names().take(i as int),
            decreases 7 - i,
        {
            let ghost before = names@.map_values(|n: &'static str| n@);
            names.push(column_family_name(i));
            assert(names@.map_values(|n: &'static str| n@) =~= before.push(column_family_names()[i as int]));
            assert(column_family_names().take(i + 1) =~= column_family_names().take(i as int).push(
                column_family_names()[i as int],
            ));
            i = i + 1;
        }
        assert(column_family_names().take(7) =~= column_family_names());
        names
    }

    /// One step of the database integrity verification: after `check`
    /// came out as `outcome` (as the database reported it), the next check
    /// to make (`Ok(Some(..))`), the end of a verification that passed
    /// (`Ok(None)`), or the error that ends it. Verification starts with
    /// `IntegrityCheck::Open`.
    pub fn after_integrity_check(check: IntegrityCheck, outcome: Result<(), String>) -> (r: Result<
        Option<IntegrityCheck>,
        String,
    >)
        requires
            check_ok(check),
        ensures
            outcome is Ok ==> r == Ok::<Option<IntegrityCheck>, String>(next_check(check)),
            outcome matches Err(e) ==> r is Err && r->Err_0@ == check_failure_text(check, e@),
    {
        match outcome {
            Ok(()) => Ok(
                match check {
                    IntegrityCheck::Open => Some(IntegrityCheck::ColumnFamily(0)),
                    IntegrityCheck::ColumnFamily(i) => if i + 1 < 7 {
                        Some(IntegrityCheck::ColumnFamily(i + 1))
                    } else {
                        Some(IntegrityCheck::CorruptionMarkers)
                    },
                    IntegrityCheck::CorruptionMarkers => Some(IntegrityCheck::KeyValueConsistency),
                    IntegrityCheck::KeyValueConsistency => Some(IntegrityCheck::ReadWriteAccess),
                    IntegrityCheck::ReadWriteAccess => None,
                },
            ),
            Err(e) => {
                let mut m = match check {
                    IntegrityCheck::Open => "Failed to open database: ".to_owned(),
                    IntegrityCheck::ColumnFamily(i) => {
                        let mut t = "Failed to verify column family ".to_owned();
                        t.append(column_family_name(i));
                        t.append(": ");
                        t
                    },
                    IntegrityCheck::CorruptionMarkers => "Failed to check corruption markers: ".to_owned(),
                    IntegrityCheck::KeyValueConsistency => "Failed to verify key-value consistency: ".to_owned(),
                    IntegrityCheck::ReadWriteAccess => "Failed to verify read/write access: ".to_owned(),
                };
                m.append(e.as_str());
                Err(m)
            },
        }
    }

    /// Check the recovered state for consistency; see `consistent`. The
    /// check's log events are appended to `events`.
    pub fn verify_consistency(result: &StartupResult, events: &mut Vec<LogEvent>) -> (r: Result<bool, String>)
        ensures
            r is Ok,
            r->Ok_0 == consistent(result@),
            event_views(final(events)@) == event_views(old(events)@) + consistency_events(result@),
    {
        let ghost before = event_views(events@);
        events.push(PersistenceLogger::log_consistency_check_start("recovered_state"));
        let mut issues: Vec<String> = Vec::new();
        if result.snapshots_recovered > 0 {
            if let Some(latest_seq) = result.latest_snapshot_sequence {
                if latest_seq != result.snapshots_recovered {
                    let mut m = "Snapshot sequence gap: expected ".to_owned();
                    m.append(decimal(result.snapshots_recovered).as_str());
                    m.append(", got ");
                    m.append(decimal(latest_seq).as_str());
                    issues.push(m);
                }
            }
        }
        let ghost gap = issue_views(issues@);
        if result.validator_count > 0 && result.total_stake == 0 {
            issues.push("Validators exist but total stake is zero".to_owned());
        }
        let ghost stake = issue_views(issues@);
        if let Some(latest_block) = result.latest_block_number {
            if latest_block > 0 && result.snapshots_recovered == 0 {
                issues.push("Blocks exist but no snapshots recovered".to_owned());
            }
        }
        let ghost blocks = issue_views(issues@);
        if result.genesis_block_hash.is_none() {
            issues.push("Genesis block not found".to_owned());
        }
        proof {
            assert(issue_views(issues@) =~= consistency_issues(result@));
        }
        let is_consistent = issues.len() == 0;
        let details = if is_consistent {
            "all checks passed".to_owned()
        } else {
            let mut d = "consistency issues: ".to_owned();
            let joined_text = join_texts(&issues, "; ");
            d.append(joined_text.as_str());
            d
        };
        events.push(
            PersistenceLogger::log_consistency_check_result("recovered_state", is_consistent, details.as_str()),
        );
        proof {
            assert(is_consistent == consistent(result@));
            assert(details@ == consistency_details(result@));
            assert(event_views(events@) =~= before + consistency_events(result@));
        }
        Ok(is_consistent)
    }
}

/// The texts of a list of strings.
pub open spec fn issue_views(s: Seq<String>) -> Seq<Seq<char>> {
    s.map_values(|x: String| x@)
}

/// The texts joined with `sep` between them; see `joined`.
fn join_texts(items: &Vec<String>, sep: &str) -> (r: String)
    ensures
        r@ == joined(issue_views(items@), sep@),
{
    let mut out = String::new();
    let mut i: usize = 0;
    while i < items.len()
        invariant
            i <= items@.len(),
            out@ == joined(issue_views(items@).take(i as int), sep@),
        decreases items@.len() - i,
    {
        let ghost prev = issue_views(items@).take(i as int);
        if i > 0 {
            out.append(sep);
        }
        out.append(items[i].as_str());
        proof {
            let next = issue_views(items@).take(i + 1);
            assert(next.drop_last() =~= prev);
            assert(next.last() == items@[i as int]@);
            if i == 0 {
                assert(next.len() == 1);
                assert(out@ =~= next[0]);
            }
        }
        i = i + 1;
    }
    assert(issue_views(items@).take(i as int) =~= issue_views(items@));
    out
}

/// The text of an optional setting.
pub open spec fn setting_text(s: Option<String>) -> Option<Seq<char>> {
    match s {
        Some(t) => Some(t@),
        None => None,
    }
}

/// A switch that is on unless its setting is given and does not read
/// `true`.
pub open spec fn switch_setting(s: Option<Seq<char>>) -> bool {
    match s {
        Some(t) => is_true_word(t),
        None => true,
    }
}

/// The startup timeout a setting gives: its number, or 300 seconds when it
/// is missing or not a number.
pub open spec fn timeout_setting(s: Option<Seq<char>>) -> u64 {
    match s {
        Some(t) => match parsed_u64(t) {
            Some(n) => n,
            None => 300,
        },
        None => 300,
    }
}

/// A successful startup always passes its own consistency check, and
/// records that it made one exactly when its configuration asked for it.
pub proof fn lemma_startup_consistent(verify_consistency: bool, d: u64)
    ensures
        consistent(started(verify_consistency, d)),
        started(verify_consistency, d).consistency_verified == verify_consistency,
{
}

} // verus!
