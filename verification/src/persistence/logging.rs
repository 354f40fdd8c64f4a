//! Structured logging for persistence operations: every logger function
//! builds the event that the node emits (its level, message and named
//! fields), so that what is logged is stated exactly; emitting the events
//! is left to the caller.
use vstd::prelude::*;
use vstd::string::StringExecFns;
use crate::clock::unix_time_millis;
use crate::text::{decimal, decimal_text};

verus! {

/// Operation type for structured logging.
#[derive(Debug, Clone, Copy, PartialEq, Eq, Structural)]
pub enum OperationType {
    /// Genesis block persistence
    PersistGenesisBlock,
    /// Snapshot persistence
    PersistSnapshot,
    /// Finalized snapshot persistence
    PersistFinalizedSnapshot,
    /// Validator state persistence
    PersistValidatorState,
    /// Staking record persistence
    PersistStakingRecord,
    /// Tier change persistence
    PersistTierChange,
    /// Unstaking request persistence
    PersistUnstakingRequest,
    /// Reward record persistence
    PersistRewardRecord,
    /// Transaction persistence
    PersistTransaction,
    /// Batch transaction persistence
    PersistTransactionBatch,
    /// Atomic batch write
    AtomicBatchWrite,
    /// Column family flush
    FlushColumnFamily,
    /// All column families flush
    FlushAllColumnFamilies,
    /// Write-ahead log flush
    FlushWAL,
    /// Fsync operation
    Fsync,
    /// Database integrity verification
    VerifyDatabaseIntegrity,
    /// Genesis block recovery
    RecoverGenesisBlock,
    /// Snapshots recovery
    RecoverSnapshots,
    /// Validator state recovery
    RecoverValidatorState,
    /// Transactions recovery
    RecoverTransactions,
    /// Consistency verification
    VerifyConsistency,
    /// Graceful shutdown
    GracefulShutdown,
    /// Node startup
    NodeStartup,
}

/// The name of an operation type.
pub open spec fn operation_type_text(t: OperationType) -> Seq<char> {
    match t {
        OperationType::PersistGenesisBlock => "PersistGenesisBlock"@,
        OperationType::PersistSnapshot => "PersistSnapshot"@,
        OperationType::PersistFinalizedSnapshot => "PersistFinalizedSnapshot"@,
        OperationType::PersistValidatorState => "PersistValidatorState"@,
        OperationType::PersistStakingRecord => "PersistStakingRecord"@,
        OperationType::PersistTierChange => "PersistTierChange"@,
        OperationType::PersistUnstakingRequest => "PersistUnstakingRequest"@,
        OperationType::PersistRewardRecord => "PersistRewardRecord"@,
        OperationType::PersistTransaction => "PersistTransaction"@,
        OperationType::PersistTransactionBatch => "PersistTransactionBatch"@,
        OperationType::AtomicBatchWrite => "AtomicBatchWrite"@,
        OperationType::FlushColumnFamily => "FlushColumnFamily"@,
        OperationType::FlushAllColumnFamilies => "FlushAllColumnFamilies"@,
        OperationType::FlushWAL => "FlushWAL"@,
        OperationType::Fsync => "Fsync"@,
        OperationType::VerifyDatabaseIntegrity => "VerifyDatabaseIntegrity"@,
        OperationType::RecoverGenesisBlock => "RecoverGenesisBlock"@,
        OperationType::RecoverSnapshots => "RecoverSnapshots"@,
        OperationType::RecoverValidatorState => "RecoverValidatorState"@,
        OperationType::RecoverTransactions => "RecoverTransactions"@,
        OperationType::VerifyConsistency => "VerifyConsistency"@,
        OperationType::GracefulShutdown => "GracefulShutdown"@,
        OperationType::NodeStartup => "NodeStartup"@,
    }
}

impl OperationType {
    /// The operation type's name.
    pub fn to_string(&self) -> (r: String)
        ensures
            r@ == operation_type_text(*self),
    {
        match self {
            OperationType::PersistGenesisBlock => "PersistGenesisBlock".to_owned(),
            OperationType::PersistSnapshot => "PersistSnapshot".to_owned(),
            OperationType::PersistFinalizedSnapshot => "PersistFinalizedSnapshot".to_owned(),
            OperationType::PersistValidatorState => "PersistValidatorState".to_owned(),
            OperationType::PersistStakingRecord => "PersistStakingRecord".to_owned(),
            OperationType::PersistTierChange => "PersistTierChange".to_owned(),
            OperationType::PersistUnstakingRequest => "PersistUnstakingRequest".to_owned(),
            OperationType::PersistRewardRecord => "PersistRewardRecord".to_owned(),
            OperationType::PersistTransaction => "PersistTransaction".to_owned(),
            OperationType::PersistTransactionBatch => "PersistTransactionBatch".to_owned(),
            OperationType::AtomicBatchWrite => "AtomicBatchWrite".to_owned(),
            OperationType::FlushColumnFamily => "FlushColumnFamily".to_owned(),
            OperationType::FlushAllColumnFamilies => "FlushAllColumnFamilies".to_owned(),
            OperationType::FlushWAL => "FlushWAL".to_owned(),
            OperationType::Fsync => "Fsync".to_owned(),
            OperationType::VerifyDatabaseIntegrity => "VerifyDatabaseIntegrity".to_owned(),
            OperationType::RecoverGenesisBlock => "RecoverGenesisBlock".to_owned(),
            OperationType::RecoverSnapshots => "RecoverSnapshots".to_owned(),
            OperationType::RecoverValidatorState => "RecoverValidatorState".to_owned(),
            OperationType::RecoverTransactions => "RecoverTransactions".to_owned(),
            OperationType::VerifyConsistency => "VerifyConsistency".to_owned(),
            OperationType::GracefulShutdown => "GracefulShutdown".to_owned(),
            OperationType::NodeStartup => "NodeStartup".to_owned(),
        }
    }
}

/// Operation status for structured logging.
#[derive(Debug, Clone, Copy, PartialEq, Eq, Structural)]
pub enum OperationStatus {
    /// Operation started
    Started,
    /// Operation in progress
    InProgress,
    /// Operation completed successfully
    Success,
    /// Operation failed
    Failed,
    /// Operation retrying
    Retrying,
}

/// The name of an operation status.
pub open spec fn operation_status_text(s: OperationStatus) -> Seq<char> {
    match s {
        OperationStatus::Started => "Started"@,
        OperationStatus::InProgress => "InProgress"@,
        OperationStatus::Success => "Success"@,
        OperationStatus::Failed => "Failed"@,
        OperationStatus::Retrying => "Retrying"@,
    }
}

impl OperationStatus {
    /// The status's name.
    pub fn to_string(&self) -> (r: String)
        ensures
            r@ == operation_status_text(*self),
    {
        match self {
            OperationStatus::Started => "Started".to_owned(),
            OperationStatus::InProgress => "InProgress".to_owned(),
            OperationStatus::Success => "Success".to_owned(),
            OperationStatus::Failed => "Failed".to_owned(),
            OperationStatus::Retrying => "Retrying".to_owned(),
        }
    }
}

/// How chrono writes a moment, given in milliseconds since the epoch, in
/// UTC.
pub uninterp spec fn utc_timestamp_text(millis: i64) -> Seq<char>;

/// Formats a moment with chrono: `DateTime::<Utc>::from_timestamp_millis`
/// and then its `Display` (`to_string`); a moment chrono cannot represent
/// gives the empty text. The contract claims only that the text is
/// `utc_timestamp_text` of the argument: it depends on nothing else.
#[verifier::external_body]
fn format_utc_millis(millis: i64) -> (r: String)
    ensures
        r@ == utc_timestamp_text(millis),
{
    match chrono::DateTime::<chrono::Utc>::from_timestamp_millis(millis) {
        Some(t) => t.to_string(),
        None => String::new(),
    }
}

/// The current time in milliseconds since the epoch, as chrono counts it
/// (`i64`), read from the system clock; a reading beyond `i64::MAX` is
/// saturated there.
fn utc_now_millis() -> (r: i64)
    ensures
        r >= 0,
{
    let ms = unix_time_millis();
    if ms > i64::MAX as u64 {
        i64::MAX
    } else {
        ms as i64
    }
}

/// The abstract content of a log entry.
pub struct PersistenceLogEntryView {
    pub operation_type: OperationType,
    pub status: OperationStatus,
    pub data_size_bytes: u64,
    pub timestamp_millis: i64,
    pub duration_ms: Option<u64>,
    pub context: Seq<char>,
    pub error_message: Option<Seq<char>>,
}

/// Structured log entry for persistence operations.
pub struct PersistenceLogEntry {
    /// Operation type
    pub operation_type: OperationType,
    /// Operation status
    pub status: OperationStatus,
    /// Data size in bytes
    pub data_size_bytes: u64,
    /// Time of the operation (milliseconds since the epoch, UTC)
    pub timestamp_millis: i64,
    /// Duration in milliseconds (if completed)
    pub duration_ms: Option<u64>,
    /// Additional context
    pub context: String,
    /// Error message (if failed)
    pub error_message: Option<String>,
}

impl View for PersistenceLogEntry {
    type V = PersistenceLogEntryView;

    open spec fn view(&self) -> PersistenceLogEntryView {
        PersistenceLogEntryView {
            operation_type: self.operation_type,
            status: self.status,
            data_size_bytes: self.data_size_bytes,
            timestamp_millis: self.timestamp_millis,
            duration_ms: self.duration_ms,
            context: self.context@,
            error_message: match self.error_message {
                Some(e) => Some(e@),
                None => None,
            },
        }
    }
}

/// The text of a log entry: operation, status, data size, time and
/// context, then the duration and the error when there are any.
pub open spec fn entry_text(e: PersistenceLogEntryView) -> Seq<char> {
    let head = "operation="@ + operation_type_text(e.operation_type) + " status="@
        + operation_status_text(e.status) + " data_size="@ + decimal_text(e.data_size_bytes as nat)
        + " bytes timestamp="@ + utc_timestamp_text(e.timestamp_millis) + " context="@ + e.context;
    let with_duration = match e.duration_ms {
        Some(d) => head + " duration="@ + decimal_text(d as nat) + "ms"@,
        None => head,
    };
    match e.error_message {
        Some(m) => with_duration + " error="@ + m,
        None => with_duration,
    }
}

impl PersistenceLogEntry {
    /// The entry's text.
    pub fn to_string(&self) -> (r: String)
        ensures
            r@ == entry_text(self@),
    {
        let mut s = "operation=".to_owned();
        s.append(self.operation_type.to_string().as_str());
        s.append(" status=");
        s.append(self.status.to_string().as_str());
        s.append(" data_size=");
        s.append(decimal(self.data_size_bytes).as_str());
        s.append(" bytes timestamp=");
        s.append(format_utc_millis(self.timestamp_millis).as_str());
        s.append(" context=");
        s.append(self.context.as_str());
        if let Some(d) = self.duration_ms {
            s.append(" duration=");
            s.append(decimal(d).as_str());
            s.append("ms");
        }
        if let Some(e) = &self.error_message {
            s.append(" error=");
            s.append(e.as_str());
        }
        s
    }
}

/// The level of a log event.
#[derive(Debug, Clone, Copy, PartialEq, Eq, Structural)]
pub enum LogLevel {
    Debug,
    Info,
    Warn,
    Error,
}

/// The value of a named field of a log event.
pub enum FieldValue {
    /// Text
    Text(String),
    /// A number
    Number(u64),
    /// A wide number
    Wide(u128),
}

/// The abstract content of a field value.
pub enum FieldValueView {
    Text(Seq<char>),
    Number(u64),
    Wide(u128),
}

/// A named field of a log event.
pub struct LogField {
    /// Field name
    pub name: String,
    /// Field value
    pub value: FieldValue,
}

/// The abstract content of a field.
pub struct LogFieldView {
    pub name: Seq<char>,
    pub value: FieldValueView,
}

impl View for LogField {
    type V = LogFieldView;

    open spec fn view(&self) -> LogFieldView {
        LogFieldView {
            name: self.name@,
            value: match self.value {
                FieldValue::Text(t) => FieldValueView::Text(t@),
                FieldValue::Number(n) => FieldValueView::Number(n),
                FieldValue::Wide(n) => FieldValueView::Wide(n),
            },
        }
    }
}

/// A log event: level, message and fields.
pub struct LogEvent {
    /// Level
    pub level: LogLevel,
    /// Message
    pub message: String,
    /// Named fields, in order
    pub fields: Vec<LogField>,
}

/// The abstract content of a log event.
pub struct LogEventView {
    pub level: LogLevel,
    pub message: Seq<char>,
    pub fields: Seq<LogFieldView>,
}

/// The views of a sequence of fields.
pub open spec fn field_views(s: Seq<LogField>) -> Seq<LogFieldView> {
    s.map_values(|f: LogField| f@)
}

impl View for LogEvent {
    type V = LogEventView;

    open spec fn view(&self) -> LogEventView {
        LogEventView { level: self.level, message: self.message@, fields: field_views(self.fields@) }
    }
}

/// The views of a sequence of events.
pub open spec fn event_views(s: Seq<LogEvent>) -> Seq<LogEventView> {
    s.map_values(|e: LogEvent| e@)
}

/// A log event with the given level, message and fields.
pub open spec fn event_view(level: LogLevel, message: Seq<char>, fields: Seq<LogFieldView>) -> LogEventView {
    LogEventView { level, message, fields }
}

/// A text field.
pub open spec fn text_field(name: Seq<char>, v: Seq<char>) -> LogFieldView {
    LogFieldView { name, value: FieldValueView::Text(v) }
}

/// A number field.
pub open spec fn number_field(name: Seq<char>, v: u64) -> LogFieldView {
    LogFieldView { name, value: FieldValueView::Number(v) }
}

/// A wide number field.
pub open spec fn wide_field(name: Seq<char>, v: u128) -> LogFieldView {
    LogFieldView { name, value: FieldValueView::Wide(v) }
}

fn field_text(name: &str, v: &str) -> (r: LogField)
    ensures
        r@ == text_field(name@, v@),
{
    LogField { name: name.to_owned(), value: FieldValue::Text(v.to_owned()) }
}

fn field_operation(name: &str, t: OperationType) -> (r: LogField)
    ensures
        r@ == text_field(name@, operation_type_text(t)),
{
    LogField { name: name.to_owned(), value: FieldValue::Text(t.to_string()) }
}

fn field_number(name: &str, v: u64) -> (r: LogField)
    ensures
        r@ == number_field(name@, v),
{
    LogField { name: name.to_owned(), value: FieldValue::Number(v) }
}

fn field_wide(name: &str, v: u128) -> (r: LogField)
    ensures
        r@ == wide_field(name@, v),
{
    LogField { name: name.to_owned(), value: FieldValue::Wide(v) }
}

fn make_event(level: LogLevel, message: &str, fields: Vec<LogField>) -> (r: LogEvent)
    ensures
        r@ == event_view(level, message@, field_views(fields@)),
{
    LogEvent { level, message: message.to_owned(), fields }
}

/// The text of an optional string.
pub open spec fn opt_text(o: Option<&str>) -> Option<Seq<char>> {
    match o {
        Some(e) => Some(e@),
        None => None,
    }
}

/// The debug event that shows a log entry.
pub open spec fn entry_event(e: PersistenceLogEntryView) -> LogEventView {
    event_view(LogLevel::Debug, "Persistence log entry: "@ + entry_text(e), Seq::empty())
}

/// The entry for an operation at `millis`.
pub open spec fn entry_at(
    t: OperationType,
    status: OperationStatus,
    size: u64,
    millis: i64,
    duration: Option<u64>,
    context: Seq<char>,
    error: Option<Seq<char>>,
) -> PersistenceLogEntryView {
    PersistenceLogEntryView {
        operation_type: t,
        status,
        data_size_bytes: size,
        timestamp_millis: millis,
        duration_ms: duration,
        context,
        error_message: error,
    }
}

/// Logger for persistence operations.
pub struct PersistenceLogger;

impl PersistenceLogger {
    fn entry_event_now(
        operation_type: OperationType,
        status: OperationStatus,
        data_size_bytes: u64,
        duration_ms: Option<u64>,
        context: &str,
        error_message: Option<&str>,
    ) -> (r: LogEvent)
        ensures
            exists|millis: i64|
                r@ == #[trigger] entry_event(
                    entry_at(
                        operation_type,
                        status,
                        data_size_bytes,
                        millis,
                        duration_ms,
                        context@,
                        opt_text(error_message),
                    ),
                ),
    {
        let entry = PersistenceLogEntry {
            operation_type,
            status,
            data_size_bytes,
            timestamp_millis: utc_now_millis(),
            duration_ms,
            context: context.to_owned(),
            error_message: match error_message {
                Some(e) => Some(e.to_owned()),
                None => None,
            },
        };
        let ghost ev = entry_at(
            operation_type,
            status,
            data_size_bytes,
            entry.timestamp_millis,
            duration_ms,
            context@,
            opt_text(error_message),
        );
        assert(entry@ == ev);
        let mut message = "Persistence log entry: ".to_owned();
        message.append(entry.to_string().as_str());
        let r = make_event(LogLevel::Debug, message.as_str(), Vec::new());
        assert(r@.fields =~= Seq::<LogFieldView>::empty());
        assert(r@ == entry_event(ev));
        r
    }

    /// The start of a persistence operation: the event, then the entry.
    pub fn log_operation_start(operation_type: OperationType, data_size_bytes: u64, context: &str) -> (r:
        Vec<LogEvent>)
        ensures
            r@.len() == 2,
            r@[0]@ == event_view(
                LogLevel::Info,
                "Persistence operation started"@,
                seq![
                    text_field("operation"@, operation_type_text(operation_type)),
                    number_field("data_size"@, data_size_bytes),
                    text_field("context"@, context@),
                ],
            ),
            exists|millis: i64|
                r@[1]@ == #[trigger] entry_event(
                    entry_at(
                        operation_type,
                        OperationStatus::Started,
                        data_size_bytes,
                        millis,
                        None,
                        context@,
                        None,
                    ),
                ),
    {
        let mut f: Vec<LogField> = Vec::new();
        f.push(field_operation("operation", operation_type));
        f.push(field_number("data_size", data_size_bytes));
        f.push(field_text("context", context));
        let first = make_event(LogLevel::Info, "Persistence operation started", f);
        assert(first@.fields =~= seq![
            text_field("operation"@, operation_type_text(operation_type)),
            number_field("data_size"@, data_size_bytes),
            text_field("context"@, context@),
        ]);
        let second = Self::entry_event_now(
            operation_type,
            OperationStatus::Started,
            data_size_bytes,
            None,
            context,
            None,
        );
        let mut r: Vec<LogEvent> = Vec::new();
        r.push(first);
        r.push(second);
        r
    }

    /// A completed persistence operation: the event, then the entry.
    pub fn log_operation_success(
        operation_type: OperationType,
        data_size_bytes: u64,
        duration_ms: u64,
        context: &str,
    ) -> (r: Vec<LogEvent>)
        ensures
            r@.len() == 2,
            r@[0]@ == event_view(
                LogLevel::Info,
                "Persistence operation completed successfully"@,
                seq![
                    text_field("operation"@, operation_type_text(operation_type)),
                    number_field("data_size"@, data_size_bytes),
                    number_field("duration_ms"@, duration_ms),
                    text_field("context"@, context@),
                ],
            ),
            exists|millis: i64|
                r@[1]@ == #[trigger] entry_event(
                    entry_at(
                        operation_type,
                        OperationStatus::Success,
                        data_size_bytes,
                        millis,
                        Some(duration_ms),
                        context@,
                        None,
                    ),
                ),
    {
        let mut f: Vec<LogField> = Vec::new();
        f.push(field_operation("operation", operation_type));
        f.push(field_number("data_size", data_size_bytes));
        f.push(field_number("duration_ms", duration_ms));
        f.push(field_text("context", context));
        let first = make_event(LogLevel::Info, "Persistence operation completed successfully", f);
        assert(first@.fields =~= seq![
            text_field("operation"@, operation_type_text(operation_type)),
            number_field("data_size"@, data_size_bytes),
            number_field("duration_ms"@, duration_ms),
            text_field("context"@, context@),
        ]);
        let second = Self::entry_event_now(
            operation_type,
            OperationStatus::Success,
            data_size_bytes,
            Some(duration_ms),
            context,
            None,
        );
        let mut r: Vec<LogEvent> = Vec::new();
        r.push(first);
        r.push(second);
        r
    }

    /// A failed persistence operation: the event, then the entry.
    pub fn log_operation_failure(
        operation_type: OperationType,
        data_size_bytes: u64,
        duration_ms: u64,
        context: &str,
        error_message: &str,
    ) -> (r: Vec<LogEvent>)
        ensures
            r@.len() == 2,
            r@[0]@ == event_view(
                LogLevel::Error,
                "Persistence operation failed"@,
                seq![
                    text_field("operation"@, operation_type_text(operation_type)),
                    number_field("data_size"@, data_size_bytes),
                    number_field("duration_ms"@, duration_ms),
                    text_field("context"@, context@),
                    text_field("error"@, error_message@),
                ],
            ),
            exists|millis: i64|
                r@[1]@ == #[trigger] entry_event(
                    entry_at(
                        operation_type,
                        OperationStatus::Failed,
                        data_size_bytes,
                        millis,
                        Some(duration_ms),
                        context@,
                        Some(error_message@),
                    ),
                ),
    {
        let mut f: Vec<LogField> = Vec::new();
        f.push(field_operation("operation", operation_type));
        f.push(field_number("data_size", data_size_bytes));
        f.push(field_number("duration_ms", duration_ms));
        f.push(field_text("context", context));
        f.push(field_text("error", error_message));
        let first = make_event(LogLevel::Error, "Persistence operation failed", f);
        assert(first@.fields =~= seq![
            text_field("operation"@, operation_type_text(operation_type)),
            number_field("data_size"@, data_size_bytes),
            number_field("duration_ms"@, duration_ms),
            text_field("context"@, context@),
            text_field("error"@, error_message@),
        ]);
        let second = Self::entry_event_now(
            operation_type,
            OperationStatus::Failed,
            data_size_bytes,
            Some(duration_ms),
            context,
            Some(error_message),
        );
        let mut r: Vec<LogEvent> = Vec::new();
        r.push(first);
        r.push(second);
        r
    }

    /// The result of a consistency check: passed at the info level, failed
    /// at the error level.
    pub fn log_consistency_check_result(check_type: &str, is_consistent: bool, details: &str) -> (r:
        LogEvent)
        ensures
            r@ == (if is_consistent {
                event_view(
                    LogLevel::Info,
                    "Consistency check passed"@,
                    seq![text_field("check_type"@, check_type@), text_field("details"@, details@)],
                )
            } else {
                event_view(
                    LogLevel::Error,
                    "Consistency check failed"@,
                    seq![text_field("check_type"@, check_type@), text_field("details"@, details@)],
                )
            }),
    {
        let mut f: Vec<LogField> = Vec::new();
        f.push(field_text("check_type", check_type));
        f.push(field_text("details", details));
        let r = if is_consistent {
            make_event(LogLevel::Info, "Consistency check passed", f)
        } else {
            make_event(LogLevel::Error, "Consistency check failed", f)
        };
        assert(r@.fields =~= seq![text_field("check_type"@, check_type@), text_field("details"@, details@)]);
        r
    }

    /// A retried persistence operation.
    pub fn log_operation_retry(operation_type: OperationType, data_size_bytes: u64, attempt: u32, context: &str, reason: &str) -> (r: LogEvent)
        ensures
            r@ == event_view(
                LogLevel::Warn,
                "Persistence operation retrying"@,
                seq![text_field("operation"@, operation_type_text(operation_type)), number_field("data_size"@, data_size_bytes), number_field("attempt"@, attempt as u64), text_field("context"@, context@), text_field("reason"@, reason@)],
            ),
    {
        let mut f: Vec<LogField> = Vec::new();
        f.push(field_operation("operation", operation_type));
        f.push(field_number("data_size", data_size_bytes));
        f.push(field_number("attempt", attempt as u64));
        f.push(field_text("context", context));
        f.push(field_text("reason", reason));
        let r = make_event(LogLevel::Warn, "Persistence operation retrying", f);
        assert(r@.fields =~= seq![text_field("operation"@, operation_type_text(operation_type)), number_field("data_size"@, data_size_bytes), number_field("attempt"@, attempt as u64), text_field("context"@, context@), text_field("reason"@, reason@)]);
        r
    }

    /// The start of a flush.
    pub fn log_flush_start(column_family: &str) -> (r: LogEvent)
        ensures
            r@ == event_view(
                LogLevel::Info,
                "Flush operation started"@,
                seq![text_field("column_family"@, column_family@)],
            ),
    {
        let mut f: Vec<LogField> = Vec::new();
        f.push(field_text("column_family", column_family));
        let r = make_event(LogLevel::Info, "Flush operation started", f);
        assert(r@.fields =~= seq![text_field("column_family"@, column_family@)]);
        r
    }

    /// A completed flush.
    pub fn log_flush_completion(column_family: &str, duration_ms: u64, data_flushed_bytes: u64) -> (r: LogEvent)
        ensures
            r@ == event_view(
                LogLevel::Info,
                "Flush operation completed"@,
                seq![text_field("column_family"@, column_family@), number_field("duration_ms"@, duration_ms), number_field("data_flushed"@, data_flushed_bytes)],
            ),
    {
        let mut f: Vec<LogField> = Vec::new();
        f.push(field_text("column_family", column_family));
        f.push(field_number("duration_ms", duration_ms));
        f.push(field_number("data_flushed", data_flushed_bytes));
        let r = make_event(LogLevel::Info, "Flush operation completed", f);
        assert(r@.fields =~= seq![text_field("column_family"@, column_family@), number_field("duration_ms"@, duration_ms), number_field("data_flushed"@, data_flushed_bytes)]);
        r
    }

    /// A failed flush.
    pub fn log_flush_failure(column_family: &str, duration_ms: u64, error_message: &str) -> (r: LogEvent)
        ensures
            r@ == event_view(
                LogLevel::Error,
                "Flush operation failed"@,
                seq![text_field("column_family"@, column_family@), number_field("duration_ms"@, duration_ms), text_field("error"@, error_message@)],
            ),
    {
        let mut f: Vec<LogField> = Vec::new();
        f.push(field_text("column_family", column_family));
        f.push(field_number("duration_ms", duration_ms));
        f.push(field_text("error", error_message));
        let r = make_event(LogLevel::Error, "Flush operation failed", f);
        assert(r@.fields =~= seq![text_field("column_family"@, column_family@), number_field("duration_ms"@, duration_ms), text_field("error"@, error_message@)]);
        r
    }

    /// The start of a recovery.
    pub fn log_recovery_start(recovery_type: &str) -> (r: LogEvent)
        ensures
            r@ == event_view(
                LogLevel::Info,
                "Recovery operation started"@,
                seq![text_field("recovery_type"@, recovery_type@)],
            ),
    {
        let mut f: Vec<LogField> = Vec::new();
        f.push(field_text("recovery_type", recovery_type));
        let r = make_event(LogLevel::Info, "Recovery operation started", f);
        assert(r@.fields =~= seq![text_field("recovery_type"@, recovery_type@)]);
        r
    }

    /// Progress of a recovery.
    pub fn log_recovery_progress(recovery_type: &str, items_recovered: u64, context: &str) -> (r: LogEvent)
        ensures
            r@ == event_view(
                LogLevel::Info,
                "Recovery operation in progress"@,
                seq![text_field("recovery_type"@, recovery_type@), number_field("items_recovered"@, items_recovered), text_field("context"@, context@)],
            ),
    {
        let mut f: Vec<LogField> = Vec::new();
        f.push(field_text("recovery_type", recovery_type));
        f.push(field_number("items_recovered", items_recovered));
        f.push(field_text("context", context));
        let r = make_event(LogLevel::Info, "Recovery operation in progress", f);
        assert(r@.fields =~= seq![text_field("recovery_type"@, recovery_type@), number_field("items_recovered"@, items_recovered), text_field("context"@, context@)]);
        r
    }

    /// A completed recovery.
    pub fn log_recovery_completion(recovery_type: &str, items_recovered: u64, duration_ms: u64) -> (r: LogEvent)
        ensures
            r@ == event_view(
                LogLevel::Info,
                "Recovery operation completed"@,
                seq![text_field("recovery_type"@, recovery_type@), number_field("items_recovered"@, items_recovered), number_field("duration_ms"@, duration_ms)],
            ),
    {
        let mut f: Vec<LogField> = Vec::new();
        f.push(field_text("recovery_type", recovery_type));
        f.push(field_number("items_recovered", items_recovered));
        f.push(field_number("duration_ms", duration_ms));
        let r = make_event(LogLevel::Info, "Recovery operation completed", f);
        assert(r@.fields =~= seq![text_field("recovery_type"@, recovery_type@), number_field("items_recovered"@, items_recovered), number_field("duration_ms"@, duration_ms)]);
        r
    }

    /// The start of a consistency check.
    pub fn log_consistency_check_start(check_type: &str) -> (r: LogEvent)
        ensures
            r@ == event_view(
                LogLevel::Info,
                "Consistency check started"@,
                seq![text_field("check_type"@, check_type@)],
            ),
    {
        let mut f: Vec<LogField> = Vec::new();
        f.push(field_text("check_type", check_type));
        let r = make_event(LogLevel::Info, "Consistency check started", f);
        assert(r@.fields =~= seq![text_field("check_type"@, check_type@)]);
        r
    }

    /// An error with its context.
    pub fn log_error(error_type: &str, error_message: &str, context: &str) -> (r: LogEvent)
        ensures
            r@ == event_view(
                LogLevel::Error,
                "Persistence error occurred"@,
                seq![text_field("error_type"@, error_type@), text_field("error"@, error_message@), text_field("context"@, context@)],
            ),
    {
        let mut f: Vec<LogField> = Vec::new();
        f.push(field_text("error_type", error_type));
        f.push(field_text("error", error_message));
        f.push(field_text("context", context));
        let r = make_event(LogLevel::Error, "Persistence error occurred", f);
        assert(r@.fields =~= seq![text_field("error_type"@, error_type@), text_field("error"@, error_message@), text_field("context"@, context@)]);
        r
    }

    /// An error and the recovery attempted.
    pub fn log_error_with_recovery(error_type: &str, error_message: &str, recovery_action: &str) -> (r: LogEvent)
        ensures
            r@ == event_view(
                LogLevel::Error,
                "Persistence error occurred, attempting recovery"@,
                seq![text_field("error_type"@, error_type@), text_field("error"@, error_message@), text_field("recovery_action"@, recovery_action@)],
            ),
    {
        let mut f: Vec<LogField> = Vec::new();
        f.push(field_text("error_type", error_type));
        f.push(field_text("error", error_message));
        f.push(field_text("recovery_action", recovery_action));
        let r = make_event(LogLevel::Error, "Persistence error occurred, attempting recovery", f);
        assert(r@.fields =~= seq![text_field("error_type"@, error_type@), text_field("error"@, error_message@), text_field("recovery_action"@, recovery_action@)]);
        r
    }

    /// The node's state at startup.
    pub fn log_startup_info(genesis_block_hash: &str, latest_snapshot_sequence: u64, latest_block_number: u64, validator_count: u64, total_stake: u128) -> (r: LogEvent)
        ensures
            r@ == event_view(
                LogLevel::Info,
                "Node startup information"@,
                seq![text_field("genesis_block_hash"@, genesis_block_hash@), number_field("latest_snapshot_sequence"@, latest_snapshot_sequence), number_field("latest_block_number"@, latest_block_number), number_field("validator_count"@, validator_count), wide_field("total_stake"@, total_stake)],
            ),
    {
        let mut f: Vec<LogField> = Vec::new();
        f.push(field_text("genesis_block_hash", genesis_block_hash));
        f.push(field_number("latest_snapshot_sequence", latest_snapshot_sequence));
        f.push(field_number("latest_block_number", latest_block_number));
        f.push(field_number("validator_count", validator_count));
        f.push(field_wide("total_stake", total_stake));
        let r = make_event(LogLevel::Info, "Node startup information", f);
        assert(r@.fields =~= seq![text_field("genesis_block_hash"@, genesis_block_hash@), number_field("latest_snapshot_sequence"@, latest_snapshot_sequence), number_field("latest_block_number"@, latest_block_number), number_field("validator_count"@, validator_count), wide_field("total_stake"@, total_stake)]);
        r
    }

    /// A database ready for use.
    pub fn log_database_initialized(database_path: &str, column_families: u32) -> (r: LogEvent)
        ensures
            r@ == event_view(
                LogLevel::Info,
                "Database initialized successfully"@,
                seq![text_field("database_path"@, database_path@), number_field("column_families"@, column_families as u64)],
            ),
    {
        let mut f: Vec<LogField> = Vec::new();
        f.push(field_text("database_path", database_path));
        f.push(field_number("column_families", column_families as u64));
        let r = make_event(LogLevel::Info, "Database initialized successfully", f);
        assert(r@.fields =~= seq![text_field("database_path"@, database_path@), number_field("column_families"@, column_families as u64)]);
        r
    }

    /// A database that could not be initialized.
    pub fn log_database_initialization_failure(database_path: &str, error_message: &str) -> (r: LogEvent)
        ensures
            r@ == event_view(
                LogLevel::Error,
                "Database initialization failed"@,
                seq![text_field("database_path"@, database_path@), text_field("error"@, error_message@)],
            ),
    {
        let mut f: Vec<LogField> = Vec::new();
        f.push(field_text("database_path", database_path));
        f.push(field_text("error", error_message));
        let r = make_event(LogLevel::Error, "Database initialization failed", f);
        assert(r@.fields =~= seq![text_field("database_path"@, database_path@), text_field("error"@, error_message@)]);
        r
    }

    /// The start of a graceful shutdown.
    pub fn log_shutdown_start() -> (r: LogEvent)
        ensures
            r@ == event_view(
                LogLevel::Info,
                "Graceful shutdown initiated"@,
                Seq::<LogFieldView>::empty(),
            ),
    {
        let mut f: Vec<LogField> = Vec::new();
        let r = make_event(LogLevel::Info, "Graceful shutdown initiated", f);
        assert(r@.fields =~= Seq::<LogFieldView>::empty());
        r
    }

    /// A step of a graceful shutdown.
    pub fn log_shutdown_progress(step: &str) -> (r: LogEvent)
        ensures
            r@ == event_view(
                LogLevel::Info,
                "Graceful shutdown in progress"@,
                seq![text_field("step"@, step@)],
            ),
    {
        let mut f: Vec<LogField> = Vec::new();
        f.push(field_text("step", step));
        let r = make_event(LogLevel::Info, "Graceful shutdown in progress", f);
        assert(r@.fields =~= seq![text_field("step"@, step@)]);
        r
    }

    /// A completed graceful shutdown.
    pub fn log_shutdown_completion(duration_ms: u64) -> (r: LogEvent)
        ensures
            r@ == event_view(
                LogLevel::Info,
                "Graceful shutdown completed"@,
                seq![number_field("duration_ms"@, duration_ms)],
            ),
    {
        let mut f: Vec<LogField> = Vec::new();
        f.push(field_number("duration_ms", duration_ms));
        let r = make_event(LogLevel::Info, "Graceful shutdown completed", f);
        assert(r@.fields =~= seq![number_field("duration_ms"@, duration_ms)]);
        r
    }

    /// A shutdown forced after its timeout.
    pub fn log_shutdown_timeout(timeout_secs: u64) -> (r: LogEvent)
        ensures
            r@ == event_view(
                LogLevel::Warn,
                "Graceful shutdown timeout exceeded, forcing shutdown"@,
                seq![number_field("timeout_secs"@, timeout_secs)],
            ),
    {
        let mut f: Vec<LogField> = Vec::new();
        f.push(field_number("timeout_secs", timeout_secs));
        let r = make_event(LogLevel::Warn, "Graceful shutdown timeout exceeded, forcing shutdown", f);
        assert(r@.fields =~= seq![number_field("timeout_secs"@, timeout_secs)]);
        r
    }

    /// A snapshot's summary.
    pub fn log_snapshot_info(sequence_number: u64, transaction_count: u64, validator_count: u64, state_root: &str) -> (r: LogEvent)
        ensures
            r@ == event_view(
                LogLevel::Info,
                "Snapshot information"@,
                seq![number_field("sequence_number"@, sequence_number), number_field("transaction_count"@, transaction_count), number_field("validator_count"@, validator_count), text_field("state_root"@, state_root@)],
            ),
    {
        let mut f: Vec<LogField> = Vec::new();
        f.push(field_number("sequence_number", sequence_number));
        f.push(field_number("transaction_count", transaction_count));
        f.push(field_number("validator_count", validator_count));
        f.push(field_text("state_root", state_root));
        let r = make_event(LogLevel::Info, "Snapshot information", f);
        assert(r@.fields =~= seq![number_field("sequence_number"@, sequence_number), number_field("transaction_count"@, transaction_count), number_field("validator_count"@, validator_count), text_field("state_root"@, state_root@)]);
        r
    }

    /// A validator's state.
    pub fn log_validator_state_info(validator_id: &str, stake: u128, tier: &str, deposit_count: u64) -> (r: LogEvent)
        ensures
            r@ == event_view(
                LogLevel::Info,
                "Validator state information"@,
                seq![text_field("validator_id"@, validator_id@), wide_field("stake"@, stake), text_field("tier"@, tier@), number_field("deposit_count"@, deposit_count)],
            ),
    {
        let mut f: Vec<LogField> = Vec::new();
        f.push(field_text("validator_id", validator_id));
        f.push(field_wide("stake", stake));
        f.push(field_text("tier", tier));
        f.push(field_number("deposit_count", deposit_count));
        let r = make_event(LogLevel::Info, "Validator state information", f);
        assert(r@.fields =~= seq![text_field("validator_id"@, validator_id@), wide_field("stake"@, stake), text_field("tier"@, tier@), number_field("deposit_count"@, deposit_count)]);
        r
    }

    /// A transaction's summary.
    pub fn log_transaction_info(transaction_digest: &str, sender: &str, recipient: &str, amount: u128, fuel_used: u64) -> (r: LogEvent)
        ensures
            r@ == event_view(
                LogLevel::Info,
                "Transaction information"@,
                seq![text_field("transaction_digest"@, transaction_digest@), text_field("sender"@, sender@), text_field("recipient"@, recipient@), wide_field("amount"@, amount), number_field("fuel_used"@, fuel_used)],
            ),
    {
        let mut f: Vec<LogField> = Vec::new();
        f.push(field_text("transaction_digest", transaction_digest));
        f.push(field_text("sender", sender));
        f.push(field_text("recipient", recipient));
        f.push(field_wide("amount", amount));
        f.push(field_number("fuel_used", fuel_used));
        let r = make_event(LogLevel::Info, "Transaction information", f);
        assert(r@.fields =~= seq![text_field("transaction_digest"@, transaction_digest@), text_field("sender"@, sender@), text_field("recipient"@, recipient@), wide_field("amount"@, amount), number_field("fuel_used"@, fuel_used)]);
        r
    }

    /// A batch operation's summary.
    pub fn log_batch_operation_info(batch_size: u64, total_data_size: u64, operation_type: &str) -> (r: LogEvent)
        ensures
            r@ == event_view(
                LogLevel::Info,
                "Batch operation information"@,
                seq![number_field("batch_size"@, batch_size), number_field("total_data_size"@, total_data_size), text_field("operation_type"@, operation_type@)],
            ),
    {
        let mut f: Vec<LogField> = Vec::new();
        f.push(field_number("batch_size", batch_size));
        f.push(field_number("total_data_size", total_data_size));
        f.push(field_text("operation_type", operation_type));
        let r = make_event(LogLevel::Info, "Batch operation information", f);
        assert(r@.fields =~= seq![number_field("batch_size"@, batch_size), number_field("total_data_size"@, total_data_size), text_field("operation_type"@, operation_type@)]);
        r
    }

    /// Database statistics.
    pub fn log_database_stats(total_size_bytes: u64, live_data_size_bytes: u64, column_family_count: u32) -> (r: LogEvent)
        ensures
            r@ == event_view(
                LogLevel::Info,
                "Database statistics"@,
                seq![number_field("total_size"@, total_size_bytes), number_field("live_data_size"@, live_data_size_bytes), number_field("column_family_count"@, column_family_count as u64)],
            ),
    {
        let mut f: Vec<LogField> = Vec::new();
        f.push(field_number("total_size", total_size_bytes));
        f.push(field_number("live_data_size", live_data_size_bytes));
        f.push(field_number("column_family_count", column_family_count as u64));
        let r = make_event(LogLevel::Info, "Database statistics", f);
        assert(r@.fields =~= seq![number_field("total_size"@, total_size_bytes), number_field("live_data_size"@, live_data_size_bytes), number_field("column_family_count"@, column_family_count as u64)]);
        r
    }
}

} // verus!
