//! Validator performance monitoring:
//! - performance metric collection
//! - uptime and participation tracking
//! - degradation detection and alert generation
//! - alert history
//!
//! Rates are kept in basis points (1/10000): a participation rate of 0.95 is
//! 9500 and an uptime of 100% is 10000.
use vstd::prelude::*;
use crate::clock::unix_time_secs;
use crate::text::{decimal, decimal_text, percent, percent_text};
use vstd::string::StringExecFns;
use crate::table::IdTable;
use crate::types::{Error, ValidatorID, id_views};

verus! {

/// Performance metrics of one validator.
pub struct ValidatorMetricsView {
    pub validator_id: Seq<u8>,
    pub snapshots_participated: u64,
    pub total_snapshots: u64,
    pub participation_rate_bps: u64,
    pub avg_response_time_ms: u64,
    pub min_response_time_ms: u64,
    pub max_response_time_ms: u64,
    pub uptime_bps: u64,
    pub last_seen: u64,
    pub consecutive_failures: u64,
    pub total_failures: u64,
}

/// Validator performance metrics.
pub struct ValidatorMetrics {
    /// Validator ID
    pub validator_id: ValidatorID,
    /// Total snapshots participated
    pub snapshots_participated: u64,
    /// Total snapshots in period
    pub total_snapshots: u64,
    /// Participation rate, in basis points (10000 is 1.0)
    pub participation_rate_bps: u64,
    /// Average response time (milliseconds)
    pub avg_response_time_ms: u64,
    /// Minimum response time (milliseconds)
    pub min_response_time_ms: u64,
    /// Maximum response time (milliseconds)
    pub max_response_time_ms: u64,
    /// Uptime, in basis points (10000 is 100%)
    pub uptime_bps: u64,
    /// Last seen timestamp
    pub last_seen: u64,
    /// Consecutive failures
    pub consecutive_failures: u64,
    /// Total failures
    pub total_failures: u64,
}

impl View for ValidatorMetrics {
    type V = ValidatorMetricsView;

    open spec fn view(&self) -> ValidatorMetricsView {
        ValidatorMetricsView {
            validator_id: self.validator_id@,
            snapshots_participated: self.snapshots_participated,
            total_snapshots: self.total_snapshots,
            participation_rate_bps: self.participation_rate_bps,
            avg_response_time_ms: self.avg_response_time_ms,
            min_response_time_ms: self.min_response_time_ms,
            max_response_time_ms: self.max_response_time_ms,
            uptime_bps: self.uptime_bps,
            last_seen: self.last_seen,
            consecutive_failures: self.consecutive_failures,
            total_failures: self.total_failures,
        }
    }
}

/// Fresh metrics, first seen at `now`.
pub open spec fn fresh_metrics(id: Seq<u8>, now: u64) -> ValidatorMetricsView {
    ValidatorMetricsView {
        validator_id: id,
        snapshots_participated: 0,
        total_snapshots: 0,
        participation_rate_bps: 10000,
        avg_response_time_ms: 0,
        min_response_time_ms: u64::MAX,
        max_response_time_ms: 0,
        uptime_bps: 10000,
        last_seen: now,
        consecutive_failures: 0,
        total_failures: 0,
    }
}

/// `p / t` in basis points, rounded down.
pub open spec fn ratio_bps(p: u64, t: u64) -> u64 {
    ((p * 10000) / (t as int)) as u64
}

/// Whether a snapshot can be recorded without a counter leaving its range.
pub open spec fn can_record(m: ValidatorMetricsView, participated: bool, response_time_ms: u64) -> bool {
    &&& m.total_snapshots < u64::MAX
    &&& m.snapshots_participated <= m.total_snapshots
    &&& participated ==> m.avg_response_time_ms * m.snapshots_participated + response_time_ms <= u64::MAX
    &&& !participated ==> m.consecutive_failures < u64::MAX && m.total_failures < u64::MAX
}

/// The metrics after recording a snapshot at `now`.
pub open spec fn metrics_after_snapshot(
    m: ValidatorMetricsView,
    participated: bool,
    response_time_ms: u64,
    now: u64,
) -> ValidatorMetricsView {
    let total = (m.total_snapshots + 1) as u64;
    if participated {
        let p = (m.snapshots_participated + 1) as u64;
        ValidatorMetricsView {
            total_snapshots: total,
            snapshots_participated: p,
            last_seen: now,
            consecutive_failures: 0,
            min_response_time_ms: if response_time_ms < m.min_response_time_ms {
                response_time_ms
            } else {
                m.min_response_time_ms
            },
            max_response_time_ms: if response_time_ms > m.max_response_time_ms {
                response_time_ms
            } else {
                m.max_response_time_ms
            },
            avg_response_time_ms: ((m.avg_response_time_ms * m.snapshots_participated + response_time_ms)
                / (p as int)) as u64,
            participation_rate_bps: ratio_bps(p, total),
            uptime_bps: ratio_bps(p, total),
            ..m
        }
    } else {
        ValidatorMetricsView {
            total_snapshots: total,
            last_seen: now,
            consecutive_failures: (m.consecutive_failures + 1) as u64,
            total_failures: (m.total_failures + 1) as u64,
            participation_rate_bps: ratio_bps(m.snapshots_participated, total),
            uptime_bps: ratio_bps(m.snapshots_participated, total),
            ..m
        }
    }
}

/// Whether a validator last seen at `last_seen` is offline at `now`.
pub open spec fn offline_at(last_seen: u64, timeout_secs: u64, now: u64) -> bool {
    now > last_seen && now - last_seen > timeout_secs
}

impl Clone for ValidatorMetrics {
    fn clone(&self) -> (r: Self)
        ensures
            r@ == self@,
    {
        ValidatorMetrics {
            validator_id: self.validator_id.copy(),
            snapshots_participated: self.snapshots_participated,
            total_snapshots: self.total_snapshots,
            participation_rate_bps: self.participation_rate_bps,
            avg_response_time_ms: self.avg_response_time_ms,
            min_response_time_ms: self.min_response_time_ms,
            max_response_time_ms: self.max_response_time_ms,
            uptime_bps: self.uptime_bps,
            last_seen: self.last_seen,
            consecutive_failures: self.consecutive_failures,
            total_failures: self.total_failures,
        }
    }
}

/// `p * 10000 / t`, rounded down, for `p <= t`.
fn bps_of(p: u64, t: u64) -> (r: u64)
    requires
        t > 0,
        p <= t,
    ensures
        r == ratio_bps(p, t),
        r <= 10000,
{
    let num = (p as u128) * 10000;
    let q = num / (t as u128);
    proof {
        assert(q <= 10000) by (nonlinear_arith)
            requires
                num == (p as u128) * 10000,
                q == num / (t as u128),
                p <= t,
                t > 0,
        ;
    }
    q as u64
}

impl ValidatorMetrics {
    /// Fresh metrics, first seen at `now`.
    pub fn new_at(validator_id: ValidatorID, now: u64) -> (r: Self)
        ensures
            r@ == fresh_metrics(validator_id@, now),
    {
        ValidatorMetrics {
            validator_id,
            snapshots_participated: 0,
            total_snapshots: 0,
            participation_rate_bps: 10000,
            avg_response_time_ms: 0,
            min_response_time_ms: u64::MAX,
            max_response_time_ms: 0,
            uptime_bps: 10000,
            last_seen: now,
            consecutive_failures: 0,
            total_failures: 0,
        }
    }

    /// Fresh metrics, first seen now (by the system clock).
    pub fn new(validator_id: ValidatorID) -> (r: Self)
        ensures
            exists|now: u64| r@ == #[trigger] fresh_metrics(validator_id@, now),
    {
        let now = unix_time_secs();
        Self::new_at(validator_id, now)
    }

    /// Record one snapshot at `now`, with the response time when the
    /// validator participated.
    pub fn record_snapshot_at(&mut self, participated: bool, response_time_ms: u64, now: u64)
        requires
            can_record(old(self)@, participated, response_time_ms),
        ensures
            final(self)@ == metrics_after_snapshot(old(self)@, participated, response_time_ms, now),
            final(self).snapshots_participated <= final(self).total_snapshots,
    {
        self.total_snapshots = self.total_snapshots + 1;
        self.last_seen = now;
        if participated {
            self.snapshots_participated = self.snapshots_participated + 1;
            self.consecutive_failures = 0;
            if response_time_ms < self.min_response_time_ms {
                self.min_response_time_ms = response_time_ms;
            }
            if response_time_ms > self.max_response_time_ms {
                self.max_response_time_ms = response_time_ms;
            }
            let prev = self.snapshots_participated - 1;
            assert(self.avg_response_time_ms * prev + response_time_ms <= u64::MAX);
            self.avg_response_time_ms = (self.avg_response_time_ms * prev + response_time_ms)
                / self.snapshots_participated;
        } else {
            self.consecutive_failures = self.consecutive_failures + 1;
            self.total_failures = self.total_failures + 1;
        }
        let rate = bps_of(self.snapshots_participated, self.total_snapshots);
        self.participation_rate_bps = rate;
        self.uptime_bps = rate;
    }

    /// Record one snapshot now (by the system clock).
    pub fn record_snapshot(&mut self, participated: bool, response_time_ms: u64)
        requires
            can_record(old(self)@, participated, response_time_ms),
        ensures
            exists|now: u64|
                final(self)@ == #[trigger] metrics_after_snapshot(
                    old(self)@,
                    participated,
                    response_time_ms,
                    now,
                ),
    {
        let now = unix_time_secs();
        self.record_snapshot_at(participated, response_time_ms, now)
    }

    /// Whether participation is below `threshold_bps`.
    pub fn is_performance_degraded(&self, threshold_bps: u64) -> (r: bool)
        ensures
            r == (self.participation_rate_bps < threshold_bps),
    {
        self.participation_rate_bps < threshold_bps
    }

    /// Whether the validator has not been seen for more than `timeout_secs`
    /// at `now` (never, while the clock reads before the last sighting).
    pub fn is_offline_at(&self, timeout_secs: u64, now: u64) -> (r: bool)
        ensures
            r == offline_at(self.last_seen, timeout_secs, now),
    {
        now > self.last_seen && now - self.last_seen > timeout_secs
    }

    /// Whether the validator is offline now (by the system clock).
    pub fn is_offline(&self, timeout_secs: u64) -> (r: bool)
        ensures
            exists|now: u64| r == #[trigger] offline_at(self.last_seen, timeout_secs, now),
    {
        self.is_offline_at(timeout_secs, unix_time_secs())
    }

    /// Reset the period's metrics; uptime, last sighting and total failures
    /// are kept.
    pub fn reset_period(&mut self)
        ensures
            final(self)@ == (ValidatorMetricsView {
                snapshots_participated: 0,
                total_snapshots: 0,
                participation_rate_bps: 10000,
                avg_response_time_ms: 0,
                min_response_time_ms: u64::MAX,
                max_response_time_ms: 0,
                consecutive_failures: 0,
                ..old(self)@
            }),
    {
        self.snapshots_participated = 0;
        self.total_snapshots = 0;
        self.participation_rate_bps = 10000;
        self.avg_response_time_ms = 0;
        self.min_response_time_ms = u64::MAX;
        self.max_response_time_ms = 0;
        self.consecutive_failures = 0;
    }
}

/// Alert type.
#[derive(Debug, Clone, Copy, PartialEq, Eq, Structural, Hash)]
pub enum AlertType {
    /// Low participation rate
    LowParticipation,
    /// High response time
    HighResponseTime,
    /// Validator offline
    ValidatorOffline,
    /// Consecutive failures
    ConsecutiveFailures,
    /// Uptime degradation
    UptimeDegradation,
}

impl AlertType {
    /// The alert type's name.
    pub fn to_string(&self) -> (r: String)
        ensures
            r@ == match *self {
                AlertType::LowParticipation => "LowParticipation"@,
                AlertType::HighResponseTime => "HighResponseTime"@,
                AlertType::ValidatorOffline => "ValidatorOffline"@,
                AlertType::ConsecutiveFailures => "ConsecutiveFailures"@,
                AlertType::UptimeDegradation => "UptimeDegradation"@,
            },
    {
        match self {
            AlertType::LowParticipation => "LowParticipation".to_owned(),
            AlertType::HighResponseTime => "HighResponseTime".to_owned(),
            AlertType::ValidatorOffline => "ValidatorOffline".to_owned(),
            AlertType::ConsecutiveFailures => "ConsecutiveFailures".to_owned(),
            AlertType::UptimeDegradation => "UptimeDegradation".to_owned(),
        }
    }
}

/// Alert severity, in ascending order.
#[derive(Debug, Clone, Copy, PartialEq, Eq, Structural, PartialOrd, Ord, Hash)]
pub enum AlertSeverity {
    /// Info level
    Info,
    /// Warning level
    Warning,
    /// Critical level
    Critical,
}

impl AlertSeverity {
    /// The severity's name.
    pub fn to_string(&self) -> (r: String)
        ensures
            r@ == match *self {
                AlertSeverity::Info => "Info"@,
                AlertSeverity::Warning => "Warning"@,
                AlertSeverity::Critical => "Critical"@,
            },
    {
        match self {
            AlertSeverity::Info => "Info".to_owned(),
            AlertSeverity::Warning => "Warning".to_owned(),
            AlertSeverity::Critical => "Critical".to_owned(),
        }
    }
}

/// The abstract content of a performance alert.
pub struct PerformanceAlertView {
    pub validator_id: Seq<u8>,
    pub alert_type: AlertType,
    pub message: Seq<char>,
    pub severity: AlertSeverity,
    pub timestamp: u64,
    pub metric_value: u64,
    pub threshold_value: u64,
}

/// Performance alert. The metric and threshold are in the alert's unit:
/// basis points for participation, milliseconds for response time, seconds
/// for offline time, a count for failures.
pub struct PerformanceAlert {
    /// Validator ID
    pub validator_id: ValidatorID,
    /// Alert type
    pub alert_type: AlertType,
    /// Alert message
    pub message: String,
    /// Severity level
    pub severity: AlertSeverity,
    /// Timestamp
    pub timestamp: u64,
    /// Metric value
    pub metric_value: u64,
    /// Threshold value
    pub threshold_value: u64,
}

impl View for PerformanceAlert {
    type V = PerformanceAlertView;

    open spec fn view(&self) -> PerformanceAlertView {
        PerformanceAlertView {
            validator_id: self.validator_id@,
            alert_type: self.alert_type,
            message: self.message@,
            severity: self.severity,
            timestamp: self.timestamp,
            metric_value: self.metric_value,
            threshold_value: self.threshold_value,
        }
    }
}

impl Clone for PerformanceAlert {
    fn clone(&self) -> (r: Self)
        ensures
            r@ == self@,
    {
        PerformanceAlert {
            validator_id: self.validator_id.copy(),
            alert_type: self.alert_type,
            message: self.message.clone(),
            severity: self.severity,
            timestamp: self.timestamp,
            metric_value: self.metric_value,
            threshold_value: self.threshold_value,
        }
    }
}

/// The views of a sequence of alerts.
pub open spec fn alert_views(s: Seq<PerformanceAlert>) -> Seq<PerformanceAlertView> {
    s.map_values(|a: PerformanceAlert| a@)
}

/// Monitoring configuration.
#[derive(Debug, Clone, Copy, PartialEq, Eq, Structural)]
pub struct MonitoringConfig {
    /// Participation rate threshold for a warning, in basis points
    pub participation_warning_threshold_bps: u64,
    /// Participation rate threshold for a critical alert, in basis points
    pub participation_critical_threshold_bps: u64,
    /// Response time threshold (milliseconds)
    pub response_time_threshold_ms: u64,
    /// Offline timeout (seconds)
    pub offline_timeout_secs: u64,
    /// Consecutive failures threshold
    pub consecutive_failures_threshold: u64,
}

impl Default for MonitoringConfig {
    fn default() -> (r: Self)
        ensures
            r == (MonitoringConfig {
                participation_warning_threshold_bps: 9500,
                participation_critical_threshold_bps: 9000,
                response_time_threshold_ms: 1000,
                offline_timeout_secs: 300,
                consecutive_failures_threshold: 10,
            }),
    {
        MonitoringConfig {
            participation_warning_threshold_bps: 9500,
            participation_critical_threshold_bps: 9000,
            response_time_threshold_ms: 1000,
            offline_timeout_secs: 300,
            consecutive_failures_threshold: 10,
        }
    }
}

/// The severity's prefix in a message.
pub open spec fn severity_prefix(severity: AlertSeverity) -> Seq<char> {
    match severity {
        AlertSeverity::Critical => "Critical: "@,
        AlertSeverity::Warning => "Warning: "@,
        AlertSeverity::Info => "Info: "@,
    }
}

/// The message of an alert raised by the monitor, from its type, severity,
/// metric and threshold (rates are shown as percentages with two
/// decimals).
pub open spec fn alert_text(alert_type: AlertType, severity: AlertSeverity, metric: u64, threshold: u64) -> Seq<
    char,
> {
    match alert_type {
        AlertType::LowParticipation => severity_prefix(severity) + "Participation rate "@ + percent_text(metric)
            + "% below threshold "@ + percent_text(threshold) + "%"@,
        AlertType::HighResponseTime => "Warning: Average response time "@ + decimal_text(metric as nat)
            + "ms exceeds threshold "@ + decimal_text(threshold as nat) + "ms"@,
        AlertType::ValidatorOffline => "Critical: Validator offline for more than "@ + decimal_text(
            threshold as nat,
        ) + " seconds"@,
        AlertType::ConsecutiveFailures => "Warning: "@ + decimal_text(metric as nat)
            + " consecutive failures (threshold: "@ + decimal_text(threshold as nat) + ")"@,
        AlertType::UptimeDegradation => severity_prefix(severity) + "Uptime "@ + percent_text(metric)
            + "% below threshold "@ + percent_text(threshold) + "%"@,
    }
}

/// The message of an alert raised by the monitor.
fn alert_message(alert_type: AlertType, severity: AlertSeverity, metric: u64, threshold: u64) -> (r: String)
    ensures
        r@ == alert_text(alert_type, severity, metric, threshold),
{
    let mut m = match severity {
        AlertSeverity::Critical => "Critical: ".to_owned(),
        AlertSeverity::Warning => "Warning: ".to_owned(),
        AlertSeverity::Info => "Info: ".to_owned(),
    };
    match alert_type {
        AlertType::LowParticipation => {
            m.append("Participation rate ");
            m.append(percent(metric).as_str());
            m.append("% below threshold ");
            m.append(percent(threshold).as_str());
            m.append("%");
            m
        },
        AlertType::HighResponseTime => {
            let mut t = "Warning: Average response time ".to_owned();
            t.append(decimal(metric).as_str());
            t.append("ms exceeds threshold ");
            t.append(decimal(threshold).as_str());
            t.append("ms");
            t
        },
        AlertType::ValidatorOffline => {
            let mut t = "Critical: Validator offline for more than ".to_owned();
            t.append(decimal(threshold).as_str());
            t.append(" seconds");
            t
        },
        AlertType::ConsecutiveFailures => {
            let mut t = "Warning: ".to_owned();
            t.append(decimal(metric).as_str());
            t.append(" consecutive failures (threshold: ");
            t.append(decimal(threshold).as_str());
            t.append(")");
            t
        },
        AlertType::UptimeDegradation => {
            m.append("Uptime ");
            m.append(percent(metric).as_str());
            m.append("% below threshold ");
            m.append(percent(threshold).as_str());
            m.append("%");
            m
        },
    }
}

/// An alert about `id`.
pub open spec fn alert(
    id: Seq<u8>,
    alert_type: AlertType,
    severity: AlertSeverity,
    now: u64,
    metric_value: u64,
    threshold_value: u64,
) -> PerformanceAlertView {
    PerformanceAlertView {
        validator_id: id,
        alert_type,
        message: alert_text(alert_type, severity, metric_value, threshold_value),
        severity,
        timestamp: now,
        metric_value,
        threshold_value,
    }
}

/// The alerts raised at `now` for metrics `m`, in the order they are
/// checked: participation, response time, offline, consecutive failures.
pub open spec fn alerts_for(
    m: ValidatorMetricsView,
    c: MonitoringConfig,
    now: u64,
) -> Seq<PerformanceAlertView> {
    let id = m.validator_id;
    let participation = if m.participation_rate_bps < c.participation_critical_threshold_bps {
        seq![alert(id, AlertType::LowParticipation, AlertSeverity::Critical, now, m.participation_rate_bps, c.participation_critical_threshold_bps)]
    } else if m.participation_rate_bps < c.participation_warning_threshold_bps {
        seq![alert(id, AlertType::LowParticipation, AlertSeverity::Warning, now, m.participation_rate_bps, c.participation_warning_threshold_bps)]
    } else {
        Seq::empty()
    };
    let response = if m.avg_response_time_ms > c.response_time_threshold_ms {
        seq![alert(id, AlertType::HighResponseTime, AlertSeverity::Warning, now, m.avg_response_time_ms, c.response_time_threshold_ms)]
    } else {
        Seq::empty()
    };
    let offline = if offline_at(m.last_seen, c.offline_timeout_secs, now) {
        seq![alert(id, AlertType::ValidatorOffline, AlertSeverity::Critical, now, (now - m.last_seen) as u64, c.offline_timeout_secs)]
    } else {
        Seq::empty()
    };
    let failures = if m.consecutive_failures >= c.consecutive_failures_threshold {
        seq![alert(id, AlertType::ConsecutiveFailures, AlertSeverity::Warning, now, m.consecutive_failures, c.consecutive_failures_threshold)]
    } else {
        Seq::empty()
    };
    participation + response + offline + failures
}

/// Overall status.
#[derive(Debug, Clone, Copy, PartialEq, Eq, Structural, Hash)]
pub enum Status {
    /// Healthy
    Healthy,
    /// Warning
    Warning,
    /// Critical
    Critical,
}

impl Status {
    /// The status's name.
    pub fn to_string(&self) -> (r: String)
        ensures
            r@ == match *self {
                Status::Healthy => "Healthy"@,
                Status::Warning => "Warning"@,
                Status::Critical => "Critical"@,
            },
    {
        match self {
            Status::Healthy => "Healthy".to_owned(),
            Status::Warning => "Warning".to_owned(),
            Status::Critical => "Critical".to_owned(),
        }
    }
}

/// Health status of the monitored validators.
#[derive(Debug, Clone, Copy, PartialEq, Eq, Structural)]
pub struct HealthStatus {
    /// Overall status
    pub status: Status,
    /// Total validators
    pub total_validators: usize,
    /// Validators with a critical alert
    pub critical_validators: usize,
    /// Validators with a warning alert
    pub warning_validators: usize,
    /// Mean participation rate, in basis points (rounded down)
    pub average_participation_bps: u64,
    /// Mean uptime, in basis points (rounded down)
    pub average_uptime_bps: u64,
    /// Mean of the average response times, in milliseconds (rounded down)
    pub average_response_time_ms: u64,
}

/// Identifiers carried by alerts of the given severity, each once, in order
/// of first appearance.
pub open spec fn ids_with_severity(s: Seq<PerformanceAlertView>, sev: AlertSeverity) -> Seq<Seq<u8>>
    decreases s.len(),
{
    if s.len() == 0 {
        Seq::empty()
    } else {
        let prev = ids_with_severity(s.drop_last(), sev);
        if s.last().severity == sev && !prev.contains(s.last().validator_id) {
            prev.push(s.last().validator_id)
        } else {
            prev
        }
    }
}

/// Alerts about one validator, in order.
pub open spec fn alerts_about(s: Seq<PerformanceAlertView>, id: Seq<u8>) -> Seq<PerformanceAlertView>
    decreases s.len(),
{
    if s.len() == 0 {
        Seq::empty()
    } else if s.last().validator_id == id {
        alerts_about(s.drop_last(), id).push(s.last())
    } else {
        alerts_about(s.drop_last(), id)
    }
}

/// The sum of a per-record quantity over metrics.
pub open spec fn metrics_sum(s: Seq<ValidatorMetricsView>, f: spec_fn(ValidatorMetricsView) -> u64) -> int
    decreases s.len(),
{
    if s.len() == 0 {
        0
    } else {
        metrics_sum(s.drop_last(), f) + f(s.last()) as int
    }
}

/// The mean of a per-record quantity, rounded down (0 with no records).
pub open spec fn metrics_mean(s: Seq<ValidatorMetricsView>, f: spec_fn(ValidatorMetricsView) -> u64) -> int {
    if s.len() == 0 {
        0
    } else {
        metrics_sum(s, f) / (s.len() as int)
    }
}

/// Validator monitor.
pub struct ValidatorMonitor {
    config: MonitoringConfig,
    metrics: IdTable<ValidatorMetrics>,
    alerts: Vec<PerformanceAlert>,
    alert_history: Vec<PerformanceAlert>,
}

impl ValidatorMonitor {
    /// The metrics of the monitored validators, in registration order.
    pub closed spec fn records(&self) -> Seq<ValidatorMetricsView> {
        self.metrics.pairs().map_values(|e: (Seq<u8>, ValidatorMetrics)| e.1@)
    }

    /// The metrics by validator.
    pub closed spec fn metrics_map(&self) -> Map<Seq<u8>, ValidatorMetricsView> {
        self.metrics.map().map_values(|m: ValidatorMetrics| m@)
    }

    /// The active alerts, oldest first.
    pub closed spec fn active_alerts(&self) -> Seq<PerformanceAlertView> {
        alert_views(self.alerts@)
    }

    /// Every alert ever raised, oldest first.
    pub closed spec fn history(&self) -> Seq<PerformanceAlertView> {
        alert_views(self.alert_history@)
    }

    /// The configuration.
    pub closed spec fn cfg(&self) -> MonitoringConfig {
        self.config
    }

    /// One record per validator, filed under its identifier, with
    /// participation never above the snapshots counted.
    pub closed spec fn wf(&self) -> bool {
        &&& self.metrics.wf()
        &&& forall|i: int|
            0 <= i < self.metrics.pairs().len() ==> #[trigger] self.metrics.pairs()[i].1.validator_id@
                == self.metrics.pairs()[i].0
        &&& forall|i: int|
            0 <= i < self.metrics.pairs().len() ==> (#[trigger] self.metrics.pairs()[i]).1.snapshots_participated
                <= self.metrics.pairs()[i].1.total_snapshots
    }

    /// A monitor with no validators and no alerts.
    pub fn new(config: MonitoringConfig) -> (r: Self)
        ensures
            r.wf(),
            r.cfg() == config,
            r.records() == Seq::<ValidatorMetricsView>::empty(),
            r.active_alerts() == Seq::<PerformanceAlertView>::empty(),
            r.history() == Seq::<PerformanceAlertView>::empty(),
    {
        let r = Self { config, metrics: IdTable::new(), alerts: Vec::new(), alert_history: Vec::new() };
        assert(r.records() =~= Seq::<ValidatorMetricsView>::empty());
        assert(r.active_alerts() =~= Seq::<PerformanceAlertView>::empty());
        assert(r.history() =~= Seq::<PerformanceAlertView>::empty());
        r
    }

    /// A monitor with the default configuration.
    pub fn default() -> (r: Self)
        ensures
            r.wf(),
            r.records() == Seq::<ValidatorMetricsView>::empty(),
            r.active_alerts() == Seq::<PerformanceAlertView>::empty(),
    {
        Self::new(MonitoringConfig::default())
    }

    /// Start monitoring a validator at `now`; registering again starts its
    /// metrics afresh.
    pub fn register_validator_at(&mut self, validator_id: ValidatorID, now: u64)
        requires
            old(self).wf(),
        ensures
            final(self).wf(),
            final(self).cfg() == old(self).cfg(),
            final(self).active_alerts() == old(self).active_alerts(),
            final(self).history() == old(self).history(),
            final(self).metrics_map() == old(self).metrics_map().insert(
                validator_id@,
                fresh_metrics(validator_id@, now),
            ),
    {
        let m = ValidatorMetrics::new_at(validator_id.copy(), now);
        let ghost mv = m@;
        match self.metrics.find(&validator_id) {
            Some(i) => {
                let ghost p0 = self.metrics.pairs();
                self.metrics.set_value(i, m);
                proof {
                    assert forall|j: int| 0 <= j < self.metrics.pairs().len() implies #[trigger] self.metrics.pairs()[j].1.validator_id@
                        == self.metrics.pairs()[j].0 && self.metrics.pairs()[j].1.snapshots_participated <= self.metrics.pairs()[j].1.total_snapshots by {
                        if j != i {
                            assert(self.metrics.pairs()[j] == p0[j]);
                        }
                    }
                    assert forall|j: int| 0 <= j < self.metrics.pairs().len() implies (#[trigger] self.metrics.pairs()[j]).1.snapshots_participated
                        <= self.metrics.pairs()[j].1.total_snapshots by {
                        if j != i {
                            assert(self.metrics.pairs()[j] == p0[j]);
                        }
                    }
                }
            },
            None => {
                let ghost p0 = self.metrics.pairs();
                self.metrics.push(validator_id, m);
                proof {
                    assert forall|j: int| 0 <= j < self.metrics.pairs().len() implies #[trigger] self.metrics.pairs()[j].1.validator_id@
                        == self.metrics.pairs()[j].0 by {
                        if j < p0.len() {
                            assert(self.metrics.pairs()[j] == p0[j]);
                        }
                    }
                    assert forall|j: int| 0 <= j < self.metrics.pairs().len() implies (#[trigger] self.metrics.pairs()[j]).1.snapshots_participated
                        <= self.metrics.pairs()[j].1.total_snapshots by {
                        if j < p0.len() {
                            assert(self.metrics.pairs()[j] == p0[j]);
                        }
                    }
                }
            },
        }
        assert(self.metrics_map() =~= old(self).metrics_map().insert(validator_id@, mv));
    }

    /// Start monitoring a validator now (by the system clock).
    pub fn register_validator(&mut self, validator_id: ValidatorID)
        requires
            old(self).wf(),
        ensures
            final(self).wf(),
            final(self).cfg() == old(self).cfg(),
            final(self).active_alerts() == old(self).active_alerts(),
            final(self).history() == old(self).history(),
            exists|now: u64|
                final(self).metrics_map() == old(self).metrics_map().insert(
                    validator_id@,
                    #[trigger] fresh_metrics(validator_id@, now),
                ),
    {
        let now = unix_time_secs();
        self.register_validator_at(validator_id, now)
    }

    /// Record a validator's snapshot at `now` and raise the alerts its new
    /// metrics call for.
    pub fn record_snapshot_at(
        &mut self,
        validator_id: &ValidatorID,
        participated: bool,
        response_time_ms: u64,
        now: u64,
    ) -> (r: Result<(), Error>)
        requires
            old(self).wf(),
            old(self).metrics_map().dom().contains(validator_id@) ==> can_record(
                old(self).metrics_map()[validator_id@],
                participated,
                response_time_ms,
            ),
        ensures
            final(self).wf(),
            final(self).cfg() == old(self).cfg(),
            r is Ok <==> old(self).metrics_map().dom().contains(validator_id@),
            r is Err ==> r->Err_0 == Error::NotFound && final(self).metrics_map() == old(self).metrics_map()
                && final(self).active_alerts() == old(self).active_alerts() && final(self).history() == old(self).history(),
            r is Ok ==> {
                let m = metrics_after_snapshot(
                    old(self).metrics_map()[validator_id@],
                    participated,
                    response_time_ms,
                    now,
                );
                &&& final(self).metrics_map() == old(self).metrics_map().insert(validator_id@, m)
                &&& final(self).active_alerts() == old(self).active_alerts() + alerts_for(m, old(self).cfg(), now)
                &&& final(self).history() == old(self).history() + alerts_for(m, old(self).cfg(), now)
            },
    {
        let i = match self.metrics.find(validator_id) {
            Some(i) => i,
            None => {
                return Err(Error::NotFound);
            },
        };
        let ghost p0 = self.metrics.pairs();
        proof {
            self.metrics.lemma_at(i as int);
        }
        {
            let m = self.metrics.value_mut(i);
            m.record_snapshot_at(participated, response_time_ms, now);
        }
        proof {
            let v = self.metrics.pairs()[i as int].1;
            assert(self.metrics.pairs() =~= p0.update(i as int, (p0[i as int].0, v)));
            crate::table::lemma_seq_to_map_update(p0, i as int, v);
            assert forall|j: int| 0 <= j < self.metrics.pairs().len() implies #[trigger] self.metrics.pairs()[j].1.validator_id@
                == self.metrics.pairs()[j].0 by {
                if j != i {
                    assert(self.metrics.pairs()[j] == p0[j]);
                }
            }
            assert forall|j: int| 0 <= j < self.metrics.pairs().len() implies (#[trigger] self.metrics.pairs()[j]).1.snapshots_participated
                <= self.metrics.pairs()[j].1.total_snapshots by {
                if j != i {
                    assert(self.metrics.pairs()[j] == p0[j]);
                }
            }
            assert(self.metrics_map() =~= old(self).metrics_map().insert(validator_id@, v@));
        }
        self.check_alerts_at(i, now);
        Ok(())
    }

    /// Record a validator's snapshot now (by the system clock).
    pub fn record_snapshot(&mut self, validator_id: &ValidatorID, participated: bool, response_time_ms: u64) -> (r:
        Result<(), Error>)
        requires
            old(self).wf(),
            old(self).metrics_map().dom().contains(validator_id@) ==> can_record(
                old(self).metrics_map()[validator_id@],
                participated,
                response_time_ms,
            ),
        ensures
            final(self).wf(),
            final(self).cfg() == old(self).cfg(),
            r is Ok <==> old(self).metrics_map().dom().contains(validator_id@),
            r is Err ==> r->Err_0 == Error::NotFound && final(self).metrics_map() == old(self).metrics_map(),
            r is Ok ==> exists|now: u64|
                {
                    let m = #[trigger] metrics_after_snapshot(
                        old(self).metrics_map()[validator_id@],
                        participated,
                        response_time_ms,
                        now,
                    );
                    &&& final(self).metrics_map() == old(self).metrics_map().insert(validator_id@, m)
                    &&& final(self).active_alerts() == old(self).active_alerts() + alerts_for(m, old(self).cfg(), now)
                    &&& final(self).history() == old(self).history() + alerts_for(m, old(self).cfg(), now)
                },
    {
        let now = unix_time_secs();
        self.record_snapshot_at(validator_id, participated, response_time_ms, now)
    }

    /// Raise, at `now`, the alerts that the metrics at position `i` call for.
    fn check_alerts_at(&mut self, i: usize, now: u64)
        requires
            i < old(self).metrics.pairs().len(),
        ensures
            final(self).metrics == old(self).metrics,
            final(self).config == old(self).config,
            final(self).active_alerts() == old(self).active_alerts() + alerts_for(
                old(self).metrics.pairs()[i as int].1@,
                old(self).config,
                now,
            ),
            final(self).history() == old(self).history() + alerts_for(
                old(self).metrics.pairs()[i as int].1@,
                old(self).config,
                now,
            ),
    {
        let m = self.metrics.value_at(i);
        let id = &m.validator_id;
        let c = self.config;
        let ghost mv = m@;
        let mut raised: Vec<PerformanceAlert> = Vec::new();
        if m.participation_rate_bps < c.participation_critical_threshold_bps {
            raised.push(PerformanceAlert {
                validator_id: id.copy(),
                alert_type: AlertType::LowParticipation,
                message: alert_message(
                    AlertType::LowParticipation,
                    AlertSeverity::Critical,
                    m.participation_rate_bps,
                    c.participation_critical_threshold_bps,
                ),
                severity: AlertSeverity::Critical,
                timestamp: now,
                metric_value: m.participation_rate_bps,
                threshold_value: c.participation_critical_threshold_bps,
            });
        } else if m.participation_rate_bps < c.participation_warning_threshold_bps {
            raised.push(PerformanceAlert {
                validator_id: id.copy(),
                alert_type: AlertType::LowParticipation,
                message: alert_message(
                    AlertType::LowParticipation,
                    AlertSeverity::Warning,
                    m.participation_rate_bps,
                    c.participation_warning_threshold_bps,
                ),
                severity: AlertSeverity::Warning,
                timestamp: now,
                metric_value: m.participation_rate_bps,
                threshold_value: c.participation_warning_threshold_bps,
            });
        }
        if m.avg_response_time_ms > c.response_time_threshold_ms {
            raised.push(PerformanceAlert {
                validator_id: id.copy(),
                alert_type: AlertType::HighResponseTime,
                message: alert_message(
                    AlertType::HighResponseTime,
                    AlertSeverity::Warning,
                    m.avg_response_time_ms,
                    c.response_time_threshold_ms,
                ),
                severity: AlertSeverity::Warning,
                timestamp: now,
                metric_value: m.avg_response_time_ms,
                threshold_value: c.response_time_threshold_ms,
            });
        }
        if m.is_offline_at(c.offline_timeout_secs, now) {
            raised.push(PerformanceAlert {
                validator_id: id.copy(),
                alert_type: AlertType::ValidatorOffline,
                message: alert_message(
                    AlertType::ValidatorOffline,
                    AlertSeverity::Critical,
                    now - m.last_seen,
                    c.offline_timeout_secs,
                ),
                severity: AlertSeverity::Critical,
                timestamp: now,
                metric_value: now - m.last_seen,
                threshold_value: c.offline_timeout_secs,
            });
        }
        if m.consecutive_failures >= c.consecutive_failures_threshold {
            raised.push(PerformanceAlert {
                validator_id: id.copy(),
                alert_type: AlertType::ConsecutiveFailures,
                message: alert_message(
                    AlertType::ConsecutiveFailures,
                    AlertSeverity::Warning,
                    m.consecutive_failures,
                    c.consecutive_failures_threshold,
                ),
                severity: AlertSeverity::Warning,
                timestamp: now,
                metric_value: m.consecutive_failures,
                threshold_value: c.consecutive_failures_threshold,
            });
        }
        assert(alert_views(raised@) =~= alerts_for(mv, c, now));
        let mut k: usize = 0;
        while k < raised.len()
            invariant
                self.metrics == old(self).metrics,
                self.config == old(self).config,
                k <= raised@.len(),
                alert_views(raised@) == alerts_for(mv, c, now),
                mv == old(self).metrics.pairs()[i as int].1@,
                c == old(self).config,
                self.active_alerts() == old(self).active_alerts() + alert_views(raised@).take(k as int),
                self.history() == old(self).history() + alert_views(raised@).take(k as int),
            decreases raised@.len() - k,
        {
            let ghost a0 = self.alerts@;
            let ghost h0 = self.alert_history@;
            self.alerts.push(raised[k].clone());
            self.alert_history.push(raised[k].clone());
            proof {
                assert(alert_views(raised@).take(k + 1) =~= alert_views(raised@).take(k as int).push(raised@[k as int]@));
                assert(alert_views(self.alerts@) =~= alert_views(a0).push(raised@[k as int]@));
                assert(alert_views(self.alert_history@) =~= alert_views(h0).push(raised@[k as int]@));
            }
            k = k + 1;
        }
        assert(alert_views(raised@).take(k as int) =~= alert_views(raised@));
    }

    /// A copy of a validator's metrics.
    pub fn get_metrics(&self, validator_id: &ValidatorID) -> (r: Option<ValidatorMetrics>)
        requires
            self.wf(),
        ensures
            r is None <==> !self.metrics_map().dom().contains(validator_id@),
            r matches Some(m) ==> m@ == self.metrics_map()[validator_id@],
    {
        match self.metrics.get(validator_id) {
            Some(m) => Some(m.clone()),
            None => None,
        }
    }

    /// Copies of all metrics, in registration order.
    pub fn get_all_metrics(&self) -> (r: Vec<ValidatorMetrics>)
        ensures
            r@.map_values(|m: ValidatorMetrics| m@) == self.records(),
    {
        let mut r: Vec<ValidatorMetrics> = Vec::new();
        let mut i: usize = 0;
        while i < self.metrics.len()
            invariant
                i <= self.records().len(),
                self.records().len() == self.metrics.pairs().len(),
                r@.map_values(|m: ValidatorMetrics| m@) == self.records().take(i as int),
            decreases self.records().len() - i,
        {
            let m = self.metrics.value_at(i);
            let ghost r0 = r@;
            r.push(m.clone());
            proof {
                assert(self.records()[i as int] == m@);
                assert(r@.map_values(|m: ValidatorMetrics| m@) =~= r0.map_values(|m: ValidatorMetrics| m@).push(m@));
                assert(self.records().take(i + 1) =~= self.records().take(i as int).push(m@));
            }
            i = i + 1;
        }
        assert(self.records().take(i as int) =~= self.records());
        r
    }

    /// A copy of the active alerts.
    pub fn get_active_alerts(&self) -> (r: Vec<PerformanceAlert>)
        ensures
            alert_views(r@) == self.active_alerts(),
    {
        copy_alerts(&self.alerts)
    }

    /// Active alerts about one validator.
    pub fn get_validator_alerts(&self, validator_id: &ValidatorID) -> (r: Vec<PerformanceAlert>)
        ensures
            alert_views(r@) == alerts_about(self.active_alerts(), validator_id@),
    {
        alerts_of(&self.alerts, validator_id)
    }

    /// Clear the active alerts (the history keeps them).
    pub fn clear_alerts(&mut self)
        ensures
            final(self).active_alerts() == Seq::<PerformanceAlertView>::empty(),
            final(self).history() == old(self).history(),
            final(self).records() == old(self).records(),
            final(self).metrics_map() == old(self).metrics_map(),
            final(self).cfg() == old(self).cfg(),
            final(self).wf() == old(self).wf(),
    {
        self.alerts.clear();
        assert(self.active_alerts() =~= Seq::<PerformanceAlertView>::empty());
    }

    /// A copy of the alert history.
    pub fn get_alert_history(&self) -> (r: Vec<PerformanceAlert>)
        ensures
            alert_views(r@) == self.history(),
    {
        copy_alerts(&self.alert_history)
    }

    /// The alert history of one validator.
    pub fn get_validator_alert_history(&self, validator_id: &ValidatorID) -> (r: Vec<PerformanceAlert>)
        ensures
            alert_views(r@) == alerts_about(self.history(), validator_id@),
    {
        alerts_of(&self.alert_history, validator_id)
    }

    /// Validators with an active critical alert, each once.
    pub fn get_critical_validators(&self) -> (r: Vec<ValidatorID>)
        ensures
            id_views(r@) == ids_with_severity(self.active_alerts(), AlertSeverity::Critical),
    {
        ids_of_severity(&self.alerts, AlertSeverity::Critical)
    }

    /// Validators with an active warning alert, each once.
    pub fn get_warning_validators(&self) -> (r: Vec<ValidatorID>)
        ensures
            id_views(r@) == ids_with_severity(self.active_alerts(), AlertSeverity::Warning),
    {
        ids_of_severity(&self.alerts, AlertSeverity::Warning)
    }

    /// Replace the configuration.
    pub fn update_config(&mut self, config: MonitoringConfig)
        ensures
            final(self).cfg() == config,
            final(self).records() == old(self).records(),
            final(self).metrics_map() == old(self).metrics_map(),
            final(self).active_alerts() == old(self).active_alerts(),
            final(self).history() == old(self).history(),
            final(self).wf() == old(self).wf(),
    {
        self.config = config;
    }

    /// The configuration.
    pub fn get_config(&self) -> (r: &MonitoringConfig)
        ensures
            *r == self.cfg(),
    {
        &self.config
    }

    /// Number of monitored validators.
    pub fn validator_count(&self) -> (r: usize)
        ensures
            r == self.records().len(),
    {
        self.metrics.len()
    }

    /// Mean of a per-record quantity over the monitored validators.
    fn mean_of(&self, which: u8) -> (r: u64)
        requires
            which < 3,
            self.wf(),
        ensures
            r == metrics_mean(self.records(), quantity(which)),
    {
        let n = self.metrics.len();
        if n == 0 {
            return 0;
        }
        let ghost f = quantity(which);
        let mut sum: u128 = 0;
        let mut i: usize = 0;
        while i < n
            invariant
                n == self.records().len(),
                f == quantity(which),
                which < 3,
                i <= n,
                sum == metrics_sum(self.records().take(i as int), f),
                sum <= i * (u64::MAX as int),
            decreases n - i,
        {
            let m = self.metrics.value_at(i);
            proof {
                assert(self.records().take(i + 1).drop_last() =~= self.records().take(i as int));
                assert(self.records()[i as int] == m@);
            }
            let v = if which == 0 {
                m.participation_rate_bps
            } else if which == 1 {
                m.uptime_bps
            } else {
                m.avg_response_time_ms
            };
            assert(v == f(m@));
            assert(i * (u64::MAX as int) + (u64::MAX as int) == (i + 1) * (u64::MAX as int)) by (nonlinear_arith);
            assert((i + 1) * (u64::MAX as int) <= (usize::MAX as int) * (u64::MAX as int)) by (nonlinear_arith)
                requires i < usize::MAX;
            assert((usize::MAX as int) * (u64::MAX as int) < u128::MAX) by (nonlinear_arith);
            sum = sum + v as u128;
            i = i + 1;
        }
        assert(self.records().take(i as int) =~= self.records());
        let q = sum / (n as u128);
        assert(q <= u64::MAX) by (nonlinear_arith)
            requires
                q == sum / (n as u128),
                sum <= n * (u64::MAX as int),
                n > 0,
        ;
        q as u64
    }

    /// Mean participation rate in basis points (0 with no validators).
    pub fn get_average_participation_bps(&self) -> (r: u64)
        requires
            self.wf(),
        ensures
            r == metrics_mean(self.records(), quantity(0)),
    {
        self.mean_of(0)
    }

    /// Mean uptime in basis points (0 with no validators).
    pub fn get_average_uptime_bps(&self) -> (r: u64)
        requires
            self.wf(),
        ensures
            r == metrics_mean(self.records(), quantity(1)),
    {
        self.mean_of(1)
    }

    /// Mean of the validators' average response times in milliseconds (0 with
    /// no validators).
    pub fn get_average_response_time(&self) -> (r: u64)
        requires
            self.wf(),
        ensures
            r == metrics_mean(self.records(), quantity(2)),
    {
        self.mean_of(2)
    }

    /// Reset every validator's period metrics and clear the active alerts.
    pub fn reset_period(&mut self)
        requires
            old(self).wf(),
        ensures
            final(self).wf(),
            final(self).cfg() == old(self).cfg(),
            final(self).history() == old(self).history(),
            final(self).active_alerts() == Seq::<PerformanceAlertView>::empty(),
            final(self).records() == old(self).records().map_values(|m: ValidatorMetricsView| reset_metrics(m)),
    {
        let n = self.metrics.len();
        let mut i: usize = 0;
        let ghost orig = self.records();
        let ghost orig_pairs = self.metrics.pairs();
        while i < n
            invariant
                n == orig.len(),
                orig_pairs.len() == n,
                orig == old(self).records(),
                orig_pairs == old(self).metrics.pairs(),
                self.metrics.pairs().len() == n,
                self.config == old(self).config,
                self.alerts == old(self).alerts,
                self.alert_history == old(self).alert_history,
                i <= n,
                forall|j: int| 0 <= j < n ==> (#[trigger] self.metrics.pairs()[j]).0 == orig_pairs[j].0,
                forall|j: int| 0 <= j < n ==> (#[trigger] self.metrics.pairs()[j]).1.validator_id@ == orig_pairs[j].1.validator_id@,
                forall|j: int| 0 <= j < i ==> #[trigger] self.records()[j] == reset_metrics(orig[j]),
                forall|j: int| i <= j < n ==> #[trigger] self.records()[j] == orig[j],
            decreases n - i,
        {
            let ghost mid = self.metrics.pairs();
            let ghost mid_recs = self.records();
            assert(mid[i as int].1@ == mid_recs[i as int]);
            assert(mid_recs[i as int] == orig[i as int]);
            {
                let m = self.metrics.value_mut(i);
                m.reset_period();
            }
            proof {
                let v = self.metrics.pairs()[i as int].1;
                assert(self.metrics.pairs() =~= mid.update(i as int, (mid[i as int].0, v)));
                assert forall|j: int| 0 <= j < n && j != i implies #[trigger] self.records()[j] == mid_recs[j] by {
                    assert(self.metrics.pairs()[j] == mid[j]);
                }
                assert(self.records()[i as int] == v@);
                assert(self.records()[i as int] == reset_metrics(orig[i as int]));
                assert forall|j: int| 0 <= j < i + 1 implies #[trigger] self.records()[j] == reset_metrics(orig[j]) by {
                    if j < i {
                        assert(self.records()[j] == mid_recs[j]);
                    }
                }
            }
            i = i + 1;
        }
        let ghost loop_recs = self.records();
        let ghost loop_pairs = self.metrics.pairs();
        self.alerts.clear();
        proof {
            assert(self.metrics.pairs() == loop_pairs);
            assert(self.records() == loop_recs);
            let newp = self.metrics.pairs();
            assert forall|a: int, b: int| 0 <= a < newp.len() && 0 <= b < newp.len() && a != b implies newp[a].0 != newp[b].0 by {
                assert(orig_pairs[a].0 != orig_pairs[b].0);
            }
            assert forall|j: int| 0 <= j < newp.len() implies #[trigger] newp[j].1.validator_id@ == newp[j].0 by {
                assert(orig_pairs[j].1.validator_id@ == orig_pairs[j].0);
            }
            assert(i == n);
            assert forall|j: int| 0 <= j < newp.len() implies (#[trigger] newp[j]).1.snapshots_participated <= newp[j].1.total_snapshots by {
                assert(self.records()[j] == newp[j].1@);
                assert(self.records()[j] == reset_metrics(orig[j]));
            }
            assert forall|j: int| 0 <= j < n implies #[trigger] self.records()[j] == orig.map_values(|m: ValidatorMetricsView| reset_metrics(m))[j] by {
                assert(self.records()[j] == reset_metrics(orig[j]));
            }
            assert(self.records() =~= orig.map_values(|m: ValidatorMetricsView| reset_metrics(m)));
            assert(self.active_alerts() =~= Seq::<PerformanceAlertView>::empty());
        }
    }

    /// Health status: critical if any validator has an active critical alert,
    /// else warning if any has an active warning, else healthy.
    pub fn get_health_status(&self) -> (r: HealthStatus)
        requires
            self.wf(),
        ensures
            r.critical_validators == ids_with_severity(self.active_alerts(), AlertSeverity::Critical).len(),
            r.warning_validators == ids_with_severity(self.active_alerts(), AlertSeverity::Warning).len(),
            r.total_validators == self.records().len(),
            r.status == if r.critical_validators > 0 {
                Status::Critical
            } else if r.warning_validators > 0 {
                Status::Warning
            } else {
                Status::Healthy
            },
            r.average_participation_bps == metrics_mean(self.records(), quantity(0)),
            r.average_uptime_bps == metrics_mean(self.records(), quantity(1)),
            r.average_response_time_ms == metrics_mean(self.records(), quantity(2)),
    {
        let critical_count = self.get_critical_validators().len();
        let warning_count = self.get_warning_validators().len();
        let total_count = self.validator_count();
        let status = if critical_count > 0 {
            Status::Critical
        } else if warning_count > 0 {
            Status::Warning
        } else {
            Status::Healthy
        };
        HealthStatus {
            status,
            total_validators: total_count,
            critical_validators: critical_count,
            warning_validators: warning_count,
            average_participation_bps: self.get_average_participation_bps(),
            average_uptime_bps: self.get_average_uptime_bps(),
            average_response_time_ms: self.get_average_response_time(),
        }
    }
}

/// The metrics after a period reset.
pub open spec fn reset_metrics(m: ValidatorMetricsView) -> ValidatorMetricsView {
    ValidatorMetricsView {
        snapshots_participated: 0,
        total_snapshots: 0,
        participation_rate_bps: 10000,
        avg_response_time_ms: 0,
        min_response_time_ms: u64::MAX,
        max_response_time_ms: 0,
        consecutive_failures: 0,
        ..m
    }
}

/// The quantity averaged by the health status: participation (0), uptime
/// (1) or average response time (2).
pub open spec fn quantity(which: u8) -> spec_fn(ValidatorMetricsView) -> u64 {
    |m: ValidatorMetricsView| if which == 0 {
        m.participation_rate_bps
    } else if which == 1 {
        m.uptime_bps
    } else {
        m.avg_response_time_ms
    }
}

/// A copy of a list of alerts.
fn copy_alerts(v: &Vec<PerformanceAlert>) -> (r: Vec<PerformanceAlert>)
    ensures
        alert_views(r@) == alert_views(v@),
{
    let mut r: Vec<PerformanceAlert> = Vec::new();
    let mut i: usize = 0;
    while i < v.len()
        invariant
            i <= v@.len(),
            alert_views(r@) == alert_views(v@).take(i as int),
        decreases v@.len() - i,
    {
        let ghost r0 = r@;
        r.push(v[i].clone());
        assert(alert_views(r@) =~= alert_views(r0).push(v@[i as int]@));
        assert(alert_views(v@).take(i + 1) =~= alert_views(v@).take(i as int).push(v@[i as int]@));
        i = i + 1;
    }
    assert(alert_views(v@).take(i as int) =~= alert_views(v@));
    r
}

/// The alerts about one validator.
fn alerts_of(v: &Vec<PerformanceAlert>, id: &ValidatorID) -> (r: Vec<PerformanceAlert>)
    ensures
        alert_views(r@) == alerts_about(alert_views(v@), id@),
{
    let ghost s = alert_views(v@);
    let mut r: Vec<PerformanceAlert> = Vec::new();
    let mut i: usize = 0;
    while i < v.len()
        invariant
            s == alert_views(v@),
            i <= v@.len(),
            alert_views(r@) == alerts_about(s.take(i as int), id@),
        decreases v@.len() - i,
    {
        proof {
            assert(s.take(i + 1).drop_last() =~= s.take(i as int));
            assert(s[i as int] == v@[i as int]@);
        }
        if v[i].validator_id.same_as(id) {
            let ghost r0 = r@;
            r.push(v[i].clone());
            assert(alert_views(r@) =~= alert_views(r0).push(v@[i as int]@));
        }
        i = i + 1;
    }
    assert(s.take(i as int) =~= s);
    r
}

/// Whether an identifier is in a list.
fn contains_id(ids: &Vec<ValidatorID>, id: &ValidatorID) -> (r: bool)
    ensures
        r == id_views(ids@).contains(id@),
{
    let mut i: usize = 0;
    while i < ids.len()
        invariant
            i <= ids@.len(),
            forall|j: int| 0 <= j < i ==> ids@[j]@ != id@,
        decreases ids@.len() - i,
    {
        if ids[i].same_as(id) {
            assert(id_views(ids@)[i as int] == id@);
            return true;
        }
        i = i + 1;
    }
    assert forall|j: int| 0 <= j < id_views(ids@).len() implies id_views(ids@)[j] != id@ by {
        assert(ids@[j]@ != id@);
    }
    false
}

/// The identifiers carried by alerts of one severity, each once.
fn ids_of_severity(v: &Vec<PerformanceAlert>, sev: AlertSeverity) -> (r: Vec<ValidatorID>)
    ensures
        id_views(r@) == ids_with_severity(alert_views(v@), sev),
{
    let ghost s = alert_views(v@);
    let mut r: Vec<ValidatorID> = Vec::new();
    let mut i: usize = 0;
    while i < v.len()
        invariant
            s == alert_views(v@),
            i <= v@.len(),
            id_views(r@) == ids_with_severity(s.take(i as int), sev),
        decreases v@.len() - i,
    {
        proof {
            assert(s.take(i + 1).drop_last() =~= s.take(i as int));
            assert(s[i as int] == v@[i as int]@);
        }
        if v[i].severity == sev && !contains_id(&r, &v[i].validator_id) {
            let ghost r0 = r@;
            r.push(v[i].validator_id.copy());
            assert(id_views(r@) =~= id_views(r0).push(v@[i as int].validator_id@));
        }
        i = i + 1;
    }
    assert(s.take(i as int) =~= s);
    r
}

/// Each identifier listed by severity appears once.
pub proof fn lemma_ids_with_severity_distinct(s: Seq<PerformanceAlertView>, sev: AlertSeverity)
    ensures
        ids_with_severity(s, sev).no_duplicates(),
    decreases s.len(),
{
    if s.len() > 0 {
        lemma_ids_with_severity_distinct(s.drop_last(), sev);
    }
}

} // verus!
