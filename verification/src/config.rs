//! The monitor's configuration: its types and defaults, the validation of
//! a configuration, and the reading of retention periods.
use vstd::prelude::*;

use crate::duration::{
    duration_error_message, duration_nanos, parse_duration_millis, spec_parse_duration, DurationParseError,
    DurationParseErrorView,
};
use crate::ids::{CheckId, CheckRevisionId, ConfigGeneration, NotifierId, ProfileId, RuleId, TargetId};
use crate::kinds::ProbeKind;
use crate::percentage::{PercentageParseError, PercentageParseErrorView};
use crate::probe::{clone_opt, clone_pairs, clone_strings, opt_view, pairs_view, param_get, strings_view};
use crate::text::{chars_of, concat, concat3, str_eq};
use std::time::Duration;

verus! {

/// Why a configuration was rejected.
#[derive(Debug, Clone)]
pub enum ConfigError {
    Io(String),
    Yaml(String),
    Validation { path: String, message: String },
    Duration(DurationParseError),
    Percentage(PercentageParseError),
}

/// The abstract content of a `ConfigError`.
pub ghost enum ConfigErrorView {
    Io(Seq<char>),
    Yaml(Seq<char>),
    Validation { path: Seq<char>, message: Seq<char> },
    Duration(DurationParseErrorView),
    Percentage(PercentageParseErrorView),
}

impl View for ConfigError {
    type V = ConfigErrorView;

    open spec fn view(&self) -> ConfigErrorView {
        match self {
            ConfigError::Io(m) => ConfigErrorView::Io(m@),
            ConfigError::Yaml(m) => ConfigErrorView::Yaml(m@),
            ConfigError::Validation { path, message } => ConfigErrorView::Validation {
                path: path@,
                message: message@,
            },
            ConfigError::Duration(e) => ConfigErrorView::Duration(e@),
            ConfigError::Percentage(e) => ConfigErrorView::Percentage(e@),
        }
    }
}

/// A validation error at `path`.
pub open spec fn verr(path: Seq<char>, message: Seq<char>) -> ConfigErrorView {
    ConfigErrorView::Validation { path, message }
}

/// The view of a validation outcome.
pub open spec fn unit_result_view(r: Result<(), ConfigError>) -> Result<(), ConfigErrorView> {
    match r {
        Ok(()) => Ok(()),
        Err(e) => Err(e@),
    }
}

fn validation(path: String, message: &str) -> (r: ConfigError)
    ensures
        r@ == verr(path@, message@),
{
    ConfigError::Validation { path, message: String::from_str(message) }
}

/// A warning about an accepted configuration.
#[derive(Debug, Clone)]
pub struct ConfigWarning {
    pub path: String,
    pub message: String,
}

/// The views of warnings, as (path, message) pairs.
pub open spec fn warnings_view(ws: Seq<ConfigWarning>) -> Seq<(Seq<char>, Seq<char>)> {
    Seq::new(ws.len(), |i: int| (ws[i].path@, ws[i].message@))
}

/// Where the server listens and how it stops.
#[derive(Debug, Clone)]
pub struct ServerConfig {
    pub bind: String,
    pub port: u16,
    pub cors: bool,
    pub public_url: Option<String>,
    pub shutdown_timeout: String,
}

impl ServerConfig {
    /// Listening on 127.0.0.1:8080 without CORS, stopping within 30 s.
    pub fn default() -> (r: Self)
        ensures
            r.bind@ == "127.0.0.1"@,
            r.port == 8080,
            !r.cors,
            r.public_url is None,
            r.shutdown_timeout@ == "30s"@,
    {
        ServerConfig {
            bind: String::from_str("127.0.0.1"),
            port: 8080,
            cors: false,
            public_url: None,
            shutdown_timeout: String::from_str("30s"),
        }
    }
}

/// The format of log lines.
#[derive(Debug, Clone, Copy, PartialEq, Eq, Structural)]
pub enum LogFormat {
    Plain,
    Json,
}

/// The level and format of logging.
#[derive(Debug, Clone)]
pub struct LoggingConfig {
    pub level: String,
    pub format: LogFormat,
}

impl LoggingConfig {
    /// Level `info`, plain format.
    pub fn default() -> (r: Self)
        ensures
            r.level@ == "info"@,
            r.format == LogFormat::Plain,
    {
        LoggingConfig { level: String::from_str("info"), format: LogFormat::Plain }
    }
}

/// How long each kind of stored data is kept: a duration, or `forever`.
#[derive(Debug, Clone)]
pub struct RetentionConfig {
    pub raw_rounds: String,
    pub rollup_5m: String,
    pub rollup_1h: String,
    pub alert_events: String,
    pub notification_records: String,
}

/// The free disk space, as percentages, below which the monitor warns and
/// below which it is critical.
#[derive(Debug, Clone)]
pub struct DiskPressureConfig {
    pub warning_free: String,
    pub critical_free: String,
}

impl DiskPressureConfig {
    /// Warning below 10% free, critical below 5%.
    pub fn default() -> (r: Self)
        ensures
            r.warning_free@ == "10%"@,
            r.critical_free@ == "5%"@,
    {
        DiskPressureConfig { warning_free: String::from_str("10%"), critical_free: String::from_str("5%") }
    }
}

/// Where data is stored and how long it is kept.
#[derive(Debug, Clone)]
pub struct StorageConfig {
    pub path: String,
    pub retention: RetentionConfig,
    pub disk_pressure: DiskPressureConfig,
}

impl StorageConfig {
    /// The database `kemuri.db`, default retention and disk pressure.
    pub fn default() -> (r: Self)
        ensures
            r.path@ == "kemuri.db"@,
            r.retention.raw_rounds@ == "7d"@,
            r.retention.rollup_5m@ == "90d"@,
            r.retention.rollup_1h@ == "forever"@,
            r.retention.alert_events@ == "30d"@,
            r.retention.notification_records@ == "30d"@,
            r.disk_pressure.warning_free@ == "10%"@,
            r.disk_pressure.critical_free@ == "5%"@,
    {
        StorageConfig {
            path: String::from_str("kemuri.db"),
            retention: RetentionConfig::default(),
            disk_pressure: DiskPressureConfig::default(),
        }
    }

    /// Validates the retention periods and then takes the outcome of the
    /// disk pressure check, which compares percentages as numbers and is
    /// made by the caller.
    pub fn validate(&self, disk_pressure_check: Result<(), ConfigError>) -> (r: Result<(), ConfigError>)
        ensures
            unit_result_view(r) == (match spec_retention_check(self.retention) {
                Err(e) => Err(e),
                Ok(()) => unit_result_view(disk_pressure_check),
            }),
    {
        self.retention.validate()?;
        disk_pressure_check
    }
}

/// How the scheduler starts rounds after startup.
#[derive(Debug, Clone, Copy, PartialEq, Eq, Structural)]
pub enum StartupMode {
    ImmediateThenAligned,
    Aligned,
}

/// Limits on concurrent rounds per probe kind.
#[derive(Debug, Clone, Copy)]
pub struct ProbeConcurrencyLimits {
    pub icmp: Option<u32>,
    pub http: Option<u32>,
    pub tcp: Option<u32>,
    pub dns: Option<u32>,
}

impl ProbeConcurrencyLimits {
    /// No limits.
    pub fn default() -> (r: Self)
        ensures
            r.icmp is None && r.http is None && r.tcp is None && r.dns is None,
    {
        ProbeConcurrencyLimits { icmp: None, http: None, tcp: None, dns: None }
    }
}

/// The scheduler's settings.
#[derive(Debug, Clone)]
pub struct SchedulerConfig {
    pub tick_interval: String,
    pub max_concurrent: u32,
    pub startup_mode: StartupMode,
    pub default_jitter: String,
    pub max_concurrent_by_probe: ProbeConcurrencyLimits,
}

impl SchedulerConfig {
    /// A 1 s tick, 64 concurrent rounds, immediate then aligned start, 10%
    /// jitter, no per-kind limits.
    pub fn default() -> (r: Self)
        ensures
            r.tick_interval@ == "1s"@,
            r.max_concurrent == 64,
            r.startup_mode == StartupMode::ImmediateThenAligned,
            r.default_jitter@ == "10%"@,
            r.max_concurrent_by_probe.icmp is None && r.max_concurrent_by_probe.http is None
                && r.max_concurrent_by_probe.tcp is None && r.max_concurrent_by_probe.dns is None,
    {
        SchedulerConfig {
            tick_interval: String::from_str("1s"),
            max_concurrent: 64,
            startup_mode: StartupMode::ImmediateThenAligned,
            default_jitter: String::from_str("10%"),
            max_concurrent_by_probe: ProbeConcurrencyLimits::default(),
        }
    }

    /// Validates the scheduler's settings: a positive tick, a positive
    /// concurrency, the jitter (whose percentage is checked as a number by
    /// the caller, giving `jitter_check`), and positive per-kind limits.
    pub fn validate(&self, jitter_check: Result<(), ConfigError>) -> (r: Result<(), ConfigError>)
        ensures
            unit_result_view(r) == spec_scheduler_check(*self, unit_result_view(jitter_check)),
    {
        match parse_duration_millis(self.tick_interval.as_str()) {
            Err(e) => {
                return Err(validation(String::from_str("scheduler.tick_interval"), e.to_string().as_str()));
            },
            Ok(ms) => {
                if ms == 0 {
                    return Err(validation(String::from_str("scheduler.tick_interval"), "must be greater than zero"));
                }
            },
        }
        if self.max_concurrent == 0 {
            return Err(validation(String::from_str("scheduler.max_concurrent"), "must be greater than zero"));
        }
        jitter_check?;
        let l = self.max_concurrent_by_probe;
        if l.icmp == Some(0u32) {
            return Err(validation(String::from_str("scheduler.max_concurrent_by_probe.icmp"), "must be greater than zero"));
        }
        if l.http == Some(0u32) {
            return Err(validation(String::from_str("scheduler.max_concurrent_by_probe.http"), "must be greater than zero"));
        }
        if l.tcp == Some(0u32) {
            return Err(validation(String::from_str("scheduler.max_concurrent_by_probe.tcp"), "must be greater than zero"));
        }
        if l.dns == Some(0u32) {
            return Err(validation(String::from_str("scheduler.max_concurrent_by_probe.dns"), "must be greater than zero"));
        }
        Ok(())
    }
}

/// What checking a duration setting at `path` gives: its error message, or
/// that it must be positive.
pub open spec fn duration_field_check(value: Seq<char>, path: Seq<char>) -> Result<(), ConfigErrorView> {
    match spec_parse_duration(value) {
        Err(e) => Err(verr(path, duration_error_message(e))),
        Ok(ms) => if ms == 0 {
            Err(verr(path, "must be greater than zero"@))
        } else {
            Ok(())
        },
    }
}

/// The outcome of validating the scheduler's settings.
pub open spec fn spec_scheduler_check(s: SchedulerConfig, jitter: Result<(), ConfigErrorView>) -> Result<
    (),
    ConfigErrorView,
> {
    let l = s.max_concurrent_by_probe;
    if duration_field_check(s.tick_interval@, "scheduler.tick_interval"@) is Err {
        duration_field_check(s.tick_interval@, "scheduler.tick_interval"@)
    } else if s.max_concurrent == 0 {
        Err(verr("scheduler.max_concurrent"@, "must be greater than zero"@))
    } else if jitter is Err {
        jitter
    } else if l.icmp == Some(0u32) {
        Err(verr("scheduler.max_concurrent_by_probe.icmp"@, "must be greater than zero"@))
    } else if l.http == Some(0u32) {
        Err(verr("scheduler.max_concurrent_by_probe.http"@, "must be greater than zero"@))
    } else if l.tcp == Some(0u32) {
        Err(verr("scheduler.max_concurrent_by_probe.tcp"@, "must be greater than zero"@))
    } else if l.dns == Some(0u32) {
        Err(verr("scheduler.max_concurrent_by_probe.dns"@, "must be greater than zero"@))
    } else {
        Ok(())
    }
}

/// What checking one retention period gives: `forever` passes, anything
/// else must be a positive duration.
pub open spec fn retention_field_check(value: Seq<char>, name: Seq<char>) -> Result<(), ConfigErrorView> {
    if value == "forever"@ {
        Ok(())
    } else {
        match spec_parse_duration(value) {
            Err(e) => Err(verr("storage.retention."@ + name, duration_error_message(e))),
            Ok(ms) => if ms == 0 {
                Err(verr("storage.retention."@ + name, "retention must be greater than zero"@))
            } else {
                Ok(())
            },
        }
    }
}

/// The outcome of validating the retention periods, in order.
pub open spec fn spec_retention_check(r: RetentionConfig) -> Result<(), ConfigErrorView> {
    if retention_field_check(r.raw_rounds@, "raw_rounds"@) is Err {
        retention_field_check(r.raw_rounds@, "raw_rounds"@)
    } else if retention_field_check(r.rollup_5m@, "rollup_5m"@) is Err {
        retention_field_check(r.rollup_5m@, "rollup_5m"@)
    } else if retention_field_check(r.rollup_1h@, "rollup_1h"@) is Err {
        retention_field_check(r.rollup_1h@, "rollup_1h"@)
    } else if retention_field_check(r.alert_events@, "alert_events"@) is Err {
        retention_field_check(r.alert_events@, "alert_events"@)
    } else {
        retention_field_check(r.notification_records@, "notification_records"@)
    }
}

/// The retention in milliseconds that a setting gives: none for `forever`
/// or for a setting that does not read.
pub open spec fn spec_retention(value: Seq<char>) -> Option<nat> {
    if value == "forever"@ {
        None
    } else {
        match spec_parse_duration(value) {
            Ok(ms) => Some(ms),
            Err(_) => None,
        }
    }
}

fn check_retention_field(value: &String, name: &str) -> (r: Result<(), ConfigError>)
    ensures
        unit_result_view(r) == retention_field_check(value@, name@),
{
    if str_eq(value.as_str(), "forever") {
        return Ok(());
    }
    match parse_duration_millis(value.as_str()) {
        Err(e) => Err(validation(concat("storage.retention.", name), e.to_string().as_str())),
        Ok(ms) => if ms == 0 {
            Err(validation(concat("storage.retention.", name), "retention must be greater than zero"))
        } else {
            Ok(())
        },
    }
}

/// What a retention period reads as: the duration of its milliseconds, or
/// none.
pub open spec fn retention_matches(value: Seq<char>, r: Option<Duration>) -> bool {
    match r {
        Some(d) => spec_retention(value) matches Some(ms) && duration_nanos(d) == ms * 1_000_000,
        None => spec_retention(value) is None,
    }
}

fn parse_retention(value: &String) -> (r: Option<Duration>)
    ensures
        retention_matches(value@, r),
{
    if str_eq(value.as_str(), "forever") {
        return None;
    }
    match parse_duration_millis(value.as_str()) {
        Ok(ms) => Some(Duration::from_millis(ms)),
        Err(_) => None,
    }
}

impl RetentionConfig {
    /// Raw rounds 7 days, 5-minute rollups 90 days, hourly rollups forever,
    /// alert events and notification records 30 days.
    pub fn default() -> (r: Self)
        ensures
            r.raw_rounds@ == "7d"@,
            r.rollup_5m@ == "90d"@,
            r.rollup_1h@ == "forever"@,
            r.alert_events@ == "30d"@,
            r.notification_records@ == "30d"@,
    {
        RetentionConfig {
            raw_rounds: String::from_str("7d"),
            rollup_5m: String::from_str("90d"),
            rollup_1h: String::from_str("forever"),
            alert_events: String::from_str("30d"),
            notification_records: String::from_str("30d"),
        }
    }

    /// Validates each retention period in order.
    pub fn validate(&self) -> (r: Result<(), ConfigError>)
        ensures
            unit_result_view(r) == spec_retention_check(*self),
    {
        check_retention_field(&self.raw_rounds, "raw_rounds")?;
        check_retention_field(&self.rollup_5m, "rollup_5m")?;
        check_retention_field(&self.rollup_1h, "rollup_1h")?;
        check_retention_field(&self.alert_events, "alert_events")?;
        check_retention_field(&self.notification_records, "notification_records")
    }

    /// How long raw rounds are kept; `None` for ever.
    pub fn parse_raw_retention(&self) -> (r: Option<Duration>)
        ensures
            retention_matches(self.raw_rounds@, r),
    {
        parse_retention(&self.raw_rounds)
    }

    /// How long 5-minute rollups are kept; `None` for ever.
    pub fn parse_rollup_5m_retention(&self) -> (r: Option<Duration>)
        ensures
            retention_matches(self.rollup_5m@, r),
    {
        parse_retention(&self.rollup_5m)
    }

    /// How long hourly rollups are kept; `None` for ever.
    pub fn parse_rollup_1h_retention(&self) -> (r: Option<Duration>)
        ensures
            retention_matches(self.rollup_1h@, r),
    {
        parse_retention(&self.rollup_1h)
    }

    /// How long alert events are kept; `None` for ever.
    pub fn parse_alert_events_retention(&self) -> (r: Option<Duration>)
        ensures
            retention_matches(self.alert_events@, r),
    {
        parse_retention(&self.alert_events)
    }

    /// How long notification records are kept; `None` for ever.
    pub fn parse_notification_retention(&self) -> (r: Option<Duration>)
        ensures
            retention_matches(self.notification_records@, r),
    {
        parse_retention(&self.notification_records)
    }
}

/// Runs `n` checks in order: the first error, or success.
pub open spec fn run_checks(n: nat, step: spec_fn(int) -> Result<(), ConfigErrorView>) -> Result<
    (),
    ConfigErrorView,
>
    decreases n,
{
    if n == 0 {
        Ok(())
    } else {
        match run_checks((n - 1) as nat, step) {
            Err(e) => Err(e),
            Ok(()) => step(n - 1),
        }
    }
}

/// The warnings of the first `n` items, in order.
pub open spec fn gather(n: nat, w: spec_fn(int) -> Seq<(Seq<char>, Seq<char>)>) -> Seq<
    (Seq<char>, Seq<char>),
>
    decreases n,
{
    if n == 0 {
        Seq::empty()
    } else {
        gather((n - 1) as nat, w) + w(n - 1)
    }
}

/// Once a check fails, later checks do not change the outcome.
pub proof fn lemma_run_checks_stop(n: nat, m: nat, step: spec_fn(int) -> Result<(), ConfigErrorView>)
    requires
        n < m,
        run_checks(n, step) is Ok,
        step(n as int) is Err,
    ensures
        run_checks(m, step) == step(n as int),
    decreases m,
{
    if m > n + 1 {
        lemma_run_checks_stop(n, (m - 1) as nat, step);
    }
}

/// A secret given literally, or read from an environment variable or a
/// file.
#[derive(Debug, Clone)]
pub enum SecretRef {
    Literal(String),
    FromEnv { from_env: String },
    FromFile { from_file: String },
}

/// The settings of an ICMP probe profile.
#[derive(Debug, Clone)]
pub struct IcmpProfileParams {
    pub id: ProfileId,
    pub interval: String,
    pub timeout: String,
    pub count: u32,
    pub address_family: Option<String>,
    pub payload_size: Option<usize>,
    pub source_address: Option<String>,
}

/// The expected HTTP status of a check: one status, or a `START-END`
/// range.
#[derive(Debug, Clone)]
pub enum HttpStatusExpectation {
    Status(u16),
    Range(String),
}

/// The settings of an HTTP probe profile; `headers` holds name/value
/// pairs.
#[derive(Debug, Clone)]
pub struct HttpProfileParams {
    pub id: ProfileId,
    pub interval: String,
    pub timeout: String,
    pub url: String,
    pub method: Option<String>,
    pub headers: Option<Vec<(String, String)>>,
    pub expected_status: Option<HttpStatusExpectation>,
    pub body: Option<SecretRef>,
    pub follow_redirects: Option<bool>,
    pub max_redirect_count: Option<u32>,
    pub connection_mode: Option<String>,
    pub measure_until: Option<String>,
    pub user_agent: Option<String>,
    pub tls_validate: Option<bool>,
    pub root_certificates: Option<Vec<String>>,
}

/// TLS settings of a TCP check.
#[derive(Debug, Clone)]
pub struct TcpTlsConfig {
    pub enabled: bool,
    pub server_name: Option<String>,
    pub tls_validate: Option<bool>,
    pub root_certificates: Option<Vec<String>>,
}

/// The settings of a TCP probe profile.
#[derive(Debug, Clone)]
pub struct TcpProfileParams {
    pub id: ProfileId,
    pub interval: String,
    pub timeout: String,
    pub host: String,
    pub port: u16,
    pub address_family: Option<String>,
    pub source_address: Option<String>,
    pub tls: Option<TcpTlsConfig>,
}

/// The settings of a DNS probe profile.
#[derive(Debug, Clone)]
pub struct DnsProfileParams {
    pub id: ProfileId,
    pub interval: String,
    pub timeout: String,
    pub domain: String,
    pub record_type: Option<String>,
    pub resolver: Option<String>,
    pub protocol: Option<String>,
    pub expected_rcode: Option<String>,
    pub require_answer: Option<bool>,
}

/// A probe profile: the kind of probe and its settings.
#[derive(Debug, Clone)]
pub enum ProbeProfileConfig {
    Icmp(IcmpProfileParams),
    Http(HttpProfileParams),
    Tcp(TcpProfileParams),
    Dns(DnsProfileParams),
}

/// The identifier of a profile.
pub open spec fn profile_id(p: ProbeProfileConfig) -> Seq<char> {
    match p {
        ProbeProfileConfig::Icmp(x) => x.id@,
        ProbeProfileConfig::Http(x) => x.id@,
        ProbeProfileConfig::Tcp(x) => x.id@,
        ProbeProfileConfig::Dns(x) => x.id@,
    }
}

/// The probe kind of a profile.
pub open spec fn profile_kind(p: ProbeProfileConfig) -> ProbeKind {
    match p {
        ProbeProfileConfig::Icmp(_) => ProbeKind::Icmp,
        ProbeProfileConfig::Http(_) => ProbeKind::Http,
        ProbeProfileConfig::Tcp(_) => ProbeKind::Tcp,
        ProbeProfileConfig::Dns(_) => ProbeKind::Dns,
    }
}

/// The interval setting of a profile.
pub open spec fn profile_interval(p: ProbeProfileConfig) -> Seq<char> {
    match p {
        ProbeProfileConfig::Icmp(x) => x.interval@,
        ProbeProfileConfig::Http(x) => x.interval@,
        ProbeProfileConfig::Tcp(x) => x.interval@,
        ProbeProfileConfig::Dns(x) => x.interval@,
    }
}

/// The timeout setting of a profile.
pub open spec fn profile_timeout(p: ProbeProfileConfig) -> Seq<char> {
    match p {
        ProbeProfileConfig::Icmp(x) => x.timeout@,
        ProbeProfileConfig::Http(x) => x.timeout@,
        ProbeProfileConfig::Tcp(x) => x.timeout@,
        ProbeProfileConfig::Dns(x) => x.timeout@,
    }
}

/// The outcome of validating a profile: a positive interval and a
/// positive timeout.
pub open spec fn spec_profile_check(p: ProbeProfileConfig) -> Result<(), ConfigErrorView> {
    let path = "profiles."@ + profile_id(p);
    if duration_field_check(profile_interval(p), path + ".interval"@) is Err {
        duration_field_check(profile_interval(p), path + ".interval"@)
    } else {
        duration_field_check(profile_timeout(p), path + ".timeout"@)
    }
}

fn check_duration_field(value: &str, path: String) -> (r: Result<(), ConfigError>)
    ensures
        unit_result_view(r) == duration_field_check(value@, path@),
{
    match parse_duration_millis(value) {
        Err(e) => Err(ConfigError::Validation { path, message: e.to_string() }),
        Ok(ms) => if ms == 0 {
            Err(validation(path, "must be greater than zero"))
        } else {
            Ok(())
        },
    }
}

impl ProbeProfileConfig {
    /// The profile's identifier.
    pub fn id(&self) -> (r: &ProfileId)
        ensures
            r@ == profile_id(*self),
    {
        match self {
            ProbeProfileConfig::Icmp(p) => &p.id,
            ProbeProfileConfig::Http(p) => &p.id,
            ProbeProfileConfig::Tcp(p) => &p.id,
            ProbeProfileConfig::Dns(p) => &p.id,
        }
    }

    /// The profile's probe kind.
    pub fn kind(&self) -> (r: ProbeKind)
        ensures
            r == profile_kind(*self),
    {
        match self {
            ProbeProfileConfig::Icmp(_) => ProbeKind::Icmp,
            ProbeProfileConfig::Http(_) => ProbeKind::Http,
            ProbeProfileConfig::Tcp(_) => ProbeKind::Tcp,
            ProbeProfileConfig::Dns(_) => ProbeKind::Dns,
        }
    }

    /// The profile's interval setting.
    pub fn interval_str(&self) -> (r: &str)
        ensures
            r@ == profile_interval(*self),
    {
        match self {
            ProbeProfileConfig::Icmp(p) => p.interval.as_str(),
            ProbeProfileConfig::Http(p) => p.interval.as_str(),
            ProbeProfileConfig::Tcp(p) => p.interval.as_str(),
            ProbeProfileConfig::Dns(p) => p.interval.as_str(),
        }
    }

    /// The profile's timeout setting.
    pub fn timeout_str(&self) -> (r: &str)
        ensures
            r@ == profile_timeout(*self),
    {
        match self {
            ProbeProfileConfig::Icmp(p) => p.timeout.as_str(),
            ProbeProfileConfig::Http(p) => p.timeout.as_str(),
            ProbeProfileConfig::Tcp(p) => p.timeout.as_str(),
            ProbeProfileConfig::Dns(p) => p.timeout.as_str(),
        }
    }

    /// Validates the profile's interval and timeout.
    pub fn validate(&self) -> (r: Result<(), ConfigError>)
        ensures
            unit_result_view(r) == spec_profile_check(*self),
    {
        let path = concat("profiles.", self.id().as_str());
        check_duration_field(self.interval_str(), concat(path.as_str(), ".interval"))?;
        check_duration_field(self.timeout_str(), concat(path.as_str(), ".timeout"))
    }
}

/// The settings of a webhook notifier; `headers` holds name/secret pairs.
#[derive(Debug, Clone)]
pub struct WebhookNotifierParams {
    pub id: NotifierId,
    pub url: SecretRef,
    pub headers: Option<Vec<(String, SecretRef)>>,
    pub timeout: String,
}

/// The settings of an e-mail notifier.
#[derive(Debug, Clone)]
pub struct SmtpNotifierParams {
    pub id: NotifierId,
    pub host: String,
    pub port: u16,
    pub from: String,
    pub to: Vec<String>,
    pub username: Option<String>,
    pub password: Option<SecretRef>,
    pub tls_mode: String,
    pub timeout: String,
}

/// A notifier: a webhook or e-mail.
#[derive(Debug, Clone)]
pub enum NotifierConfig {
    Webhook(WebhookNotifierParams),
    Smtp(SmtpNotifierParams),
}

/// The identifier of a notifier.
pub open spec fn notifier_id(n: NotifierConfig) -> Seq<char> {
    match n {
        NotifierConfig::Webhook(p) => p.id@,
        NotifierConfig::Smtp(p) => p.id@,
    }
}

/// Whether a secret is given literally.
pub open spec fn is_literal(s: SecretRef) -> bool {
    s is Literal
}

/// The warnings of the header secrets given literally, in order.
pub open spec fn header_warnings(id: Seq<char>, hs: Seq<(String, SecretRef)>) -> Seq<(Seq<char>, Seq<char>)>
    decreases hs.len(),
{
    if hs.len() == 0 {
        Seq::empty()
    } else {
        header_warnings(id, hs.drop_last()) + if is_literal(hs.last().1) {
            seq![
                (
                    "notifiers."@ + id + ".headers."@ + hs.last().0@,
                    "literal secret value in header; use from_env or from_file"@,
                ),
            ]
        } else {
            Seq::empty()
        }
    }
}

/// The warnings about secrets that a notifier gives literally.
pub open spec fn notifier_warnings(n: NotifierConfig) -> Seq<(Seq<char>, Seq<char>)> {
    match n {
        NotifierConfig::Webhook(p) => (if is_literal(p.url) {
            seq![
                (
                    "notifiers."@ + p.id@ + ".url"@,
                    "literal secret value for URL; use from_env or from_file"@,
                ),
            ]
        } else {
            Seq::empty()
        }) + match p.headers {
            Some(hs) => header_warnings(p.id@, hs@),
            None => Seq::empty(),
        },
        NotifierConfig::Smtp(p) => match p.password {
            Some(s) => if is_literal(s) {
                seq![
                    (
                        "notifiers."@ + p.id@ + ".password"@,
                        "literal secret value for password; use from_env or from_file"@,
                    ),
                ]
            } else {
                Seq::empty()
            },
            None => Seq::empty(),
        },
    }
}

fn warning(path: String, message: &str) -> (r: ConfigWarning)
    ensures
        r.path@ == path@,
        r.message@ == message@,
{
    ConfigWarning { path, message: String::from_str(message) }
}

impl NotifierConfig {
    /// The notifier's identifier.
    pub fn id(&self) -> (r: &NotifierId)
        ensures
            r@ == notifier_id(*self),
    {
        match self {
            NotifierConfig::Webhook(p) => &p.id,
            NotifierConfig::Smtp(p) => &p.id,
        }
    }

    /// Adds a warning for each secret that the notifier gives literally.
    pub fn collect_warnings(&self, warnings: &mut Vec<ConfigWarning>)
        ensures
            warnings_view(final(warnings)@) == warnings_view(old(warnings)@) + notifier_warnings(*self),
    {
        let ghost start = warnings_view(warnings@);
        match self {
            NotifierConfig::Webhook(p) => {
                if let SecretRef::Literal(_) = &p.url {
                    warnings.push(warning(concat3("notifiers.", p.id.as_str(), ".url"), "literal secret value for URL; use from_env or from_file"));
                }
                let ghost mid = warnings_view(warnings@);
                assert(mid =~= start + (if is_literal(p.url) {
                    seq![
                        (
                            "notifiers."@ + p.id@ + ".url"@,
                            "literal secret value for URL; use from_env or from_file"@,
                        ),
                    ]
                } else {
                    Seq::empty()
                }));
                match &p.headers {
                    Some(hs) => {
                        let mut i: usize = 0;
                        while i < hs.len()
                            invariant
                                i <= hs@.len(),
                                warnings_view(warnings@) == mid + header_warnings(p.id@, hs@.take(i as int)),
                            decreases hs@.len() - i,
                        {
                            assert(hs@.take(i + 1).drop_last() =~= hs@.take(i as int));
                            let ghost before = warnings_view(warnings@);
                            if let SecretRef::Literal(_) = &hs[i].1 {
                                let mut path = concat3("notifiers.", p.id.as_str(), ".headers.");
                                path.append(hs[i].0.as_str());
                                warnings.push(warning(path, "literal secret value in header; use from_env or from_file"));
                                assert(warnings_view(warnings@) =~= before + seq![
                                    (
                                        "notifiers."@ + p.id@ + ".headers."@ + hs@[i as int].0@,
                                        "literal secret value in header; use from_env or from_file"@,
                                    ),
                                ]);
                            } else {
                                assert(before + Seq::<(Seq<char>, Seq<char>)>::empty() =~= before);
                            }
                            i = i + 1;
                        }
                        assert(hs@.take(i as int) =~= hs@);
                    },
                    None => {
                        assert(mid + Seq::<(Seq<char>, Seq<char>)>::empty() =~= mid);
                    },
                }
            },
            NotifierConfig::Smtp(p) => {
                if let Some(SecretRef::Literal(_)) = &p.password {
                    warnings.push(warning(concat3("notifiers.", p.id.as_str(), ".password"), "literal secret value for password; use from_env or from_file"));
                    assert(warnings_view(warnings@) =~= start + notifier_warnings(*self));
                } else {
                    assert(warnings_view(warnings@) =~= start + notifier_warnings(*self));
                }
            },
        }
    }
}

/// An alert rule.
#[derive(Debug, Clone)]
pub struct AlertRuleConfig {
    pub id: RuleId,
    pub profile: ProfileId,
    pub metric: String,
    pub operator: String,
    pub threshold: String,
    pub window: String,
    pub notifier: NotifierId,
    pub duration: Option<String>,
    pub clear_threshold: Option<String>,
    pub clear_operator: Option<String>,
    pub repeat_every: Option<String>,
    pub minimum_rounds: Option<u32>,
    pub minimum_latency_samples: Option<u32>,
    pub no_data_period: Option<String>,
}

/// One check of a target: its profile, and settings that override the
/// profile's; `headers` holds name/value pairs.
#[derive(Debug, Clone)]
pub struct CheckConfig {
    pub id: CheckId,
    pub profile: ProfileId,
    pub enabled: bool,
    pub kind: Option<ProbeKind>,
    pub interval: Option<String>,
    pub timeout: Option<String>,
    pub url: Option<String>,
    pub method: Option<String>,
    pub headers: Option<Vec<(String, String)>>,
    pub expected_status: Option<HttpStatusExpectation>,
    pub body: Option<SecretRef>,
    pub host: Option<String>,
    pub port: Option<u16>,
    pub domain: Option<String>,
    pub record_type: Option<String>,
    pub resolver: Option<String>,
    pub count: Option<u32>,
    pub address_family: Option<String>,
    pub payload_size: Option<usize>,
    pub source_address: Option<String>,
    pub follow_redirects: Option<bool>,
    pub max_redirect_count: Option<u32>,
    pub connection_mode: Option<String>,
    pub measure_until: Option<String>,
    pub user_agent: Option<String>,
    pub tls_validate: Option<bool>,
    pub root_certificates: Option<Vec<String>>,
    pub tls: Option<TcpTlsConfig>,
    pub protocol: Option<String>,
    pub expected_rcode: Option<String>,
    pub require_answer: Option<bool>,
}

/// A monitored target and its checks; `labels` holds name/value pairs.
#[derive(Debug, Clone)]
pub struct TargetConfig {
    pub id: TargetId,
    pub address: String,
    pub name: Option<String>,
    pub group_path: Option<String>,
    pub labels: Option<Vec<(String, String)>>,
    pub checks: Vec<CheckConfig>,
    pub enabled: bool,
}

/// The warnings of a check whose body is given literally.
pub open spec fn check_warnings(c: CheckConfig, path: Seq<char>) -> Seq<(Seq<char>, Seq<char>)> {
    match c.body {
        Some(b) => if is_literal(b) {
            seq![(path + ".body"@, "literal secret value for body; use from_env or from_file"@)]
        } else {
            Seq::empty()
        },
        None => Seq::empty(),
    }
}

impl CheckConfig {
    /// Adds a warning when the check's body is given literally.
    pub fn collect_warnings(&self, path: String, warnings: &mut Vec<ConfigWarning>)
        ensures
            warnings_view(final(warnings)@) == warnings_view(old(warnings)@) + check_warnings(*self, path@),
    {
        let ghost start = warnings_view(warnings@);
        if let Some(SecretRef::Literal(_)) = &self.body {
            warnings.push(warning(concat(path.as_str(), ".body"), "literal secret value for body; use from_env or from_file"));
        }
        assert(warnings_view(warnings@) =~= start + check_warnings(*self, path@));
    }
}

/// Whether `id` is among `ids`.
pub open spec fn among(ids: Seq<Seq<char>>, id: Seq<char>) -> bool {
    exists|j: int| 0 <= j < ids.len() && ids[j] == id
}

/// The path of check `c` of target `t`.
pub open spec fn check_path(t: Seq<char>, c: Seq<char>) -> Seq<char> {
    "targets."@ + t + ".checks."@ + c
}

/// The outcome of validating check `i` of a target with id `tid`: its id
/// is not repeated among the earlier checks, and its profile is known.
pub open spec fn target_check_step(
    tid: Seq<char>,
    cs: Seq<CheckConfig>,
    profiles: Seq<Seq<char>>,
    i: int,
) -> Result<(), ConfigErrorView> {
    if exists|j: int| 0 <= j < i && cs[j].id@ == cs[i].id@ {
        Err(verr(check_path(tid, cs[i].id@), "duplicate check id within target"@))
    } else if !among(profiles, cs[i].profile@) {
        Err(verr(check_path(tid, cs[i].id@) + ".profile"@, "references unknown profile: "@ + cs[i].profile@))
    } else {
        Ok(())
    }
}

/// The outcome of validating a target's checks against the known profiles.
pub open spec fn spec_target_check(t: TargetConfig, profiles: Seq<Seq<char>>) -> Result<(), ConfigErrorView> {
    run_checks(t.checks@.len(), |i: int| target_check_step(t.id@, t.checks@, profiles, i))
}

/// The warnings of a target's checks, in order.
pub open spec fn target_warnings(t: TargetConfig, n: nat) -> Seq<(Seq<char>, Seq<char>)> {
    gather(n, |i: int| check_warnings(t.checks@[i], check_path(t.id@, t.checks@[i].id@)))
}

/// The identifiers of known profiles and their kinds, as `TargetConfig`
/// validation reads them.
pub open spec fn profile_keys(ps: Seq<(ProfileId, ProbeKind)>) -> Seq<Seq<char>> {
    Seq::new(ps.len(), |i: int| ps[i].0@)
}

fn known_profile(profile_ids: &Vec<(ProfileId, ProbeKind)>, id: &ProfileId) -> (r: bool)
    ensures
        r == among(profile_keys(profile_ids@), id@),
{
    let mut i: usize = 0;
    while i < profile_ids.len()
        invariant
            i <= profile_ids@.len(),
            forall|j: int| 0 <= j < i ==> profile_keys(profile_ids@)[j] != id@,
        decreases profile_ids@.len() - i,
    {
        if str_eq(profile_ids[i].0.as_str(), id.as_str()) {
            assert(profile_keys(profile_ids@)[i as int] == id@);
            return true;
        }
        i = i + 1;
    }
    false
}

impl TargetConfig {
    /// Validates the target's checks against the known profiles, adding
    /// the warnings of the checks that it passes.
    pub fn validate(
        &self,
        profile_ids: &Vec<(ProfileId, ProbeKind)>,
        warnings: &mut Vec<ConfigWarning>,
    ) -> (r: Result<(), ConfigError>)
        ensures
            unit_result_view(r) == spec_target_check(*self, profile_keys(profile_ids@)),
            r is Ok ==> warnings_view(final(warnings)@) == warnings_view(old(warnings)@)
                + target_warnings(*self, self.checks@.len()),
    {
        let ghost start = warnings_view(warnings@);
        let ghost step = |i: int| target_check_step(self.id@, self.checks@, profile_keys(profile_ids@), i);
        let mut i: usize = 0;
        while i < self.checks.len()
            invariant
                i <= self.checks@.len(),
                step == (|i: int| target_check_step(self.id@, self.checks@, profile_keys(profile_ids@), i)),
                run_checks(i as nat, step) is Ok,
                warnings_view(warnings@) == start + target_warnings(*self, i as nat),
            decreases self.checks@.len() - i,
        {
            let c = &self.checks[i];
            let mut j: usize = 0;
            while j < i
                invariant
                    j <= i < self.checks@.len(),
                    forall|k: int| 0 <= k < j ==> self.checks@[k].id@ != self.checks@[i as int].id@,
                    step == (|i: int| target_check_step(self.id@, self.checks@, profile_keys(profile_ids@), i)),
                    run_checks(i as nat, step) is Ok,
                    *c == self.checks@[i as int],
                decreases i - j,
            {
                if str_eq(self.checks[j].id.as_str(), c.id.as_str()) {
                    proof {
                        lemma_run_checks_stop(i as nat, self.checks@.len(), step);
                    }
                    let mut path = concat3("targets.", self.id.as_str(), ".checks.");
                    path.append(c.id.as_str());
                    return Err(validation(path, "duplicate check id within target"));
                }
                j = j + 1;
            }
            if !known_profile(profile_ids, &c.profile) {
                proof {
                    lemma_run_checks_stop(i as nat, self.checks@.len(), step);
                }
                let mut path = concat3("targets.", self.id.as_str(), ".checks.");
                path.append(c.id.as_str());
                path.append(".profile");
                return Err(ConfigError::Validation {
                    path,
                    message: concat("references unknown profile: ", c.profile.as_str()),
                });
            }
            let mut path = concat3("targets.", self.id.as_str(), ".checks.");
            path.append(c.id.as_str());
            c.collect_warnings(path, warnings);
            i = i + 1;
        }
        Ok(())
    }
}

/// The outcome of resolving an expected HTTP status: the status, or the
/// ordered range, each between 100 and 599.
pub open spec fn spec_status_resolve(e: HttpStatusExpectation) -> Result<
    (Option<u16>, Option<(u16, u16)>),
    ConfigErrorView,
> {
    match e {
        HttpStatusExpectation::Status(s) => if 100 <= s <= 599 {
            Ok((Some(s), None))
        } else {
            Err(verr("expected_status"@, "HTTP status must be between 100 and 599"@))
        },
        HttpStatusExpectation::Range(v) => match crate::text::split_once_spec(v@, '-') {
            None => Err(verr("expected_status"@, "status range must use START-END"@)),
            Some((a, b)) => match (crate::http::status_value(a), crate::http::status_value(b)) {
                (Some(lo), Some(hi)) => if 100 <= lo <= 599 && 100 <= hi <= 599 && lo <= hi {
                    Ok((None, Some((lo, hi))))
                } else {
                    Err(verr("expected_status"@, "status range must be ordered and between 100 and 599"@))
                },
                _ => Err(verr("expected_status"@, "invalid status range"@)),
            },
        },
    }
}

impl HttpStatusExpectation {
    /// The expected status, or status range.
    pub fn resolve(&self) -> (r: Result<(Option<u16>, Option<(u16, u16)>), ConfigError>)
        ensures
            match (r, spec_status_resolve(*self)) {
                (Ok(x), Ok(y)) => x == y,
                (Err(e), Err(f)) => e@ == f,
                _ => false,
            },
    {
        match self {
            HttpStatusExpectation::Status(s) => if 100 <= *s && *s <= 599 {
                Ok((Some(*s), None))
            } else {
                Err(validation(String::from_str("expected_status"), "HTTP status must be between 100 and 599"))
            },
            HttpStatusExpectation::Range(v) => match crate::text::split_once(v.as_str(), '-') {
                None => Err(validation(String::from_str("expected_status"), "status range must use START-END")),
                Some((a, b)) => {
                    let lo = crate::text::parse_uint_str(a.as_str(), 65535);
                    let hi = crate::text::parse_uint_str(b.as_str(), 65535);
                    match (lo, hi) {
                        (Some(lo), Some(hi)) => {
                            let lo = lo as u16;
                            let hi = hi as u16;
                            if 100 <= lo && lo <= 599 && 100 <= hi && hi <= 599 && lo <= hi {
                                Ok((None, Some((lo, hi))))
                            } else {
                                Err(validation(String::from_str("expected_status"), "status range must be ordered and between 100 and 599"))
                            }
                        },
                        _ => Err(validation(String::from_str("expected_status"), "invalid status range")),
                    }
                },
            },
        }
    }
}

/// A copy of a configuration error.
pub fn clone_error(e: &ConfigError) -> (r: ConfigError)
    ensures
        r@ == e@,
{
    match e {
        ConfigError::Io(m) => ConfigError::Io(m.clone()),
        ConfigError::Yaml(m) => ConfigError::Yaml(m.clone()),
        ConfigError::Validation { path, message } => ConfigError::Validation {
            path: path.clone(),
            message: message.clone(),
        },
        ConfigError::Duration(d) => ConfigError::Duration(
            match d {
                DurationParseError::Empty => DurationParseError::Empty,
                DurationParseError::NoUnit(s) => DurationParseError::NoUnit(s.clone()),
                DurationParseError::InvalidNumber(s) => DurationParseError::InvalidNumber(s.clone()),
                DurationParseError::UnknownUnit(s) => DurationParseError::UnknownUnit(s.clone()),
                DurationParseError::Overflow(s) => DurationParseError::Overflow(s.clone()),
            },
        ),
        ConfigError::Percentage(p) => ConfigError::Percentage(
            match p {
                PercentageParseError::Empty => PercentageParseError::Empty,
                PercentageParseError::MissingPercent(s) => PercentageParseError::MissingPercent(s.clone()),
                PercentageParseError::InvalidNumber(s) => PercentageParseError::InvalidNumber(s.clone()),
                PercentageParseError::OutOfRange(v) => PercentageParseError::OutOfRange(*v),
            },
        ),
    }
}

/// The outcomes of the checks of a configuration that read numbers as
/// 64-bit floats (percentages and alert thresholds), made by the caller
/// before validation: one outcome per alert rule for its threshold and for
/// its clearing threshold (success where it has none), and the outcomes
/// for the scheduler's jitter and the disk pressure settings.
#[derive(Debug)]
pub struct NumericChecks {
    pub rule_thresholds: Vec<Result<(), ConfigError>>,
    pub rule_clear_thresholds: Vec<Result<(), ConfigError>>,
    pub scheduler_jitter: Result<(), ConfigError>,
    pub storage_disk_pressure: Result<(), ConfigError>,
}

/// The outcome at `i` of a list of check outcomes; success where the list
/// has none.
pub open spec fn outcome_at(v: Seq<Result<(), ConfigError>>, i: int) -> Result<(), ConfigErrorView> {
    if 0 <= i < v.len() {
        unit_result_view(v[i])
    } else {
        Ok(())
    }
}

fn take_outcome(v: &Vec<Result<(), ConfigError>>, i: usize) -> (r: Result<(), ConfigError>)
    ensures
        unit_result_view(r) == outcome_at(v@, i as int),
{
    if i < v.len() {
        match &v[i] {
            Ok(()) => Ok(()),
            Err(e) => Err(clone_error(e)),
        }
    } else {
        Ok(())
    }
}

/// A whole configuration.
#[derive(Debug, Clone)]
pub struct KemuriConfig {
    pub version: u32,
    pub server: ServerConfig,
    pub logging: LoggingConfig,
    pub storage: StorageConfig,
    pub scheduler: SchedulerConfig,
    pub profiles: Vec<ProbeProfileConfig>,
    pub notifiers: Vec<NotifierConfig>,
    pub rules: Vec<AlertRuleConfig>,
    pub targets: Vec<TargetConfig>,
}

/// The alert metrics that rules can watch.
pub open spec fn known_metric(m: Seq<char>) -> bool {
    ||| m == "measurement_loss_ratio"@
    ||| m == "health_failure_ratio"@
    ||| m == "healthy_sample_ratio"@
    ||| m == "consecutive_total_loss_rounds"@
    ||| m == "consecutive_unhealthy_rounds"@
    ||| m == "p50_latency"@
    ||| m == "p95_latency"@
    ||| m == "p99_latency"@
    ||| m == "no_data"@
}

/// The comparison operators of alert rules.
pub open spec fn known_operator(o: Seq<char>) -> bool {
    o == "gt"@ || o == "gte"@ || o == "lt"@ || o == "lte"@
}

/// What checking an optional duration setting of a rule gives.
pub open spec fn opt_duration_check(v: Option<String>, path: Seq<char>) -> Result<(), ConfigErrorView> {
    match v {
        Some(s) => duration_field_check(s@, path),
        None => Ok(()),
    }
}

/// Whether an optional clearing operator is absent or known.
pub open spec fn clear_operator_ok(o: Option<String>) -> bool {
    match o {
        Some(s) => known_operator(s@),
        None => true,
    }
}

/// The outcome of validating rule `i`, in the order of its settings.
pub open spec fn rule_step(
    rs: Seq<AlertRuleConfig>,
    i: int,
    profiles: Seq<Seq<char>>,
    notifiers: Seq<Seq<char>>,
    n: NumericChecks,
) -> Result<(), ConfigErrorView> {
    let r = rs[i];
    let base = "rules."@ + r.id@;
    if exists|j: int| 0 <= j < i && rs[j].id@ == r.id@ {
        Err(verr(base, "duplicate rule id"@))
    } else if !among(profiles, r.profile@) {
        Err(verr(base + ".profile"@, "references unknown profile: "@ + r.profile@))
    } else if !among(notifiers, r.notifier@) {
        Err(verr(base + ".notifier"@, "references unknown notifier: "@ + r.notifier@))
    } else if duration_field_check(r.window@, base + ".window"@) is Err {
        duration_field_check(r.window@, base + ".window"@)
    } else if !known_metric(r.metric@) {
        Err(verr(base + ".metric"@, "unsupported alert metric"@))
    } else if !known_operator(r.operator@) {
        Err(verr(base + ".operator"@, "unsupported alert operator"@))
    } else if !clear_operator_ok(r.clear_operator) {
        Err(verr(base + ".clear_operator"@, "unsupported alert operator"@))
    } else if outcome_at(n.rule_thresholds@, i) is Err {
        outcome_at(n.rule_thresholds@, i)
    } else if r.clear_threshold is Some && outcome_at(n.rule_clear_thresholds@, i) is Err {
        outcome_at(n.rule_clear_thresholds@, i)
    } else if opt_duration_check(r.duration, base + ".duration"@) is Err {
        opt_duration_check(r.duration, base + ".duration"@)
    } else if opt_duration_check(r.repeat_every, base + ".repeat_every"@) is Err {
        opt_duration_check(r.repeat_every, base + ".repeat_every"@)
    } else if opt_duration_check(r.no_data_period, base + ".no_data_period"@) is Err {
        opt_duration_check(r.no_data_period, base + ".no_data_period"@)
    } else if r.minimum_rounds == Some(0u32) {
        Err(verr(base + ".minimum_rounds"@, "must be greater than zero"@))
    } else if r.minimum_latency_samples == Some(0u32) {
        Err(verr(base + ".minimum_latency_samples"@, "must be greater than zero"@))
    } else {
        Ok(())
    }
}

/// The outcome of validating profile `i`: its id is new and its timing
/// reads.
pub open spec fn profile_step(ps: Seq<ProbeProfileConfig>, i: int) -> Result<(), ConfigErrorView> {
    if exists|j: int| 0 <= j < i && profile_id(ps[j]) == profile_id(ps[i]) {
        Err(verr("profiles."@ + profile_id(ps[i]), "duplicate profile id"@))
    } else {
        spec_profile_check(ps[i])
    }
}

/// The outcome of validating notifier `i`: its id is new.
pub open spec fn notifier_step(ns: Seq<NotifierConfig>, i: int) -> Result<(), ConfigErrorView> {
    if exists|j: int| 0 <= j < i && notifier_id(ns[j]) == notifier_id(ns[i]) {
        Err(verr("notifiers."@ + notifier_id(ns[i]), "duplicate notifier id"@))
    } else {
        Ok(())
    }
}

/// The outcome of validating target `i`: its id is new and its checks are
/// valid.
pub open spec fn target_step(ts: Seq<TargetConfig>, i: int, profiles: Seq<Seq<char>>) -> Result<
    (),
    ConfigErrorView,
> {
    if exists|j: int| 0 <= j < i && ts[j].id@ == ts[i].id@ {
        Err(verr("targets."@ + ts[i].id@, "duplicate target id"@))
    } else {
        spec_target_check(ts[i], profiles)
    }
}

/// The identifiers of the profiles, in order.
pub open spec fn profile_ids_of(ps: Seq<ProbeProfileConfig>) -> Seq<Seq<char>> {
    Seq::new(ps.len(), |i: int| profile_id(ps[i]))
}

/// The identifiers of the notifiers, in order.
pub open spec fn notifier_ids_of(ns: Seq<NotifierConfig>) -> Seq<Seq<char>> {
    Seq::new(ns.len(), |i: int| notifier_id(ns[i]))
}

/// The warnings of an accepted configuration: those of its notifiers, then
/// those of its targets' checks.
pub open spec fn config_warnings(c: KemuriConfig) -> Seq<(Seq<char>, Seq<char>)> {
    gather(c.notifiers@.len(), |i: int| notifier_warnings(c.notifiers@[i])) + gather(
        c.targets@.len(),
        |i: int| target_warnings(c.targets@[i], c.targets@[i].checks@.len()),
    )
}

/// The outcome of validating a whole configuration with the outcomes `n` of
/// its numeric checks: the version, the profiles, the notifiers, the rules,
/// the targets, the scheduler, the storage and the server's shutdown
/// timeout, in that order; the first error, or the warnings.
pub open spec fn spec_validate(c: KemuriConfig, n: NumericChecks) -> Result<
    Seq<(Seq<char>, Seq<char>)>,
    ConfigErrorView,
> {
    let profiles = run_checks(c.profiles@.len(), |i: int| profile_step(c.profiles@, i));
    let notifiers = run_checks(c.notifiers@.len(), |i: int| notifier_step(c.notifiers@, i));
    let rules = run_checks(
        c.rules@.len(),
        |i: int| rule_step(c.rules@, i, profile_ids_of(c.profiles@), notifier_ids_of(c.notifiers@), n),
    );
    let targets = run_checks(
        c.targets@.len(),
        |i: int| target_step(c.targets@, i, profile_ids_of(c.profiles@)),
    );
    let scheduler = spec_scheduler_check(c.scheduler, unit_result_view(n.scheduler_jitter));
    let storage = match spec_retention_check(c.storage.retention) {
        Err(e) => Err(e),
        Ok(()) => unit_result_view(n.storage_disk_pressure),
    };
    if c.version != 1 {
        Err(verr("version"@, "unsupported config version: "@ + crate::text::decimal(c.version as nat)))
    } else if profiles is Err {
        Err(profiles->Err_0)
    } else if notifiers is Err {
        Err(notifiers->Err_0)
    } else if rules is Err {
        Err(rules->Err_0)
    } else if targets is Err {
        Err(targets->Err_0)
    } else if scheduler is Err {
        Err(scheduler->Err_0)
    } else if storage is Err {
        Err(storage->Err_0)
    } else if spec_parse_duration(c.server.shutdown_timeout@) is Err {
        Err(verr("server.shutdown_timeout"@, duration_error_message(spec_parse_duration(c.server.shutdown_timeout@)->Err_0)))
    } else {
        Ok(config_warnings(c))
    }
}

fn is_known_metric(m: &str) -> (r: bool)
    ensures
        r == known_metric(m@),
{
    str_eq(m, "measurement_loss_ratio") || str_eq(m, "health_failure_ratio") || str_eq(m, "healthy_sample_ratio")
        || str_eq(m, "consecutive_total_loss_rounds") || str_eq(m, "consecutive_unhealthy_rounds")
        || str_eq(m, "p50_latency") || str_eq(m, "p95_latency") || str_eq(m, "p99_latency")
        || str_eq(m, "no_data")
}

fn is_known_operator(o: &str) -> (r: bool)
    ensures
        r == known_operator(o@),
{
    str_eq(o, "gt") || str_eq(o, "gte") || str_eq(o, "lt") || str_eq(o, "lte")
}

fn check_opt_duration(v: &Option<String>, path: String) -> (r: Result<(), ConfigError>)
    ensures
        unit_result_view(r) == opt_duration_check(*v, path@),
{
    match v {
        Some(s) => check_duration_field(s.as_str(), path),
        None => Ok(()),
    }
}

fn known_notifier(ns: &Vec<NotifierConfig>, id: &NotifierId) -> (r: bool)
    ensures
        r == among(notifier_ids_of(ns@), id@),
{
    let mut i: usize = 0;
    while i < ns.len()
        invariant
            i <= ns@.len(),
            forall|j: int| 0 <= j < i ==> notifier_ids_of(ns@)[j] != id@,
        decreases ns@.len() - i,
    {
        if str_eq(ns[i].id().as_str(), id.as_str()) {
            assert(notifier_ids_of(ns@)[i as int] == id@);
            return true;
        }
        i = i + 1;
    }
    false
}

fn check_rule(
    rules: &Vec<AlertRuleConfig>,
    i: usize,
    profile_pairs: &Vec<(ProfileId, ProbeKind)>,
    ps: Ghost<Seq<ProbeProfileConfig>>,
    notifiers: &Vec<NotifierConfig>,
    n: &NumericChecks,
) -> (r: Result<(), ConfigError>)
    requires
        i < rules@.len(),
        profile_keys(profile_pairs@) == profile_ids_of(ps@),
    ensures
        unit_result_view(r) == rule_step(rules@, i as int, profile_ids_of(ps@), notifier_ids_of(notifiers@), *n),
{
    let r = &rules[i];
    let base = concat("rules.", r.id.as_str());
    let mut j: usize = 0;
    while j < i
        invariant
            j <= i < rules@.len(),
            *r == rules@[i as int],
            base@ == "rules."@ + rules@[i as int].id@,
            forall|k: int| 0 <= k < j ==> rules@[k].id@ != rules@[i as int].id@,
        decreases i - j,
    {
        if str_eq(rules[j].id.as_str(), r.id.as_str()) {
            assert(rules@[j as int].id@ == rules@[i as int].id@);
            return Err(validation(base, "duplicate rule id"));
        }
        j = j + 1;
    }
    if !known_profile(profile_pairs, &r.profile) {
        return Err(ConfigError::Validation {
            path: concat(base.as_str(), ".profile"),
            message: concat("references unknown profile: ", r.profile.as_str()),
        });
    }
    if !known_notifier(notifiers, &r.notifier) {
        return Err(ConfigError::Validation {
            path: concat(base.as_str(), ".notifier"),
            message: concat("references unknown notifier: ", r.notifier.as_str()),
        });
    }
    check_duration_field(r.window.as_str(), concat(base.as_str(), ".window"))?;
    if !is_known_metric(r.metric.as_str()) {
        return Err(validation(concat(base.as_str(), ".metric"), "unsupported alert metric"));
    }
    if !is_known_operator(r.operator.as_str()) {
        return Err(validation(concat(base.as_str(), ".operator"), "unsupported alert operator"));
    }
    if let Some(o) = &r.clear_operator {
        if !is_known_operator(o.as_str()) {
            return Err(validation(concat(base.as_str(), ".clear_operator"), "unsupported alert operator"));
        }
    }
    take_outcome(&n.rule_thresholds, i)?;
    if r.clear_threshold.is_some() {
        take_outcome(&n.rule_clear_thresholds, i)?;
    }
    check_opt_duration(&r.duration, concat(base.as_str(), ".duration"))?;
    check_opt_duration(&r.repeat_every, concat(base.as_str(), ".repeat_every"))?;
    check_opt_duration(&r.no_data_period, concat(base.as_str(), ".no_data_period"))?;
    if r.minimum_rounds == Some(0u32) {
        return Err(validation(concat(base.as_str(), ".minimum_rounds"), "must be greater than zero"));
    }
    if r.minimum_latency_samples == Some(0u32) {
        return Err(validation(concat(base.as_str(), ".minimum_latency_samples"), "must be greater than zero"));
    }
    Ok(())
}

fn validate_profiles(ps: &Vec<ProbeProfileConfig>) -> (r: Result<(), ConfigError>)
    ensures
        unit_result_view(r) == run_checks(ps@.len(), |i: int| profile_step(ps@, i)),
{
    let ghost step = |i: int| profile_step(ps@, i);
    let mut i: usize = 0;
    while i < ps.len()
        invariant
            i <= ps@.len(),
            step == (|i: int| profile_step(ps@, i)),
            run_checks(i as nat, step) is Ok,
        decreases ps@.len() - i,
    {
        let p = &ps[i];
        let mut j: usize = 0;
        while j < i
            invariant
                j <= i < ps@.len(),
                *p == ps@[i as int],
                step == (|i: int| profile_step(ps@, i)),
                run_checks(i as nat, step) is Ok,
                forall|k: int| 0 <= k < j ==> profile_id(ps@[k]) != profile_id(ps@[i as int]),
            decreases i - j,
        {
            if str_eq(ps[j].id().as_str(), p.id().as_str()) {
                proof {
                    lemma_run_checks_stop(i as nat, ps@.len(), step);
                }
                return Err(validation(concat("profiles.", p.id().as_str()), "duplicate profile id"));
            }
            j = j + 1;
        }
        match p.validate() {
            Err(e) => {
                proof {
                    lemma_run_checks_stop(i as nat, ps@.len(), step);
                }
                return Err(e);
            },
            Ok(()) => {},
        }
        i = i + 1;
    }
    Ok(())
}

fn validate_notifiers(ns: &Vec<NotifierConfig>, warnings: &mut Vec<ConfigWarning>) -> (r: Result<(), ConfigError>)
    ensures
        unit_result_view(r) == run_checks(ns@.len(), |i: int| notifier_step(ns@, i)),
        r is Ok ==> warnings_view(final(warnings)@) == warnings_view(old(warnings)@) + gather(
            ns@.len(),
            |i: int| notifier_warnings(ns@[i]),
        ),
{
    let ghost step = |i: int| notifier_step(ns@, i);
    let ghost w = |i: int| notifier_warnings(ns@[i]);
    let ghost start = warnings_view(warnings@);
    let mut i: usize = 0;
    while i < ns.len()
        invariant
            i <= ns@.len(),
            step == (|i: int| notifier_step(ns@, i)),
            w == (|i: int| notifier_warnings(ns@[i])),
            run_checks(i as nat, step) is Ok,
            warnings_view(warnings@) == start + gather(i as nat, w),
        decreases ns@.len() - i,
    {
        let nn = &ns[i];
        let mut j: usize = 0;
        while j < i
            invariant
                j <= i < ns@.len(),
                *nn == ns@[i as int],
                step == (|i: int| notifier_step(ns@, i)),
                run_checks(i as nat, step) is Ok,
                forall|k: int| 0 <= k < j ==> notifier_id(ns@[k]) != notifier_id(ns@[i as int]),
            decreases i - j,
        {
            if str_eq(ns[j].id().as_str(), nn.id().as_str()) {
                proof {
                    lemma_run_checks_stop(i as nat, ns@.len(), step);
                }
                return Err(validation(concat("notifiers.", nn.id().as_str()), "duplicate notifier id"));
            }
            j = j + 1;
        }
        nn.collect_warnings(warnings);
        assert(start + gather(i as nat, w) + w(i as int) =~= start + gather((i + 1) as nat, w));
        i = i + 1;
    }
    Ok(())
}

fn validate_rules(
    rules: &Vec<AlertRuleConfig>,
    profile_pairs: &Vec<(ProfileId, ProbeKind)>,
    ps: Ghost<Seq<ProbeProfileConfig>>,
    notifiers: &Vec<NotifierConfig>,
    n: &NumericChecks,
) -> (r: Result<(), ConfigError>)
    requires
        profile_keys(profile_pairs@) == profile_ids_of(ps@),
    ensures
        unit_result_view(r) == run_checks(
            rules@.len(),
            |i: int| rule_step(rules@, i, profile_ids_of(ps@), notifier_ids_of(notifiers@), *n),
        ),
{
    let ghost step = |i: int| rule_step(rules@, i, profile_ids_of(ps@), notifier_ids_of(notifiers@), *n);
    let mut i: usize = 0;
    while i < rules.len()
        invariant
            i <= rules@.len(),
            profile_keys(profile_pairs@) == profile_ids_of(ps@),
            step == (|i: int| rule_step(rules@, i, profile_ids_of(ps@), notifier_ids_of(notifiers@), *n)),
            run_checks(i as nat, step) is Ok,
        decreases rules@.len() - i,
    {
        match check_rule(rules, i, profile_pairs, ps, notifiers, n) {
            Err(e) => {
                proof {
                    lemma_run_checks_stop(i as nat, rules@.len(), step);
                }
                return Err(e);
            },
            Ok(()) => {},
        }
        i = i + 1;
    }
    Ok(())
}

fn validate_targets(
    ts: &Vec<TargetConfig>,
    profile_pairs: &Vec<(ProfileId, ProbeKind)>,
    warnings: &mut Vec<ConfigWarning>,
) -> (r: Result<(), ConfigError>)
    ensures
        unit_result_view(r) == run_checks(ts@.len(), |i: int| target_step(ts@, i, profile_keys(profile_pairs@))),
        r is Ok ==> warnings_view(final(warnings)@) == warnings_view(old(warnings)@) + gather(
            ts@.len(),
            |i: int| target_warnings(ts@[i], ts@[i].checks@.len()),
        ),
{
    let ghost step = |i: int| target_step(ts@, i, profile_keys(profile_pairs@));
    let ghost w = |i: int| target_warnings(ts@[i], ts@[i].checks@.len());
    let ghost start = warnings_view(warnings@);
    let mut i: usize = 0;
    while i < ts.len()
        invariant
            i <= ts@.len(),
            step == (|i: int| target_step(ts@, i, profile_keys(profile_pairs@))),
            w == (|i: int| target_warnings(ts@[i], ts@[i].checks@.len())),
            run_checks(i as nat, step) is Ok,
            warnings_view(warnings@) == start + gather(i as nat, w),
        decreases ts@.len() - i,
    {
        let t = &ts[i];
        let mut j: usize = 0;
        while j < i
            invariant
                j <= i < ts@.len(),
                *t == ts@[i as int],
                step == (|i: int| target_step(ts@, i, profile_keys(profile_pairs@))),
                run_checks(i as nat, step) is Ok,
                forall|k: int| 0 <= k < j ==> ts@[k].id@ != ts@[i as int].id@,
            decreases i - j,
        {
            if str_eq(ts[j].id.as_str(), t.id.as_str()) {
                proof {
                    lemma_run_checks_stop(i as nat, ts@.len(), step);
                }
                return Err(validation(concat("targets.", t.id.as_str()), "duplicate target id"));
            }
            j = j + 1;
        }
        match t.validate(profile_pairs, warnings) {
            Err(e) => {
                proof {
                    lemma_run_checks_stop(i as nat, ts@.len(), step);
                }
                return Err(e);
            },
            Ok(()) => {},
        }
        assert(start + gather(i as nat, w) + w(i as int) =~= start + gather((i + 1) as nat, w));
        i = i + 1;
    }
    Ok(())
}

fn profile_pairs_of(ps: &Vec<ProbeProfileConfig>) -> (r: Vec<(ProfileId, ProbeKind)>)
    ensures
        profile_keys(r@) == profile_ids_of(ps@),
{
    let mut r: Vec<(ProfileId, ProbeKind)> = Vec::new();
    let mut i: usize = 0;
    while i < ps.len()
        invariant
            i <= ps@.len(),
            r@.len() == i,
            forall|k: int| 0 <= k < i ==> r@[k].0@ == profile_id(ps@[k]),
        decreases ps@.len() - i,
    {
        r.push((ps[i].id().clone(), ps[i].kind()));
        i = i + 1;
    }
    assert(profile_keys(r@) =~= profile_ids_of(ps@));
    r
}

impl KemuriConfig {
    /// Validates the configuration, given the outcomes of its numeric
    /// checks, and gives its warnings.
    pub fn validate_with_warnings(&self, numbers: &NumericChecks) -> (r: Result<Vec<ConfigWarning>, ConfigError>)
        ensures
            match (r, spec_validate(*self, *numbers)) {
                (Ok(ws), Ok(v)) => warnings_view(ws@) == v,
                (Err(e), Err(v)) => e@ == v,
                _ => false,
            },
    {
        let mut warnings: Vec<ConfigWarning> = Vec::new();
        assert(warnings_view(warnings@) =~= Seq::empty());
        if self.version != 1 {
            return Err(ConfigError::Validation {
                path: String::from_str("version"),
                message: concat("unsupported config version: ", crate::text::u64_to_decimal(self.version as u64).as_str()),
            });
        }
        validate_profiles(&self.profiles)?;
        validate_notifiers(&self.notifiers, &mut warnings)?;
        let pairs = profile_pairs_of(&self.profiles);
        validate_rules(&self.rules, &pairs, Ghost(self.profiles@), &self.notifiers, numbers)?;
        let ghost mid = warnings_view(warnings@);
        validate_targets(&self.targets, &pairs, &mut warnings)?;
        match &numbers.scheduler_jitter {
            Ok(()) => self.scheduler.validate(Ok(()))?,
            Err(e) => self.scheduler.validate(Err(clone_error(e)))?,
        }
        match &numbers.storage_disk_pressure {
            Ok(()) => self.storage.validate(Ok(()))?,
            Err(e) => self.storage.validate(Err(clone_error(e)))?,
        }
        match parse_duration_millis(self.server.shutdown_timeout.as_str()) {
            Err(e) => {
                return Err(ConfigError::Validation {
                    path: String::from_str("server.shutdown_timeout"),
                    message: e.to_string(),
                });
            },
            Ok(_) => {},
        }
        Ok(warnings)
    }

    /// Validates the configuration, given the outcomes of its numeric
    /// checks.
    pub fn validate(&self, numbers: &NumericChecks) -> (r: Result<(), ConfigError>)
        ensures
            match (r, spec_validate(*self, *numbers)) {
                (Ok(()), Ok(_)) => true,
                (Err(e), Err(v)) => e@ == v,
                _ => false,
            },
    {
        match self.validate_with_warnings(numbers) {
            Ok(_) => Ok(()),
            Err(e) => Err(e),
        }
    }
}

/// Whether two name/value lists hold the same map: every name of each has
/// the same first value in the other.
pub open spec fn pairs_map_eq(a: Seq<(Seq<char>, Seq<char>)>, b: Seq<(Seq<char>, Seq<char>)>) -> bool {
    &&& forall|i: int| 0 <= i < a.len() ==> crate::probe::lookup(b, #[trigger] a[i].0) == Some(a[i].1)
    &&& forall|j: int| 0 <= j < b.len() ==> crate::probe::lookup(a, #[trigger] b[j].0) == Some(b[j].1)
}

/// Whether two optional name/value lists are equal as maps.
pub open spec fn opt_pairs_eq(a: Option<Vec<(String, String)>>, b: Option<Vec<(String, String)>>) -> bool {
    match (a, b) {
        (Some(x), Some(y)) => pairs_map_eq(pairs_view(x@), pairs_view(y@)),
        (None, None) => true,
        _ => false,
    }
}

fn contains_all(a: &Vec<(String, String)>, b: &Vec<(String, String)>) -> (r: bool)
    ensures
        r == forall|i: int|
            0 <= i < a@.len() ==> crate::probe::lookup(pairs_view(b@), #[trigger] pairs_view(a@)[i].0)
                == Some(pairs_view(a@)[i].1),
{
    let mut i: usize = 0;
    while i < a.len()
        invariant
            i <= a@.len(),
            forall|k: int|
                0 <= k < i ==> crate::probe::lookup(pairs_view(b@), #[trigger] pairs_view(a@)[k].0)
                    == Some(pairs_view(a@)[k].1),
        decreases a@.len() - i,
    {
        let found = param_get(b, a[i].0.as_str());
        let same = match &found {
            Some(v) => str_eq(v.as_str(), a[i].1.as_str()),
            None => false,
        };
        if !same {
            assert(pairs_view(a@)[i as int].0 == a@[i as int].0@);
            return false;
        }
        i = i + 1;
    }
    true
}

fn opt_pairs_equal(a: &Option<Vec<(String, String)>>, b: &Option<Vec<(String, String)>>) -> (r: bool)
    ensures
        r == opt_pairs_eq(*a, *b),
{
    match (a, b) {
        (Some(x), Some(y)) => contains_all(x, y) && contains_all(y, x),
        (None, None) => true,
        _ => false,
    }
}

fn opt_str_equal(a: &Option<String>, b: &Option<String>) -> (r: bool)
    ensures
        r == (opt_view(*a) == opt_view(*b)),
{
    match (a, b) {
        (Some(x), Some(y)) => str_eq(x.as_str(), y.as_str()),
        (None, None) => true,
        _ => false,
    }
}

fn opt_strings_equal(a: &Option<Vec<String>>, b: &Option<Vec<String>>) -> (r: bool)
    ensures
        r == (match (*a, *b) {
            (Some(x), Some(y)) => strings_view(x@) == strings_view(y@),
            (None, None) => true,
            _ => false,
        }),
{
    match (a, b) {
        (Some(x), Some(y)) => {
            if x.len() != y.len() {
                assert(strings_view(x@).len() == x@.len());
                assert(strings_view(y@).len() == y@.len());
                assert(strings_view(x@) != strings_view(y@));
                return false;
            }
            let mut i: usize = 0;
            while i < x.len()
                invariant
                    i <= x@.len(),
                    x@.len() == y@.len(),
                    *a == Some(*x),
                    *b == Some(*y),
                    forall|k: int| 0 <= k < i ==> x@[k]@ == y@[k]@,
                decreases x@.len() - i,
            {
                if !str_eq(x[i].as_str(), y[i].as_str()) {
                    assert(strings_view(x@)[i as int] != strings_view(y@)[i as int]);
                    return false;
                }
                i = i + 1;
            }
            assert(strings_view(x@) =~= strings_view(y@));
            true
        },
        (None, None) => true,
        _ => false,
    }
}

/// Whether two secrets are the same.
pub open spec fn secret_eq(a: SecretRef, b: SecretRef) -> bool {
    match (a, b) {
        (SecretRef::Literal(x), SecretRef::Literal(y)) => x@ == y@,
        (SecretRef::FromEnv { from_env: x }, SecretRef::FromEnv { from_env: y }) => x@ == y@,
        (SecretRef::FromFile { from_file: x }, SecretRef::FromFile { from_file: y }) => x@ == y@,
        _ => false,
    }
}

/// Whether two optional secrets are the same.
pub open spec fn opt_secret_eq(a: Option<SecretRef>, b: Option<SecretRef>) -> bool {
    match (a, b) {
        (Some(x), Some(y)) => secret_eq(x, y),
        (None, None) => true,
        _ => false,
    }
}

fn opt_secret_equal(a: &Option<SecretRef>, b: &Option<SecretRef>) -> (r: bool)
    ensures
        r == opt_secret_eq(*a, *b),
{
    match (a, b) {
        (Some(x), Some(y)) => match (x, y) {
            (SecretRef::Literal(p), SecretRef::Literal(q)) => str_eq(p.as_str(), q.as_str()),
            (SecretRef::FromEnv { from_env: p }, SecretRef::FromEnv { from_env: q }) => str_eq(p.as_str(), q.as_str()),
            (SecretRef::FromFile { from_file: p }, SecretRef::FromFile { from_file: q }) => str_eq(p.as_str(), q.as_str()),
            _ => false,
        },
        (None, None) => true,
        _ => false,
    }
}

/// Whether two optional status expectations are the same.
pub open spec fn opt_status_eq(a: Option<HttpStatusExpectation>, b: Option<HttpStatusExpectation>) -> bool {
    match (a, b) {
        (Some(HttpStatusExpectation::Status(x)), Some(HttpStatusExpectation::Status(y))) => x == y,
        (Some(HttpStatusExpectation::Range(x)), Some(HttpStatusExpectation::Range(y))) => x@ == y@,
        (None, None) => true,
        _ => false,
    }
}

fn opt_status_equal(a: &Option<HttpStatusExpectation>, b: &Option<HttpStatusExpectation>) -> (r: bool)
    ensures
        r == opt_status_eq(*a, *b),
{
    match (a, b) {
        (Some(HttpStatusExpectation::Status(x)), Some(HttpStatusExpectation::Status(y))) => *x == *y,
        (Some(HttpStatusExpectation::Range(x)), Some(HttpStatusExpectation::Range(y))) => str_eq(x.as_str(), y.as_str()),
        (None, None) => true,
        _ => false,
    }
}

/// Whether two optional TLS settings are the same.
pub open spec fn opt_tls_eq(a: Option<TcpTlsConfig>, b: Option<TcpTlsConfig>) -> bool {
    match (a, b) {
        (Some(x), Some(y)) => {
            &&& x.enabled == y.enabled
            &&& opt_view(x.server_name) == opt_view(y.server_name)
            &&& x.tls_validate == y.tls_validate
            &&& match (x.root_certificates, y.root_certificates) {
                (Some(p), Some(q)) => strings_view(p@) == strings_view(q@),
                (None, None) => true,
                _ => false,
            }
        },
        (None, None) => true,
        _ => false,
    }
}

fn opt_tls_equal(a: &Option<TcpTlsConfig>, b: &Option<TcpTlsConfig>) -> (r: bool)
    ensures
        r == opt_tls_eq(*a, *b),
{
    match (a, b) {
        (Some(x), Some(y)) => x.enabled == y.enabled && opt_str_equal(&x.server_name, &y.server_name)
            && x.tls_validate == y.tls_validate && opt_strings_equal(&x.root_certificates, &y.root_certificates),
        (None, None) => true,
        _ => false,
    }
}

/// Whether two checks have the same settings (name/value lists compared as
/// maps).
pub open spec fn same_check(a: CheckConfig, b: CheckConfig) -> bool {
    &&& a.id@ == b.id@
    &&& a.profile@ == b.profile@
    &&& a.enabled == b.enabled
    &&& a.kind == b.kind
    &&& opt_view(a.interval) == opt_view(b.interval)
    &&& opt_view(a.timeout) == opt_view(b.timeout)
    &&& opt_view(a.url) == opt_view(b.url)
    &&& opt_view(a.method) == opt_view(b.method)
    &&& opt_pairs_eq(a.headers, b.headers)
    &&& opt_status_eq(a.expected_status, b.expected_status)
    &&& opt_secret_eq(a.body, b.body)
    &&& opt_view(a.host) == opt_view(b.host)
    &&& a.port == b.port
    &&& opt_view(a.domain) == opt_view(b.domain)
    &&& opt_view(a.record_type) == opt_view(b.record_type)
    &&& opt_view(a.resolver) == opt_view(b.resolver)
    &&& a.count == b.count
    &&& opt_view(a.address_family) == opt_view(b.address_family)
    &&& a.payload_size == b.payload_size
    &&& opt_view(a.source_address) == opt_view(b.source_address)
    &&& a.follow_redirects == b.follow_redirects
    &&& a.max_redirect_count == b.max_redirect_count
    &&& opt_view(a.connection_mode) == opt_view(b.connection_mode)
    &&& opt_view(a.measure_until) == opt_view(b.measure_until)
    &&& opt_view(a.user_agent) == opt_view(b.user_agent)
    &&& a.tls_validate == b.tls_validate
    &&& (match (a.root_certificates, b.root_certificates) {
        (Some(p), Some(q)) => strings_view(p@) == strings_view(q@),
        (None, None) => true,
        _ => false,
    })
    &&& opt_tls_eq(a.tls, b.tls)
    &&& opt_view(a.protocol) == opt_view(b.protocol)
    &&& opt_view(a.expected_rcode) == opt_view(b.expected_rcode)
    &&& a.require_answer == b.require_answer
}

fn opt_kind_equal(a: Option<ProbeKind>, b: Option<ProbeKind>) -> (r: bool)
    ensures
        r == (a == b),
{
    match (a, b) {
        (Some(x), Some(y)) => x == y,
        (None, None) => true,
        _ => false,
    }
}

fn checks_equal(a: &CheckConfig, b: &CheckConfig) -> (r: bool)
    ensures
        r == same_check(*a, *b),
{
    str_eq(a.id.as_str(), b.id.as_str()) && str_eq(a.profile.as_str(), b.profile.as_str())
        && a.enabled == b.enabled && opt_kind_equal(a.kind, b.kind)
        && opt_str_equal(&a.interval, &b.interval) && opt_str_equal(&a.timeout, &b.timeout)
        && opt_str_equal(&a.url, &b.url) && opt_str_equal(&a.method, &b.method)
        && opt_pairs_equal(&a.headers, &b.headers) && opt_status_equal(&a.expected_status, &b.expected_status)
        && opt_secret_equal(&a.body, &b.body) && opt_str_equal(&a.host, &b.host) && a.port == b.port
        && opt_str_equal(&a.domain, &b.domain) && opt_str_equal(&a.record_type, &b.record_type)
        && opt_str_equal(&a.resolver, &b.resolver) && a.count == b.count
        && opt_str_equal(&a.address_family, &b.address_family) && a.payload_size == b.payload_size
        && opt_str_equal(&a.source_address, &b.source_address) && a.follow_redirects == b.follow_redirects
        && a.max_redirect_count == b.max_redirect_count
        && opt_str_equal(&a.connection_mode, &b.connection_mode)
        && opt_str_equal(&a.measure_until, &b.measure_until) && opt_str_equal(&a.user_agent, &b.user_agent)
        && a.tls_validate == b.tls_validate
        && opt_strings_equal(&a.root_certificates, &b.root_certificates) && opt_tls_equal(&a.tls, &b.tls)
        && opt_str_equal(&a.protocol, &b.protocol) && opt_str_equal(&a.expected_rcode, &b.expected_rcode)
        && a.require_answer == b.require_answer
}

/// The identifiers of targets, in order.
pub open spec fn target_ids(ts: Seq<TargetConfig>) -> Seq<Seq<char>> {
    Seq::new(ts.len(), |i: int| ts[i].id@)
}

/// The identifiers of checks, in order.
pub open spec fn check_ids(cs: Seq<CheckConfig>) -> Seq<Seq<char>> {
    Seq::new(cs.len(), |i: int| cs[i].id@)
}

/// The index of the first identifier equal to `id`, if any.
pub open spec fn first_index(ids: Seq<Seq<char>>, id: Seq<char>) -> Option<int> {
    if exists|i: int| is_first(ids, id, i) {
        Some(choose|i: int| is_first(ids, id, i))
    } else {
        None
    }
}

/// Whether `i` is the index of the first identifier equal to `id`.
pub open spec fn is_first(ids: Seq<Seq<char>>, id: Seq<char>, i: int) -> bool {
    0 <= i < ids.len() && ids[i] == id && forall|j: int| 0 <= j < i ==> ids[j] != id
}

/// The identifiers chosen by `f` for the first `n` items, in order.
pub open spec fn gather_ids(n: nat, f: spec_fn(int) -> Seq<Seq<char>>) -> Seq<Seq<char>>
    decreases n,
{
    if n == 0 {
        Seq::empty()
    } else {
        gather_ids((n - 1) as nat, f) + f(n - 1)
    }
}

/// Whether a target's own settings changed (labels compared as maps).
pub open spec fn target_modified(t: TargetConfig, o: TargetConfig) -> bool {
    !(t.address@ == o.address@ && opt_view(t.name) == opt_view(o.name) && opt_view(t.group_path)
        == opt_view(o.group_path) && opt_pairs_eq(t.labels, o.labels) && t.enabled == o.enabled)
}

/// Check `k` of `t` when `o` lacks it.
pub open spec fn added_piece(t: TargetConfig, o: TargetConfig, k: int) -> Seq<(Seq<char>, Seq<char>)> {
    if among(check_ids(o.checks@), t.checks@[k].id@) {
        Seq::empty()
    } else {
        seq![(t.id@, t.checks@[k].id@)]
    }
}

/// Check `k` of `o` when `t` lacks it.
pub open spec fn removed_piece(t: TargetConfig, o: TargetConfig, k: int) -> Seq<(Seq<char>, Seq<char>)> {
    if among(check_ids(t.checks@), o.checks@[k].id@) {
        Seq::empty()
    } else {
        seq![(t.id@, o.checks@[k].id@)]
    }
}

/// Check `k` of `t` when its settings differ from those in `o`.
pub open spec fn modified_piece(t: TargetConfig, o: TargetConfig, k: int) -> Seq<(Seq<char>, Seq<char>)> {
    match first_index(check_ids(o.checks@), t.checks@[k].id@) {
        Some(j) => if same_check(o.checks@[j], t.checks@[k]) {
            Seq::empty()
        } else {
            seq![(t.id@, t.checks@[k].id@)]
        },
        None => Seq::empty(),
    }
}

/// The checks of `t` that `o` lacks.
pub open spec fn added_checks_of(t: TargetConfig, o: TargetConfig) -> Seq<(Seq<char>, Seq<char>)> {
    gather(t.checks@.len(), |k: int| added_piece(t, o, k))
}

/// The checks of `o` that `t` lacks.
pub open spec fn removed_checks_of(t: TargetConfig, o: TargetConfig) -> Seq<(Seq<char>, Seq<char>)> {
    gather(o.checks@.len(), |k: int| removed_piece(t, o, k))
}

/// The checks of `t` whose settings differ from those of `o`.
pub open spec fn modified_checks_of(t: TargetConfig, o: TargetConfig) -> Seq<(Seq<char>, Seq<char>)> {
    gather(t.checks@.len(), |k: int| modified_piece(t, o, k))
}

/// The changes from one configuration's targets to another's.
#[derive(Debug, Clone)]
pub struct ConfigDiff {
    pub added_targets: Vec<TargetId>,
    pub removed_targets: Vec<TargetId>,
    pub modified_targets: Vec<TargetId>,
    pub added_checks: Vec<(TargetId, CheckId)>,
    pub removed_checks: Vec<(TargetId, CheckId)>,
    pub modified_checks: Vec<(TargetId, CheckId)>,
}

/// The identifiers of a list of target identifiers.
pub open spec fn tid_view(v: Seq<TargetId>) -> Seq<Seq<char>> {
    Seq::new(v.len(), |i: int| v[i]@)
}

/// The identifiers of a list of check keys.
pub open spec fn cid_view(v: Seq<(TargetId, CheckId)>) -> Seq<(Seq<char>, Seq<char>)> {
    Seq::new(v.len(), |i: int| (v[i].0@, v[i].1@))
}

/// For the new target `i`, `f` of it and its old counterpart, if it has
/// one.
pub open spec fn with_old<X>(
    new: Seq<TargetConfig>,
    old: Seq<TargetConfig>,
    i: int,
    f: spec_fn(TargetConfig, TargetConfig) -> Seq<X>,
) -> Seq<X> {
    match first_index(target_ids(old), new[i].id@) {
        Some(j) => f(new[i], old[j]),
        None => Seq::empty(),
    }
}

fn find_first_target(ts: &Vec<TargetConfig>, id: &TargetId) -> (r: Option<usize>)
    ensures
        match r {
            Some(i) => first_index(target_ids(ts@), id@) == Some(i as int),
            None => first_index(target_ids(ts@), id@) is None,
        },
{
    let ghost ids = target_ids(ts@);
    let mut i: usize = 0;
    while i < ts.len()
        invariant
            i <= ts@.len(),
            ids == target_ids(ts@),
            forall|j: int| 0 <= j < i ==> ids[j] != id@,
        decreases ts@.len() - i,
    {
        if str_eq(ts[i].id.as_str(), id.as_str()) {
            proof {
                assert(is_first(ids, id@, i as int));
                let k = choose|k: int| is_first(ids, id@, k);
                if k < i {
                    assert(ids[k] != id@);
                } else if k > i {
                    assert(ids[i as int] != id@);
                }
            }
            return Some(i);
        }
        i = i + 1;
    }
    None
}

fn find_first_check(cs: &Vec<CheckConfig>, id: &CheckId) -> (r: Option<usize>)
    ensures
        match r {
            Some(i) => first_index(check_ids(cs@), id@) == Some(i as int),
            None => first_index(check_ids(cs@), id@) is None,
        },
{
    let ghost ids = check_ids(cs@);
    let mut i: usize = 0;
    while i < cs.len()
        invariant
            i <= cs@.len(),
            ids == check_ids(cs@),
            forall|j: int| 0 <= j < i ==> ids[j] != id@,
        decreases cs@.len() - i,
    {
        if str_eq(cs[i].id.as_str(), id.as_str()) {
            proof {
                assert(is_first(ids, id@, i as int));
                let k = choose|k: int| is_first(ids, id@, k);
                if k < i {
                    assert(ids[k] != id@);
                } else if k > i {
                    assert(ids[i as int] != id@);
                }
            }
            return Some(i);
        }
        i = i + 1;
    }
    None
}

fn push_ids_not_in(
    from: &Vec<TargetConfig>,
    other: &Vec<TargetConfig>,
    out: &mut Vec<TargetId>,
)
    ensures
        tid_view(final(out)@) == tid_view(old(out)@) + gather_ids(
            from@.len(),
            |i: int| if among(target_ids(other@), from@[i].id@) { Seq::empty() } else { seq![from@[i].id@] },
        ),
{
    let ghost f = |i: int| if among(target_ids(other@), from@[i].id@) { Seq::empty() } else { seq![from@[i].id@] };
    let ghost start = tid_view(out@);
    let mut i: usize = 0;
    while i < from.len()
        invariant
            i <= from@.len(),
            f == (|i: int| if among(target_ids(other@), from@[i].id@) { Seq::empty() } else { seq![from@[i].id@] }),
            tid_view(out@) == start + gather_ids(i as nat, f),
        decreases from@.len() - i,
    {
        let ghost before = tid_view(out@);
        match find_first_target(other, &from[i].id) {
            Some(j) => {
                assert(is_first(target_ids(other@), from@[i as int].id@, j as int));
                assert(among(target_ids(other@), from@[i as int].id@));
                assert(before + f(i as int) =~= before);
            },
            None => {
                let ghost ids = target_ids(other@);
                assert(!among(ids, from@[i as int].id@)) by {
                    if among(ids, from@[i as int].id@) {
                        let w = choose|w: int| 0 <= w < ids.len() && ids[w] == from@[i as int].id@;
                        lemma_first_exists(ids, from@[i as int].id@, w);
                    }
                }
                out.push(from[i].id.clone());
                assert(tid_view(out@) =~= before + f(i as int));
            },
        }
        assert(start + gather_ids(i as nat, f) + f(i as int) =~= start + gather_ids((i + 1) as nat, f));
        i = i + 1;
    }
}

fn check_key(t: &TargetConfig, c: &CheckConfig) -> (r: (TargetId, CheckId))
    ensures
        r.0@ == t.id@,
        r.1@ == c.id@,
{
    (t.id.clone(), c.id.clone())
}

fn check_change_at(
    t: &TargetConfig,
    o: &TargetConfig,
    k: usize,
    added: &mut Vec<(TargetId, CheckId)>,
    modified: &mut Vec<(TargetId, CheckId)>,
)
    requires
        k < t.checks@.len(),
    ensures
        cid_view(final(added)@) == cid_view(old(added)@) + added_piece(*t, *o, k as int),
        cid_view(final(modified)@) == cid_view(old(modified)@) + modified_piece(*t, *o, k as int),
{
    let ghost ab = cid_view(added@);
    let ghost mb = cid_view(modified@);
    let c = &t.checks[k];
    match find_first_check(&o.checks, &c.id) {
        Some(j) => {
            let ghost ids = check_ids(o.checks@);
            assert(is_first(ids, c.id@, j as int));
            assert(among(ids, c.id@));
            assert(ab + added_piece(*t, *o, k as int) =~= ab);
            if !checks_equal(&o.checks[j], c) {

                modified.push(check_key(t, c));
                assert(cid_view(modified@) =~= mb + modified_piece(*t, *o, k as int));
            } else {
                assert(mb + modified_piece(*t, *o, k as int) =~= mb);
            }
        },
        None => {
            let ghost ids = check_ids(o.checks@);
            assert(!among(ids, c.id@)) by {
                if among(ids, c.id@) {
                    let w = choose|w: int| 0 <= w < ids.len() && ids[w] == c.id@;
                    lemma_first_exists(ids, c.id@, w);
                }
            }
            added.push(check_key(t, c));
            assert(cid_view(added@) =~= ab + added_piece(*t, *o, k as int));
            assert(mb + modified_piece(*t, *o, k as int) =~= mb);
        },
    }
}

/// Where an identifier occurs, a first occurrence exists.
pub proof fn lemma_first_exists(ids: Seq<Seq<char>>, id: Seq<char>, w: int)
    requires
        0 <= w < ids.len(),
        ids[w] == id,
    ensures
        exists|i: int| is_first(ids, id, i),
    decreases w,
{
    if exists|j: int| 0 <= j < w && ids[j] == id {
        let j = choose|j: int| 0 <= j < w && ids[j] == id;
        lemma_first_exists(ids, id, j);
    } else {
        assert(is_first(ids, id, w));
    }
}

fn removed_change_at(
    t: &TargetConfig,
    o: &TargetConfig,
    k: usize,
    removed: &mut Vec<(TargetId, CheckId)>,
)
    requires
        k < o.checks@.len(),
    ensures
        cid_view(final(removed)@) == cid_view(old(removed)@) + removed_piece(*t, *o, k as int),
{
    let ghost rb = cid_view(removed@);
    match find_first_check(&t.checks, &o.checks[k].id) {
        Some(j) => {
            let ghost ids = check_ids(t.checks@);
            assert(is_first(ids, o.checks@[k as int].id@, j as int));
            assert(among(ids, o.checks@[k as int].id@));
            assert(rb + removed_piece(*t, *o, k as int) =~= rb);
        },
        None => {
            let ghost ids = check_ids(t.checks@);
            assert(!among(ids, o.checks@[k as int].id@)) by {
                if among(ids, o.checks@[k as int].id@) {
                    let w = choose|w: int| 0 <= w < ids.len() && ids[w] == o.checks@[k as int].id@;
                    lemma_first_exists(ids, o.checks@[k as int].id@, w);
                }
            }
            removed.push(check_key(t, &o.checks[k]));
            assert(cid_view(removed@) =~= rb + removed_piece(*t, *o, k as int));
        },
    }
}

fn push_check_changes(
    t: &TargetConfig,
    o: &TargetConfig,
    added: &mut Vec<(TargetId, CheckId)>,
    removed: &mut Vec<(TargetId, CheckId)>,
    modified: &mut Vec<(TargetId, CheckId)>,
)
    ensures
        cid_view(final(added)@) == cid_view(old(added)@) + added_checks_of(*t, *o),
        cid_view(final(removed)@) == cid_view(old(removed)@) + removed_checks_of(*t, *o),
        cid_view(final(modified)@) == cid_view(old(modified)@) + modified_checks_of(*t, *o),
{
    let ghost fa = |k: int| added_piece(*t, *o, k);
    let ghost fm = |k: int| modified_piece(*t, *o, k);
    let ghost fr = |k: int| removed_piece(*t, *o, k);
    let ghost a0 = cid_view(added@);
    let ghost m0 = cid_view(modified@);
    let ghost r0 = cid_view(removed@);
    let mut k: usize = 0;
    while k < t.checks.len()
        invariant
            k <= t.checks@.len(),
            fa == (|k: int| added_piece(*t, *o, k)),
            fm == (|k: int| modified_piece(*t, *o, k)),
            cid_view(added@) == a0 + gather(k as nat, fa),
            cid_view(modified@) == m0 + gather(k as nat, fm),
        decreases t.checks@.len() - k,
    {
        check_change_at(t, o, k, added, modified);
        assert(a0 + gather(k as nat, fa) + fa(k as int) =~= a0 + gather((k + 1) as nat, fa));
        assert(m0 + gather(k as nat, fm) + fm(k as int) =~= m0 + gather((k + 1) as nat, fm));
        k = k + 1;
    }
    let mut k: usize = 0;
    while k < o.checks.len()
        invariant
            k <= o.checks@.len(),
            fr == (|k: int| removed_piece(*t, *o, k)),
            cid_view(removed@) == r0 + gather(k as nat, fr),
        decreases o.checks@.len() - k,
    {
        removed_change_at(t, o, k, removed);
        assert(r0 + gather(k as nat, fr) + fr(k as int) =~= r0 + gather((k + 1) as nat, fr));
        k = k + 1;
    }
}

/// The changes from `old` to `new`: targets added, removed and modified,
/// and checks added, removed and modified within targets that both hold.
pub open spec fn spec_diff(old: KemuriConfig, new: KemuriConfig) -> (
    Seq<Seq<char>>,
    Seq<Seq<char>>,
    Seq<Seq<char>>,
    Seq<(Seq<char>, Seq<char>)>,
    Seq<(Seq<char>, Seq<char>)>,
    Seq<(Seq<char>, Seq<char>)>,
) {
    let n = new.targets@;
    let o = old.targets@;
    (
        gather_ids(n.len(), |i: int| if among(target_ids(o), n[i].id@) { Seq::empty() } else { seq![n[i].id@] }),
        gather_ids(o.len(), |i: int| if among(target_ids(n), o[i].id@) { Seq::empty() } else { seq![o[i].id@] }),
        gather_ids(
            n.len(),
            |i: int|
                with_old(n, o, i, |t: TargetConfig, u: TargetConfig| if target_modified(t, u) { seq![t.id@] } else { Seq::empty() }),
        ),
        gather(n.len(), |i: int| with_old(n, o, i, |t: TargetConfig, u: TargetConfig| added_checks_of(t, u))),
        gather(n.len(), |i: int| with_old(n, o, i, |t: TargetConfig, u: TargetConfig| removed_checks_of(t, u))),
        gather(n.len(), |i: int| with_old(n, o, i, |t: TargetConfig, u: TargetConfig| modified_checks_of(t, u))),
    )
}

impl ConfigDiff {
    /// The changes from `old` to `new`.
    pub fn compute(old: &KemuriConfig, new: &KemuriConfig) -> (r: Self)
        ensures
            (
                tid_view(r.added_targets@),
                tid_view(r.removed_targets@),
                tid_view(r.modified_targets@),
                cid_view(r.added_checks@),
                cid_view(r.removed_checks@),
                cid_view(r.modified_checks@),
            ) == spec_diff(*old, *new),
    {
        let mut added_targets: Vec<TargetId> = Vec::new();
        let mut removed_targets: Vec<TargetId> = Vec::new();
        let mut modified_targets: Vec<TargetId> = Vec::new();
        let mut added_checks: Vec<(TargetId, CheckId)> = Vec::new();
        let mut removed_checks: Vec<(TargetId, CheckId)> = Vec::new();
        let mut modified_checks: Vec<(TargetId, CheckId)> = Vec::new();
        assert(tid_view(added_targets@) =~= Seq::empty());
        assert(tid_view(removed_targets@) =~= Seq::empty());
        push_ids_not_in(&new.targets, &old.targets, &mut added_targets);
        push_ids_not_in(&old.targets, &new.targets, &mut removed_targets);
        let ghost n = new.targets@;
        let ghost o = old.targets@;
        let ghost fmt = |i: int| with_old(n, o, i, |t: TargetConfig, u: TargetConfig| if target_modified(t, u) { seq![t.id@] } else { Seq::empty() });
        let ghost fa = |i: int| with_old(n, o, i, |t: TargetConfig, u: TargetConfig| added_checks_of(t, u));
        let ghost fr = |i: int| with_old(n, o, i, |t: TargetConfig, u: TargetConfig| removed_checks_of(t, u));
        let ghost fm = |i: int| with_old(n, o, i, |t: TargetConfig, u: TargetConfig| modified_checks_of(t, u));
        assert(tid_view(modified_targets@) =~= gather_ids(0, fmt));
        assert(cid_view(added_checks@) =~= gather(0, fa));
        assert(cid_view(removed_checks@) =~= gather(0, fr));
        assert(cid_view(modified_checks@) =~= gather(0, fm));
        let mut i: usize = 0;
        while i < new.targets.len()
            invariant
                i <= n.len(),
                n == new.targets@,
                o == old.targets@,
                fmt == (|i: int| with_old(n, o, i, |t: TargetConfig, u: TargetConfig| if target_modified(t, u) { seq![t.id@] } else { Seq::empty() })),
                fa == (|i: int| with_old(n, o, i, |t: TargetConfig, u: TargetConfig| added_checks_of(t, u))),
                fr == (|i: int| with_old(n, o, i, |t: TargetConfig, u: TargetConfig| removed_checks_of(t, u))),
                fm == (|i: int| with_old(n, o, i, |t: TargetConfig, u: TargetConfig| modified_checks_of(t, u))),
                tid_view(modified_targets@) == gather_ids(i as nat, fmt),
                cid_view(added_checks@) == gather(i as nat, fa),
                cid_view(removed_checks@) == gather(i as nat, fr),
                cid_view(modified_checks@) == gather(i as nat, fm),
            decreases n.len() - i,
        {
            let t = &new.targets[i];
            let ghost mt = tid_view(modified_targets@);
            let ghost ac = cid_view(added_checks@);
            let ghost rc = cid_view(removed_checks@);
            let ghost mc = cid_view(modified_checks@);
            match find_first_target(&old.targets, &t.id) {
                Some(j) => {
                    assert(is_first(target_ids(old.targets@), t.id@, j as int));
                    let u = &old.targets[j];
                    let same = str_eq(u.address.as_str(), t.address.as_str()) && opt_str_equal(&u.name, &t.name)
                        && opt_str_equal(&u.group_path, &t.group_path) && opt_pairs_equal(&u.labels, &t.labels)
                        && u.enabled == t.enabled;
                    proof {
                        assert(opt_pairs_eq(u.labels, t.labels) == opt_pairs_eq(t.labels, u.labels));
                    }
                    if !same {
                        modified_targets.push(t.id.clone());
                        assert(tid_view(modified_targets@) =~= mt + fmt(i as int));
                    } else {
                        assert(mt + fmt(i as int) =~= mt);
                    }
                    push_check_changes(t, u, &mut added_checks, &mut removed_checks, &mut modified_checks);
                },
                None => {
                    assert(mt + fmt(i as int) =~= mt);
                    assert(ac + fa(i as int) =~= ac);
                    assert(rc + fr(i as int) =~= rc);
                    assert(mc + fm(i as int) =~= mc);
                },
            }
            assert(mt + fmt(i as int) =~= gather_ids((i + 1) as nat, fmt));
            assert(ac + fa(i as int) =~= gather((i + 1) as nat, fa));
            assert(rc + fr(i as int) =~= gather((i + 1) as nat, fr));
            assert(mc + fm(i as int) =~= gather((i + 1) as nat, fm));
            i = i + 1;
        }
        ConfigDiff {
            added_targets,
            removed_targets,
            modified_targets,
            added_checks,
            removed_checks,
            modified_checks,
        }
    }

    /// Whether nothing changed.
    pub fn is_empty(&self) -> (r: bool)
        ensures
            r == (self.added_targets@.len() == 0 && self.removed_targets@.len() == 0
                && self.modified_targets@.len() == 0 && self.added_checks@.len() == 0
                && self.removed_checks@.len() == 0 && self.modified_checks@.len() == 0),
    {
        self.added_targets.len() == 0 && self.removed_targets.len() == 0 && self.modified_targets.len() == 0
            && self.added_checks.len() == 0 && self.removed_checks.len() == 0
            && self.modified_checks.len() == 0
    }
}

/// The resolved settings of an ICMP check.
#[derive(Debug, Clone)]
pub struct ResolvedIcmpParams {
    pub count: u32,
    pub address_family: String,
    pub payload_size: usize,
    pub source_address: Option<String>,
}

/// The resolved settings of an HTTP check; `headers` holds name/value
/// pairs.
#[derive(Debug, Clone)]
pub struct ResolvedHttpParams {
    pub url: String,
    pub method: Option<String>,
    pub headers: Vec<(String, String)>,
    pub expected_status: Option<u16>,
    pub expected_status_range: Option<(u16, u16)>,
    pub body: Option<String>,
    pub follow_redirects: bool,
    pub max_redirect_count: u32,
    pub connection_mode: String,
    pub measure_until: String,
    pub user_agent: Option<String>,
    pub tls_validate: bool,
    pub root_certificates: Vec<String>,
}

/// The resolved settings of a TCP check.
#[derive(Debug, Clone)]
pub struct ResolvedTcpParams {
    pub host: String,
    pub port: u16,
    pub address_family: String,
    pub source_address: Option<String>,
    pub tls: Option<TcpTlsConfig>,
}

/// The resolved settings of a DNS check.
#[derive(Debug, Clone)]
pub struct ResolvedDnsParams {
    pub domain: String,
    pub record_type: Option<String>,
    pub resolver: Option<String>,
    pub protocol: String,
    pub expected_rcode: String,
    pub require_answer: bool,
}

/// The resolved settings of a check, by probe kind.
#[derive(Debug, Clone)]
pub enum ResolvedProbeParams {
    Icmp(ResolvedIcmpParams),
    Http(ResolvedHttpParams),
    Tcp(ResolvedTcpParams),
    Dns(ResolvedDnsParams),
}

/// A check ready to be scheduled.
#[derive(Debug, Clone)]
pub struct ResolvedCheckDef {
    pub check_id: CheckId,
    pub target_id: TargetId,
    pub target_address: String,
    pub profile_id: ProfileId,
    pub probe_kind: ProbeKind,
    pub interval: std::time::Duration,
    pub timeout: std::time::Duration,
    pub revision_id: CheckRevisionId,
    pub probe_params: ResolvedProbeParams,
}

/// The checks of a configuration ready to be scheduled, and the
/// configuration's generation.
#[derive(Debug, Clone)]
pub struct ResolvedConfig {
    pub generation: ConfigGeneration,
    pub checks: Vec<ResolvedCheckDef>,
}

/// The revision id of a check whose canonical description is `input`:
/// `rev-` and the hexadecimal form of the first eight bytes of its SHA-256
/// digest.
pub open spec fn spec_revision_id(input: Seq<char>) -> Seq<char> {
    "rev-"@ + crate::api::hex_text(crate::scheduler::sha256(vstd::utf8::encode_utf8(input)).take(8))
}

proof fn lemma_hex_text_chars(b: Seq<u8>)
    ensures
        forall|i: int|
            0 <= i < crate::api::hex_text(b).len() ==> ('0' <= #[trigger] crate::api::hex_text(b)[i] <= '9'
                || 'a' <= crate::api::hex_text(b)[i] <= 'f'),
        crate::api::hex_text(b).len() == 2 * b.len(),
    decreases b.len(),
{
    if b.len() > 0 {
        lemma_hex_text_chars(b.drop_last());
    }
}

/// The revision id of a check with the canonical description `input`.
pub fn compute_revision_id(input: &str) -> (r: CheckRevisionId)
    ensures
        r@ == spec_revision_id(input@),
{
    let digest = crate::scheduler::sha256_digest(input.as_bytes());
    let head = crate::api::hex_encode(&digest.as_slice()[0..8]);
    let text = concat("rev-", head.as_str());
    proof {
        reveal_strlit("rev-");
        assert(digest@.subrange(0, 8) =~= digest@.take(8));
        lemma_hex_text_chars(digest@.take(8));
        let t = text@;
        assert(t.len() == 20);
        assert forall|i: int| 0 <= i < t.len() implies crate::ids::is_id_char(#[trigger] t[i]) by {
            if i >= 4 {
                assert(t[i] == head@[i - 4]);
            }
        }
        assert(vstd::utf8::is_ascii_chars(t));
        vstd::utf8::is_ascii_chars_encode_utf8(t);
    }
    match CheckRevisionId::new(text.as_str()) {
        Ok(id) => id,
        Err(_) => {
            proof {
                assert(false);
            }
            CheckRevisionId::new(text.as_str()).unwrap()
        },
    }
}

/// The bytes that the generation of a configuration is the digest of: its
/// canonical JSON form, then each secret as its key, a zero byte, its value
/// and a zero byte, in order.
pub open spec fn generation_input(json: Seq<u8>, secrets: Seq<(Seq<char>, String)>) -> Seq<u8>
    decreases secrets.len(),
{
    if secrets.len() == 0 {
        json
    } else {
        generation_input(json, secrets.drop_last()) + vstd::utf8::encode_utf8(secrets.last().0) + seq![0u8]
            + vstd::utf8::encode_utf8(secrets.last().1@) + seq![0u8]
    }
}

/// The generation of a configuration whose canonical JSON form is `json`
/// and whose resolved secrets are `secrets` (key, value): the hexadecimal
/// SHA-256 digest of the form followed by the secrets in the order of their
/// keys.
pub open spec fn spec_generation(json: Seq<u8>, secrets: Seq<(Seq<char>, String)>) -> Seq<char> {
    crate::api::hex_text(crate::scheduler::sha256(generation_input(json, crate::order::sort_by_key(secrets))))
}

/// The generation of a configuration from its canonical JSON form and its
/// resolved secrets.
pub fn generation_hash(canonical_json: &[u8], secrets: Vec<(String, String)>) -> (r: ConfigGeneration)
    ensures
        r@ == spec_generation(canonical_json@, crate::order::keyed_view(secrets@)),
{
    let sorted = crate::order::sort_pairs_by_key(secrets);
    let ghost sv = crate::order::keyed_view(sorted@);
    let mut data: Vec<u8> = vstd::slice::slice_to_vec(canonical_json);
    let mut i: usize = 0;
    while i < sorted.len()
        invariant
            i <= sorted@.len(),
            sv == crate::order::keyed_view(sorted@),
            data@ == generation_input(canonical_json@, sv.take(i as int)),
        decreases sorted@.len() - i,
    {
        assert(sv.take(i + 1).drop_last() =~= sv.take(i as int));
        let mut k = vstd::slice::slice_to_vec(sorted[i].0.as_str().as_bytes());
        let mut v = vstd::slice::slice_to_vec(sorted[i].1.as_str().as_bytes());
        let ghost before = data@;
        data.append(&mut k);
        data.push(0u8);
        data.append(&mut v);
        data.push(0u8);
        assert(data@ =~= before + vstd::utf8::encode_utf8(sv[i as int].0) + seq![0u8] + vstd::utf8::encode_utf8(sv[i as int].1@) + seq![0u8]);
        i = i + 1;
    }
    assert(sv.take(i as int) =~= sv);
    let digest = crate::scheduler::sha256_digest(data.as_slice());
    let text = crate::api::hex_encode(digest.as_slice());
    ConfigGeneration::new(text.as_str())
}

/// The variant name of a probe kind, as its debug form writes it.
pub open spec fn kind_variant_name(k: ProbeKind) -> Seq<char> {
    match k {
        ProbeKind::Icmp => "Icmp"@,
        ProbeKind::Http => "Http"@,
        ProbeKind::Tcp => "Tcp"@,
        ProbeKind::Dns => "Dns"@,
    }
}

fn kind_variant(k: ProbeKind) -> (r: &'static str)
    ensures
        r@ == kind_variant_name(k),
{
    match k {
        ProbeKind::Icmp => "Icmp",
        ProbeKind::Http => "Http",
        ProbeKind::Tcp => "Tcp",
        ProbeKind::Dns => "Dns",
    }
}

/// A duration setting of a check, or else of its profile: its length in
/// milliseconds, or the error at the path of the setting that was read.
pub open spec fn timing_value(check_value: Option<String>, profile_value: Seq<char>, check_path: Seq<char>, profile_path: Seq<char>) -> Result<nat, ConfigErrorView> {
    match check_value {
        Some(v) => match spec_parse_duration(v@) {
            Ok(ms) => Ok(ms),
            Err(e) => Err(verr(check_path, duration_error_message(e))),
        },
        None => match spec_parse_duration(profile_value) {
            Ok(ms) => Ok(ms),
            Err(e) => Err(verr(profile_path, duration_error_message(e))),
        },
    }
}

/// The interval and timeout in milliseconds of check `c` of target `tid`
/// under profile `p`: the check's kind must match the profile's, each
/// duration is the check's or else the profile's, and both are positive.
pub open spec fn spec_check_timing(p: ProbeProfileConfig, tid: Seq<char>, c: CheckConfig) -> Result<(nat, nat), ConfigErrorView> {
    let path = check_path(tid, c.id@);
    let interval = timing_value(c.interval, profile_interval(p), path + ".interval"@, "profiles."@ + profile_id(p) + ".interval"@);
    let timeout = timing_value(c.timeout, profile_timeout(p), path + ".timeout"@, "profiles."@ + profile_id(p) + ".timeout"@);
    if c.kind is Some && c.kind->0 != profile_kind(p) {
        Err(verr(path + ".kind"@, "check kind "@ + kind_variant_name(c.kind->0) + " does not match profile kind "@ + kind_variant_name(profile_kind(p))))
    } else if interval is Err {
        Err(interval->Err_0)
    } else if timeout is Err {
        Err(timeout->Err_0)
    } else if interval->Ok_0 == 0 {
        Err(verr(path + ".interval"@, "must be greater than zero"@))
    } else if timeout->Ok_0 == 0 {
        Err(verr(path + ".timeout"@, "must be greater than zero"@))
    } else {
        Ok((interval->Ok_0, timeout->Ok_0))
    }
}

fn read_timing(check_value: &Option<String>, profile_value: &str, check_path: String, profile_path: String) -> (r: Result<u64, ConfigError>)
    ensures
        match (r, timing_value(*check_value, profile_value@, check_path@, profile_path@)) {
            (Ok(v), Ok(w)) => v == w,
            (Err(e), Err(w)) => e@ == w,
            _ => false,
        },
{
    match check_value {
        Some(v) => match parse_duration_millis(v.as_str()) {
            Ok(ms) => Ok(ms),
            Err(e) => Err(ConfigError::Validation { path: check_path, message: e.to_string() }),
        },
        None => match parse_duration_millis(profile_value) {
            Ok(ms) => Ok(ms),
            Err(e) => Err(ConfigError::Validation { path: profile_path, message: e.to_string() }),
        },
    }
}

pub(crate) fn path_of_check(tid: &TargetId, cid: &CheckId) -> (r: String)
    ensures
        r@ == check_path(tid@, cid@),
{
    let mut p = concat3("targets.", tid.as_str(), ".checks.");
    p.append(cid.as_str());
    p
}

/// Whether a text is a valid HTTP method: a non-empty token of the
/// characters that HTTP allows in tokens.
pub open spec fn is_method_token(s: Seq<char>) -> bool {
    s.len() > 0 && forall|i: int| 0 <= i < s.len() ==> is_tchar(#[trigger] s[i])
}

/// The characters that HTTP allows in tokens.
pub open spec fn is_tchar(c: char) -> bool {
    ||| ('a' <= c <= 'z')
    ||| ('A' <= c <= 'Z')
    ||| ('0' <= c <= '9')
    ||| c == '!' || c == '#' || c == '$' || c == '%' || c == '&' || c == '\'' || c == '*'
    ||| c == '+' || c == '-' || c == '.' || c == '^' || c == '_' || c == '`' || c == '|' || c == '~'
}

fn method_token_ok(s: &str) -> (r: bool)
    ensures
        r == is_method_token(s@),
{
    let cs = chars_of(s);
    if cs.len() == 0 {
        return false;
    }
    let mut i: usize = 0;
    while i < cs.len()
        invariant
            i <= cs@.len(),
            cs@ == s@,
            forall|k: int| 0 <= k < i ==> is_tchar(#[trigger] cs@[k]),
        decreases cs@.len() - i,
    {
        let c = cs[i];
        let ok = ('a' <= c && c <= 'z') || ('A' <= c && c <= 'Z') || ('0' <= c && c <= '9') || c == '!'
            || c == '#' || c == '$' || c == '%' || c == '&' || c == '\'' || c == '*' || c == '+' || c
            == '-' || c == '.' || c == '^' || c == '_' || c == '`' || c == '|' || c == '~';
        if !ok {
            assert(!is_tchar(cs@[i as int]));
            return false;
        }
        i = i + 1;
    }
    true
}

/// The scheme of a URL as `url::Url::parse` reads it, or the message of its
/// error.
pub uninterp spec fn parsed_url_scheme(s: Seq<char>) -> Result<Seq<char>, Seq<char>>;

/// Parses a URL with `url::Url::parse` and takes its scheme; its result is
/// named `parsed_url_scheme`.
#[verifier::external_body]
fn url_scheme(s: &str) -> (r: Result<String, String>)
    ensures
        match (r, parsed_url_scheme(s@)) {
            (Ok(a), Ok(b)) => a@ == b,
            (Err(a), Err(b)) => a@ == b,
            _ => false,
        },
{
    match url::Url::parse(s) {
        Ok(u) => Ok(u.scheme().to_owned()),
        Err(e) => Err(e.to_string()),
    }
}

fn or_string(a: &Option<String>, b: &Option<String>) -> (r: Option<String>)
    ensures
        opt_view(r) == crate::http::or_else(opt_view(*a), opt_view(*b)),
{
    match a {
        Some(x) => Some(x.clone()),
        None => clone_opt(b),
    }
}

fn or_default_string(a: &Option<String>, b: &Option<String>, d: &str) -> (r: String)
    ensures
        r@ == (match crate::http::or_else(opt_view(*a), opt_view(*b)) {
            Some(x) => x,
            None => d@,
        }),
{
    match or_string(a, b) {
        Some(x) => x,
        None => String::from_str(d),
    }
}

impl ProbeProfileConfig {
    /// The interval and timeout in milliseconds of `check` of `target`
    /// under this profile.
    pub fn check_timing(&self, target: &TargetConfig, check: &CheckConfig) -> (r: Result<(u64, u64), ConfigError>)
        ensures
            match (r, spec_check_timing(*self, target.id@, *check)) {
                (Ok((i, t)), Ok((si, st))) => i == si && t == st,
                (Err(e), Err(w)) => e@ == w,
                _ => false,
            },
    {
        let path = path_of_check(&target.id, &check.id);
        if let Some(k) = check.kind {
            if k != self.kind() {
                let mut m = String::from_str("check kind ");
                m.append(kind_variant(k));
                m.append(" does not match profile kind ");
                m.append(kind_variant(self.kind()));
                return Err(ConfigError::Validation { path: concat(path.as_str(), ".kind"), message: m });
            }
        }
        let pid = concat("profiles.", self.id().as_str());
        let interval = read_timing(&check.interval, self.interval_str(), concat(path.as_str(), ".interval"), concat(pid.as_str(), ".interval"))?;
        let timeout = read_timing(&check.timeout, self.timeout_str(), concat(path.as_str(), ".timeout"), concat(pid.as_str(), ".timeout"))?;
        if interval == 0 {
            return Err(validation(concat(path.as_str(), ".interval"), "must be greater than zero"));
        }
        if timeout == 0 {
            return Err(validation(concat(path.as_str(), ".timeout"), "must be greater than zero"));
        }
        Ok((interval, timeout))
    }
}

/// What resolving the settings of an ICMP check gives.
pub open spec fn icmp_outcome(p: IcmpProfileParams, check: CheckConfig, path: Seq<char>, r: Result<ResolvedIcmpParams, ConfigError>) -> bool {
    ({
        let count = match check.count {
            Some(c) => c,
            None => p.count,
        };
        &&& r is Ok <==> count != 0
        &&& r matches Err(e) ==> e@ == verr(path + ".count"@, "must be greater than zero"@)
        &&& r matches Ok(x) ==> {
            &&& x.count == count
            &&& x.address_family@ == (match crate::http::or_else(opt_view(check.address_family), opt_view(p.address_family)) {
                Some(a) => a,
                None => "auto"@,
            })
            &&& x.payload_size == (match check.payload_size {
                Some(s) => s,
                None => match p.payload_size {
                    Some(s) => s,
                    None => 56,
                },
            })
            &&& opt_view(x.source_address) == crate::http::or_else(opt_view(check.source_address), opt_view(p.source_address))
        }
    })
}

/// Resolves the settings of an ICMP check: the count (which must be
/// positive), address family (`auto` by default), payload size (56 by
/// default) and source address, each the check's or else the profile's.
pub fn resolve_icmp(p: &IcmpProfileParams, check: &CheckConfig, path: &str) -> (r: Result<ResolvedIcmpParams, ConfigError>)
    ensures
        icmp_outcome(*p, *check, path@, r),

{
    let count = match check.count {
        Some(c) => c,
        None => p.count,
    };
    if count == 0 {
        return Err(validation(concat(path, ".count"), "must be greater than zero"));
    }
    Ok(ResolvedIcmpParams {
        count,
        address_family: or_default_string(&check.address_family, &p.address_family, "auto"),
        payload_size: match check.payload_size {
            Some(s) => s,
            None => match p.payload_size {
                Some(s) => s,
                None => 56,
            },
        },
        source_address: or_string(&check.source_address, &p.source_address),
    })
}

fn clone_tls(t: &TcpTlsConfig) -> (r: TcpTlsConfig)
    ensures
        opt_tls_eq(Some(r), Some(*t)),
{
    TcpTlsConfig {
        enabled: t.enabled,
        server_name: clone_opt(&t.server_name),
        tls_validate: t.tls_validate,
        root_certificates: match &t.root_certificates {
            Some(v) => Some(clone_strings(v)),
            None => None,
        },
    }
}

/// What resolving the settings of a TCP check gives.
pub open spec fn tcp_outcome(p: TcpProfileParams, check: CheckConfig, path: Seq<char>, r: Result<ResolvedTcpParams, ConfigError>) -> bool {
    ({
        let port = match check.port {
            Some(x) => x,
            None => p.port,
        };
        &&& r is Ok <==> port != 0
        &&& r matches Err(e) ==> e@ == verr(path + ".port"@, "must be between 1 and 65535"@)
        &&& r matches Ok(x) ==> {
            &&& x.host@ == (match check.host {
                Some(h) => h@,
                None => p.host@,
            })
            &&& x.port == port
            &&& x.address_family@ == (match crate::http::or_else(opt_view(check.address_family), opt_view(p.address_family)) {
                Some(a) => a,
                None => "auto"@,
            })
            &&& opt_view(x.source_address) == crate::http::or_else(opt_view(check.source_address), opt_view(p.source_address))
            &&& opt_tls_eq(x.tls, match check.tls {
                Some(t) => Some(t),
                None => p.tls,
            })
        }
    })
}

/// Resolves the settings of a TCP check: the host, the port (which must be
/// positive), address family (`auto` by default), source address and TLS
/// settings, each the check's or else the profile's.
pub fn resolve_tcp(p: &TcpProfileParams, check: &CheckConfig, path: &str) -> (r: Result<ResolvedTcpParams, ConfigError>)
    ensures
        tcp_outcome(*p, *check, path@, r),

{
    let host = match &check.host {
        Some(h) => h.clone(),
        None => p.host.clone(),
    };
    let port = match check.port {
        Some(x) => x,
        None => p.port,
    };
    if port == 0 {
        return Err(validation(concat(path, ".port"), "must be between 1 and 65535"));
    }
    let tls = match &check.tls {
        Some(t) => Some(clone_tls(t)),
        None => match &p.tls {
            Some(t) => Some(clone_tls(t)),
            None => None,
        },
    };
    Ok(ResolvedTcpParams {
        host,
        port,
        address_family: or_default_string(&check.address_family, &p.address_family, "auto"),
        source_address: or_string(&check.source_address, &p.source_address),
        tls,
    })
}

/// What resolving the settings of a DNS check gives.
pub open spec fn dns_outcome(p: DnsProfileParams, check: CheckConfig, r: ResolvedDnsParams) -> bool {
    &&& r.domain@ == (match check.domain {
        Some(d) => d@,
        None => p.domain@,
    })
    &&& opt_view(r.record_type) == crate::http::or_else(opt_view(check.record_type), opt_view(p.record_type))
    &&& opt_view(r.resolver) == crate::http::or_else(opt_view(check.resolver), opt_view(p.resolver))
    &&& r.protocol@ == (match crate::http::or_else(opt_view(check.protocol), opt_view(p.protocol)) {
        Some(x) => x,
        None => "udp"@,
    })
    &&& r.expected_rcode@ == (match crate::http::or_else(opt_view(check.expected_rcode), opt_view(p.expected_rcode)) {
        Some(x) => x,
        None => "noerror"@,
    })
    &&& r.require_answer == (match check.require_answer {
        Some(b) => b,
        None => match p.require_answer {
            Some(b) => b,
            None => false,
        },
    })
}

/// Resolves the settings of a DNS check: the name, record type, server,
/// protocol (`udp` by default), expected response code (`noerror` by
/// default) and whether an answer is required (no by default), each the
/// check's or else the profile's.
pub fn resolve_dns(p: &DnsProfileParams, check: &CheckConfig) -> (r: ResolvedDnsParams)
    ensures
        dns_outcome(*p, *check, r),

{
    ResolvedDnsParams {
        domain: match &check.domain {
            Some(d) => d.clone(),
            None => p.domain.clone(),
        },
        record_type: or_string(&check.record_type, &p.record_type),
        resolver: or_string(&check.resolver, &p.resolver),
        protocol: or_default_string(&check.protocol, &p.protocol, "udp"),
        expected_rcode: or_default_string(&check.expected_rcode, &p.expected_rcode, "noerror"),
        require_answer: match check.require_answer {
            Some(b) => b,
            None => match p.require_answer {
                Some(b) => b,
                None => false,
            },
        },
    }
}

/// The header pairs of `base` whose names `over` does not set, followed by
/// those of `over`.
pub open spec fn merge_headers(base: Seq<(Seq<char>, Seq<char>)>, over: Seq<(Seq<char>, Seq<char>)>) -> Seq<(Seq<char>, Seq<char>)>
    decreases base.len(),
{
    if base.len() == 0 {
        over
    } else if crate::probe::lookup(over, base[0].0) is Some {
        merge_headers(base.drop_first(), over)
    } else {
        seq![base[0]] + merge_headers(base.drop_first(), over)
    }
}

fn merge_header_lists(base: &Vec<(String, String)>, over: &Vec<(String, String)>) -> (r: Vec<(String, String)>)
    ensures
        pairs_view(r@) == merge_headers(pairs_view(base@), pairs_view(over@)),
{
    let ghost bv = pairs_view(base@);
    let ghost ov = pairs_view(over@);
    let mut out: Vec<(String, String)> = Vec::new();
    let mut i: usize = 0;
    assert(bv.skip(0) =~= bv);
    while i < base.len()
        invariant
            i <= base@.len(),
            bv == pairs_view(base@),
            ov == pairs_view(over@),
            pairs_view(out@) + merge_headers(bv.skip(i as int), ov) == merge_headers(bv, ov),
        decreases base@.len() - i,
    {
        assert(bv.skip(i as int)[0] == bv[i as int]);
        assert(bv.skip(i as int).drop_first() =~= bv.skip(i + 1));
        let ghost before = pairs_view(out@);
        if param_get(over, base[i].0.as_str()).is_none() {
            out.push((base[i].0.clone(), base[i].1.clone()));
            assert(pairs_view(out@) =~= before + seq![bv[i as int]]);
            assert(before + seq![bv[i as int]] + merge_headers(bv.skip(i + 1), ov) =~= before + (seq![bv[i as int]] + merge_headers(bv.skip(i + 1), ov)));
        }
        i = i + 1;
    }
    let tail = clone_pairs(over);
    let ghost before = pairs_view(out@);
    let mut t = tail;
    out.append(&mut t);
    assert(bv.skip(i as int).len() == 0);
    assert(pairs_view(out@) =~= before + ov);
    out
}

/// What resolving the settings of an HTTP check, all but its body, gives.
pub open spec fn http_outcome(p: HttpProfileParams, check: CheckConfig, path: Seq<char>, r: Result<ResolvedHttpParams, ConfigError>) -> bool {
    ({
        let url = match check.url {
            Some(u) => u@,
            None => p.url@,
        };
        let method = crate::http::or_else(opt_view(check.method), opt_view(p.method));
        let expectation = match check.expected_status {
            Some(e) => Some(e),
            None => p.expected_status,
        };
        let status = match expectation {
            Some(e) => spec_status_resolve(e),
            None => Ok((None, None)),
        };
        &&& parsed_url_scheme(url) is Err ==> (r matches Err(e) && e@ == verr(path + ".url"@, parsed_url_scheme(url)->Err_0))
        &&& (parsed_url_scheme(url) matches Ok(sc) && sc != "http"@ && sc != "https"@) ==> (r matches Err(e) && e@ == verr(path + ".url"@, "URL scheme must be http or https"@))
        &&& (parsed_url_scheme(url) matches Ok(sc) && (sc == "http"@ || sc == "https"@)) ==> {
            &&& (method matches Some(m) && !is_method_token(m)) ==> (r matches Err(e) && e@ == verr(path + ".method"@, "invalid HTTP method"@))
            &&& (method matches Some(m) && !is_method_token(m)) || (status matches Err(e) && r matches Err(f) && f@ == e) || r is Ok
            &&& r is Ok <==> (!(method matches Some(m) && !is_method_token(m)) && status is Ok)
        }
        &&& r matches Ok(x) ==> {
            &&& x.url@ == url
            &&& opt_view(x.method) == method
            &&& pairs_view(x.headers@) == merge_headers(
                match p.headers { Some(h) => pairs_view(h@), None => Seq::empty() },
                match check.headers { Some(h) => pairs_view(h@), None => Seq::empty() },
            )
            &&& (x.expected_status, x.expected_status_range) == status->Ok_0
            &&& x.body is None
            &&& x.follow_redirects == (match check.follow_redirects { Some(b) => b, None => match p.follow_redirects { Some(b) => b, None => true } })
            &&& x.max_redirect_count == (match check.max_redirect_count { Some(n) => n, None => match p.max_redirect_count { Some(n) => n, None => 10 } })
            &&& x.connection_mode@ == (match crate::http::or_else(opt_view(check.connection_mode), opt_view(p.connection_mode)) { Some(v) => v, None => "pooled"@ })
            &&& x.measure_until@ == (match crate::http::or_else(opt_view(check.measure_until), opt_view(p.measure_until)) { Some(v) => v, None => "headers"@ })
            &&& opt_view(x.user_agent) == crate::http::or_else(opt_view(check.user_agent), opt_view(p.user_agent))
            &&& x.tls_validate == (match check.tls_validate { Some(b) => b, None => match p.tls_validate { Some(b) => b, None => true } })
            &&& strings_view(x.root_certificates@) == (match check.root_certificates {
                Some(c) => strings_view(c@),
                None => match p.root_certificates { Some(c) => strings_view(c@), None => Seq::empty() },
            })
        }
    })
}

/// Resolves the settings of an HTTP check, all but its body: the URL (the
/// check's or else the profile's, which must parse with scheme `http` or
/// `https`), the method (a valid token), the headers (the profile's
/// overridden by the check's), the expected status, and the other settings
/// with their defaults.
pub fn resolve_http(p: &HttpProfileParams, check: &CheckConfig, path: &str) -> (r: Result<ResolvedHttpParams, ConfigError>)
    ensures
        http_outcome(*p, *check, path@, r),

{
    let url = match &check.url {
        Some(u) => u.clone(),
        None => p.url.clone(),
    };
    match url_scheme(url.as_str()) {
        Err(e) => {
            return Err(ConfigError::Validation { path: concat(path, ".url"), message: e });
        },
        Ok(sc) => {
            if !(str_eq(sc.as_str(), "http") || str_eq(sc.as_str(), "https")) {
                return Err(validation(concat(path, ".url"), "URL scheme must be http or https"));
            }
        },
    }
    let method = or_string(&check.method, &p.method);
    if let Some(m) = &method {
        if !method_token_ok(m.as_str()) {
            return Err(validation(concat(path, ".method"), "invalid HTTP method"));
        }
    }
    let empty: Vec<(String, String)> = Vec::new();
    assert(pairs_view(empty@) =~= Seq::empty());
    let headers = merge_header_lists(
        match &p.headers { Some(h) => h, None => &empty },
        match &check.headers { Some(h) => h, None => &empty },
    );
    let expectation = match &check.expected_status {
        Some(e) => Some(e),
        None => match &p.expected_status {
            Some(e) => Some(e),
            None => None,
        },
    };
    let (expected_status, expected_status_range) = match expectation {
        Some(e) => e.resolve()?,
        None => (None, None),
    };
    let root_certificates = match &check.root_certificates {
        Some(c) => clone_strings(c),
        None => match &p.root_certificates {
            Some(c) => clone_strings(c),
            None => {
                let v: Vec<String> = Vec::new();
                assert(strings_view(v@) =~= Seq::empty());
                v
            },
        },
    };
    Ok(ResolvedHttpParams {
        url,
        method,
        headers,
        expected_status,
        expected_status_range,
        body: None,
        follow_redirects: match check.follow_redirects { Some(b) => b, None => match p.follow_redirects { Some(b) => b, None => true } },
        max_redirect_count: match check.max_redirect_count { Some(n) => n, None => match p.max_redirect_count { Some(n) => n, None => 10 } },
        connection_mode: or_default_string(&check.connection_mode, &p.connection_mode, "pooled"),
        measure_until: or_default_string(&check.measure_until, &p.measure_until, "headers"),
        user_agent: or_string(&check.user_agent, &p.user_agent),
        tls_validate: match check.tls_validate { Some(b) => b, None => match p.tls_validate { Some(b) => b, None => true } },
        root_certificates,
    })
}

/// The body secret of an HTTP check: the check's, or else the profile's.
pub fn http_body_secret<'a>(p: &'a HttpProfileParams, check: &'a CheckConfig) -> (r: Option<&'a SecretRef>)
    ensures
        r == (match check.body {
            Some(b) => Some(&b),
            None => match p.body {
                Some(b) => Some(&b),
                None => None,
            },
        }),
{
    match &check.body {
        Some(b) => Some(b),
        None => match &p.body {
            Some(b) => Some(b),
            None => None,
        },
    }
}

/// Checks an address family setting: `auto`, `ipv4` or `ipv6`.
pub fn check_address_family(family: &str, path: &str) -> (r: Result<(), ConfigError>)
    ensures
        r is Ok <==> (family@ == "auto"@ || family@ == "ipv4"@ || family@ == "ipv6"@),
        r matches Err(e) ==> e@ == verr(path@ + ".address_family"@, "must be auto, ipv4, or ipv6"@),
{
    if str_eq(family, "auto") || str_eq(family, "ipv4") || str_eq(family, "ipv6") {
        Ok(())
    } else {
        Err(validation(concat(path, ".address_family"), "must be auto, ipv4, or ipv6"))
    }
}

/// Checks an ICMP payload size: at most 65507 bytes.
pub fn check_payload_size(size: usize, path: &str) -> (r: Result<(), ConfigError>)
    ensures
        r is Ok <==> size <= 65507,
        r matches Err(e) ==> e@ == verr(path@ + ".payload_size"@, "must not exceed 65507 bytes"@),
{
    if size > 65507 {
        Err(validation(concat(path, ".payload_size"), "must not exceed 65507 bytes"))
    } else {
        Ok(())
    }
}

/// Checks the connection mode (`pooled`, `per_round` or `fresh`) and then
/// what an HTTP check times (`headers` or `body`).
pub fn check_http_modes(params: &ResolvedHttpParams, path: &str) -> (r: Result<(), ConfigError>)
    ensures
        ({
            let mode_ok = params.connection_mode@ == "pooled"@ || params.connection_mode@ == "per_round"@ || params.connection_mode@ == "fresh"@;
            let measure_ok = params.measure_until@ == "headers"@ || params.measure_until@ == "body"@;
            &&& r is Ok <==> mode_ok && measure_ok
            &&& !mode_ok ==> (r matches Err(e) && e@ == verr(path@ + ".connection_mode"@, "must be pooled, per_round, or fresh"@))
            &&& (mode_ok && !measure_ok) ==> (r matches Err(e) && e@ == verr(path@ + ".measure_until"@, "must be headers or body"@))
        }),
{
    let m = params.connection_mode.as_str();
    if !(str_eq(m, "pooled") || str_eq(m, "per_round") || str_eq(m, "fresh")) {
        return Err(validation(concat(path, ".connection_mode"), "must be pooled, per_round, or fresh"));
    }
    let u = params.measure_until.as_str();
    if !(str_eq(u, "headers") || str_eq(u, "body")) {
        return Err(validation(concat(path, ".measure_until"), "must be headers or body"));
    }
    Ok(())
}

/// Checks the protocol (`udp` or `tcp`) and then the expected response
/// code of a DNS check.
pub fn check_dns_settings(params: &ResolvedDnsParams, path: &str) -> (r: Result<(), ConfigError>)
    ensures
        ({
            let p = params.protocol@;
            let c = params.expected_rcode@;
            let protocol_ok = p == "udp"@ || p == "tcp"@;
            let rcode_ok = c == "noerror"@ || c == "formerr"@ || c == "servfail"@ || c == "nxdomain"@
                || c == "notimp"@ || c == "refused"@;
            &&& r is Ok <==> protocol_ok && rcode_ok
            &&& !protocol_ok ==> (r matches Err(e) && e@ == verr(path@ + ".protocol"@, "must be udp or tcp"@))
            &&& (protocol_ok && !rcode_ok) ==> (r matches Err(e) && e@ == verr(path@ + ".expected_rcode"@, "unsupported DNS response code"@))
        }),
{
    let p = params.protocol.as_str();
    if !(str_eq(p, "udp") || str_eq(p, "tcp")) {
        return Err(validation(concat(path, ".protocol"), "must be udp or tcp"));
    }
    let c = params.expected_rcode.as_str();
    if !(str_eq(c, "noerror") || str_eq(c, "formerr") || str_eq(c, "servfail") || str_eq(c, "nxdomain")
        || str_eq(c, "notimp") || str_eq(c, "refused")) {
        return Err(validation(concat(path, ".expected_rcode"), "unsupported DNS response code"));
    }
    Ok(())
}

/// Whether an address family setting is one of `auto`, `ipv4` or `ipv6`.
pub open spec fn family_ok(f: Seq<char>) -> bool {
    f == "auto"@ || f == "ipv4"@ || f == "ipv6"@
}

/// Whether an HTTP connection mode is one of `pooled`, `per_round` or
/// `fresh`.
pub open spec fn connection_mode_ok(m: Seq<char>) -> bool {
    m == "pooled"@ || m == "per_round"@ || m == "fresh"@
}

/// Whether what an HTTP check times is `headers` or `body`.
pub open spec fn measure_ok(m: Seq<char>) -> bool {
    m == "headers"@ || m == "body"@
}

/// Whether a DNS protocol is `udp` or `tcp`.
pub open spec fn dns_protocol_ok(p: Seq<char>) -> bool {
    p == "udp"@ || p == "tcp"@
}

/// Whether an expected DNS response code is one of those supported.
pub open spec fn rcode_ok(c: Seq<char>) -> bool {
    c == "noerror"@ || c == "formerr"@ || c == "servfail"@ || c == "nxdomain"@ || c == "notimp"@ || c == "refused"@
}

/// What resolving and checking the settings of a check under `profile`
/// gives, where `body` is the outcome of reading the check's body secret
/// (used by HTTP checks only): the first error of the resolution, of the
/// body, and of the checks of the address family, payload size, HTTP modes
/// and DNS protocol and response code, in that order; else the resolved
/// settings.
pub open spec fn params_outcome(
    profile: ProbeProfileConfig,
    check: CheckConfig,
    path: Seq<char>,
    body: Result<Option<String>, ConfigError>,
    r: Result<ResolvedProbeParams, ConfigError>,
) -> bool {
    match profile {
        ProbeProfileConfig::Icmp(p) => exists|x: Result<ResolvedIcmpParams, ConfigError>|
            #[trigger] icmp_outcome(p, check, path, x) && match x {
                Err(e) => r matches Err(f) && f@ == e@,
                Ok(y) => if !family_ok(y.address_family@) {
                    r matches Err(f) && f@ == verr(path + ".address_family"@, "must be auto, ipv4, or ipv6"@)
                } else if y.payload_size > 65507 {
                    r matches Err(f) && f@ == verr(path + ".payload_size"@, "must not exceed 65507 bytes"@)
                } else {
                    r == Ok::<ResolvedProbeParams, ConfigError>(ResolvedProbeParams::Icmp(y))
                },
            },
        ProbeProfileConfig::Http(p) => exists|x: Result<ResolvedHttpParams, ConfigError>|
            #[trigger] http_outcome(p, check, path, x) && match x {
                Err(e) => r matches Err(f) && f@ == e@,
                Ok(y) => match body {
                    Err(e) => r matches Err(f) && f@ == e@,
                    Ok(b) => if !connection_mode_ok(y.connection_mode@) {
                        r matches Err(f) && f@ == verr(path + ".connection_mode"@, "must be pooled, per_round, or fresh"@)
                    } else if !measure_ok(y.measure_until@) {
                        r matches Err(f) && f@ == verr(path + ".measure_until"@, "must be headers or body"@)
                    } else {
                        r == Ok::<ResolvedProbeParams, ConfigError>(ResolvedProbeParams::Http(ResolvedHttpParams { body: b, ..y }))
                    },
                },
            },
        ProbeProfileConfig::Tcp(p) => exists|x: Result<ResolvedTcpParams, ConfigError>|
            #[trigger] tcp_outcome(p, check, path, x) && match x {
                Err(e) => r matches Err(f) && f@ == e@,
                Ok(y) => if !family_ok(y.address_family@) {
                    r matches Err(f) && f@ == verr(path + ".address_family"@, "must be auto, ipv4, or ipv6"@)
                } else {
                    r == Ok::<ResolvedProbeParams, ConfigError>(ResolvedProbeParams::Tcp(y))
                },
            },
        ProbeProfileConfig::Dns(p) => exists|y: ResolvedDnsParams|
            #[trigger] dns_outcome(p, check, y) && if !dns_protocol_ok(y.protocol@) {
                r matches Err(f) && f@ == verr(path + ".protocol"@, "must be udp or tcp"@)
            } else if !rcode_ok(y.expected_rcode@) {
                r matches Err(f) && f@ == verr(path + ".expected_rcode"@, "unsupported DNS response code"@)
            } else {
                r == Ok::<ResolvedProbeParams, ConfigError>(ResolvedProbeParams::Dns(y))
            },
    }
}

/// Resolves the settings of a check under `profile` and checks them, where
/// `body` is the outcome of reading the check's body secret. The checks of
/// source addresses and root certificates are left to the caller.
pub fn resolve_probe_params(
    profile: &ProbeProfileConfig,
    check: &CheckConfig,
    path: &str,
    body: Result<Option<String>, ConfigError>,
) -> (r: Result<ResolvedProbeParams, ConfigError>)
    ensures
        params_outcome(*profile, *check, path@, body, r),
{
    match profile {
        ProbeProfileConfig::Icmp(p) => {
            let x = resolve_icmp(p, check, path);
            let ghost gx = x;
            assert(icmp_outcome(*p, *check, path@, gx));
            match x {
                Err(e) => Err(e),
                Ok(y) => {
                    match check_address_family(y.address_family.as_str(), path) {
                        Err(e) => return Err(e),
                        Ok(()) => {},
                    }
                    match check_payload_size(y.payload_size, path) {
                        Err(e) => return Err(e),
                        Ok(()) => {},
                    }
                    Ok(ResolvedProbeParams::Icmp(y))
                },
            }
        },
        ProbeProfileConfig::Http(p) => {
            let x = resolve_http(p, check, path);
            let ghost gx = x;
            assert(http_outcome(*p, *check, path@, gx));
            match x {
                Err(e) => Err(e),
                Ok(y) => {
                    match body {
                        Err(e) => Err(e),
                        Ok(b) => {
                            let ghost gy = y;
                            let ghost gb = b;
                            match check_http_modes(&y, path) {
                                Err(e) => return Err(e),
                                Ok(()) => {},
                            }
                            let mut z = y;
                            z.body = b;
                            assert(z == ResolvedHttpParams { body: gb, ..gy });
                            Ok(ResolvedProbeParams::Http(z))
                        },
                    }
                },
            }
        },
        ProbeProfileConfig::Tcp(p) => {
            let x = resolve_tcp(p, check, path);
            let ghost gx = x;
            assert(tcp_outcome(*p, *check, path@, gx));
            match x {
                Err(e) => Err(e),
                Ok(y) => {
                    match check_address_family(y.address_family.as_str(), path) {
                        Err(e) => return Err(e),
                        Ok(()) => {},
                    }
                    Ok(ResolvedProbeParams::Tcp(y))
                },
            }
        },
        ProbeProfileConfig::Dns(p) => {
            let y = resolve_dns(p, check);
            assert(dns_outcome(*p, *check, y));
            match check_dns_settings(&y, path) {
                Err(e) => return Err(e),
                Ok(()) => {},
            }
            Ok(ResolvedProbeParams::Dns(y))
        },
    }
}

/// Resolves a check of `target` under `profile`: its interval and timeout
/// in milliseconds, then its checked settings, where `body` is the outcome
/// of reading the check's body secret.
pub fn resolve_check_settings(
    profile: &ProbeProfileConfig,
    target: &TargetConfig,
    check: &CheckConfig,
    body: Result<Option<String>, ConfigError>,
) -> (r: Result<(u64, u64, ResolvedProbeParams), ConfigError>)
    ensures
        match spec_check_timing(*profile, target.id@, *check) {
            Err(w) => r matches Err(e) && e@ == w,
            Ok((i, t)) => exists|q: Result<ResolvedProbeParams, ConfigError>|
                #[trigger] params_outcome(*profile, *check, check_path(target.id@, check.id@), body, q) && match q {
                    Err(e) => r matches Err(f) && f@ == e@,
                    Ok(v) => r matches Ok((ri, rt, rv)) && ri == i && rt == t && rv == v,
                },
        },
{
    let (interval, timeout) = match profile.check_timing(target, check) {
        Err(e) => return Err(e),
        Ok(x) => x,
    };
    let path = path_of_check(&target.id, &check.id);
    let q = resolve_probe_params(profile, check, path.as_str(), body);
    let ghost gq = q;
    assert(params_outcome(*profile, *check, check_path(target.id@, check.id@), body, gq));
    match q {
        Err(e) => Err(e),
        Ok(v) => Ok((interval, timeout, v)),
    }
}

/// `s` without the line breaks (`\r` and `\n`) at its end.
pub open spec fn trim_line_breaks(s: Seq<char>) -> Seq<char>
    decreases s.len(),
{
    if s.len() > 0 && (s.last() == '\r' || s.last() == '\n') {
        trim_line_breaks(s.drop_last())
    } else {
        s
    }
}

/// A new string holding `s` without the line breaks at its end.
pub fn trim_end_line_breaks(s: &str) -> (r: String)
    ensures
        r@ == trim_line_breaks(s@),
{
    let cs = crate::text::chars_of(s);
    let mut end: usize = cs.len();
    assert(s@.subrange(0, end as int) =~= s@);
    while end > 0 && (cs[end - 1] == '\r' || cs[end - 1] == '\n')
        invariant
            end <= cs@.len(),
            cs@ == s@,
            trim_line_breaks(s@) == trim_line_breaks(s@.subrange(0, end as int)),
        decreases end,
    {
        assert(s@.subrange(0, end as int).drop_last() =~= s@.subrange(0, end - 1));
        end = end - 1;
    }
    assert(s@.subrange(0, end as int).len() == 0 || !(s@.subrange(0, end as int).last() == '\r' || s@.subrange(0, end as int).last() == '\n'));
    crate::text::substring(s, 0, end)
}

/// What was read for a secret: nothing (a literal needs no read), the
/// value of its environment variable if set, or the text of its file or
/// the read's error message.
pub enum SecretRead {
    Nothing,
    Env(Option<String>),
    File(Result<String, String>),
}

/// The value of a secret given what was read for it: a literal's text; the
/// environment variable's value, or a validation error at `secret` naming
/// the variable where it is not set; the file's text without its trailing
/// line breaks, or an I/O error with the read's message. A read of the
/// wrong kind counts as an unset variable or a failed read with an empty
/// message.
pub open spec fn spec_secret_value(secret: SecretRef, read: SecretRead) -> Result<Seq<char>, ConfigErrorView> {
    match secret {
        SecretRef::Literal(v) => Ok(v@),
        SecretRef::FromEnv { from_env } => match read {
            SecretRead::Env(Some(v)) => Ok(v@),
            _ => Err(verr("secret"@, "environment variable is not set: "@ + from_env@)),
        },
        SecretRef::FromFile { .. } => match read {
            SecretRead::File(Ok(t)) => Ok(trim_line_breaks(t@)),
            SecretRead::File(Err(m)) => Err(ConfigErrorView::Io(m@)),
            _ => Err(ConfigErrorView::Io(Seq::empty())),
        },
    }
}

impl SecretRef {
    /// The value of this secret given what was read for it.
    pub fn resolve_with(&self, read: SecretRead) -> (r: Result<String, ConfigError>)
        ensures
            match (r, spec_secret_value(*self, read)) {
                (Ok(v), Ok(w)) => v@ == w,
                (Err(e), Err(w)) => e@ == w,
                _ => false,
            },
    {
        match self {
            SecretRef::Literal(v) => Ok(v.clone()),
            SecretRef::FromEnv { from_env } => match read {
                SecretRead::Env(Some(v)) => Ok(v),
                _ => Err(validation(String::from_str("secret"), concat("environment variable is not set: ", from_env.as_str()).as_str())),
            },
            SecretRef::FromFile { .. } => match read {
                SecretRead::File(Ok(t)) => Ok(trim_end_line_breaks(t.as_str())),
                SecretRead::File(Err(m)) => Err(ConfigError::Io(m)),
                _ => Err(ConfigError::Io(String::new())),
            },
        }
    }
}

/// Whether the names of a list of name/value pairs are all different.
pub open spec fn names_distinct(ps: Seq<(Seq<char>, Seq<char>)>) -> bool {
    forall|i: int, j: int| 0 <= i < ps.len() && 0 <= j < ps.len() && i != j ==> #[trigger] ps[i].0 != #[trigger] ps[j].0
}

/// Whether the texts of a list are all different.
pub open spec fn texts_distinct(ids: Seq<Seq<char>>) -> bool {
    forall|i: int, j: int| 0 <= i < ids.len() && 0 <= j < ids.len() && i != j ==> #[trigger] ids[i] != #[trigger] ids[j]
}

/// Whether an optional name/value list has distinct names.
pub open spec fn opt_names_distinct(o: Option<Vec<(String, String)>>) -> bool {
    match o {
        Some(v) => names_distinct(pairs_view(v@)),
        None => true,
    }
}

/// Whether the targets of a configuration have distinct identifiers, and
/// each target distinct check identifiers, distinct label names and,
/// in each check, distinct header names.
pub open spec fn names_unique(c: KemuriConfig) -> bool {
    &&& texts_distinct(target_ids(c.targets@))
    &&& forall|i: int|
        0 <= i < c.targets@.len() ==> {
            &&& texts_distinct(check_ids(#[trigger] c.targets@[i].checks@))
            &&& opt_names_distinct(c.targets@[i].labels)
            &&& forall|k: int|
                0 <= k < c.targets@[i].checks@.len() ==> opt_names_distinct(#[trigger] c.targets@[i].checks@[k].headers)
        }
}

proof fn lemma_lookup_distinct(ps: Seq<(Seq<char>, Seq<char>)>, i: int)
    requires
        names_distinct(ps),
        0 <= i < ps.len(),
    ensures
        crate::probe::lookup(ps, ps[i].0) == Some(ps[i].1),
    decreases ps.len(),
{
    if i > 0 {
        let d = ps.drop_first();
        assert(ps[0].0 != ps[i].0);
        assert forall|a: int, b: int| 0 <= a < d.len() && 0 <= b < d.len() && a != b implies #[trigger] d[a].0 != #[trigger] d[b].0 by {
            assert(d[a] == ps[a + 1] && d[b] == ps[b + 1]);
        }
        assert(d[i - 1] == ps[i]);
        lemma_lookup_distinct(d, i - 1);
    }
}

proof fn lemma_opt_pairs_refl(o: Option<Vec<(String, String)>>)
    requires
        opt_names_distinct(o),
    ensures
        opt_pairs_eq(o, o),
{
    if let Some(v) = o {
        let ps = pairs_view(v@);
        assert forall|i: int| 0 <= i < ps.len() implies crate::probe::lookup(ps, #[trigger] ps[i].0) == Some(ps[i].1) by {
            lemma_lookup_distinct(ps, i);
        }
    }
}

proof fn lemma_same_check_refl(c: CheckConfig)
    requires
        opt_names_distinct(c.headers),
    ensures
        same_check(c, c),
{
    lemma_opt_pairs_refl(c.headers);
    match c.expected_status {
        Some(HttpStatusExpectation::Status(_)) => {},
        Some(HttpStatusExpectation::Range(_)) => {},
        None => {},
    }
    match c.body {
        Some(SecretRef::Literal(_)) => {},
        Some(SecretRef::FromEnv { .. }) => {},
        Some(SecretRef::FromFile { .. }) => {},
        None => {},
    }
}

proof fn lemma_first_index_distinct(ids: Seq<Seq<char>>, i: int)
    requires
        texts_distinct(ids),
        0 <= i < ids.len(),
    ensures
        first_index(ids, ids[i]) == Some(i),
{
    assert(is_first(ids, ids[i], i));
    let j = choose|j: int| is_first(ids, ids[i], j);
    assert(is_first(ids, ids[i], j));
    if j != i {
        assert(ids[j] == ids[i]);
    }
}

proof fn lemma_gather_ids_empty(n: nat)
    ensures
        forall|f: spec_fn(int) -> Seq<Seq<char>>|
            (forall|i: int| 0 <= i < n ==> (#[trigger] f(i)).len() == 0) ==> #[trigger] gather_ids(n, f).len() == 0,
    decreases n,
{
    if n > 0 {
        lemma_gather_ids_empty((n - 1) as nat);
        assert forall|f: spec_fn(int) -> Seq<Seq<char>>|
            (forall|i: int| 0 <= i < n ==> (#[trigger] f(i)).len() == 0) implies #[trigger] gather_ids(n, f).len() == 0 by {
            assert(f(n - 1).len() == 0);
            assert forall|i: int| 0 <= i < n - 1 implies (#[trigger] f(i)).len() == 0 by {}
            assert(gather_ids((n - 1) as nat, f).len() == 0);
            assert(gather_ids(n, f) == gather_ids((n - 1) as nat, f) + f(n - 1));
        }
    }
}

proof fn lemma_gather_empty(n: nat)
    ensures
        forall|f: spec_fn(int) -> Seq<(Seq<char>, Seq<char>)>|
            (forall|i: int| 0 <= i < n ==> (#[trigger] f(i)).len() == 0) ==> #[trigger] gather(n, f).len() == 0,
    decreases n,
{
    if n > 0 {
        lemma_gather_empty((n - 1) as nat);
        assert forall|f: spec_fn(int) -> Seq<(Seq<char>, Seq<char>)>|
            (forall|i: int| 0 <= i < n ==> (#[trigger] f(i)).len() == 0) implies #[trigger] gather(n, f).len() == 0 by {
            assert(f(n - 1).len() == 0);
            assert forall|i: int| 0 <= i < n - 1 implies (#[trigger] f(i)).len() == 0 by {}
            assert(gather((n - 1) as nat, f).len() == 0);
            assert(gather(n, f) == gather((n - 1) as nat, f) + f(n - 1));
        }
    }
}

proof fn lemma_target_unchanged(t: TargetConfig)
    requires
        texts_distinct(check_ids(t.checks@)),
        opt_names_distinct(t.labels),
        forall|k: int| 0 <= k < t.checks@.len() ==> opt_names_distinct(#[trigger] t.checks@[k].headers),
    ensures
        !target_modified(t, t),
        added_checks_of(t, t).len() == 0,
        removed_checks_of(t, t).len() == 0,
        modified_checks_of(t, t).len() == 0,
{
    lemma_opt_pairs_refl(t.labels);
    lemma_gather_empty(t.checks@.len());
    let ids = check_ids(t.checks@);
    assert forall|k: int| 0 <= k < t.checks@.len() implies (#[trigger] added_piece(t, t, k)).len() == 0 by {
        assert(ids[k] == t.checks@[k].id@);
    }
    assert forall|k: int| 0 <= k < t.checks@.len() implies (#[trigger] removed_piece(t, t, k)).len() == 0 by {
        assert(ids[k] == t.checks@[k].id@);
    }
    assert forall|k: int| 0 <= k < t.checks@.len() implies (#[trigger] modified_piece(t, t, k)).len() == 0 by {
        lemma_first_index_distinct(ids, k);
        lemma_same_check_refl(t.checks@[k]);
    }
}

/// A configuration compared with itself shows no change: no target or
/// check is added, removed or modified, where its targets, the checks of
/// each target, and the names of labels and of headers are all different.
pub proof fn law_diff_with_itself_is_empty(c: KemuriConfig)
    requires
        names_unique(c),
    ensures
        spec_diff(c, c).0.len() == 0,
        spec_diff(c, c).1.len() == 0,
        spec_diff(c, c).2.len() == 0,
        spec_diff(c, c).3.len() == 0,
        spec_diff(c, c).4.len() == 0,
        spec_diff(c, c).5.len() == 0,
{
    let n = c.targets@;
    let ids = target_ids(n);
    lemma_gather_ids_empty(n.len());
    lemma_gather_empty(n.len());
    assert forall|i: int| 0 <= i < n.len() implies first_index(ids, #[trigger] n[i].id@) == Some(i) by {
        assert(ids[i] == n[i].id@);
        lemma_first_index_distinct(ids, i);
    }
    assert forall|i: int| 0 <= i < n.len() implies among(ids, #[trigger] n[i].id@) by {
        assert(ids[i] == n[i].id@);
    }
    assert forall|i: int| 0 <= i < n.len() implies {
        &&& !target_modified(#[trigger] n[i], n[i])
        &&& added_checks_of(n[i], n[i]).len() == 0
        &&& removed_checks_of(n[i], n[i]).len() == 0
        &&& modified_checks_of(n[i], n[i]).len() == 0
    } by {
        lemma_target_unchanged(n[i]);
    }
}

} // verus!
