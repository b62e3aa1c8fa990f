//! The small vocabularies of the monitor: sample outcomes and their
//! classification, round execution status, check and alert states, alert
//! event kinds, probe kinds and build information.
use vstd::prelude::*;

use crate::text::str_eq;

verus! {

/// How one probe sample ended.
#[derive(Debug, Clone, Copy, PartialEq, Eq, Hash, Structural)]
pub enum SampleOutcome {
    Success,
    Timeout,
    DnsError,
    NetworkUnreachable,
    ConnectionRefused,
    ConnectionReset,
    TlsError,
    ProtocolError,
    UnexpectedResponse,
    PermissionDenied,
    Cancelled,
    InternalError,
}

/// How a round of samples was executed.
#[derive(Debug, Clone, Copy, PartialEq, Eq, Hash, Structural)]
pub enum RoundExecutionStatus {
    Complete,
    Partial,
    SkippedOverlap,
    SkippedBackpressure,
    Cancelled,
    InternalError,
}

/// What a sample says about the monitored service.
#[derive(Debug, Clone, Copy, PartialEq, Eq, Hash, Structural)]
pub enum SampleClassification {
    HealthyResponse,
    UnhealthyResponse,
    MeasurementLoss,
}

/// The health state of a check.
#[derive(Debug, Clone, Copy, PartialEq, Eq, Hash, Structural)]
pub enum CheckState {
    Unknown,
    Healthy,
    Degraded,
    Down,
    NoData,
    Disabled,
}

/// The state of one alert rule for one check.
#[derive(Debug, Clone, Copy, PartialEq, Eq, Hash, Structural)]
pub enum AlertState {
    Normal,
    PendingFire,
    Firing,
    PendingClear,
}

/// The name under which an alert state is stored and shown.
pub open spec fn alert_state_name(s: AlertState) -> Seq<char> {
    match s {
        AlertState::Normal => "normal"@,
        AlertState::PendingFire => "pending_fire"@,
        AlertState::Firing => "firing"@,
        AlertState::PendingClear => "pending_clear"@,
    }
}

impl AlertState {
    /// The state's name: `normal`, `pending_fire`, `firing` or
    /// `pending_clear`.
    pub fn to_string(&self) -> (r: String)
        ensures
            r@ == alert_state_name(*self),
    {
        match self {
            AlertState::Normal => String::from_str("normal"),
            AlertState::PendingFire => String::from_str("pending_fire"),
            AlertState::Firing => String::from_str("firing"),
            AlertState::PendingClear => String::from_str("pending_clear"),
        }
    }
}

/// The kind of an alert event.
#[derive(Debug, Clone, Copy, PartialEq, Eq, Hash, Structural)]
pub enum AlertEventKind {
    Firing,
    Resolved,
}

/// The name under which an alert event kind is stored and shown.
pub open spec fn alert_event_kind_name(k: AlertEventKind) -> Seq<char> {
    match k {
        AlertEventKind::Firing => "firing"@,
        AlertEventKind::Resolved => "resolved"@,
    }
}

impl AlertEventKind {
    /// The kind's name: `firing` or `resolved`.
    pub fn to_string(&self) -> (r: String)
        ensures
            r@ == alert_event_kind_name(*self),
    {
        match self {
            AlertEventKind::Firing => String::from_str("firing"),
            AlertEventKind::Resolved => String::from_str("resolved"),
        }
    }
}

/// The kind of network probe.
#[derive(Debug, Clone, Copy, PartialEq, Eq, Hash, Structural)]
pub enum ProbeKind {
    Icmp,
    Http,
    Tcp,
    Dns,
}

/// The name of a probe kind.
pub open spec fn probe_kind_name(k: ProbeKind) -> Seq<char> {
    match k {
        ProbeKind::Icmp => "icmp"@,
        ProbeKind::Http => "http"@,
        ProbeKind::Tcp => "tcp"@,
        ProbeKind::Dns => "dns"@,
    }
}

/// The probe kind named `s`, if any.
pub open spec fn probe_kind_of_name(s: Seq<char>) -> Option<ProbeKind> {
    if s == "icmp"@ {
        Some(ProbeKind::Icmp)
    } else if s == "http"@ {
        Some(ProbeKind::Http)
    } else if s == "tcp"@ {
        Some(ProbeKind::Tcp)
    } else if s == "dns"@ {
        Some(ProbeKind::Dns)
    } else {
        None
    }
}

impl ProbeKind {
    /// The kind's name: `icmp`, `http`, `tcp` or `dns`.
    pub fn to_string(&self) -> (r: String)
        ensures
            r@ == probe_kind_name(*self),
    {
        match self {
            ProbeKind::Icmp => String::from_str("icmp"),
            ProbeKind::Http => String::from_str("http"),
            ProbeKind::Tcp => String::from_str("tcp"),
            ProbeKind::Dns => String::from_str("dns"),
        }
    }

    /// The probe kind named `s`; any other name is rejected with the message
    /// `unknown probe kind: <s>`.
    pub fn parse(s: &str) -> (r: Result<Self, String>)
        ensures
            match probe_kind_of_name(s@) {
                Some(k) => r == Ok::<ProbeKind, String>(k),
                None => r matches Err(m) && m@ == "unknown probe kind: "@ + s@,
            },
    {
        if str_eq(s, "icmp") {
            Ok(ProbeKind::Icmp)
        } else if str_eq(s, "http") {
            Ok(ProbeKind::Http)
        } else if str_eq(s, "tcp") {
            Ok(ProbeKind::Tcp)
        } else if str_eq(s, "dns") {
            Ok(ProbeKind::Dns)
        } else {
            Err(crate::text::concat("unknown probe kind: ", s))
        }
    }
}

/// Reading a probe kind's name gives the kind back.
pub proof fn lemma_probe_kind_name_roundtrip(k: ProbeKind)
    ensures
        probe_kind_of_name(probe_kind_name(k)) == Some(k),
{
    reveal_strlit("icmp");
    reveal_strlit("http");
    reveal_strlit("tcp");
    reveal_strlit("dns");
    assert("icmp"@[0] != "http"@[0] && "icmp"@[0] != "tcp"@[0] && "icmp"@[0] != "dns"@[0]);
    assert("http"@[0] != "tcp"@[0] && "http"@[0] != "dns"@[0] && "tcp"@[0] != "dns"@[0]);
}

impl std::str::FromStr for ProbeKind {
    type Err = String;

    fn from_str(s: &str) -> (r: Result<Self, String>)
        ensures
            match probe_kind_of_name(s@) {
                Some(k) => r == Ok::<ProbeKind, String>(k),
                None => r matches Err(m) && m@ == "unknown probe kind: "@ + s@,
            },
    {
        Self::parse(s)
    }
}

/// The version and build details of the running program.
#[derive(Debug, Clone, PartialEq, Eq)]
pub struct BuildInfo {
    pub version: String,
    pub git_hash: String,
    pub build_timestamp: String,
    pub target: String,
}

} // verus!
