//! TCP connect probe: its settings, the classification of connect errors,
//! and the metadata of a connection attempt.
use vstd::prelude::*;

use crate::kinds::SampleOutcome;
use crate::ping::AddressFamily;
use crate::probe::{pairs_view, IoErrorInfo, IoErrorKind, ProbeExecutionError};
use crate::text;
use crate::text::{str_contains, str_eq, to_lowercase, u64_to_decimal};

verus! {

/// TLS settings of the TCP probe.
#[derive(Debug, Clone)]
pub struct TcpTlsConfig {
    pub enabled: bool,
    pub server_name: Option<String>,
    pub tls_validate: Option<bool>,
    pub root_certificates: Option<Vec<String>>,
}

/// The settings of the TCP probe.
#[derive(Debug, Clone)]
pub struct TcpProbeConfig {
    pub address_family: AddressFamily,
    pub source_address: Option<String>,
    pub tls: Option<TcpTlsConfig>,
}

impl TcpProbeConfig {
    /// Automatic address family, no source address, no TLS.
    pub fn default() -> (r: Self)
        ensures
            r.address_family == AddressFamily::Auto,
            r.source_address is None,
            r.tls is None,
    {
        TcpProbeConfig { address_family: AddressFamily::Auto, source_address: None, tls: None }
    }

    /// Whether a TLS handshake follows the connect.
    pub fn tls_enabled(&self) -> (r: bool)
        ensures
            r == (self.tls matches Some(t) && t.enabled),
    {
        match &self.tls {
            Some(t) => t.enabled,
            None => false,
        }
    }
}

/// The address family named by a setting: `ipv4`, `ipv6`, anything else
/// automatic.
pub open spec fn spec_family_of_setting(s: Seq<char>) -> AddressFamily {
    if s == "ipv4"@ {
        AddressFamily::Ipv4
    } else if s == "ipv6"@ {
        AddressFamily::Ipv6
    } else {
        AddressFamily::Auto
    }
}

/// The address family named by a setting: `ipv4`, `ipv6`, anything else
/// automatic.
pub fn family_of_setting(s: &str) -> (r: AddressFamily)
    ensures
        r == spec_family_of_setting(s@),
{
    if str_eq(s, "ipv4") {
        AddressFamily::Ipv4
    } else if str_eq(s, "ipv6") {
        AddressFamily::Ipv6
    } else {
        AddressFamily::Auto
    }
}

/// The outcome of a failed connect: by the error's kind where it names one,
/// else by the words of its lowercase message, else an internal error.
pub open spec fn spec_connect_outcome(kind: IoErrorKind, message: Seq<char>) -> SampleOutcome {
    let m = text::lowercase(message);
    match kind {
        IoErrorKind::ConnectionRefused => SampleOutcome::ConnectionRefused,
        IoErrorKind::ConnectionReset => SampleOutcome::ConnectionReset,
        IoErrorKind::NetworkUnreachable => SampleOutcome::NetworkUnreachable,
        IoErrorKind::PermissionDenied => SampleOutcome::PermissionDenied,
        IoErrorKind::TimedOut => SampleOutcome::Timeout,
        IoErrorKind::Other => if text::contains(m, "refused"@) {
            SampleOutcome::ConnectionRefused
        } else if text::contains(m, "reset"@) {
            SampleOutcome::ConnectionReset
        } else if text::contains(m, "unreachable"@) {
            SampleOutcome::NetworkUnreachable
        } else if text::contains(m, "permission"@) {
            SampleOutcome::PermissionDenied
        } else if text::contains(m, "timed out"@) {
            SampleOutcome::Timeout
        } else {
            SampleOutcome::InternalError
        },
    }
}

/// The metadata of a connection attempt: the resolved address, its family
/// and the port.
pub open spec fn spec_connect_metadata(resolved_ip: Seq<char>, is_ipv6: bool, port: u16) -> Seq<
    (Seq<char>, Seq<char>),
> {
    seq![
        ("resolved_ip"@, resolved_ip),
        ("ip_family"@, if is_ipv6 { "ipv6"@ } else { "ipv4"@ }),
        ("port"@, text::decimal(port as nat)),
    ]
}

/// The TCP probe and its settings.
pub struct TcpProbe {
    config: TcpProbeConfig,
}

impl TcpProbe {
    /// The probe with the given settings.
    pub fn new(config: TcpProbeConfig) -> (r: Self)
        ensures
            r.spec_config() == config,
    {
        Self { config }
    }

    /// The probe's settings.
    pub closed spec fn spec_config(&self) -> TcpProbeConfig {
        self.config
    }

    /// The probe's settings.
    pub fn config(&self) -> (r: &TcpProbeConfig)
        ensures
            *r == self.spec_config(),
    {
        &self.config
    }

    /// The outcome of a failed connect.
    pub fn classify_connect_error(e: &IoErrorInfo) -> (r: SampleOutcome)
        ensures
            r == spec_connect_outcome(e.kind, e.message@),
    {
        match e.kind {
            IoErrorKind::ConnectionRefused => SampleOutcome::ConnectionRefused,
            IoErrorKind::ConnectionReset => SampleOutcome::ConnectionReset,
            IoErrorKind::NetworkUnreachable => SampleOutcome::NetworkUnreachable,
            IoErrorKind::PermissionDenied => SampleOutcome::PermissionDenied,
            IoErrorKind::TimedOut => SampleOutcome::Timeout,
            IoErrorKind::Other => {
                let msg = to_lowercase(e.message.as_str());
                let m = msg.as_str();
                if str_contains(m, "refused") {
                    SampleOutcome::ConnectionRefused
                } else if str_contains(m, "reset") {
                    SampleOutcome::ConnectionReset
                } else if str_contains(m, "unreachable") {
                    SampleOutcome::NetworkUnreachable
                } else if str_contains(m, "permission") {
                    SampleOutcome::PermissionDenied
                } else if str_contains(m, "timed out") {
                    SampleOutcome::Timeout
                } else {
                    SampleOutcome::InternalError
                }
            },
        }
    }
}

/// The metadata of a connection attempt to `resolved_ip` on `port`.
pub fn connect_metadata(resolved_ip: &str, is_ipv6: bool, port: u16) -> (r: Vec<(String, String)>)
    ensures
        pairs_view(r@) == spec_connect_metadata(resolved_ip@, is_ipv6, port),
{
    let mut v: Vec<(String, String)> = Vec::new();
    v.push((String::from_str("resolved_ip"), String::from_str(resolved_ip)));
    let family = if is_ipv6 {
        String::from_str("ipv6")
    } else {
        String::from_str("ipv4")
    };
    v.push((String::from_str("ip_family"), family));
    v.push((String::from_str("port"), u64_to_decimal(port as u64)));
    assert(pairs_view(v@) =~= spec_connect_metadata(resolved_ip@, is_ipv6, port));
    v
}

/// Whether the TLS settings allow a handshake: certificate validation
/// cannot be switched off.
pub fn check_tls_settings(tls: &TcpTlsConfig) -> (r: Result<(), ProbeExecutionError>)
    ensures
        r is Ok <==> tls.tls_validate != Some(false),
        r matches Err(e) ==> (e matches ProbeExecutionError::Tls(m) && m@
            == "TCP TLS certificate validation cannot be disabled"@),
{
    match tls.tls_validate {
        Some(false) => Err(
            ProbeExecutionError::Tls(
                String::from_str("TCP TLS certificate validation cannot be disabled"),
            ),
        ),
        _ => Ok(()),
    }
}

/// The server name that a TLS handshake presents: the configured one, or
/// the host.
pub fn tls_server_name(tls: &TcpTlsConfig, host: &str) -> (r: String)
    ensures
        r@ == (match tls.server_name {
            Some(n) => n@,
            None => host@,
        }),
{
    match &tls.server_name {
        Some(n) => n.clone(),
        None => String::from_str(host),
    }
}

impl crate::probe::Probe for TcpProbe {
    open spec fn spec_kind(&self) -> crate::kinds::ProbeKind {
        crate::kinds::ProbeKind::Tcp
    }

    fn kind(&self) -> (r: crate::kinds::ProbeKind) {
        crate::kinds::ProbeKind::Tcp
    }
}

} // verus!
