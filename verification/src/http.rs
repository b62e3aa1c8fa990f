//! HTTP probe: its settings, the settings that a check's parameters give,
//! which statuses count as success, and the classification of request
//! errors.
use std::time::Duration;
use vstd::prelude::*;

use crate::kinds::SampleOutcome;
use crate::probe::{
    clone_opt, clone_pairs, clone_strings, lookup, opt_view, pairs_view, param_get, strings_view,
    ProbeExecutionError, ResolvedCheck, SampleResult,
};
use crate::text;
use crate::text::{concat, parse_bool, parse_uint_str, split_once, str_contains, str_eq, to_lowercase, u64_to_decimal};

verus! {

/// How the HTTP probe reuses connections.
#[derive(Debug, Clone, Copy, PartialEq, Eq, Structural)]
pub enum HttpConnectionMode {
    Pooled,
    PerRound,
    Fresh,
}

impl HttpConnectionMode {
    /// The mode used unless configured otherwise: `Pooled`.
    pub fn default() -> (r: Self)
        ensures
            r == HttpConnectionMode::Pooled,
    {
        HttpConnectionMode::Pooled
    }
}

/// The settings of the HTTP probe. `headers` holds name/value pairs.
#[derive(Debug, Clone)]
pub struct HttpProbeConfig {
    pub url: String,
    pub method: Option<String>,
    pub headers: Vec<(String, String)>,
    pub expected_status: Option<u16>,
    pub expected_status_range: Option<(u16, u16)>,
    pub follow_redirects: bool,
    pub max_redirects: u32,
    pub tls_validate: bool,
    pub connection_mode: HttpConnectionMode,
    pub user_agent: Option<String>,
    pub body: Option<String>,
    pub measure_until: String,
    pub root_certificates: Vec<String>,
}

/// The abstract content of `HttpProbeConfig`.
pub ghost struct HttpProbeConfigView {
    pub url: Seq<char>,
    pub method: Option<Seq<char>>,
    pub headers: Seq<(Seq<char>, Seq<char>)>,
    pub expected_status: Option<u16>,
    pub expected_status_range: Option<(u16, u16)>,
    pub follow_redirects: bool,
    pub max_redirects: u32,
    pub tls_validate: bool,
    pub connection_mode: HttpConnectionMode,
    pub user_agent: Option<Seq<char>>,
    pub body: Option<Seq<char>>,
    pub measure_until: Seq<char>,
    pub root_certificates: Seq<Seq<char>>,
}

impl View for HttpProbeConfig {
    type V = HttpProbeConfigView;

    open spec fn view(&self) -> HttpProbeConfigView {
        HttpProbeConfigView {
            url: self.url@,
            method: opt_view(self.method),
            headers: pairs_view(self.headers@),
            expected_status: self.expected_status,
            expected_status_range: self.expected_status_range,
            follow_redirects: self.follow_redirects,
            max_redirects: self.max_redirects,
            tls_validate: self.tls_validate,
            connection_mode: self.connection_mode,
            user_agent: opt_view(self.user_agent),
            body: opt_view(self.body),
            measure_until: self.measure_until@,
            root_certificates: strings_view(self.root_certificates@),
        }
    }
}

impl HttpProbeConfig {
    /// No URL, method or headers; success on statuses 200 to 399; up to ten
    /// redirects followed; certificates validated; pooled connections;
    /// timing up to the response headers.
    pub fn default() -> (r: Self)
        ensures
            r@ == (HttpProbeConfigView {
                url: Seq::empty(),
                method: None,
                headers: Seq::empty(),
                expected_status: None,
                expected_status_range: None,
                follow_redirects: true,
                max_redirects: 10,
                tls_validate: true,
                connection_mode: HttpConnectionMode::Pooled,
                user_agent: None,
                body: None,
                measure_until: "headers"@,
                root_certificates: Seq::empty(),
            }),
    {
        let r = HttpProbeConfig {
            url: String::new(),
            method: None,
            headers: Vec::new(),
            expected_status: None,
            expected_status_range: None,
            follow_redirects: true,
            max_redirects: 10,
            tls_validate: true,
            connection_mode: HttpConnectionMode::Pooled,
            user_agent: None,
            body: None,
            measure_until: String::from_str("headers"),
            root_certificates: Vec::new(),
        };
        assert(pairs_view(r.headers@) =~= Seq::empty());
        assert(strings_view(r.root_certificates@) =~= Seq::empty());
        r
    }
}

/// The JSON object of strings that `s` holds, as `serde_json::from_str`
/// reads it into a map from string to string, in key order; or the
/// message of its error.
pub uninterp spec fn json_string_map(s: Seq<char>) -> Result<Seq<(Seq<char>, Seq<char>)>, Seq<char>>;

/// The JSON array of strings that `s` holds, as `serde_json::from_str`
/// reads it into a list of strings; or the message of its error.
pub uninterp spec fn json_string_list(s: Seq<char>) -> Result<Seq<Seq<char>>, Seq<char>>;

/// The view of a read name/value list, or of its error message.
pub open spec fn pairs_result_view(r: Result<Vec<(String, String)>, String>) -> Result<
    Seq<(Seq<char>, Seq<char>)>,
    Seq<char>,
> {
    match r {
        Ok(v) => Ok(pairs_view(v@)),
        Err(e) => Err(e@),
    }
}

/// The view of a read string list, or of its error message.
pub open spec fn strings_result_view(r: Result<Vec<String>, String>) -> Result<
    Seq<Seq<char>>,
    Seq<char>,
> {
    match r {
        Ok(v) => Ok(strings_view(v@)),
        Err(e) => Err(e@),
    }
}

/// Reads a JSON object of strings with `serde_json::from_str` into an
/// ordered map; its result is named `json_string_map`.
#[verifier::external_body]
pub(crate) fn read_json_string_map(s: &str) -> (r: Result<Vec<(String, String)>, String>)
    ensures
        pairs_result_view(r) == json_string_map(s@),
{
    match serde_json::from_str::<std::collections::BTreeMap<String, String>>(s) {
        Ok(m) => Ok(m.into_iter().collect()),
        Err(e) => Err(e.to_string()),
    }
}

/// Reads a JSON array of strings with `serde_json::from_str`; its result is
/// named `json_string_list`.
#[verifier::external_body]
fn read_json_string_list(s: &str) -> (r: Result<Vec<String>, String>)
    ensures
        strings_result_view(r) == json_string_list(s@),
{
    match serde_json::from_str::<Vec<String>>(s) {
        Ok(v) => Ok(v),
        Err(e) => Err(e.to_string()),
    }
}

/// The HTTP status that a parameter names.
pub open spec fn status_value(s: Seq<char>) -> Option<u16> {
    match text::uint_value(s) {
        Some(v) => if v <= u16::MAX {
            Some(v as u16)
        } else {
            None
        },
        None => None,
    }
}

/// The inclusive status range that a parameter `lo-hi` names.
pub open spec fn status_range_value(s: Seq<char>) -> Option<(u16, u16)> {
    match text::split_once_spec(s, '-') {
        Some((a, b)) => match (status_value(a), status_value(b)) {
            (Some(lo), Some(hi)) => Some((lo, hi)),
            _ => None,
        },
        None => None,
    }
}

/// The redirect limit that a parameter names.
pub open spec fn u32_value(s: Seq<char>) -> Option<u32> {
    match text::uint_value(s) {
        Some(v) => if v <= u32::MAX {
            Some(v as u32)
        } else {
            None
        },
        None => None,
    }
}

/// Whether an optional parameter is absent or reads as a status.
pub open spec fn status_param_ok(p: Option<Seq<char>>) -> bool {
    match p {
        Some(s) => status_value(s) is Some,
        None => true,
    }
}

/// Whether an optional parameter is absent or reads as a status range.
pub open spec fn range_param_ok(p: Option<Seq<char>>) -> bool {
    match p {
        Some(s) => status_range_value(s) is Some,
        None => true,
    }
}

/// The error of reading an optional JSON object parameter, if any.
pub open spec fn map_param_error(p: Option<Seq<char>>) -> Option<Seq<char>> {
    match p {
        Some(s) => match json_string_map(s) {
            Err(e) => Some(e),
            Ok(_) => None,
        },
        None => None,
    }
}

/// The error of reading an optional JSON array parameter, if any.
pub open spec fn list_param_error(p: Option<Seq<char>>) -> Option<Seq<char>> {
    match p {
        Some(s) => match json_string_list(s) {
            Err(e) => Some(e),
            Ok(_) => None,
        },
        None => None,
    }
}

/// The first of two options that is present.
pub open spec fn or_else<T>(a: Option<T>, b: Option<T>) -> Option<T> {
    match a {
        Some(x) => Some(x),
        None => b,
    }
}

/// A parameter read by `f`, or `d` when the parameter is absent or does
/// not read.
pub open spec fn bool_param(p: Option<Seq<char>>, d: bool) -> bool {
    match p {
        Some(s) => match text::bool_value(s) {
            Some(b) => b,
            None => d,
        },
        None => d,
    }
}

/// The connection mode that a parameter names: `per_round`, `fresh`, and
/// pooled for anything else or nothing.
pub open spec fn mode_param(p: Option<Seq<char>>) -> HttpConnectionMode {
    match p {
        Some(s) => if s == "per_round"@ {
            HttpConnectionMode::PerRound
        } else if s == "fresh"@ {
            HttpConnectionMode::Fresh
        } else {
            HttpConnectionMode::Pooled
        },
        None => HttpConnectionMode::Pooled,
    }
}

/// The settings of an HTTP check: the probe's settings with the check's
/// parameters applied, or the message of the first parameter that does not
/// read.
pub open spec fn spec_config_for_check(
    base: HttpProbeConfigView,
    ps: Seq<(Seq<char>, Seq<char>)>,
) -> Result<HttpProbeConfigView, Seq<char>> {
    let url = match lookup(ps, "url"@) {
        Some(u) => u,
        None => base.url,
    };
    if url.len() == 0 {
        Err("HTTP check has no configured URL"@)
    } else if !status_param_ok(lookup(ps, "expected_status"@)) {
        Err("invalid expected HTTP status"@)
    } else if !range_param_ok(lookup(ps, "expected_status_range"@)) {
        Err("invalid expected HTTP status range"@)
    } else if map_param_error(lookup(ps, "headers"@)) is Some {
        Err("invalid HTTP headers: "@ + map_param_error(lookup(ps, "headers"@))->0)
    } else if list_param_error(lookup(ps, "root_certificates"@)) is Some {
        Err("invalid root certificates: "@ + list_param_error(lookup(ps, "root_certificates"@))->0)
    } else {
        Ok(
            HttpProbeConfigView {
                url,
                method: or_else(lookup(ps, "method"@), base.method),
                headers: match lookup(ps, "headers"@) {
                    Some(h) => json_string_map(h)->Ok_0,
                    None => base.headers,
                },
                expected_status: match lookup(ps, "expected_status"@) {
                    Some(s) => status_value(s),
                    None => base.expected_status,
                },
                expected_status_range: match lookup(ps, "expected_status_range"@) {
                    Some(s) => status_range_value(s),
                    None => base.expected_status_range,
                },
                follow_redirects: bool_param(lookup(ps, "follow_redirects"@), base.follow_redirects),
                max_redirects: match lookup(ps, "max_redirect_count"@) {
                    Some(s) => match u32_value(s) {
                        Some(v) => v,
                        None => base.max_redirects,
                    },
                    None => base.max_redirects,
                },
                tls_validate: bool_param(lookup(ps, "tls_validate"@), base.tls_validate),
                connection_mode: mode_param(lookup(ps, "connection_mode"@)),
                user_agent: or_else(lookup(ps, "user_agent"@), base.user_agent),
                body: lookup(ps, "body"@),
                measure_until: match lookup(ps, "measure_until"@) {
                    Some(m) => m,
                    None => base.measure_until,
                },
                root_certificates: match lookup(ps, "root_certificates"@) {
                    Some(c) => json_string_list(c)->Ok_0,
                    None => base.root_certificates,
                },
            },
        )
    }
}

/// Whether `status` counts as success: inside the expected range when one
/// is set, else equal to the expected status when one is set, else from
/// 200 to 399.
pub open spec fn spec_is_expected_status(c: HttpProbeConfigView, status: u16) -> bool {
    match c.expected_status_range {
        Some((lo, hi)) => lo <= status <= hi,
        None => match c.expected_status {
            Some(e) => status == e,
            None => 200 <= status < 400,
        },
    }
}

/// A request error as plain values: what the HTTP client reports of it and
/// its message.
#[derive(Debug, Clone)]
pub struct RequestErrorInfo {
    pub is_timeout: bool,
    pub is_connect: bool,
    pub is_redirect: bool,
    pub message: String,
}

/// Whether the lowercase message mentions any of the given words.
pub open spec fn mentions_any(m: Seq<char>, words: Seq<Seq<char>>) -> bool {
    exists|i: int| 0 <= i < words.len() && text::contains(m, #[trigger] words[i])
}

/// The outcome of a failed request: a timeout; for a connect error, by the
/// words of its message (a resolution failure, refused, reset, unreachable,
/// else refused); an unexpected response for a redirect error; else by the
/// words of its message (TLS, protocol, else internal).
pub open spec fn spec_request_outcome(e: RequestErrorInfo) -> SampleOutcome {
    let m = text::lowercase(e.message@);
    if e.is_timeout {
        SampleOutcome::Timeout
    } else if e.is_connect {
        if mentions_any(m, seq!["dns"@, "resolve"@, "name"@, "nodename"@]) {
            SampleOutcome::DnsError
        } else if text::contains(m, "refused"@) {
            SampleOutcome::ConnectionRefused
        } else if mentions_any(m, seq!["reset"@, "broken pipe"@]) {
            SampleOutcome::ConnectionReset
        } else if mentions_any(m, seq!["network"@, "unreachable"@]) {
            SampleOutcome::NetworkUnreachable
        } else {
            SampleOutcome::ConnectionRefused
        }
    } else if e.is_redirect {
        SampleOutcome::UnexpectedResponse
    } else if mentions_any(m, seq!["tls"@, "certificate"@, "ssl"@, "handshake"@]) {
        SampleOutcome::TlsError
    } else if mentions_any(m, seq!["protocol"@, "parse"@]) {
        SampleOutcome::ProtocolError
    } else {
        SampleOutcome::InternalError
    }
}

/// The request methods that the HTTP probe sends.
#[derive(Debug, Clone, Copy, PartialEq, Eq, Structural)]
pub enum HttpMethod {
    Get,
    Head,
    Post,
    Put,
    Delete,
}

/// The method that a configured name selects: `HEAD`, `POST`, `PUT`,
/// `DELETE`, and `GET` for anything else or nothing.
pub open spec fn spec_method_of(m: Option<Seq<char>>) -> HttpMethod {
    match m {
        Some(s) => if s == "HEAD"@ {
            HttpMethod::Head
        } else if s == "POST"@ {
            HttpMethod::Post
        } else if s == "PUT"@ {
            HttpMethod::Put
        } else if s == "DELETE"@ {
            HttpMethod::Delete
        } else {
            HttpMethod::Get
        },
        None => HttpMethod::Get,
    }
}

/// The HTTP probe and its settings.
pub struct HttpProbe {
    config: HttpProbeConfig,
}

impl HttpProbe {
    /// The probe with the given settings, once the HTTP client for them has
    /// been built: `client_built` is the outcome of building it, and its
    /// error is returned as it is.
    pub fn new(config: HttpProbeConfig, client_built: Result<(), ProbeExecutionError>) -> (r:
        Result<Self, ProbeExecutionError>)
        ensures
            client_built is Ok <==> r is Ok,
            r matches Ok(p) ==> p.spec_config() == config,
            client_built matches Err(e) ==> r == Err::<Self, ProbeExecutionError>(e),
    {
        match client_built {
            Ok(()) => Ok(Self { config }),
            Err(e) => Err(e),
        }
    }

    /// The probe's settings.
    pub closed spec fn spec_config(&self) -> HttpProbeConfig {
        self.config
    }

    /// The probe's settings.
    pub fn config(&self) -> (r: &HttpProbeConfig)
        ensures
            *r == self.spec_config(),
    {
        &self.config
    }

    /// The settings of `check`: the probe's settings with the check's
    /// parameters applied.
    pub fn config_for_check(&self, check: &ResolvedCheck) -> (r: Result<
        HttpProbeConfig,
        ProbeExecutionError,
    >)
        ensures
            match (r, spec_config_for_check(self.spec_config()@, pairs_view(check.params@))) {
                (Ok(c), Ok(v)) => c@ == v,
                (Err(ProbeExecutionError::Internal(m)), Err(msg)) => m@ == msg,
                _ => false,
            },
    {
        let ps = &check.params;
        let base = &self.config;
        let url = match param_get(ps, "url") {
            Some(u) => u,
            None => base.url.clone(),
        };
        if url.as_str().is_empty() {
            return Err(ProbeExecutionError::Internal(String::from_str("HTTP check has no configured URL")));
        }
        let method = match param_get(ps, "method") {
            Some(m) => Some(m),
            None => clone_opt(&base.method),
        };
        let expected_status = match param_get(ps, "expected_status") {
            Some(s) => match parse_uint_str(s.as_str(), 65535) {
                Some(v) => Some(v as u16),
                None => {
                    return Err(ProbeExecutionError::Internal(String::from_str("invalid expected HTTP status")));
                },
            },
            None => base.expected_status,
        };
        let expected_status_range = match param_get(ps, "expected_status_range") {
            Some(s) => {
                let parsed = match split_once(s.as_str(), '-') {
                    Some((a, b)) => match (parse_uint_str(a.as_str(), 65535), parse_uint_str(b.as_str(), 65535)) {
                        (Some(lo), Some(hi)) => Some((lo as u16, hi as u16)),
                        _ => None,
                    },
                    None => None,
                };
                if parsed.is_none() {
                    return Err(ProbeExecutionError::Internal(String::from_str("invalid expected HTTP status range")));
                }
                parsed
            },
            None => base.expected_status_range,
        };
        let headers = match param_get(ps, "headers") {
            Some(h) => match read_json_string_map(h.as_str()) {
                Ok(v) => v,
                Err(e) => {
                    return Err(ProbeExecutionError::Internal(concat("invalid HTTP headers: ", e.as_str())));
                },
            },
            None => clone_pairs(&base.headers),
        };
        let root_certificates = match param_get(ps, "root_certificates") {
            Some(c) => match read_json_string_list(c.as_str()) {
                Ok(v) => v,
                Err(e) => {
                    return Err(ProbeExecutionError::Internal(concat("invalid root certificates: ", e.as_str())));
                },
            },
            None => clone_strings(&base.root_certificates),
        };
        let follow_redirects = match param_get(ps, "follow_redirects") {
            Some(s) => match parse_bool(s.as_str()) {
                Some(b) => b,
                None => base.follow_redirects,
            },
            None => base.follow_redirects,
        };
        let max_redirects = match param_get(ps, "max_redirect_count") {
            Some(s) => match parse_uint_str(s.as_str(), 4294967295) {
                Some(v) => v as u32,
                None => base.max_redirects,
            },
            None => base.max_redirects,
        };
        let tls_validate = match param_get(ps, "tls_validate") {
            Some(s) => match parse_bool(s.as_str()) {
                Some(b) => b,
                None => base.tls_validate,
            },
            None => base.tls_validate,
        };
        let user_agent = match param_get(ps, "user_agent") {
            Some(u) => Some(u),
            None => clone_opt(&base.user_agent),
        };
        let measure_until = match param_get(ps, "measure_until") {
            Some(m) => m,
            None => base.measure_until.clone(),
        };
        let connection_mode = match param_get(ps, "connection_mode") {
            Some(m) => if str_eq(m.as_str(), "per_round") {
                HttpConnectionMode::PerRound
            } else if str_eq(m.as_str(), "fresh") {
                HttpConnectionMode::Fresh
            } else {
                HttpConnectionMode::Pooled
            },
            None => HttpConnectionMode::Pooled,
        };
        Ok(HttpProbeConfig {
            url,
            method,
            headers,
            expected_status,
            expected_status_range,
            follow_redirects,
            max_redirects,
            tls_validate,
            connection_mode,
            user_agent,
            body: param_get(ps, "body"),
            measure_until,
            root_certificates,
        })
    }

    /// Whether `status` counts as success for this probe.
    pub fn is_expected_status(&self, status: u16) -> (r: bool)
        ensures
            r == spec_is_expected_status(self.spec_config()@, status),
    {
        if let Some((lo, hi)) = self.config.expected_status_range {
            return lo <= status && status <= hi;
        }
        if let Some(expected) = self.config.expected_status {
            return status == expected;
        }
        200 <= status && status < 400
    }

    /// The outcome of a failed request.
    pub fn classify_request_error(e: &RequestErrorInfo) -> (r: SampleOutcome)
        ensures
            r == spec_request_outcome(*e),
    {
        if e.is_timeout {
            return SampleOutcome::Timeout;
        }
        let lower = to_lowercase(e.message.as_str());
        let m = lower.as_str();
        proof {
            reveal_strlit("dns");
        }
        if e.is_connect {
            if str_contains(m, "dns") || str_contains(m, "resolve") || str_contains(m, "name")
                || str_contains(m, "nodename") {
                assert(mentions_any(m@, seq!["dns"@, "resolve"@, "name"@, "nodename"@])) by {
                    let ws = seq!["dns"@, "resolve"@, "name"@, "nodename"@];
                    assert(ws[0] == "dns"@ && ws[1] == "resolve"@ && ws[2] == "name"@ && ws[3]
                        == "nodename"@);
                }
                return SampleOutcome::DnsError;
            }
            assert(!mentions_any(m@, seq!["dns"@, "resolve"@, "name"@, "nodename"@]));
            if str_contains(m, "refused") {
                return SampleOutcome::ConnectionRefused;
            }
            if str_contains(m, "reset") || str_contains(m, "broken pipe") {
                assert(mentions_any(m@, seq!["reset"@, "broken pipe"@])) by {
                    let ws = seq!["reset"@, "broken pipe"@];
                    assert(ws[0] == "reset"@ && ws[1] == "broken pipe"@);
                }
                return SampleOutcome::ConnectionReset;
            }
            assert(!mentions_any(m@, seq!["reset"@, "broken pipe"@]));
            if str_contains(m, "network") || str_contains(m, "unreachable") {
                assert(mentions_any(m@, seq!["network"@, "unreachable"@])) by {
                    let ws = seq!["network"@, "unreachable"@];
                    assert(ws[0] == "network"@ && ws[1] == "unreachable"@);
                }
                return SampleOutcome::NetworkUnreachable;
            }
            assert(!mentions_any(m@, seq!["network"@, "unreachable"@]));
            return SampleOutcome::ConnectionRefused;
        }
        if e.is_redirect {
            return SampleOutcome::UnexpectedResponse;
        }
        if str_contains(m, "tls") || str_contains(m, "certificate") || str_contains(m, "ssl")
            || str_contains(m, "handshake") {
            assert(mentions_any(m@, seq!["tls"@, "certificate"@, "ssl"@, "handshake"@])) by {
                let ws = seq!["tls"@, "certificate"@, "ssl"@, "handshake"@];
                assert(ws[0] == "tls"@ && ws[1] == "certificate"@ && ws[2] == "ssl"@ && ws[3]
                    == "handshake"@);
            }
            return SampleOutcome::TlsError;
        }
        assert(!mentions_any(m@, seq!["tls"@, "certificate"@, "ssl"@, "handshake"@]));
        if str_contains(m, "protocol") || str_contains(m, "parse") {
            assert(mentions_any(m@, seq!["protocol"@, "parse"@])) by {
                let ws = seq!["protocol"@, "parse"@];
                assert(ws[0] == "protocol"@ && ws[1] == "parse"@);
            }
            return SampleOutcome::ProtocolError;
        }
        assert(!mentions_any(m@, seq!["protocol"@, "parse"@]));
        SampleOutcome::InternalError
    }

    /// The request method of this probe.
    pub fn request_method(&self) -> (r: HttpMethod)
        ensures
            r == spec_method_of(opt_view(self.spec_config().method)),
    {
        match &self.config.method {
            Some(m) => {
                let s = m.as_str();
                if str_eq(s, "HEAD") {
                    HttpMethod::Head
                } else if str_eq(s, "POST") {
                    HttpMethod::Post
                } else if str_eq(s, "PUT") {
                    HttpMethod::Put
                } else if str_eq(s, "DELETE") {
                    HttpMethod::Delete
                } else {
                    HttpMethod::Get
                }
            },
            None => HttpMethod::Get,
        }
    }

    /// Whether the probe times the whole body rather than the headers.
    pub fn measures_body(&self) -> (r: bool)
        ensures
            r == (self.spec_config().measure_until@ == "body"@),
    {
        str_eq(self.config.measure_until.as_str(), "body")
    }

    /// The sample result of a response with `status` after `elapsed`:
    /// success when the status is expected, an unexpected response
    /// otherwise.
    pub fn response_result(&self, status: u16, elapsed: Duration) -> (r: SampleResult)
        ensures
            r.outcome == (if spec_is_expected_status(self.spec_config()@, status) {
                SampleOutcome::Success
            } else {
                SampleOutcome::UnexpectedResponse
            }),
            r.latency == Some(elapsed),
            r.detail matches Some(d) && d@ == "status="@ + text::decimal(status as nat),
            r.metadata is None,
    {
        let outcome = if self.is_expected_status(status) {
            SampleOutcome::Success
        } else {
            SampleOutcome::UnexpectedResponse
        };
        SampleResult {
            outcome,
            latency: Some(elapsed),
            detail: Some(concat("status=", u64_to_decimal(status as u64).as_str())),
            metadata: None,
        }
    }
}

impl crate::probe::Probe for HttpProbe {
    open spec fn spec_kind(&self) -> crate::kinds::ProbeKind {
        crate::kinds::ProbeKind::Http
    }

    fn kind(&self) -> (r: crate::kinds::ProbeKind) {
        crate::kinds::ProbeKind::Http
    }
}

proof fn lemma_mentions_two(m: Seq<char>, a: Seq<char>, b: Seq<char>)
    ensures
        mentions_any(m, seq![a, b]) <==> (text::contains(m, a) || text::contains(m, b)),
{
    let ws = seq![a, b];
    assert(ws[0] == a && ws[1] == b);
}

proof fn lemma_mentions_four(m: Seq<char>, a: Seq<char>, b: Seq<char>, c: Seq<char>, d: Seq<char>)
    ensures
        mentions_any(m, seq![a, b, c, d]) <==> (text::contains(m, a) || text::contains(m, b)
            || text::contains(m, c) || text::contains(m, d)),
{
    let ws = seq![a, b, c, d];
    assert(ws[0] == a && ws[1] == b && ws[2] == c && ws[3] == d);
}

/// Whether a lowercase message names a failure to resolve a host.
pub open spec fn names_resolution(m: Seq<char>) -> bool {
    text::contains(m, "dns"@) || text::contains(m, "resolve"@) || text::contains(m, "name"@)
        || text::contains(m, "nodename"@)
}

/// How a failed request is classified, by what failed and by the words of
/// its lowercased message: a timeout is a timeout whatever else holds; a
/// connect error is a DNS error when the message names resolution, else a
/// refused connection when it says "refused", else a reset connection when
/// it says "reset" or "broken pipe", else an unreachable network when it
/// says "network" or "unreachable", and a refused connection otherwise;
/// a redirect error is an unexpected response; any other error is a TLS
/// error when the message says "tls", "certificate", "ssl" or "handshake",
/// else a protocol error when it says "protocol" or "parse", and an
/// internal error otherwise.
pub proof fn law_request_error_classes(e: RequestErrorInfo)
    ensures
        ({
            let m = text::lowercase(e.message@);
            let o = spec_request_outcome(e);
            let connect = !e.is_timeout && e.is_connect;
            let other = !e.is_timeout && !e.is_connect && !e.is_redirect;
            let tls = text::contains(m, "tls"@) || text::contains(m, "certificate"@) || text::contains(m, "ssl"@)
                || text::contains(m, "handshake"@);
            &&& e.is_timeout ==> o == SampleOutcome::Timeout
            &&& (connect && names_resolution(m)) ==> o == SampleOutcome::DnsError
            &&& (connect && !names_resolution(m) && text::contains(m, "refused"@)) ==> o
                == SampleOutcome::ConnectionRefused
            &&& (connect && !names_resolution(m) && !text::contains(m, "refused"@) && (text::contains(m, "reset"@)
                || text::contains(m, "broken pipe"@))) ==> o == SampleOutcome::ConnectionReset
            &&& (connect && !names_resolution(m) && !text::contains(m, "refused"@) && !text::contains(m, "reset"@)
                && !text::contains(m, "broken pipe"@) && (text::contains(m, "network"@) || text::contains(
                m,
                "unreachable"@,
            ))) ==> o == SampleOutcome::NetworkUnreachable
            &&& (connect && !names_resolution(m) && !text::contains(m, "refused"@) && !text::contains(m, "reset"@)
                && !text::contains(m, "broken pipe"@) && !text::contains(m, "network"@) && !text::contains(
                m,
                "unreachable"@,
            )) ==> o == SampleOutcome::ConnectionRefused
            &&& (!e.is_timeout && !e.is_connect && e.is_redirect) ==> o == SampleOutcome::UnexpectedResponse
            &&& (other && tls) ==> o == SampleOutcome::TlsError
            &&& (other && !tls && (text::contains(m, "protocol"@) || text::contains(m, "parse"@))) ==> o
                == SampleOutcome::ProtocolError
            &&& (other && !tls && !text::contains(m, "protocol"@) && !text::contains(m, "parse"@)) ==> o
                == SampleOutcome::InternalError
        }),
{
    let m = text::lowercase(e.message@);
    lemma_mentions_four(m, "dns"@, "resolve"@, "name"@, "nodename"@);
    lemma_mentions_two(m, "reset"@, "broken pipe"@);
    lemma_mentions_two(m, "network"@, "unreachable"@);
    lemma_mentions_four(m, "tls"@, "certificate"@, "ssl"@, "handshake"@);
    lemma_mentions_two(m, "protocol"@, "parse"@);
}

} // verus!
