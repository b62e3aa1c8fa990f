//! DNS probe: its settings, record types and response codes, and the
//! sample result that the outcome of a lookup gives.
use std::time::Duration;
use vstd::prelude::*;

use crate::kinds::SampleOutcome;
use crate::probe::{pairs_view, SampleResult};
use crate::text;
use crate::text::{concat, str_contains, str_eq, to_lowercase, to_uppercase, u64_to_decimal};

verus! {

/// The transport of DNS queries.
#[derive(Debug, Clone, Copy, PartialEq, Eq, Structural)]
pub enum DnsProtocol {
    Udp,
    Tcp,
}

/// The name of a transport.
pub open spec fn protocol_name(p: DnsProtocol) -> Seq<char> {
    match p {
        DnsProtocol::Udp => "udp"@,
        DnsProtocol::Tcp => "tcp"@,
    }
}

impl DnsProtocol {
    /// The transport used unless configured otherwise: UDP.
    pub fn default() -> (r: Self)
        ensures
            r == DnsProtocol::Udp,
    {
        DnsProtocol::Udp
    }

    /// The transport's name: `udp` or `tcp`.
    pub fn to_string(&self) -> (r: String)
        ensures
            r@ == protocol_name(*self),
    {
        match self {
            DnsProtocol::Udp => String::from_str("udp"),
            DnsProtocol::Tcp => String::from_str("tcp"),
        }
    }
}

/// The response codes that the DNS probe tells apart.
#[derive(Debug, Clone, Copy, PartialEq, Eq, Structural)]
pub enum DnsResponseCode {
    NoError,
    FormErr,
    ServFail,
    NXDomain,
    NotImp,
    Refused,
}

/// The lowercase name of a response code.
pub open spec fn rcode_name(c: DnsResponseCode) -> Seq<char> {
    match c {
        DnsResponseCode::NoError => "noerror"@,
        DnsResponseCode::FormErr => "formerr"@,
        DnsResponseCode::ServFail => "servfail"@,
        DnsResponseCode::NXDomain => "nxdomain"@,
        DnsResponseCode::NotImp => "notimp"@,
        DnsResponseCode::Refused => "refused"@,
    }
}

/// The variant name of a response code, as its debug form writes it.
pub open spec fn rcode_variant_name(c: DnsResponseCode) -> Seq<char> {
    match c {
        DnsResponseCode::NoError => "NoError"@,
        DnsResponseCode::FormErr => "FormErr"@,
        DnsResponseCode::ServFail => "ServFail"@,
        DnsResponseCode::NXDomain => "NXDomain"@,
        DnsResponseCode::NotImp => "NotImp"@,
        DnsResponseCode::Refused => "Refused"@,
    }
}

/// The response code that a setting names by its lowercase name; no error
/// for anything else.
pub open spec fn spec_rcode_of_setting(s: Seq<char>) -> DnsResponseCode {
    if s == "formerr"@ {
        DnsResponseCode::FormErr
    } else if s == "servfail"@ {
        DnsResponseCode::ServFail
    } else if s == "nxdomain"@ {
        DnsResponseCode::NXDomain
    } else if s == "notimp"@ {
        DnsResponseCode::NotImp
    } else if s == "refused"@ {
        DnsResponseCode::Refused
    } else {
        DnsResponseCode::NoError
    }
}

impl DnsResponseCode {
    /// The code expected unless configured otherwise: no error.
    pub fn default() -> (r: Self)
        ensures
            r == DnsResponseCode::NoError,
    {
        DnsResponseCode::NoError
    }

    /// The code's lowercase name.
    pub fn to_string(&self) -> (r: String)
        ensures
            r@ == rcode_name(*self),
    {
        match self {
            DnsResponseCode::NoError => String::from_str("noerror"),
            DnsResponseCode::FormErr => String::from_str("formerr"),
            DnsResponseCode::ServFail => String::from_str("servfail"),
            DnsResponseCode::NXDomain => String::from_str("nxdomain"),
            DnsResponseCode::NotImp => String::from_str("notimp"),
            DnsResponseCode::Refused => String::from_str("refused"),
        }
    }

    /// The code's variant name.
    pub fn variant_name(&self) -> (r: String)
        ensures
            r@ == rcode_variant_name(*self),
    {
        match self {
            DnsResponseCode::NoError => String::from_str("NoError"),
            DnsResponseCode::FormErr => String::from_str("FormErr"),
            DnsResponseCode::ServFail => String::from_str("ServFail"),
            DnsResponseCode::NXDomain => String::from_str("NXDomain"),
            DnsResponseCode::NotImp => String::from_str("NotImp"),
            DnsResponseCode::Refused => String::from_str("Refused"),
        }
    }

    /// The code that a setting names.
    pub fn from_setting(s: &str) -> (r: Self)
        ensures
            r == spec_rcode_of_setting(s@),
    {
        if str_eq(s, "formerr") {
            DnsResponseCode::FormErr
        } else if str_eq(s, "servfail") {
            DnsResponseCode::ServFail
        } else if str_eq(s, "nxdomain") {
            DnsResponseCode::NXDomain
        } else if str_eq(s, "notimp") {
            DnsResponseCode::NotImp
        } else if str_eq(s, "refused") {
            DnsResponseCode::Refused
        } else {
            DnsResponseCode::NoError
        }
    }
}

/// The record types that a DNS check can query.
#[derive(Debug, Clone, Copy, PartialEq, Eq, Structural)]
pub enum RecordType {
    A,
    AAAA,
    CNAME,
    MX,
    NS,
    SOA,
    SRV,
    TXT,
    PTR,
}

/// The name of a record type.
pub open spec fn record_type_name(t: RecordType) -> Seq<char> {
    match t {
        RecordType::A => "A"@,
        RecordType::AAAA => "AAAA"@,
        RecordType::CNAME => "CNAME"@,
        RecordType::MX => "MX"@,
        RecordType::NS => "NS"@,
        RecordType::SOA => "SOA"@,
        RecordType::SRV => "SRV"@,
        RecordType::TXT => "TXT"@,
        RecordType::PTR => "PTR"@,
    }
}

/// The record type that an uppercase name names; `A` for anything else.
pub open spec fn record_type_of_name(s: Seq<char>) -> RecordType {
    if s == "AAAA"@ {
        RecordType::AAAA
    } else if s == "CNAME"@ {
        RecordType::CNAME
    } else if s == "MX"@ {
        RecordType::MX
    } else if s == "NS"@ {
        RecordType::NS
    } else if s == "SOA"@ {
        RecordType::SOA
    } else if s == "SRV"@ {
        RecordType::SRV
    } else if s == "TXT"@ {
        RecordType::TXT
    } else if s == "PTR"@ {
        RecordType::PTR
    } else {
        RecordType::A
    }
}

impl RecordType {
    /// The type's name.
    pub fn name(&self) -> (r: String)
        ensures
            r@ == record_type_name(*self),
    {
        match self {
            RecordType::A => String::from_str("A"),
            RecordType::AAAA => String::from_str("AAAA"),
            RecordType::CNAME => String::from_str("CNAME"),
            RecordType::MX => String::from_str("MX"),
            RecordType::NS => String::from_str("NS"),
            RecordType::SOA => String::from_str("SOA"),
            RecordType::SRV => String::from_str("SRV"),
            RecordType::TXT => String::from_str("TXT"),
            RecordType::PTR => String::from_str("PTR"),
        }
    }
}

/// The settings of the DNS probe.
#[derive(Debug, Clone, Copy)]
pub struct DnsProbeConfig {
    pub protocol: DnsProtocol,
    pub expected_rcode: DnsResponseCode,
    pub require_answer: bool,
}

impl DnsProbeConfig {
    /// UDP, no error expected, no answer required.
    pub fn default() -> (r: Self)
        ensures
            r.protocol == DnsProtocol::Udp,
            r.expected_rcode == DnsResponseCode::NoError,
            !r.require_answer,
    {
        DnsProbeConfig {
            protocol: DnsProtocol::Udp,
            expected_rcode: DnsResponseCode::NoError,
            require_answer: false,
        }
    }
}

/// How a lookup ended: with answers (their number), with no records and a
/// response code, timed out, with no connection to a server, or with
/// another error; the errors with their messages.
#[derive(Debug, Clone)]
pub enum DnsLookupOutcome {
    Answers(u64),
    NoRecords(DnsResponseCode),
    Timeout,
    NoConnections(String),
    Other(String),
}

/// The metadata that every lookup result carries: the query, its type, the
/// server when one was given, and the transport.
pub open spec fn query_metadata(
    query_name: Seq<char>,
    record_type: RecordType,
    server: Option<Seq<char>>,
    protocol: DnsProtocol,
) -> Seq<(Seq<char>, Seq<char>)> {
    seq![("query_name"@, query_name), ("record_type"@, record_type_name(record_type))] + match server {
        Some(s) => seq![("server"@, s)],
        None => Seq::empty(),
    } + seq![("protocol"@, protocol_name(protocol))]
}

/// The outcome, detail and metadata of a finished lookup.
pub open spec fn spec_lookup_result(
    c: DnsProbeConfig,
    o: DnsLookupOutcome,
    query_name: Seq<char>,
    record_type: RecordType,
    server: Option<Seq<char>>,
) -> (SampleOutcome, Seq<char>, Seq<(Seq<char>, Seq<char>)>) {
    let q = query_metadata(query_name, record_type, server, c.protocol);
    match o {
        DnsLookupOutcome::Answers(n) => {
            let meta = seq![("response_code"@, "noerror"@), ("answer_count"@, text::decimal(n as nat))] + q;
            if c.expected_rcode != DnsResponseCode::NoError {
                (
                    SampleOutcome::UnexpectedResponse,
                    "expected "@ + rcode_variant_name(c.expected_rcode) + ", got noerror"@,
                    meta,
                )
            } else if c.require_answer && n == 0 {
                (SampleOutcome::UnexpectedResponse, "expected answer but got none"@, meta)
            } else {
                (SampleOutcome::Success, "answers="@ + text::decimal(n as nat), meta)
            }
        },
        DnsLookupOutcome::NoRecords(code) => {
            let meta = q + seq![("response_code"@, rcode_name(code)), ("answer_count"@, "0"@)];
            if code == c.expected_rcode {
                (SampleOutcome::Success, "response_code="@ + rcode_name(code), meta)
            } else {
                (
                    SampleOutcome::UnexpectedResponse,
                    "expected "@ + rcode_variant_name(c.expected_rcode) + ", got "@ + rcode_name(code),
                    meta,
                )
            }
        },
        DnsLookupOutcome::Timeout => (
            SampleOutcome::Timeout,
            "dns query timeout"@,
            q + seq![("response_code"@, "timeout"@), ("answer_count"@, "0"@)],
        ),
        DnsLookupOutcome::NoConnections(m) => (
            if text::contains(text::lowercase(m@), "refused"@) {
                SampleOutcome::ConnectionRefused
            } else {
                SampleOutcome::DnsError
            },
            m@,
            q + seq![("response_code"@, "connection_error"@), ("answer_count"@, "0"@)],
        ),
        DnsLookupOutcome::Other(m) => {
            let lm = text::lowercase(m@);
            (
                if text::contains(lm, "refused"@) {
                    SampleOutcome::ConnectionRefused
                } else if text::contains(lm, "protocol"@) || text::contains(lm, "parse"@) {
                    SampleOutcome::ProtocolError
                } else {
                    SampleOutcome::DnsError
                },
                m@,
                q + seq![("response_code"@, "error"@), ("answer_count"@, "0"@)],
            )
        },
    }
}

/// The DNS probe and its settings.
pub struct DnsProbe {
    config: DnsProbeConfig,
}

impl DnsProbe {
    /// The probe with the given settings.
    pub fn new(config: DnsProbeConfig) -> (r: Self)
        ensures
            r.spec_config() == config,
    {
        Self { config }
    }

    /// The probe's settings.
    pub closed spec fn spec_config(&self) -> DnsProbeConfig {
        self.config
    }

    /// The probe's settings.
    pub fn config(&self) -> (r: DnsProbeConfig)
        ensures
            r == self.spec_config(),
    {
        self.config
    }

    /// The record type that `s` names, whatever its case; `A` for anything
    /// unknown.
    pub fn parse_record_type(s: &str) -> (r: RecordType)
        ensures
            r == record_type_of_name(text::uppercase(s@)),
    {
        let u = to_uppercase(s);
        let n = u.as_str();
        if str_eq(n, "AAAA") {
            RecordType::AAAA
        } else if str_eq(n, "CNAME") {
            RecordType::CNAME
        } else if str_eq(n, "MX") {
            RecordType::MX
        } else if str_eq(n, "NS") {
            RecordType::NS
        } else if str_eq(n, "SOA") {
            RecordType::SOA
        } else if str_eq(n, "SRV") {
            RecordType::SRV
        } else if str_eq(n, "TXT") {
            RecordType::TXT
        } else if str_eq(n, "PTR") {
            RecordType::PTR
        } else {
            RecordType::A
        }
    }

    /// The result of a lookup of `query_name` for `record_type` that ended
    /// with `outcome` after `elapsed`.
    pub fn lookup_result(
        &self,
        outcome: &DnsLookupOutcome,
        query_name: &str,
        record_type: RecordType,
        server: Option<&str>,
        elapsed: Duration,
    ) -> (r: SampleResult)
        ensures
            ({
                let s = spec_lookup_result(
                    self.spec_config(),
                    *outcome,
                    query_name@,
                    record_type,
                    match server {
                        Some(x) => Some(x@),
                        None => None,
                    },
                );
                &&& r.outcome == s.0
                &&& r.latency == Some(elapsed)
                &&& r.detail matches Some(d) && d@ == s.1
                &&& r.metadata matches Some(m) && pairs_view(m@) == s.2
            }),
    {
        let c = self.config;
        let mut q: Vec<(String, String)> = Vec::new();
        q.push((String::from_str("query_name"), String::from_str(query_name)));
        q.push((String::from_str("record_type"), record_type.name()));
        match server {
            Some(s) => {
                q.push((String::from_str("server"), String::from_str(s)));
            },
            None => {},
        }
        q.push((String::from_str("protocol"), c.protocol.to_string()));
        let ghost sv = match server {
            Some(x) => Some(x@),
            None => None,
        };
        assert(pairs_view(q@) =~= query_metadata(query_name@, record_type, sv, c.protocol));
        match outcome {
            DnsLookupOutcome::Answers(n) => {
                let mut meta: Vec<(String, String)> = Vec::new();
                meta.push((String::from_str("response_code"), String::from_str("noerror")));
                meta.push((String::from_str("answer_count"), u64_to_decimal(*n)));
                let ghost head = pairs_view(meta@);
                let ghost qv = pairs_view(q@);
                meta.append(&mut q);
                assert(pairs_view(meta@) =~= head + qv);
                let (o, d) = if c.expected_rcode != DnsResponseCode::NoError {
                    let mut d = String::from_str("expected ");
                    d.append(c.expected_rcode.variant_name().as_str());
                    d.append(", got noerror");
                    (SampleOutcome::UnexpectedResponse, d)
                } else if c.require_answer && *n == 0 {
                    (SampleOutcome::UnexpectedResponse, String::from_str("expected answer but got none"))
                } else {
                    (SampleOutcome::Success, concat("answers=", u64_to_decimal(*n).as_str()))
                };
                SampleResult { outcome: o, latency: Some(elapsed), detail: Some(d), metadata: Some(meta) }
            },
            DnsLookupOutcome::NoRecords(code) => {
                let ghost qv = pairs_view(q@);
                q.push((String::from_str("response_code"), code.to_string()));
                q.push((String::from_str("answer_count"), String::from_str("0")));
                assert(pairs_view(q@) =~= qv + seq![("response_code"@, rcode_name(*code)), ("answer_count"@, "0"@)]);
                let (o, d) = if *code == c.expected_rcode {
                    (SampleOutcome::Success, concat("response_code=", code.to_string().as_str()))
                } else {
                    let mut d = String::from_str("expected ");
                    d.append(c.expected_rcode.variant_name().as_str());
                    d.append(", got ");
                    d.append(code.to_string().as_str());
                    (SampleOutcome::UnexpectedResponse, d)
                };
                SampleResult { outcome: o, latency: Some(elapsed), detail: Some(d), metadata: Some(q) }
            },
            DnsLookupOutcome::Timeout => {
                let ghost qv = pairs_view(q@);
                q.push((String::from_str("response_code"), String::from_str("timeout")));
                q.push((String::from_str("answer_count"), String::from_str("0")));
                assert(pairs_view(q@) =~= qv + seq![("response_code"@, "timeout"@), ("answer_count"@, "0"@)]);
                SampleResult {
                    outcome: SampleOutcome::Timeout,
                    latency: Some(elapsed),
                    detail: Some(String::from_str("dns query timeout")),
                    metadata: Some(q),
                }
            },
            DnsLookupOutcome::NoConnections(m) => {
                let ghost qv = pairs_view(q@);
                q.push((String::from_str("response_code"), String::from_str("connection_error")));
                q.push((String::from_str("answer_count"), String::from_str("0")));
                assert(pairs_view(q@) =~= qv + seq![("response_code"@, "connection_error"@), ("answer_count"@, "0"@)]);
                let lower = to_lowercase(m.as_str());
                let o = if str_contains(lower.as_str(), "refused") {
                    SampleOutcome::ConnectionRefused
                } else {
                    SampleOutcome::DnsError
                };
                SampleResult { outcome: o, latency: Some(elapsed), detail: Some(m.clone()), metadata: Some(q) }
            },
            DnsLookupOutcome::Other(m) => {
                let ghost qv = pairs_view(q@);
                q.push((String::from_str("response_code"), String::from_str("error")));
                q.push((String::from_str("answer_count"), String::from_str("0")));
                assert(pairs_view(q@) =~= qv + seq![("response_code"@, "error"@), ("answer_count"@, "0"@)]);
                let lower = to_lowercase(m.as_str());
                let l = lower.as_str();
                let o = if str_contains(l, "refused") {
                    SampleOutcome::ConnectionRefused
                } else if str_contains(l, "protocol") || str_contains(l, "parse") {
                    SampleOutcome::ProtocolError
                } else {
                    SampleOutcome::DnsError
                };
                SampleResult { outcome: o, latency: Some(elapsed), detail: Some(m.clone()), metadata: Some(q) }
            },
        }
    }

    /// The result when the configured server is not an address.
    pub fn invalid_server_result(server: &str) -> (r: SampleResult)
        ensures
            r.outcome == SampleOutcome::DnsError,
            r.latency is None,
            r.detail matches Some(d) && d@ == "invalid dns server: "@ + server@,
            r.metadata is None,
    {
        SampleResult {
            outcome: SampleOutcome::DnsError,
            latency: None,
            detail: Some(concat("invalid dns server: ", server)),
            metadata: None,
        }
    }

    /// The result when the query name does not read, with the reader's
    /// message.
    pub fn invalid_name_result(message: &str) -> (r: SampleResult)
        ensures
            r.outcome == SampleOutcome::DnsError,
            r.latency is None,
            r.detail matches Some(d) && d@ == "invalid query name: "@ + message@,
            r.metadata is None,
    {
        SampleResult {
            outcome: SampleOutcome::DnsError,
            latency: None,
            detail: Some(concat("invalid query name: ", message)),
            metadata: None,
        }
    }

    /// The settings that a check's settings give: the transport (`tcp`, UDP
    /// otherwise), the expected response code by its name, and whether an
    /// answer is required.
    pub fn config_from_settings(protocol: &str, expected_rcode: &str, require_answer: bool) -> (r:
        DnsProbeConfig)
        ensures
            r.protocol == (if protocol@ == "tcp"@ {
                DnsProtocol::Tcp
            } else {
                DnsProtocol::Udp
            }),
            r.expected_rcode == spec_rcode_of_setting(expected_rcode@),
            r.require_answer == require_answer,
    {
        DnsProbeConfig {
            protocol: if str_eq(protocol, "tcp") {
                DnsProtocol::Tcp
            } else {
                DnsProtocol::Udp
            },
            expected_rcode: DnsResponseCode::from_setting(expected_rcode),
            require_answer,
        }
    }
}

impl crate::probe::Probe for DnsProbe {
    open spec fn spec_kind(&self) -> crate::kinds::ProbeKind {
        crate::kinds::ProbeKind::Dns
    }

    fn kind(&self) -> (r: crate::kinds::ProbeKind) {
        crate::kinds::ProbeKind::Dns
    }
}

/// The message of a failed lookup, if it failed with one.
pub open spec fn failure_message(o: DnsLookupOutcome) -> Option<Seq<char>> {
    match o {
        DnsLookupOutcome::NoConnections(m) => Some(m@),
        DnsLookupOutcome::Other(m) => Some(m@),
        _ => None,
    }
}

/// How a lookup is classified: it succeeds exactly when it gave answers
/// that the settings accept (a `noerror` code is expected, and an answer
/// is present where one is required) or gave no records with the expected
/// response code; a lookup that got a reply the settings do not accept is
/// an unexpected response; a timeout is a timeout; a failure whose
/// lowercased message says "refused" is a refused connection, whether or
/// not a connection was made; a failure to connect is otherwise a DNS
/// error; another failure is a protocol error when its message says
/// "protocol" or "parse", and a DNS error otherwise. A failure's detail is
/// its message.
pub proof fn law_lookup_classes(
    c: DnsProbeConfig,
    o: DnsLookupOutcome,
    query_name: Seq<char>,
    record_type: RecordType,
    server: Option<Seq<char>>,
)
    ensures
        ({
            let (outcome, detail, _) = spec_lookup_result(c, o, query_name, record_type, server);
            &&& (outcome == SampleOutcome::Success) <==> ((o matches DnsLookupOutcome::Answers(n)
                && c.expected_rcode == DnsResponseCode::NoError && !(c.require_answer && n == 0)) || (
            o matches DnsLookupOutcome::NoRecords(code) && code == c.expected_rcode))
            &&& (o is Answers || o is NoRecords) ==> (outcome == SampleOutcome::Success || outcome
                == SampleOutcome::UnexpectedResponse)
            &&& (outcome == SampleOutcome::Timeout) <==> o is Timeout
            &&& (outcome == SampleOutcome::ConnectionRefused) <==> (failure_message(o) matches Some(m)
                && text::contains(text::lowercase(m), "refused"@))
            &&& (o matches DnsLookupOutcome::NoConnections(m) && !text::contains(text::lowercase(m@), "refused"@))
                ==> outcome == SampleOutcome::DnsError
            &&& (outcome == SampleOutcome::ProtocolError) <==> (o matches DnsLookupOutcome::Other(m)
                && !text::contains(text::lowercase(m@), "refused"@) && (text::contains(
                text::lowercase(m@),
                "protocol"@,
            ) || text::contains(text::lowercase(m@), "parse"@)))
            &&& failure_message(o) matches Some(m) ==> detail == m
        }),
{
}

} // verus!
