use kemuri::dns::{
    DnsLookupOutcome, DnsProbe, DnsProbeConfig, DnsProtocol, DnsResponseCode, RecordType,
};
use kemuri::http::{HttpConnectionMode, HttpMethod, HttpProbe, HttpProbeConfig, RequestErrorInfo};
use kemuri::ids::{CheckId, ProfileId, TargetId};
use kemuri::kinds::{ProbeKind, SampleOutcome};
use kemuri::ping::{
    build_echo_request, classify_icmp_error, classify_recv_error, classify_send_error,
    compute_checksum, parse_icmp_reply, AddressFamily, IcmpCapability, IcmpProbeConfig,
    ParsedReply, SocketMethod, DEFAULT_PAYLOAD_SIZE, ICMP_DEST_UNREACH_V4, ICMP_ECHO_REPLY_V4,
    ICMP_ECHO_REPLY_V6, ICMP_ECHO_REQUEST_V4, ICMP_ECHO_REQUEST_V6, ICMP_TIME_EXCEEDED_V6,
};
use kemuri::probe::{IoErrorInfo, IoErrorKind, ProbeExecutionError, ResolvedCheck};
use kemuri::synthetic::{SyntheticProbe, SyntheticProbeConfig};
use kemuri::tcp::{connect_metadata, family_of_setting, TcpProbe, TcpProbeConfig};
use std::time::Duration;

#[test]
fn dns_default_config() {
    let config = DnsProbeConfig::default();
    assert_eq!(config.protocol, DnsProtocol::Udp);
    assert_eq!(config.expected_rcode, DnsResponseCode::NoError);
    assert!(!config.require_answer);
}

#[test]
fn protocol_display() {
    assert_eq!(DnsProtocol::Udp.to_string(), "udp");
    assert_eq!(DnsProtocol::Tcp.to_string(), "tcp");
}

#[test]
fn response_code_display() {
    assert_eq!(DnsResponseCode::NoError.to_string(), "noerror");
    assert_eq!(DnsResponseCode::NXDomain.to_string(), "nxdomain");
    assert_eq!(DnsResponseCode::ServFail.to_string(), "servfail");
}

#[test]
fn parse_record_type_known() {
    assert_eq!(DnsProbe::parse_record_type("A"), RecordType::A);
}

#[test]
fn parse_record_type_variants() {
    assert_eq!(DnsProbe::parse_record_type("A"), RecordType::A);
    assert_eq!(DnsProbe::parse_record_type("AAAA"), RecordType::AAAA);
    assert_eq!(DnsProbe::parse_record_type("MX"), RecordType::MX);
    assert_eq!(DnsProbe::parse_record_type("TXT"), RecordType::TXT);
    assert_eq!(DnsProbe::parse_record_type("CNAME"), RecordType::CNAME);
    assert_eq!(DnsProbe::parse_record_type("NS"), RecordType::NS);
    assert_eq!(DnsProbe::parse_record_type("SOA"), RecordType::SOA);
    assert_eq!(DnsProbe::parse_record_type("SRV"), RecordType::SRV);
    assert_eq!(DnsProbe::parse_record_type("PTR"), RecordType::PTR);
}

#[test]
fn parse_record_type_unknown_defaults_to_a() {
    assert_eq!(DnsProbe::parse_record_type("UNKNOWN"), RecordType::A);
}

#[test]
fn parse_record_type_is_case_insensitive() {
    assert_eq!(DnsProbe::parse_record_type("aaaa"), RecordType::AAAA);
    assert_eq!(DnsProbe::parse_record_type("mx"), RecordType::MX);
}

#[test]
fn dns_lookup_answers_and_nxdomain() {
    let probe = DnsProbe::new(DnsProbeConfig::default());
    let ok = probe.lookup_result(
        &DnsLookupOutcome::Answers(2),
        "example.com",
        RecordType::A,
        Some("1.1.1.1"),
        Duration::from_millis(12),
    );
    assert_eq!(ok.outcome, SampleOutcome::Success);
    assert_eq!(ok.latency, Some(Duration::from_millis(12)));
    let meta = ok.metadata.unwrap();
    assert_eq!(meta[0], ("response_code".to_string(), "noerror".to_string()));
    assert_eq!(meta[1], ("answer_count".to_string(), "2".to_string()));
    assert_eq!(meta[2], ("query_name".to_string(), "example.com".to_string()));
    assert_eq!(meta[3], ("record_type".to_string(), "A".to_string()));
    assert_eq!(meta[4], ("server".to_string(), "1.1.1.1".to_string()));
    assert_eq!(meta[5], ("protocol".to_string(), "udp".to_string()));

    let nx = probe.lookup_result(
        &DnsLookupOutcome::NoRecords(DnsResponseCode::NXDomain),
        "missing.example",
        RecordType::A,
        None,
        Duration::from_millis(3),
    );
    assert_eq!(nx.outcome, SampleOutcome::UnexpectedResponse);

    let timeout = probe.lookup_result(
        &DnsLookupOutcome::Timeout,
        "slow.example",
        RecordType::A,
        None,
        Duration::from_millis(3),
    );
    assert_eq!(timeout.outcome, SampleOutcome::Timeout);
}

#[test]
fn dns_expected_nxdomain_is_success() {
    let config = DnsProbe::config_from_settings("tcp", "nxdomain", false);
    assert_eq!(config.protocol, DnsProtocol::Tcp);
    assert_eq!(config.expected_rcode, DnsResponseCode::NXDomain);
    let probe = DnsProbe::new(config);
    let r = probe.lookup_result(
        &DnsLookupOutcome::NoRecords(DnsResponseCode::NXDomain),
        "missing.example",
        RecordType::A,
        None,
        Duration::from_millis(3),
    );
    assert_eq!(r.outcome, SampleOutcome::Success);
    let bad = DnsProbe::invalid_server_result("nope");
    assert_eq!(bad.outcome, SampleOutcome::DnsError);
    assert_eq!(bad.detail.as_deref(), Some("invalid dns server: nope"));
}

#[test]
fn default_config_connection_mode() {
    let config = HttpProbeConfig::default();
    assert_eq!(config.connection_mode, HttpConnectionMode::Pooled);
    assert!(config.follow_redirects);
    assert!(config.tls_validate);
}

#[test]
fn expected_status_check_single() {
    let config = HttpProbeConfig {
        expected_status: Some(200),
        ..HttpProbeConfig::default()
    };
    let probe = HttpProbe::new(config, Ok(())).unwrap();
    assert!(probe.is_expected_status(200));
    assert!(!probe.is_expected_status(404));
}

#[test]
fn expected_status_check_range() {
    let config = HttpProbeConfig {
        expected_status_range: Some((200, 399)),
        ..HttpProbeConfig::default()
    };
    let probe = HttpProbe::new(config, Ok(())).unwrap();
    assert!(probe.is_expected_status(200));
    assert!(probe.is_expected_status(301));
    assert!(probe.is_expected_status(399));
    assert!(!probe.is_expected_status(400));
    assert!(!probe.is_expected_status(500));
}

#[test]
fn expected_status_default_2xx_3xx() {
    let config = HttpProbeConfig::default();
    let probe = HttpProbe::new(config, Ok(())).unwrap();
    assert!(probe.is_expected_status(200));
    assert!(probe.is_expected_status(204));
    assert!(probe.is_expected_status(301));
    assert!(!probe.is_expected_status(400));
    assert!(!probe.is_expected_status(500));
}

#[test]
fn http_client_error_is_passed_on() {
    let r = HttpProbe::new(
        HttpProbeConfig::default(),
        Err(ProbeExecutionError::Internal("no client".to_string())),
    );
    assert!(matches!(r, Err(ProbeExecutionError::Internal(m)) if m == "no client"));
}

fn http_check(params: Vec<(&str, &str)>) -> ResolvedCheck {
    ResolvedCheck {
        check_id: CheckId::new("c1").unwrap(),
        target_id: TargetId::new("t1").unwrap(),
        profile_id: ProfileId::new("p1").unwrap(),
        address: "example.com".to_string(),
        probe_kind: ProbeKind::Http,
        timeout: Duration::from_secs(5),
        sample_count: 1,
        params: params
            .into_iter()
            .map(|(k, v)| (k.to_string(), v.to_string()))
            .collect(),
    }
}

#[test]
fn http_config_for_check_applies_parameters() {
    let probe = HttpProbe::new(HttpProbeConfig::default(), Ok(())).unwrap();
    let check = http_check(vec![
        ("url", "https://example.com/health"),
        ("method", "HEAD"),
        ("headers", "{\"x-b\":\"2\",\"x-a\":\"1\"}"),
        ("expected_status_range", "200-299"),
        ("connection_mode", "per_round"),
        ("root_certificates", "[\"pem\"]"),
    ]);
    let c = probe.config_for_check(&check).unwrap();
    assert_eq!(c.url, "https://example.com/health");
    assert_eq!(c.method.as_deref(), Some("HEAD"));
    assert_eq!(
        c.headers,
        vec![
            ("x-a".to_string(), "1".to_string()),
            ("x-b".to_string(), "2".to_string())
        ]
    );
    assert_eq!(c.expected_status_range, Some((200, 299)));
    assert_eq!(c.connection_mode, HttpConnectionMode::PerRound);
    assert_eq!(c.root_certificates, vec!["pem".to_string()]);
    let with_method = HttpProbe::new(c, Ok(())).unwrap();
    assert_eq!(with_method.request_method(), HttpMethod::Head);
}

#[test]
fn http_config_for_check_errors() {
    let probe = HttpProbe::new(HttpProbeConfig::default(), Ok(())).unwrap();
    let no_url = probe.config_for_check(&http_check(vec![]));
    assert!(matches!(no_url, Err(ProbeExecutionError::Internal(m)) if m == "HTTP check has no configured URL"));
    let bad_status = probe.config_for_check(&http_check(vec![
        ("url", "http://x"),
        ("expected_status", "abc"),
    ]));
    assert!(matches!(bad_status, Err(ProbeExecutionError::Internal(m)) if m == "invalid expected HTTP status"));
    let bad_headers = probe.config_for_check(&http_check(vec![
        ("url", "http://x"),
        ("headers", "[1]"),
    ]));
    assert!(matches!(bad_headers, Err(ProbeExecutionError::Internal(m)) if m.starts_with("invalid HTTP headers: ")));
}

#[test]
fn http_request_errors_are_classified() {
    let err = |t: bool, c: bool, r: bool, m: &str| RequestErrorInfo {
        is_timeout: t,
        is_connect: c,
        is_redirect: r,
        message: m.to_string(),
    };
    assert_eq!(HttpProbe::classify_request_error(&err(true, true, false, "x")), SampleOutcome::Timeout);
    assert_eq!(
        HttpProbe::classify_request_error(&err(false, true, false, "DNS lookup failed")),
        SampleOutcome::DnsError
    );
    assert_eq!(
        HttpProbe::classify_request_error(&err(false, true, false, "Connection Refused")),
        SampleOutcome::ConnectionRefused
    );
    assert_eq!(
        HttpProbe::classify_request_error(&err(false, true, false, "Connection RESET by peer")),
        SampleOutcome::ConnectionReset
    );
    assert_eq!(
        HttpProbe::classify_request_error(&err(false, false, true, "too many redirects")),
        SampleOutcome::UnexpectedResponse
    );
    assert_eq!(
        HttpProbe::classify_request_error(&err(false, false, false, "invalid Certificate")),
        SampleOutcome::TlsError
    );
    assert_eq!(
        HttpProbe::classify_request_error(&err(false, false, false, "something else")),
        SampleOutcome::InternalError
    );
}

#[test]
fn http_response_result() {
    let probe = HttpProbe::new(HttpProbeConfig::default(), Ok(())).unwrap();
    let ok = probe.response_result(204, Duration::from_millis(5));
    assert_eq!(ok.outcome, SampleOutcome::Success);
    assert_eq!(ok.detail.as_deref(), Some("status=204"));
    let bad = probe.response_result(503, Duration::from_millis(5));
    assert_eq!(bad.outcome, SampleOutcome::UnexpectedResponse);
}

#[test]
fn compute_checksum_empty() {
    let checksum = compute_checksum(&[]);
    assert_eq!(checksum, 0xffff);
}

#[test]
fn compute_checksum_known_value() {
    let mut packet = vec![8u8, 0, 0, 0, 0, 1, 0, 1];
    let checksum = compute_checksum(&packet);
    packet[2..4].copy_from_slice(&checksum.to_be_bytes());
    let verify = compute_checksum(&packet);
    assert_eq!(verify, 0);
}

#[test]
fn checksum_exact_value() {
    assert_eq!(compute_checksum(&[8, 0, 0, 0, 0, 1, 0, 1]), 0xf7fd);
    assert_eq!(compute_checksum(&[0xff]), 0x00ff);
}

#[test]
fn build_echo_request_ipv4_checksum_valid() {
    let packet = build_echo_request(false, 0x1234, 1, 4);
    assert_eq!(packet[0], ICMP_ECHO_REQUEST_V4);
    assert_eq!(packet[1], 0);
    assert_eq!(packet.len(), 12);
    assert_eq!(&packet[4..6], &0x1234u16.to_be_bytes());
    assert_eq!(&packet[6..8], &1u16.to_be_bytes());
    let verify = compute_checksum(&packet);
    assert_eq!(verify, 0);
}

#[test]
fn build_echo_request_ipv6_checksum_valid() {
    let packet = build_echo_request(true, 0x5678, 2, 8);
    assert_eq!(packet[0], ICMP_ECHO_REQUEST_V6);
    assert_eq!(packet[1], 0);
    assert_eq!(packet.len(), 16);
    assert_eq!(&packet[4..6], &0x5678u16.to_be_bytes());
    assert_eq!(&packet[6..8], &2u16.to_be_bytes());
    let verify = compute_checksum(&packet);
    assert_eq!(verify, 0);
}

#[test]
fn build_echo_request_large_payload() {
    let packet = build_echo_request(false, 1, 1, DEFAULT_PAYLOAD_SIZE);
    assert_eq!(packet.len(), 8 + DEFAULT_PAYLOAD_SIZE);
    let verify = compute_checksum(&packet);
    assert_eq!(verify, 0);
}

#[test]
fn parse_echo_reply_ipv4_dgram_match() {
    let request = build_echo_request(false, 0xabcd, 5, 8);
    let mut reply = request.clone();
    reply[0] = ICMP_ECHO_REPLY_V4;
    reply[2] = 0;
    reply[3] = 0;
    let checksum = compute_checksum(&reply);
    reply[2..4].copy_from_slice(&checksum.to_be_bytes());

    let result = parse_icmp_reply(&reply, false, SocketMethod::Dgram, 0xabcd, 5);
    assert!(matches!(result, ParsedReply::Match(_)));
}

#[test]
fn parse_echo_reply_ipv6_dgram_match() {
    let request = build_echo_request(true, 0xef01, 3, 16);
    let mut reply = request.clone();
    reply[0] = ICMP_ECHO_REPLY_V6;
    reply[2] = 0;
    reply[3] = 0;
    let checksum = compute_checksum(&reply);
    reply[2..4].copy_from_slice(&checksum.to_be_bytes());

    let result = parse_icmp_reply(&reply, true, SocketMethod::Dgram, 0xef01, 3);
    assert!(matches!(result, ParsedReply::Match(_)));
}

#[test]
fn parse_echo_reply_identifier_mismatch() {
    let request = build_echo_request(false, 0x1111, 1, 8);
    let mut reply = request.clone();
    reply[0] = ICMP_ECHO_REPLY_V4;
    reply[4] = 0x22;
    reply[5] = 0x22;
    reply[2] = 0;
    reply[3] = 0;
    let checksum = compute_checksum(&reply);
    reply[2..4].copy_from_slice(&checksum.to_be_bytes());

    let result = parse_icmp_reply(&reply, false, SocketMethod::Dgram, 0x1111, 1);
    assert!(matches!(result, ParsedReply::Retry));
}

#[test]
fn parse_echo_reply_sequence_mismatch() {
    let request = build_echo_request(false, 0x1111, 1, 8);
    let mut reply = request.clone();
    reply[0] = ICMP_ECHO_REPLY_V4;
    reply[6] = 0;
    reply[7] = 99;
    reply[2] = 0;
    reply[3] = 0;
    let checksum = compute_checksum(&reply);
    reply[2..4].copy_from_slice(&checksum.to_be_bytes());

    let result = parse_icmp_reply(&reply, false, SocketMethod::Dgram, 0x1111, 1);
    assert!(matches!(result, ParsedReply::Retry));
}

#[test]
fn parse_dest_unreachable_ipv4() {
    let mut reply = vec![ICMP_DEST_UNREACH_V4, 0, 0, 0, 0, 0, 0, 0];
    let checksum = compute_checksum(&reply);
    reply[2..4].copy_from_slice(&checksum.to_be_bytes());

    let result = parse_icmp_reply(&reply, false, SocketMethod::Dgram, 0x1111, 1);
    match result {
        ParsedReply::Error(outcome, _) => {
            assert_eq!(outcome, SampleOutcome::NetworkUnreachable);
        }
        _ => panic!("expected error reply"),
    }
}

#[test]
fn parse_time_exceeded_ipv6() {
    let mut reply = vec![ICMP_TIME_EXCEEDED_V6, 0, 0, 0, 0, 0, 0, 0];
    let checksum = compute_checksum(&reply);
    reply[2..4].copy_from_slice(&checksum.to_be_bytes());

    let result = parse_icmp_reply(&reply, true, SocketMethod::Dgram, 0x1111, 1);
    match result {
        ParsedReply::Error(outcome, _) => {
            assert_eq!(outcome, SampleOutcome::NetworkUnreachable);
        }
        _ => panic!("expected error reply"),
    }
}

#[test]
fn parse_ipv4_raw_with_ip_header() {
    let request = build_echo_request(false, 0xabcd, 1, 8);
    let mut reply = request.clone();
    reply[0] = ICMP_ECHO_REPLY_V4;
    reply[2] = 0;
    reply[3] = 0;
    let checksum = compute_checksum(&reply);
    reply[2..4].copy_from_slice(&checksum.to_be_bytes());

    let mut ip_packet = vec![0u8; 20];
    ip_packet[0] = 0x45;
    ip_packet.extend_from_slice(&reply);

    let result = parse_icmp_reply(&ip_packet, false, SocketMethod::Raw, 0xabcd, 1);
    assert!(matches!(result, ParsedReply::Match(_)));
}

#[test]
fn parse_too_short_packet() {
    let data = [0u8; 4];
    let result = parse_icmp_reply(&data, false, SocketMethod::Dgram, 1, 1);
    assert!(matches!(result, ParsedReply::Retry));
}

#[test]
fn parse_ipv4_raw_too_short_ip_header() {
    let data = [0x45u8, 0, 0, 0, 0, 0, 0, 0, 0, 0];
    let result = parse_icmp_reply(&data, false, SocketMethod::Raw, 1, 1);
    assert!(matches!(result, ParsedReply::Retry));
}

#[test]
fn icmp_default_config() {
    let config = IcmpProbeConfig::default();
    assert_eq!(config.address_family, AddressFamily::Auto);
    assert_eq!(config.payload_size, DEFAULT_PAYLOAD_SIZE);
    assert!(config.source_address.is_none());
}

#[test]
fn socket_method_display() {
    assert_eq!(SocketMethod::Dgram.to_string(), "dgram");
    assert_eq!(SocketMethod::Raw.to_string(), "raw");
}

#[test]
fn icmp_capability_availability() {
    let none = IcmpCapability { ipv4: None, ipv6: None };
    assert!(!none.is_available());
    let v6 = IcmpCapability { ipv4: None, ipv6: Some(SocketMethod::Dgram) };
    assert!(v6.is_available());
}

#[test]
fn icmp_errors_are_classified() {
    assert_eq!(classify_icmp_error(3, false), SampleOutcome::NetworkUnreachable);
    let send = classify_send_error(&IoErrorInfo {
        kind: IoErrorKind::Other,
        message: "Host UNREACHABLE".to_string(),
    });
    assert_eq!(send.outcome, SampleOutcome::NetworkUnreachable);
    assert_eq!(send.detail.as_deref(), Some("icmp send error: Host UNREACHABLE"));
    let recv = classify_recv_error(
        &IoErrorInfo {
            kind: IoErrorKind::PermissionDenied,
            message: "no".to_string(),
        },
        Duration::from_millis(7),
    );
    assert_eq!(recv.outcome, SampleOutcome::PermissionDenied);
    assert_eq!(recv.latency, Some(Duration::from_millis(7)));
}

#[test]
fn tcp_default_config() {
    let config = TcpProbeConfig::default();
    assert_eq!(config.address_family, AddressFamily::Auto);
    assert!(config.source_address.is_none());
}

fn io_error(kind: IoErrorKind, message: &str) -> IoErrorInfo {
    IoErrorInfo {
        kind,
        message: message.to_string(),
    }
}

#[test]
fn classify_connection_refused() {
    let e = io_error(IoErrorKind::ConnectionRefused, "refused");
    assert_eq!(
        TcpProbe::classify_connect_error(&e),
        SampleOutcome::ConnectionRefused
    );
}

#[test]
fn classify_connection_reset() {
    let e = io_error(IoErrorKind::ConnectionReset, "reset");
    assert_eq!(
        TcpProbe::classify_connect_error(&e),
        SampleOutcome::ConnectionReset
    );
}

#[test]
fn classify_network_unreachable() {
    let e = io_error(IoErrorKind::NetworkUnreachable, "unreachable");
    assert_eq!(
        TcpProbe::classify_connect_error(&e),
        SampleOutcome::NetworkUnreachable
    );
}

#[test]
fn classify_permission_denied() {
    let e = io_error(IoErrorKind::PermissionDenied, "denied");
    assert_eq!(
        TcpProbe::classify_connect_error(&e),
        SampleOutcome::PermissionDenied
    );
}

#[test]
fn classify_timed_out() {
    let e = io_error(IoErrorKind::TimedOut, "timed out");
    assert_eq!(TcpProbe::classify_connect_error(&e), SampleOutcome::Timeout);
}

#[test]
fn classify_other_by_message() {
    let e = io_error(IoErrorKind::Other, "Connection REFUSED by host");
    assert_eq!(
        TcpProbe::classify_connect_error(&e),
        SampleOutcome::ConnectionRefused
    );
    let e = io_error(IoErrorKind::Other, "Operation Timed Out");
    assert_eq!(TcpProbe::classify_connect_error(&e), SampleOutcome::Timeout);
    let e = io_error(IoErrorKind::Other, "weird");
    assert_eq!(TcpProbe::classify_connect_error(&e), SampleOutcome::InternalError);
}

#[test]
fn tcp_settings_and_metadata() {
    assert_eq!(family_of_setting("ipv6"), AddressFamily::Ipv6);
    assert_eq!(family_of_setting("other"), AddressFamily::Auto);
    let meta = connect_metadata("10.0.0.1", false, 443);
    assert!(meta.contains(&("resolved_ip".to_string(), "10.0.0.1".to_string())));
}

#[test]
fn synthetic_probe_settings() {
    let probe = SyntheticProbe::success(Duration::from_millis(5));
    assert_eq!(probe.config().outcome, SampleOutcome::Success);
    let t = SyntheticProbe::timeout();
    assert_eq!(t.config().outcome, SampleOutcome::Timeout);
    let custom = SyntheticProbe::new(SyntheticProbeConfig::default());
    assert_eq!(custom.config().outcome, SyntheticProbeConfig::default().outcome);
}

fn synthetic_check_id() -> CheckId {
    CheckId::new("test-check").unwrap()
}

#[test]
fn synthetic_success_probe() {
    let probe = SyntheticProbe::success(Duration::from_millis(1));
    let result = probe.round(synthetic_check_id());
    assert_eq!(result.results.len(), 1);
    assert_eq!(result.results[0].outcome, SampleOutcome::Success);
}

#[test]
fn synthetic_timeout_probe() {
    let probe = SyntheticProbe::timeout();
    let result = probe.round(synthetic_check_id());
    assert_eq!(result.results[0].outcome, SampleOutcome::Timeout);
}

#[test]
fn synthetic_deterministic() {
    let probe = SyntheticProbe::success(Duration::from_millis(1));
    let r1 = probe.round(synthetic_check_id());
    let r2 = probe.round(synthetic_check_id());
    assert_eq!(r1.results[0].outcome, r2.results[0].outcome);
}

#[test]
fn synthetic_custom_config() {
    let probe = SyntheticProbe::new(SyntheticProbeConfig {
        outcome: SampleOutcome::ConnectionRefused,
        latency: Duration::from_millis(5),
        classification: kemuri::kinds::SampleClassification::UnhealthyResponse,
    });
    let result = probe.round(synthetic_check_id());
    assert_eq!(result.results[0].outcome, SampleOutcome::ConnectionRefused);
}
