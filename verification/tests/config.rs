use kemuri::config::{
    check_address_family, check_dns_settings, check_payload_size, compute_revision_id,
    generation_hash, resolve_dns, resolve_http, resolve_icmp, resolve_tcp, AlertRuleConfig,
    CheckConfig, ConfigDiff, ConfigError, DnsProfileParams, HttpProfileParams,
    HttpStatusExpectation, IcmpProfileParams, KemuriConfig, LoggingConfig, NotifierConfig,
    NumericChecks, ProbeProfileConfig, RetentionConfig, SchedulerConfig, SecretRef, ServerConfig,
    SmtpNotifierParams, StorageConfig, TargetConfig, TcpProfileParams, WebhookNotifierParams,
};
use kemuri::canonical::{canonical_config, secret_refs};
use kemuri::config::{
    resolve_check_settings, resolve_probe_params, trim_end_line_breaks, ResolvedProbeParams, SecretRead,
};
use kemuri::ids::{CheckId, NotifierId, ProfileId, RuleId, TargetId};
use kemuri::resolution::{check_source_address, find_profile, resolve_check_at, SourceAddress};
use kemuri::scheduler::schedulable_checks;
use kemuri::kinds::ProbeKind;

fn base() -> KemuriConfig {
    KemuriConfig {
        version: 1,
        server: ServerConfig::default(),
        logging: LoggingConfig::default(),
        storage: StorageConfig::default(),
        scheduler: SchedulerConfig::default(),
        profiles: vec![],
        notifiers: vec![],
        rules: vec![],
        targets: vec![],
    }
}

fn numbers() -> NumericChecks {
    NumericChecks {
        rule_thresholds: vec![],
        rule_clear_thresholds: vec![],
        scheduler_jitter: Ok(()),
        storage_disk_pressure: Ok(()),
    }
}

fn icmp_profile(id: &str, interval: &str, timeout: &str) -> ProbeProfileConfig {
    ProbeProfileConfig::Icmp(IcmpProfileParams {
        id: ProfileId::new(id).unwrap(),
        interval: interval.to_string(),
        timeout: timeout.to_string(),
        count: 3,
        address_family: None,
        payload_size: None,
        source_address: None,
    })
}

fn http_params(id: &str, url: &str) -> HttpProfileParams {
    HttpProfileParams {
        id: ProfileId::new(id).unwrap(),
        interval: "30s".to_string(),
        timeout: "5s".to_string(),
        url: url.to_string(),
        method: None,
        headers: None,
        expected_status: None,
        body: None,
        follow_redirects: None,
        max_redirect_count: None,
        connection_mode: None,
        measure_until: None,
        user_agent: None,
        tls_validate: None,
        root_certificates: None,
    }
}

fn webhook(id: &str, url: &str) -> NotifierConfig {
    NotifierConfig::Webhook(WebhookNotifierParams {
        id: NotifierId::new(id).unwrap(),
        url: SecretRef::Literal(url.to_string()),
        headers: None,
        timeout: "10s".to_string(),
    })
}

fn smtp(id: &str, password: Option<SecretRef>) -> NotifierConfig {
    NotifierConfig::Smtp(SmtpNotifierParams {
        id: NotifierId::new(id).unwrap(),
        host: "smtp.example.com".to_string(),
        port: 587,
        from: "test@example.com".to_string(),
        to: vec!["admin@example.com".to_string()],
        username: None,
        password,
        tls_mode: "starttls".to_string(),
        timeout: "10s".to_string(),
    })
}

fn rule(id: &str, profile: &str, threshold: &str, window: &str, notifier: &str) -> AlertRuleConfig {
    AlertRuleConfig {
        id: RuleId::new(id).unwrap(),
        profile: ProfileId::new(profile).unwrap(),
        metric: "measurement_loss_ratio".to_string(),
        operator: "gte".to_string(),
        threshold: threshold.to_string(),
        window: window.to_string(),
        notifier: NotifierId::new(notifier).unwrap(),
        duration: None,
        clear_threshold: None,
        clear_operator: None,
        repeat_every: None,
        minimum_rounds: None,
        minimum_latency_samples: None,
        no_data_period: None,
    }
}

fn check(id: &str, profile: &str) -> CheckConfig {
    CheckConfig {
        id: CheckId::new(id).unwrap(),
        profile: ProfileId::new(profile).unwrap(),
        enabled: true,
        kind: None,
        interval: None,
        timeout: None,
        url: None,
        method: None,
        headers: None,
        expected_status: None,
        body: None,
        host: None,
        port: None,
        domain: None,
        record_type: None,
        resolver: None,
        count: None,
        address_family: None,
        payload_size: None,
        source_address: None,
        follow_redirects: None,
        max_redirect_count: None,
        connection_mode: None,
        measure_until: None,
        user_agent: None,
        tls_validate: None,
        root_certificates: None,
        tls: None,
        protocol: None,
        expected_rcode: None,
        require_answer: None,
    }
}

fn target(id: &str, address: &str, checks: Vec<CheckConfig>) -> TargetConfig {
    TargetConfig {
        id: TargetId::new(id).unwrap(),
        address: address.to_string(),
        name: None,
        group_path: None,
        labels: None,
        checks,
        enabled: true,
    }
}

fn message_of(e: ConfigError) -> String {
    match e {
        ConfigError::Validation { path, message } => format!("{path}: {message}"),
        other => format!("{other:?}"),
    }
}

#[test]
fn minimal_valid_config() {
    base().validate(&numbers()).unwrap();
}

#[test]
fn reject_invalid_version() {
    let mut config = base();
    config.version = 2;
    let err = config.validate(&numbers()).unwrap_err();
    assert_eq!(message_of(err), "version: unsupported config version: 2");
}

#[test]
fn server_config_defaults() {
    let config = base();
    assert_eq!(config.server.bind, "127.0.0.1");
    assert_eq!(config.server.port, 8080);
    assert!(!config.server.cors);
}

#[test]
fn reject_duplicate_profile_id() {
    let mut config = base();
    config.profiles = vec![
        icmp_profile("dup", "30s", "5s"),
        icmp_profile("dup", "60s", "10s"),
    ];
    assert!(config.validate(&numbers()).is_err());
}

#[test]
fn reject_duplicate_notifier_id() {
    let mut config = base();
    config.notifiers = vec![
        webhook("dup", "http://example.com"),
        webhook("dup", "http://example.org"),
    ];
    assert!(config.validate(&numbers()).is_err());
}

#[test]
fn reject_duplicate_rule_id() {
    let mut config = base();
    config.profiles = vec![icmp_profile("p1", "30s", "5s")];
    config.notifiers = vec![webhook("n1", "http://example.com")];
    config.rules = vec![
        rule("dup", "p1", "10%", "5m", "n1"),
        rule("dup", "p1", "20%", "10m", "n1"),
    ];
    assert!(config.validate(&numbers()).is_err());
}

#[test]
fn reject_duplicate_target_id() {
    let mut config = base();
    config.targets = vec![
        target("dup", "1.1.1.1", vec![]),
        target("dup", "2.2.2.2", vec![]),
    ];
    assert!(config.validate(&numbers()).is_err());
}

#[test]
fn reject_duplicate_check_id_within_target() {
    let mut config = base();
    config.profiles = vec![icmp_profile("p1", "30s", "5s")];
    config.targets = vec![target(
        "t1",
        "1.1.1.1",
        vec![check("dup", "p1"), check("dup", "p1")],
    )];
    assert!(config.validate(&numbers()).is_err());
}

#[test]
fn reject_rule_unknown_profile() {
    let mut config = base();
    config.notifiers = vec![webhook("n1", "http://example.com")];
    config.rules = vec![rule("r1", "nonexistent", "10%", "5m", "n1")];
    let err = config.validate(&numbers()).unwrap_err();
    assert!(message_of(err).contains("unknown profile"));
}

#[test]
fn reject_rule_unknown_notifier() {
    let mut config = base();
    config.profiles = vec![icmp_profile("p1", "30s", "5s")];
    config.rules = vec![rule("r1", "p1", "10%", "5m", "nonexistent")];
    let err = config.validate(&numbers()).unwrap_err();
    assert!(message_of(err).contains("unknown notifier"));
}

#[test]
fn alert_validation_matches_runtime_metrics_and_operators() {
    let with = |metric: &str, operator: &str, window: &str| {
        let mut config = base();
        config.profiles = vec![icmp_profile("p1", "30s", "5s")];
        config.notifiers = vec![webhook("n1", "http://example.com")];
        let mut r = rule("r1", "p1", "1", window, "n1");
        r.metric = metric.to_string();
        r.operator = operator.to_string();
        config.rules = vec![r];
        config
    };
    for metric in [
        "consecutive_total_loss_rounds",
        "consecutive_unhealthy_rounds",
        "no_data",
    ] {
        assert!(with(metric, "gte", "1m").validate(&numbers()).is_ok());
    }
    for (metric, operator, window) in [
        ("consecutive_unhealthy", "gte", "1m"),
        ("consecutive_unhealthy_rounds", "eq", "1m"),
        ("consecutive_unhealthy_rounds", "gte", "0s"),
    ] {
        assert!(with(metric, operator, window).validate(&numbers()).is_err());
    }
}

#[test]
fn rule_threshold_outcome_is_used() {
    let mut config = base();
    config.profiles = vec![icmp_profile("p1", "30s", "5s")];
    config.notifiers = vec![webhook("n1", "http://example.com")];
    config.rules = vec![rule("r1", "p1", "bogus", "5m", "n1")];
    let mut n = numbers();
    n.rule_thresholds = vec![Err(ConfigError::Validation {
        path: "rules.r1.threshold".to_string(),
        message: "invalid threshold".to_string(),
    })];
    let err = config.validate(&n).unwrap_err();
    assert_eq!(message_of(err), "rules.r1.threshold: invalid threshold");
}

#[test]
fn reject_check_unknown_profile() {
    let mut config = base();
    config.targets = vec![target("t1", "1.1.1.1", vec![check("c1", "nonexistent")])];
    let err = config.validate(&numbers()).unwrap_err();
    assert!(message_of(err).contains("unknown profile"));
}

#[test]
fn reject_check_kind_mismatch() {
    let profile = icmp_profile("p1", "30s", "5s");
    let mut c = check("c1", "p1");
    c.kind = Some(ProbeKind::Http);
    let t = target("t1", "1.1.1.1", vec![c.clone()]);
    let err = profile.check_timing(&t, &c).unwrap_err();
    assert!(message_of(err).contains("does not match profile kind"));
}

#[test]
fn warn_literal_secret_in_smtp_password() {
    let mut config = base();
    config.notifiers = vec![smtp("n1", Some(SecretRef::Literal("literal-secret".to_string())))];
    let warnings = config.validate_with_warnings(&numbers()).unwrap();
    assert!(!warnings.is_empty());
    assert!(warnings[0].message.contains("literal secret"));
}

#[test]
fn warn_literal_secret_in_check_body() {
    let mut config = base();
    config.profiles = vec![ProbeProfileConfig::Http(http_params("p1", "http://example.com"))];
    let mut c = check("c1", "p1");
    c.body = Some(SecretRef::Literal("literal-secret".to_string()));
    config.targets = vec![target("t1", "example.com", vec![c])];
    let warnings = config.validate_with_warnings(&numbers()).unwrap();
    assert!(warnings.iter().any(|w| w.message.contains("literal secret")));
    assert!(warnings.iter().any(|w| w.path == "targets.t1.checks.c1.body"));
}

#[test]
fn no_warning_for_env_secret() {
    let mut config = base();
    config.notifiers = vec![smtp(
        "n1",
        Some(SecretRef::FromEnv {
            from_env: "SMTP_PASSWORD".to_string(),
        }),
    )];
    let warnings = config.validate_with_warnings(&numbers()).unwrap();
    assert!(warnings.is_empty());
}

#[test]
fn profile_resolution_http_override() {
    let profile = ProbeProfileConfig::Http(http_params("http-default", "http://example.com"));
    let mut c = check("c1", "http-default");
    c.interval = Some("15s".to_string());
    c.timeout = Some("3s".to_string());
    let t = target("t1", "example.com", vec![c.clone()]);
    assert_eq!(profile.check_timing(&t, &c).unwrap(), (15_000, 3_000));
    let plain = check("c2", "http-default");
    assert_eq!(profile.check_timing(&t, &plain).unwrap(), (30_000, 5_000));
}

#[test]
fn profile_resolution_headers_merge() {
    let mut p = http_params("http-default", "http://example.com");
    p.headers = Some(vec![
        ("Accept".to_string(), "application/json".to_string()),
        ("X-Base".to_string(), "value".to_string()),
    ]);
    let mut c = check("c1", "http-default");
    c.headers = Some(vec![
        ("X-Override".to_string(), "yes".to_string()),
        ("X-Base".to_string(), "overridden".to_string()),
    ]);
    let params = resolve_http(&p, &c, "targets.t1.checks.c1").unwrap();
    let get = |k: &str| {
        params
            .headers
            .iter()
            .find(|(n, _)| n == k)
            .map(|(_, v)| v.clone())
    };
    assert_eq!(get("X-Base").as_deref(), Some("overridden"));
    assert_eq!(get("Accept").as_deref(), Some("application/json"));
    assert_eq!(get("X-Override").as_deref(), Some("yes"));
    assert_eq!(params.headers.len(), 3);
}

#[test]
fn http_resolution_rejects_bad_urls_and_methods() {
    let p = http_params("web", "ftp://example.com");
    let err = resolve_http(&p, &check("c1", "web"), "x").unwrap_err();
    assert_eq!(message_of(err), "x.url: URL scheme must be http or https");
    let err = resolve_http(&http_params("web", "not a url"), &check("c1", "web"), "x").unwrap_err();
    assert!(message_of(err).starts_with("x.url: "));
    let mut c = check("c1", "web");
    c.method = Some("GE T".to_string());
    let err = resolve_http(&http_params("web", "https://example.com"), &c, "x").unwrap_err();
    assert_eq!(message_of(err), "x.method: invalid HTTP method");
}

#[test]
fn resolve_all_probe_options() {
    let mut web = http_params("web", "https://example.test/");
    web.method = Some("POST".to_string());
    web.expected_status = Some(HttpStatusExpectation::Range("200-399".to_string()));
    web.follow_redirects = Some(false);
    web.max_redirect_count = Some(3);
    web.connection_mode = Some("per_round".to_string());
    web.measure_until = Some("body".to_string());
    let http = resolve_http(&web, &check("web", "web"), "targets.local.checks.web").unwrap();
    assert_eq!(http.expected_status_range, Some((200, 399)));
    assert_eq!(http.measure_until, "body");
    assert!(!http.follow_redirects);
    assert_eq!(http.max_redirect_count, 3);

    let ping = IcmpProfileParams {
        id: ProfileId::new("ping").unwrap(),
        interval: "30s".to_string(),
        timeout: "5s".to_string(),
        count: 2,
        address_family: Some("ipv4".to_string()),
        payload_size: Some(32),
        source_address: Some("127.0.0.1".to_string()),
    };
    let icmp = resolve_icmp(&ping, &check("ping", "ping"), "p").unwrap();
    assert_eq!(icmp.count, 2);
    assert_eq!(icmp.payload_size, 32);
    assert_eq!(icmp.address_family, "ipv4");

    let socket = TcpProfileParams {
        id: ProfileId::new("socket").unwrap(),
        interval: "30s".to_string(),
        timeout: "5s".to_string(),
        host: "localhost".to_string(),
        port: 443,
        address_family: None,
        source_address: None,
        tls: None,
    };
    let tcp = resolve_tcp(&socket, &check("socket", "socket"), "p").unwrap();
    assert_eq!(tcp.port, 443);
    assert_eq!(tcp.address_family, "auto");
    let mut zero = check("socket", "socket");
    zero.port = Some(0);
    assert!(resolve_tcp(&socket, &zero, "p").is_err());
}

#[test]
fn dns_check_accepts_name_and_server_overrides() {
    let p = DnsProfileParams {
        id: ProfileId::new("resolver").unwrap(),
        interval: "30s".to_string(),
        timeout: "5s".to_string(),
        domain: "profile.example".to_string(),
        record_type: None,
        resolver: Some("192.0.2.1".to_string()),
        protocol: None,
        expected_rcode: None,
        require_answer: None,
    };
    let mut c = check("resolver", "resolver");
    c.domain = Some("check.example".to_string());
    c.resolver = Some("192.0.2.2:5353".to_string());
    let dns = resolve_dns(&p, &c);
    assert_eq!(dns.domain, "check.example");
    assert_eq!(dns.resolver.as_deref(), Some("192.0.2.2:5353"));
    assert_eq!(dns.protocol, "udp");
    assert_eq!(dns.expected_rcode, "noerror");
    check_dns_settings(&dns, "p").unwrap();
}

#[test]
fn resolved_settings_are_checked() {
    assert!(check_address_family("ipv6", "p").is_ok());
    assert!(check_address_family("ipx", "p").is_err());
    assert!(check_payload_size(65_507, "p").is_ok());
    assert!(check_payload_size(65_508, "p").is_err());
}

#[test]
fn reject_invalid_duration_in_profile() {
    let mut config = base();
    config.profiles = vec![icmp_profile("p1", "notaduration", "5s")];
    assert!(config.validate(&numbers()).is_err());
}

#[test]
fn reject_zero_scheduler_values() {
    let mut config = base();
    config.scheduler.tick_interval = "0s".to_string();
    assert!(config.validate(&numbers()).is_err());
    let mut config = base();
    config.scheduler.max_concurrent = 0;
    assert!(config.validate(&numbers()).is_err());
}

#[test]
fn retention_periods() {
    let r = RetentionConfig::default();
    assert_eq!(r.parse_raw_retention(), Some(std::time::Duration::from_secs(7 * 86400)));
    assert_eq!(r.parse_rollup_5m_retention(), Some(std::time::Duration::from_secs(90 * 86400)));
    assert_eq!(r.parse_rollup_1h_retention(), None);
    let mut bad = RetentionConfig::default();
    bad.raw_rounds = "soon".to_string();
    assert!(bad.validate().is_err());
}

#[test]
fn config_diff_detects_changes() {
    let mut old = base();
    old.profiles = vec![icmp_profile("p1", "30s", "5s")];
    old.targets = vec![
        target("t1", "1.1.1.1", vec![check("c1", "p1")]),
        target("t2", "2.2.2.2", vec![]),
    ];
    let mut new = base();
    new.profiles = vec![icmp_profile("p1", "30s", "5s")];
    let mut c1 = check("c1", "p1");
    c1.interval = Some("15s".to_string());
    new.targets = vec![
        target("t1", "1.1.1.2", vec![c1]),
        target("t3", "3.3.3.3", vec![]),
    ];
    let diff = ConfigDiff::compute(&old, &new);
    assert!(diff.added_targets.contains(&TargetId::new("t3").unwrap()));
    assert!(diff.removed_targets.contains(&TargetId::new("t2").unwrap()));
    assert!(diff.modified_targets.contains(&TargetId::new("t1").unwrap()));
    assert!(diff
        .modified_checks
        .contains(&(TargetId::new("t1").unwrap(), CheckId::new("c1").unwrap())));
    assert!(!diff.is_empty());
}

#[test]
fn config_diff_empty() {
    let mut config = base();
    config.targets = vec![target("t1", "1.1.1.1", vec![])];
    let diff = ConfigDiff::compute(&config, &config);
    assert!(diff.is_empty());
}

#[test]
fn config_diff_added_and_removed_checks() {
    let mut old = base();
    old.targets = vec![target("t1", "1.1.1.1", vec![check("a", "p1")])];
    let mut new = base();
    new.targets = vec![target("t1", "1.1.1.1", vec![check("b", "p1")])];
    let diff = ConfigDiff::compute(&old, &new);
    assert_eq!(
        diff.added_checks,
        vec![(TargetId::new("t1").unwrap(), CheckId::new("b").unwrap())]
    );
    assert_eq!(
        diff.removed_checks,
        vec![(TargetId::new("t1").unwrap(), CheckId::new("a").unwrap())]
    );
}

#[test]
fn generation_hash_deterministic() {
    let h1 = generation_hash(b"{\"version\":1}", vec![]);
    let h2 = generation_hash(b"{\"version\":1}", vec![]);
    assert_eq!(h1, h2);
    assert_eq!(h1.as_str().len(), 64);
}

#[test]
fn generation_hash_changes_with_config() {
    let h1 = generation_hash(b"{\"version\":1}", vec![]);
    let h2 = generation_hash(b"{\"version\":1,\"port\":9090}", vec![]);
    assert_ne!(h1, h2);
    let s1 = generation_hash(
        b"{}",
        vec![("a".to_string(), "1".to_string()), ("b".to_string(), "2".to_string())],
    );
    let s2 = generation_hash(
        b"{}",
        vec![("b".to_string(), "2".to_string()), ("a".to_string(), "1".to_string())],
    );
    assert_eq!(s1, s2);
    let s3 = generation_hash(b"{}", vec![("a".to_string(), "9".to_string())]);
    assert_ne!(s1, s3);
}

#[test]
fn revision_ids_have_fixed_form() {
    let r = compute_revision_id("{\"check_id\":\"c1\"}");
    assert!(r.as_str().starts_with("rev-"));
    assert_eq!(r.as_str().len(), 4 + 16);
    assert_eq!(r, compute_revision_id("{\"check_id\":\"c1\"}"));
    assert_ne!(r, compute_revision_id("{\"check_id\":\"c2\"}"));
    assert_eq!(compute_revision_id("").as_str(), "rev-e3b0c44298fc1c14");
}

fn dns_profile(id: &str) -> DnsProfileParams {
    DnsProfileParams {
        id: ProfileId::new(id).unwrap(),
        interval: "30s".to_string(),
        timeout: "5s".to_string(),
        domain: "example.com".to_string(),
        record_type: None,
        resolver: None,
        protocol: None,
        expected_rcode: None,
        require_answer: None,
    }
}

/// The enabled checks of a valid configuration with their intervals and
/// timeouts in milliseconds, resolved without body secrets.
fn resolve_without_secrets(config: &KemuriConfig) -> Vec<(String, u64, u64)> {
    let count = schedulable_checks(&config.targets).len();
    let parts = config.resolve(&numbers(), (0..count).map(|_| Ok(None)).collect()).unwrap();
    let mut out = Vec::new();
    for part in parts {
        let check = &config.targets[part.target].checks[part.check];
        assert_eq!(config.profiles[part.profile].id().as_str(), check.profile.as_str());
        out.push((check.id.as_str().to_string(), part.interval_ms, part.timeout_ms));
    }
    out
}

#[test]
fn resolve_full_config() {
    let mut config = base();
    let mut web = http_params("http-default", "http://example.com/health");
    web.method = Some("GET".to_string());
    web.expected_status = Some(HttpStatusExpectation::Status(200));
    config.profiles = vec![ProbeProfileConfig::Http(web), {
        let mut p = icmp_profile("icmp-default", "60s", "3s");
        if let ProbeProfileConfig::Icmp(x) = &mut p {
            x.count = 5;
        }
        p
    }];
    config.notifiers = vec![webhook("slack", "https://hooks.slack.com/test")];
    config.targets = vec![target(
        "web-1",
        "web1.example.com",
        vec![check("health", "http-default"), check("ping", "icmp-default")],
    )];
    let resolved = resolve_without_secrets(&config);
    assert_eq!(resolved.len(), 2);
    assert_eq!(resolved[0], ("health".to_string(), 30_000, 5_000));
    assert_eq!(resolved[1], ("ping".to_string(), 60_000, 3_000));
}

#[test]
fn resolve_excludes_disabled_targets_and_checks() {
    let mut config = base();
    config.profiles = vec![icmp_profile("ping", "30s", "5s")];
    let mut off = target("disabled-target", "127.0.0.1", vec![check("ping", "ping")]);
    off.enabled = false;
    let mut disabled = check("disabled-check", "ping");
    disabled.enabled = false;
    let on = target("enabled-target", "127.0.0.1", vec![disabled, check("enabled-check", "ping")]);
    config.targets = vec![off, on];
    let resolved = resolve_without_secrets(&config);
    assert_eq!(resolved.len(), 1);
    assert_eq!(resolved[0].0.as_str(), "enabled-check");
}

#[test]
fn probe_params_are_resolved_then_checked() {
    let mut big = icmp_profile("ping", "30s", "5s");
    if let ProbeProfileConfig::Icmp(x) = &mut big {
        x.payload_size = Some(70_000);
    }
    let err = resolve_probe_params(&big, &check("c", "ping"), "p", Ok(None)).unwrap_err();
    assert_eq!(message_of(err), "p.payload_size: must not exceed 65507 bytes");

    let mut fam = check("c", "ping");
    fam.address_family = Some("ipx".to_string());
    fam.payload_size = Some(70_000);
    let err = resolve_probe_params(&big, &fam, "p", Ok(None)).unwrap_err();
    assert_eq!(message_of(err), "p.address_family: must be auto, ipv4, or ipv6");

    let mut odd = dns_profile("d");
    odd.protocol = Some("sctp".to_string());
    let err = resolve_probe_params(&ProbeProfileConfig::Dns(odd), &check("c", "d"), "p", Ok(None)).unwrap_err();
    assert_eq!(message_of(err), "p.protocol: must be udp or tcp");

    match resolve_probe_params(&ProbeProfileConfig::Dns(dns_profile("d")), &check("c", "d"), "p", Ok(None)) {
        Ok(ResolvedProbeParams::Dns(d)) => assert_eq!(d.domain, "example.com"),
        other => panic!("unexpected {other:?}"),
    }
}

#[test]
fn http_body_comes_from_the_secret_read() {
    let web = ProbeProfileConfig::Http(http_params("web", "https://example.test/"));
    match resolve_probe_params(&web, &check("c", "web"), "p", Ok(Some("payload".to_string()))) {
        Ok(ResolvedProbeParams::Http(h)) => assert_eq!(h.body.as_deref(), Some("payload")),
        other => panic!("unexpected {other:?}"),
    }
    let failed = Err(ConfigError::Io("missing".to_string()));
    match resolve_probe_params(&web, &check("c", "web"), "p", failed) {
        Err(ConfigError::Io(m)) => assert_eq!(m, "missing"),
        other => panic!("unexpected {other:?}"),
    }
    let mut mode = http_params("web", "https://example.test/");
    mode.connection_mode = Some("sometimes".to_string());
    let err = resolve_probe_params(&ProbeProfileConfig::Http(mode), &check("c", "web"), "p", Ok(None)).unwrap_err();
    assert_eq!(message_of(err), "p.connection_mode: must be pooled, per_round, or fresh");
}

#[test]
fn check_settings_report_timing_errors_first() {
    let profile = icmp_profile("ping", "30s", "5s");
    let mut c = check("c", "ping");
    c.interval = Some("0s".to_string());
    c.count = Some(0);
    let t = target("t", "127.0.0.1", vec![]);
    let err = resolve_check_settings(&profile, &t, &c, Ok(None)).unwrap_err();
    assert_eq!(message_of(err), "targets.t.checks.c.interval: must be greater than zero");
    c.interval = None;
    let err = resolve_check_settings(&profile, &t, &c, Ok(None)).unwrap_err();
    assert_eq!(message_of(err), "targets.t.checks.c.count: must be greater than zero");
}

#[test]
fn secrets_resolve_from_what_was_read() {
    let literal = SecretRef::Literal("plain".to_string());
    assert_eq!(literal.resolve_with(SecretRead::Nothing).unwrap(), "plain");
    let env = SecretRef::FromEnv { from_env: "TOKEN".to_string() };
    assert_eq!(env.resolve_with(SecretRead::Env(Some("t0k".to_string()))).unwrap(), "t0k");
    let err = env.resolve_with(SecretRead::Env(None)).unwrap_err();
    assert_eq!(message_of(err), "secret: environment variable is not set: TOKEN");
    let file = SecretRef::FromFile { from_file: "/run/secret".to_string() };
    assert_eq!(file.resolve_with(SecretRead::File(Ok("abc\r\n\n".to_string()))).unwrap(), "abc");
    match file.resolve_with(SecretRead::File(Err("denied".to_string()))) {
        Err(ConfigError::Io(m)) => assert_eq!(m, "denied"),
        other => panic!("unexpected {other:?}"),
    }
    assert_eq!(trim_end_line_breaks("a\nb\n"), "a\nb");
    assert_eq!(trim_end_line_breaks("\r\n"), "");
}

#[test]
fn canonical_form_sorts_by_id() {
    let mut config = base();
    config.profiles = vec![icmp_profile("b", "30s", "5s"), icmp_profile("a", "30s", "5s")];
    config.notifiers = vec![webhook("z", "http://z"), webhook("y", "http://y")];
    config.targets = vec![
        target("t2", "x", vec![check("c2", "a"), check("c1", "a")]),
        target("t1", "x", vec![]),
    ];
    let c = canonical_config(config);
    let ids: Vec<&str> = c.profiles.iter().map(|p| p.id().as_str()).collect();
    assert_eq!(ids, vec!["a", "b"]);
    let ids: Vec<&str> = c.notifiers.iter().map(|n| n.id().as_str()).collect();
    assert_eq!(ids, vec!["y", "z"]);
    assert_eq!(c.targets[0].id.as_str(), "t1");
    let checks: Vec<&str> = c.targets[1].checks.iter().map(|k| k.id.as_str()).collect();
    assert_eq!(checks, vec!["c1", "c2"]);
}

#[test]
fn secret_keys_name_their_place() {
    let mut config = base();
    let mut hook = WebhookNotifierParams {
        id: NotifierId::new("hook").unwrap(),
        url: SecretRef::Literal("http://h".to_string()),
        headers: None,
        timeout: "10s".to_string(),
    };
    hook.headers = Some(vec![("X-Token".to_string(), SecretRef::Literal("t".to_string()))]);
    config.notifiers = vec![NotifierConfig::Webhook(hook), smtp("mail", Some(SecretRef::Literal("pw".to_string())))];
    let mut c = check("api", "web");
    c.body = Some(SecretRef::Literal("{}".to_string()));
    config.targets = vec![target("site", "x", vec![c])];
    let keys: Vec<String> = secret_refs(&config).into_iter().map(|(k, _)| k).collect();
    assert_eq!(
        keys,
        vec![
            "notifier:hook:url".to_string(),
            "notifier:hook:header:x-token".to_string(),
            "notifier:mail:password".to_string(),
            "target:site:check:api:body".to_string(),
        ]
    );
}

#[test]
fn one_warning_per_literal_secret() {
    let mut config = base();
    let mut hook = WebhookNotifierParams {
        id: NotifierId::new("n1").unwrap(),
        url: SecretRef::Literal("https://hooks.example.com/x".to_string()),
        headers: None,
        timeout: "10s".to_string(),
    };
    hook.headers = Some(vec![
        ("Authorization".to_string(), SecretRef::Literal("Bearer x".to_string())),
        ("X-Key".to_string(), SecretRef::FromFile { from_file: "/run/key".to_string() }),
    ]);
    config.notifiers = vec![
        NotifierConfig::Webhook(hook),
        smtp("n2", Some(SecretRef::FromEnv { from_env: "PW".to_string() })),
    ];
    config.profiles = vec![ProbeProfileConfig::Http(http_params("p1", "http://example.com"))];
    let mut c = check("c1", "p1");
    c.body = Some(SecretRef::Literal("{}".to_string()));
    config.targets = vec![target("t1", "example.com", vec![c, check("c2", "p1")])];
    let warnings = config.validate_with_warnings(&numbers()).unwrap();
    assert_eq!(warnings.len(), 3);
    assert!(warnings.iter().all(|w| w.message.contains("literal secret")));
    let paths: Vec<&str> = warnings.iter().map(|w| w.path.as_str()).collect();
    assert_eq!(
        paths,
        vec!["notifiers.n1.url", "notifiers.n1.headers.Authorization", "targets.t1.checks.c1.body"]
    );
}

#[test]
fn checks_find_their_profile_by_id() {
    let mut config = base();
    config.profiles = vec![icmp_profile("a", "30s", "5s"), icmp_profile("b", "60s", "3s")];
    config.targets = vec![target("t1", "127.0.0.1", vec![check("c1", "b"), check("c2", "zzz")])];
    assert_eq!(find_profile(&config.profiles, &ProfileId::new("b").unwrap()), Some(1));
    assert_eq!(find_profile(&config.profiles, &ProfileId::new("zzz").unwrap()), None);
    let (p, interval, timeout, _) = resolve_check_at(&config, 0, 0, Ok(None)).unwrap();
    assert_eq!((p, interval, timeout), (1, 60_000, 3_000));
    let err = resolve_check_at(&config, 0, 1, Ok(None)).unwrap_err();
    assert_eq!(message_of(err), "targets.t1.checks.c2.profile: references unknown profile: zzz");
}

#[test]
fn resolve_reports_the_first_failing_check() {
    let mut config = base();
    config.profiles = vec![ProbeProfileConfig::Http(http_params("web", "https://example.test/"))];
    let mut bad_first = check("c1", "web");
    bad_first.interval = Some("0s".to_string());
    config.targets = vec![target("t1", "example.com", vec![bad_first, check("c2", "web")])];
    let failed_read = Err(ConfigError::Io("unreadable".to_string()));
    let err = config.resolve(&numbers(), vec![Ok(None), failed_read]).unwrap_err();
    assert_eq!(message_of(err), "targets.t1.checks.c1.interval: must be greater than zero");

    config.targets = vec![target("t1", "example.com", vec![check("c1", "web"), check("c2", "web")])];
    let failed_read = Err(ConfigError::Io("unreadable".to_string()));
    match config.resolve(&numbers(), vec![Ok(Some("x".to_string())), failed_read]) {
        Err(ConfigError::Io(m)) => assert_eq!(m, "unreadable"),
        other => panic!("unexpected {other:?}"),
    }

    config.version = 2;
    let err = config.resolve(&numbers(), vec![Ok(None), Ok(None)]).unwrap_err();
    assert!(message_of(err).starts_with("version: unsupported config version"));
}

#[test]
fn source_addresses_must_match_the_family() {
    assert!(check_source_address("ipv4", SourceAddress::Ipv4, "p").is_ok());
    assert!(check_source_address("auto", SourceAddress::Ipv6, "p").is_ok());
    assert!(check_source_address("ipv6", SourceAddress::Absent, "p").is_ok());
    let err = check_source_address("ipv4", SourceAddress::Ipv6, "p").unwrap_err();
    assert_eq!(message_of(err), "p.source_address: source address is incompatible with address_family");
    let err = check_source_address("ipv6", SourceAddress::Ipv4, "p").unwrap_err();
    assert_eq!(message_of(err), "p.source_address: source address is incompatible with address_family");
    let err = check_source_address("auto", SourceAddress::NotAnIp, "p").unwrap_err();
    assert_eq!(message_of(err), "p.source_address: must be an IP address");
}
