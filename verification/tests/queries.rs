use kemuri::config::{SecretRead, SecretRef};
use kemuri::dns::{DnsProbe, DnsProbeConfig};
use kemuri::kinds::ProbeKind;
use kemuri::notify::{resolve_secret, NotificationError};
use kemuri::probe::Probe;
use kemuri::queries::{
    alert_events_filter, alerts_filter, rounds_query, split_states, AlertEventsQuery, AlertsQuery, RoundsQuery,
};
use kemuri::registry::ProbeRegistry;
use kemuri::series::{
    check_series_query, range_seconds, series_alert_events, series_revision_markers, series_source, source_names,
    SeriesQuery, SeriesSource,
};
use kemuri::server::{active_after_reload, check_reload_request, readiness, reload_status, removed_alert_states, ReloadOutcome, ServerError};
use kemuri::tcp::{TcpProbe, TcpProbeConfig};

fn alerts(state: Option<&str>, limit: Option<i64>, cursor: Option<&str>) -> AlertsQuery {
    AlertsQuery {
        state: state.map(|s| s.to_string()),
        rule_id: Some("loss".to_string()),
        target_id: None,
        check_id: None,
        limit,
        cursor: cursor.map(|c| c.to_string()),
    }
}

#[test]
fn state_filters_split_on_commas() {
    assert_eq!(split_states(" firing, ,pending ,"), vec!["firing".to_string(), "pending".to_string()]);
    assert_eq!(split_states("ok"), vec!["ok".to_string()]);
    assert!(split_states(" , ").is_empty());
}

#[test]
fn alert_list_queries_are_checked_in_order() {
    let f = alerts_filter(&alerts(Some("firing,ok"), None, Some("3432"))).unwrap();
    assert_eq!(f.limit, 100);
    assert_eq!(f.cursor, Some(42));
    assert_eq!(f.states, Some(vec!["firing".to_string(), "ok".to_string()]));
    assert_eq!(f.rule_id.as_deref(), Some("loss"));
    let all = alerts_filter(&alerts(None, Some(5), None)).unwrap();
    assert_eq!(all.states, None);
    let e = alerts_filter(&alerts(Some(" , "), Some(5), None)).unwrap_err();
    assert_eq!(e.message, "state must contain at least one value");
    let e = alerts_filter(&alerts(Some(" , "), Some(5), Some("zz"))).unwrap_err();
    assert_eq!(e.message, "invalid cursor");
    let e = alerts_filter(&alerts(Some(" , "), Some(0), Some("zz"))).unwrap_err();
    assert_eq!(e.message, "limit must be between 1 and 200");
}

#[test]
fn alert_event_queries_check_their_bounds() {
    let q = AlertEventsQuery {
        rule_id: None,
        target_id: Some("web".to_string()),
        check_id: None,
        from_ms: Some(1_000),
        to_ms: Some(i64::MAX),
        limit: Some(10),
        cursor: None,
    };
    let e = alert_events_filter(&q).unwrap_err();
    assert_eq!(e.message, "invalid 'to_ms' parameter");
    let ok = AlertEventsQuery { to_ms: Some(2_000), ..q };
    let f = alert_events_filter(&ok).unwrap();
    assert_eq!((f.limit, f.from_ms, f.to_ms), (10, Some(1_000), Some(2_000)));
    assert_eq!(f.target_id.as_deref(), Some("web"));
}

#[test]
fn rounds_queries_default_to_fifty() {
    assert_eq!(rounds_query(&RoundsQuery { limit: None, cursor: None }).unwrap(), (50, None));
    let (l, c) = rounds_query(&RoundsQuery { limit: Some(7), cursor: Some("6162".to_string()) }).unwrap();
    assert_eq!((l, c.as_deref()), (7, Some("ab")));
    assert!(rounds_query(&RoundsQuery { limit: Some(201), cursor: None }).is_err());
}

#[test]
fn series_queries_and_sources() {
    let q = SeriesQuery { from_ms: Some(0), to_ms: Some(3_600_000), max_points: None };
    assert_eq!(check_series_query(&q).unwrap(), (1000, 0, 3_600_000));
    let e = check_series_query(&SeriesQuery { max_points: Some(0), ..q.clone() }).unwrap_err();
    assert_eq!(e.message, "max_points must be between 1 and 5000");
    let e = check_series_query(&SeriesQuery { from_ms: None, ..q.clone() }).unwrap_err();
    assert_eq!(e.message, "missing 'from_ms' parameter");
    let e = check_series_query(&SeriesQuery { from_ms: Some(i64::MIN), ..q.clone() }).unwrap_err();
    assert_eq!(e.message, "invalid 'from_ms' parameter");
    let e = check_series_query(&SeriesQuery { to_ms: Some(0), ..q.clone() }).unwrap_err();
    assert_eq!(e.message, "from_ms must be less than to_ms");
    assert_eq!(range_seconds(0, 999), 1);
    assert_eq!(range_seconds(0, 3_600_500), 3600);
    assert_eq!(series_source(1500, 86_400, 1000), SeriesSource::Raw);
    assert_eq!(series_source(1501, 86_400, 1000), SeriesSource::FiveMinuteRollups);
    assert_eq!(series_source(1501, 86_400 * 30, 1000), SeriesSource::HourlyRollups);
    assert_eq!(source_names(SeriesSource::HourlyRollups), (3600, "rollup", "approximate"));
    assert_eq!(source_names(SeriesSource::Raw), (0, "raw", "exact"));
}

#[test]
fn series_timeline_entries_keep_their_rows() {
    let events = series_alert_events(vec![(
        "1970-01-01T00:00:01Z".to_string(),
        "firing".to_string(),
        "loss".to_string(),
    )]);
    assert_eq!(events[0].timestamp_ms, 1_000);
    assert_eq!(events[0].event_type, "firing");
    let markers = series_revision_markers(vec![("garbage".to_string(), "rev-1".to_string())]);
    assert_eq!(markers[0].timestamp_ms, 0);
    assert_eq!(markers[0].revision_id, "rev-1");
}

#[test]
fn reload_outcomes_leave_their_status() {
    let s = reload_status(ReloadOutcome::LoadFailed("bad yaml".to_string()), 7).unwrap();
    assert_eq!((s.generation.as_str(), s.result.as_str(), s.error.as_deref(), s.timestamp_ms), ("", "failure", Some("bad yaml"), 7));
    let s = reload_status(ReloadOutcome::NotifiersFailed { generation: "g1".to_string() }, 8).unwrap();
    assert_eq!(s.error.as_deref(), Some("notifier initialization failed"));
    assert_eq!(s.generation, "g1");
    let s = reload_status(ReloadOutcome::Applied { generation: "g2".to_string() }, 9).unwrap();
    assert_eq!((s.result.as_str(), s.error), ("success", None));
    assert!(reload_status(ReloadOutcome::AlertsFailed, 10).is_none());
    assert_eq!(ServerError::Bind("in use".to_string()).to_string(), "bind: in use");
}

#[test]
fn notifier_secrets_are_trimmed() {
    let file = SecretRef::FromFile { from_file: "/s".to_string() };
    assert_eq!(resolve_secret(&file, SecretRead::File(Ok("  key \n".to_string()))).unwrap(), "key");
    match resolve_secret(&file, SecretRead::File(Err("gone".to_string()))) {
        Err(NotificationError::Config(m)) => assert_eq!(m, "failed to read secret from /s: gone"),
        other => panic!("unexpected {other:?}"),
    }
    let env = SecretRef::FromEnv { from_env: "HOOK".to_string() };
    let e = resolve_secret(&env, SecretRead::Env(None)).unwrap_err();
    assert_eq!(e.to_string(), "configuration error: environment variable not found: HOOK");
    assert_eq!(NotificationError::Delivery("503".to_string()).to_string(), "delivery failed: 503");
}

#[test]
fn probes_register_under_their_kind() {
    let mut registry: ProbeRegistry<TcpProbe> = ProbeRegistry::new();
    let probe = TcpProbe::new(TcpProbeConfig::default());
    assert_eq!(probe.kind(), ProbeKind::Tcp);
    registry.register_probe(probe);
    assert!(registry.get(ProbeKind::Tcp).is_some());
    assert!(registry.get(ProbeKind::Dns).is_none());
    assert_eq!(DnsProbe::new(DnsProbeConfig::default()).kind(), ProbeKind::Dns);
}

#[test]
fn readiness_reports_the_first_missing_piece() {
    assert_eq!(readiness(false, false, false, None), (503, "runtime task unavailable"));
    assert_eq!(readiness(true, false, true, Some(1)), (503, "probe capability unavailable"));
    assert_eq!(readiness(true, true, false, Some(1)), (503, "disk pressure"));
    assert_eq!(readiness(true, true, true, Some(2)), (503, "not ready"));
    assert_eq!(readiness(true, true, true, None), (503, "not ready"));
    assert_eq!(readiness(true, true, true, Some(1)), (200, "ok"));
}

fn alert_row(id: i64, rule: &str) -> (i64, String, i64, i64, String) {
    (id, rule.to_string(), 7, 1, "firing".to_string())
}

#[test]
fn alerts_of_removed_rules_and_checks_are_resolved_once() {
    let inactive = vec![alert_row(1, "loss")];
    let open = vec![alert_row(1, "old"), alert_row(2, "loss"), alert_row(3, "old"), alert_row(3, "old")];
    let rules = vec!["loss".to_string()];
    let ids: Vec<i64> = removed_alert_states(inactive, open, &rules).iter().map(|r| r.0).collect();
    assert_eq!(ids, vec![1, 3]);
}

#[test]
fn reload_requests_need_json_from_the_same_origin() {
    let mut server = kemuri::config::ServerConfig::default();
    assert!(check_reload_request(Some("application/json; charset=utf-8"), None, &server).is_ok());
    let e = check_reload_request(Some("text/plain"), None, &server).unwrap_err();
    assert_eq!(e.message, "Content-Type must be application/json");
    let e = check_reload_request(None, None, &server).unwrap_err();
    assert_eq!(e.message, "Content-Type must be application/json");
    assert!(check_reload_request(Some("application/json"), Some("http://127.0.0.1:8080"), &server).is_ok());
    let e = check_reload_request(Some("application/json"), Some("http://evil.example"), &server).unwrap_err();
    assert_eq!(e.message, "cross-origin reload is not permitted");
    server.public_url = Some("https://mon.example".to_string());
    assert!(check_reload_request(Some("application/json"), Some("https://mon.example"), &server).is_ok());
}

#[test]
fn failed_reload_keeps_the_active_configuration() {
    let kept = active_after_reload("old", "new", &ReloadOutcome::ResolveFailed("bad".to_string()));
    assert_eq!(kept, "old");
    let kept = active_after_reload("old", "new", &ReloadOutcome::AlertsFailed);
    assert_eq!(kept, "old");
    let applied = active_after_reload("old", "new", &ReloadOutcome::Applied { generation: "g2".to_string() });
    assert_eq!(applied, "new");
    let s = reload_status(ReloadOutcome::Applied { generation: "g2".to_string() }, 9).unwrap();
    assert_eq!(s.result, "success");
    assert!(s.error.is_none());
}

#[test]
fn series_range_bounds_are_those_of_chrono_dates() {
    let lo: i64 = -8_334_601_228_800_000;
    let hi: i64 = 8_210_266_876_799_999;
    let ok = SeriesQuery { from_ms: Some(lo), to_ms: Some(hi), max_points: None };
    assert_eq!(check_series_query(&ok).unwrap(), (1000, lo, hi));
    let e = check_series_query(&SeriesQuery { from_ms: Some(lo - 1), ..ok.clone() }).unwrap_err();
    assert_eq!(e.message, "invalid 'from_ms' parameter");
    let e = check_series_query(&SeriesQuery { to_ms: Some(hi + 1), ..ok.clone() }).unwrap_err();
    assert_eq!(e.message, "invalid 'to_ms' parameter");
}
