use kemuri::config::{
    CheckConfig, ResolvedCheckDef, ResolvedDnsParams, ResolvedIcmpParams, ResolvedProbeParams,
    ResolvedTcpParams, TargetConfig,
};
use kemuri::events::SystemEvent;
use kemuri::histogram::Histogram;
use kemuri::ids::{CheckId, CheckRevisionId, ProfileId, TargetId};
use kemuri::kinds::{
    AlertEventKind, ProbeKind, RoundExecutionStatus, SampleClassification, SampleOutcome,
};
use kemuri::notify::{
    check_id_or_unknown, event_kind_of, labels_from_json, notification_url, outbox_action,
    payload_rows_found, probe_kind_or_icmp, rule_id_or_unknown, target_id_or_unknown, DeliveryOutcome,
    OutboxAction,
};
use kemuri::probe::{ProbeExecutionError, SampleResult};
use kemuri::rollup::{aggregate_bucket, outcome_variant_name};
use kemuri::rows::{RollupRow, RoundRow};
use kemuri::sample_blob::{encode_samples, SampleRecord};
use kemuri::scheduler::{
    disk_step, first_due, next_due_after, next_paused, probes_ready, reconcile_plan,
    schedulable_checks, tick_action, DiskStep, TickAction,
};
use kemuri::config::StartupMode;
use kemuri::series::{empty_series_counts, merge_series_counts, raw_rounds_counts, rollup_counts};
use kemuri::summary::{group_targets, summarize_targets, TargetWithState};
use kemuri::text::str_starts_with;
use kemuri::worker::{finish_round, resolved_check_for, RoundEnd};
use kemuri::writer::{build_insert_round, execution_status_name};
use std::time::Duration;

fn record(outcome: SampleOutcome, latency_ns: Option<u64>) -> SampleRecord {
    SampleRecord {
        sample_index: 0,
        offset_us: 0,
        outcome,
        classification: SampleClassification::HealthyResponse,
        latency_ns,
        elapsed_ns: latency_ns,
        metadata: None,
    }
}

fn round(status: &str, attempted: i32, healthy: i32, lost: i32, records: &[SampleRecord]) -> RoundRow {
    RoundRow {
        internal_id: 0,
        check_internal_id: 1,
        observer_internal_id: 1,
        scheduled_at: "2024-01-01T00:00:00Z".to_string(),
        started_at: None,
        finished_at: None,
        execution_status: status.to_string(),
        stop_reason: None,
        configured_samples: attempted,
        attempted_samples: attempted,
        latency_bearing_samples: healthy,
        healthy_samples: healthy,
        unhealthy_samples: attempted - healthy - lost,
        measurement_loss_samples: lost,
        min_latency_ns: None,
        median_latency_ns: None,
        max_latency_ns: None,
        sample_blob: if records.is_empty() {
            None
        } else {
            Some(encode_samples(records))
        },
        outcome_summary: None,
        config_generation: None,
        check_revision_id: None,
        created_at: "2024-01-01T00:00:00Z".to_string(),
    }
}

#[test]
fn rollup_counters_are_sums() {
    let mut r1 = round(
        "complete",
        3,
        2,
        1,
        &[
            record(SampleOutcome::Success, Some(1_000_000)),
            record(SampleOutcome::Success, Some(3_000_000)),
            record(SampleOutcome::Timeout, None),
        ],
    );
    r1.min_latency_ns = Some(1_000_000);
    r1.max_latency_ns = Some(3_000_000);
    let mut r2 = round("partial", 2, 1, 1, &[record(SampleOutcome::Success, Some(2_000_000))]);
    r2.min_latency_ns = Some(2_000_000);
    r2.max_latency_ns = Some(2_000_000);
    let r3 = round("skipped_overlap", 0, 0, 0, &[]);
    let rollup = aggregate_bucket(1, 2, 300, "2024-01-01T00:00:00Z", &[r1, r2, r3]);
    assert_eq!(rollup.scheduled_rounds, 3);
    assert_eq!(rollup.completed_rounds, 1);
    assert_eq!(rollup.partial_rounds, 1);
    assert_eq!(rollup.attempted_samples, 5);
    assert_eq!(rollup.healthy_samples, 3);
    assert_eq!(rollup.measurement_loss_samples, 2);
    assert_eq!(rollup.min_latency_ns, Some(1_000_000));
    assert_eq!(rollup.max_latency_ns, Some(3_000_000));
    assert_eq!(rollup.sum_latency_ns, 6_000_000);
    assert_eq!(rollup.outcome_counts, "{\"Success\":3,\"Timeout\":1}");
    assert_eq!(rollup.no_data_counts, "{\"skipped_overlap\":1}");
    let h = Histogram::decode(&rollup.histogram_blob.unwrap()).unwrap();
    assert_eq!(h.count(), 3);
    assert_eq!(h.sum(), 6_000_000);
}

#[test]
fn rollup_aggregation_idempotent() {
    let rounds = vec![round(
        "complete",
        1,
        1,
        0,
        &[record(SampleOutcome::Success, Some(5_000))],
    )];
    let a = aggregate_bucket(1, 1, 3600, "2024-01-01T00:00:00Z", &rounds);
    let b = aggregate_bucket(1, 1, 3600, "2024-01-01T00:00:00Z", &rounds);
    assert_eq!(a.histogram_blob, b.histogram_blob);
    assert_eq!(a.outcome_counts, b.outcome_counts);
    let empty = aggregate_bucket(1, 1, 300, "x", &[round("cancelled", 0, 0, 0, &[])]);
    assert_eq!(empty.histogram_blob, None);
    assert_eq!(empty.outcome_counts, "{}");
    assert_eq!(outcome_variant_name(SampleOutcome::DnsError), "DnsError");
}

#[test]
fn outbox_actions() {
    assert!(matches!(
        outbox_action(0, DeliveryOutcome::Delivered),
        OutboxAction::MarkDelivered
    ));
    match outbox_action(9, DeliveryOutcome::NotifierMissing) {
        OutboxAction::MarkFailed(e) => assert_eq!(e, "notifier not configured"),
        _ => panic!("expected failure"),
    }
    match outbox_action(2, DeliveryOutcome::SendFailed("boom".to_string())) {
        OutboxAction::MarkRetry { delay, error } => {
            assert_eq!(error, "boom");
            assert!(delay >= Duration::from_secs(120));
            assert!(delay < Duration::from_secs(150));
        }
        _ => panic!("expected retry"),
    }
}

#[test]
fn notification_parts() {
    assert_eq!(event_kind_of("firing"), AlertEventKind::Firing);
    assert_eq!(event_kind_of("other"), AlertEventKind::Resolved);
    assert_eq!(
        notification_url(Some("https://mon.example//"), "web", "health").as_deref(),
        Some("https://mon.example/targets/web/checks/health")
    );
    assert_eq!(notification_url(None, "web", "health"), None);
    assert_eq!(rule_id_or_unknown("r1").as_str(), "r1");
    assert_eq!(rule_id_or_unknown("Bad Id").as_str(), "unknown");
    assert_eq!(target_id_or_unknown("").as_str(), "unknown");
    assert_eq!(check_id_or_unknown("c1").as_str(), "c1");
    assert_eq!(probe_kind_or_icmp("dns"), ProbeKind::Dns);
    assert_eq!(probe_kind_or_icmp("???"), ProbeKind::Icmp);
    assert_eq!(
        labels_from_json("{\"env\":\"prod\"}"),
        vec![("env".to_string(), "prod".to_string())]
    );
    assert!(labels_from_json("not json").is_empty());
}

#[test]
fn system_events() {
    let e = SystemEvent::check_state_changed("t1", "c1", "healthy", "down");
    assert_eq!(e.event_type, "check.state_changed");
    assert_eq!(e.data[3], ("new_state".to_string(), "down".to_string()));
    assert_eq!(SystemEvent::round_completed("t", "c").event_type, "round.completed");
    assert_eq!(SystemEvent::alert_firing("r", "t", "c").data.len(), 3);
    assert_eq!(SystemEvent::alert_resolved("r", "t", "c").event_type, "alert.resolved");
    assert_eq!(
        SystemEvent::config_reloaded("g1", "success").data[1],
        ("result".to_string(), "success".to_string())
    );
    assert_eq!(SystemEvent::system_status_changed("degraded").data.len(), 1);
}

fn sample(outcome: SampleOutcome, latency_ms: Option<u64>) -> SampleResult {
    SampleResult {
        outcome,
        latency: latency_ms.map(Duration::from_millis),
        detail: None,
        metadata: None,
    }
}

#[test]
fn insert_round_from_results() {
    let results = vec![
        sample(SampleOutcome::Success, Some(10)),
        sample(SampleOutcome::Success, Some(30)),
        sample(SampleOutcome::Timeout, None),
    ];
    let row = build_insert_round(
        7,
        1,
        "2024-01-01T00:00:00Z",
        "2024-01-01T00:00:01Z",
        "2024-01-01T00:00:02Z",
        RoundExecutionStatus::Partial,
        None,
        3,
        &results,
    );
    assert_eq!(row.execution_status, "partial");
    assert_eq!(row.attempted_samples, 3);
    assert_eq!(row.healthy_samples, 2);
    assert_eq!(row.measurement_loss_samples, 1);
    assert_eq!(row.min_latency_ns, Some(10_000_000));
    assert_eq!(row.median_latency_ns, Some(20_000_000));
    assert_eq!(row.max_latency_ns, Some(30_000_000));
    assert_eq!(row.outcome_summary.as_deref(), Some("2/3 healthy"));
    assert_eq!(
        execution_status_name(RoundExecutionStatus::SkippedBackpressure),
        "skipped_backpressure"
    );
}

fn check_def(target: &str, check: &str, params: ResolvedProbeParams, kind: ProbeKind) -> ResolvedCheckDef {
    ResolvedCheckDef {
        check_id: CheckId::new(check).unwrap(),
        target_id: TargetId::new(target).unwrap(),
        target_address: "192.0.2.10".to_string(),
        profile_id: ProfileId::new("p1").unwrap(),
        probe_kind: kind,
        interval: Duration::from_secs(30),
        timeout: Duration::from_secs(5),
        revision_id: CheckRevisionId::new("rev-1").unwrap(),
        probe_params: params,
    }
}

fn icmp_params(count: u32) -> ResolvedProbeParams {
    ResolvedProbeParams::Icmp(ResolvedIcmpParams {
        count,
        address_family: "auto".to_string(),
        payload_size: 56,
        source_address: None,
    })
}

#[test]
fn worker_hands_probe_its_settings() {
    let tcp = check_def(
        "t1",
        "c1",
        ResolvedProbeParams::Tcp(ResolvedTcpParams {
            host: "db.example".to_string(),
            port: 5432,
            address_family: "auto".to_string(),
            source_address: None,
            tls: None,
        }),
        ProbeKind::Tcp,
    );
    let rc = resolved_check_for(&tcp);
    assert_eq!(rc.sample_count, 1);
    assert_eq!(
        rc.params,
        vec![
            ("host".to_string(), "db.example".to_string()),
            ("port".to_string(), "5432".to_string())
        ]
    );
    let dns = check_def(
        "t1",
        "c2",
        ResolvedProbeParams::Dns(ResolvedDnsParams {
            domain: "example.com".to_string(),
            record_type: None,
            resolver: Some("1.1.1.1".to_string()),
            protocol: "udp".to_string(),
            expected_rcode: "noerror".to_string(),
            require_answer: false,
        }),
        ProbeKind::Dns,
    );
    assert_eq!(
        resolved_check_for(&dns).params,
        vec![
            ("name".to_string(), "example.com".to_string()),
            ("server".to_string(), "1.1.1.1".to_string())
        ]
    );
    assert_eq!(resolved_check_for(&check_def("t1", "c3", icmp_params(4), ProbeKind::Icmp)).sample_count, 4);
}

#[test]
fn round_endings() {
    let none = finish_round(RoundEnd::NoProbe, Duration::from_secs(5));
    assert_eq!(none.execution_status, RoundExecutionStatus::InternalError);
    assert_eq!(none.stop_reason.as_deref(), Some("no_probe_registered"));
    let failed = finish_round(
        RoundEnd::Failed {
            error: ProbeExecutionError::Dns("no such host".to_string()),
            elapsed: Duration::from_millis(3),
        },
        Duration::from_secs(5),
    );
    assert_eq!(failed.stop_reason.as_deref(), Some("dns error: no such host"));
    assert_eq!(failed.sample_results[0].outcome, SampleOutcome::InternalError);
    let timed_out = finish_round(RoundEnd::TimedOut, Duration::from_secs(5));
    assert_eq!(timed_out.execution_status, RoundExecutionStatus::Complete);
    assert_eq!(timed_out.sample_results[0].latency, Some(Duration::from_secs(5)));
    let finished = finish_round(
        RoundEnd::Finished(vec![
            sample(SampleOutcome::Success, Some(1)),
            sample(SampleOutcome::Timeout, None),
        ]),
        Duration::from_secs(5),
    );
    assert_eq!(finished.execution_status, RoundExecutionStatus::Partial);
    assert_eq!(ProbeExecutionError::Cancelled.to_string(), "cancelled");
}

#[test]
fn scheduler_tick_decisions() {
    assert_eq!(tick_action(10, 5, false, 0, 4), TickAction::NotDue);
    assert_eq!(tick_action(5, 5, true, 0, 4), TickAction::SkipOverlap);
    assert_eq!(tick_action(5, 6, false, 4, 4), TickAction::Backpressure);
    assert_eq!(tick_action(5, 6, false, 3, 4), TickAction::Dispatch);
    let s = 1_000_000_000i128;
    assert_eq!(
        next_due_after(90 * s, Duration::from_secs(30), Duration::from_secs(2)),
        122 * s
    );
    assert_eq!(
        next_due_after(-45 * s, Duration::from_secs(30), Duration::ZERO),
        0
    );
}

#[test]
fn scheduler_reconcile_and_readiness() {
    let a = check_def("t1", "a", icmp_params(1), ProbeKind::Icmp);
    let b = check_def("t1", "b", icmp_params(1), ProbeKind::Icmp);
    let c = check_def("t2", "a", icmp_params(1), ProbeKind::Icmp);
    let (removed, added) = reconcile_plan(&vec![a.clone(), b.clone()], &vec![b.clone(), c.clone()]);
    assert_eq!(removed, vec![0]);
    assert_eq!(added, vec![1]);
    assert!(!probes_ready(false, &vec![a.clone()]));
    assert!(probes_ready(true, &vec![a]));
    assert!(probes_ready(false, &vec![]));
    assert!(next_paused(false, true, true));
    assert!(!next_paused(false, false, true));
    assert!(next_paused(true, false, true));
    assert!(!next_paused(true, false, false));
}

fn target(id: &str, enabled: bool, checks: &[(&str, bool)]) -> TargetConfig {
    TargetConfig {
        id: TargetId::new(id).unwrap(),
        address: "127.0.0.1".to_string(),
        name: None,
        group_path: None,
        labels: None,
        checks: checks
            .iter()
            .map(|(c, e)| CheckConfig {
                id: CheckId::new(c).unwrap(),
                profile: ProfileId::new("ping").unwrap(),
                enabled: *e,
                kind: None,
                interval: None,
                timeout: None,
                url: None,
                method: None,
                headers: None,
                expected_status: None,
                body: None,
                host: None,
                port: None,
                domain: None,
                record_type: None,
                resolver: None,
                count: None,
                address_family: None,
                payload_size: None,
                source_address: None,
                follow_redirects: None,
                max_redirect_count: None,
                connection_mode: None,
                measure_until: None,
                user_agent: None,
                tls_validate: None,
                root_certificates: None,
                tls: None,
                protocol: None,
                expected_rcode: None,
                require_answer: None,
            })
            .collect(),
        enabled,
    }
}

#[test]
fn schedulable_checks_skip_disabled() {
    let targets = vec![
        target("disabled-target", false, &[("ping", true)]),
        target(
            "enabled-target",
            true,
            &[("disabled-check", false), ("enabled-check", true)],
        ),
    ];
    assert_eq!(schedulable_checks(&targets), vec![(1, 1)]);
}

fn row(target: &str, group: &str, state: Option<&str>) -> TargetWithState {
    TargetWithState {
        target_id: target.to_string(),
        name: target.to_uppercase(),
        group_path: group.to_string(),
        state: state.map(|s| s.to_string()),
    }
}

#[test]
fn targets_are_summarized_once_with_worst_state() {
    let rows = vec![
        row("web", "", Some("healthy")),
        row("db", "infra", None),
        row("web", "", Some("down")),
        row("web", "", Some("degraded")),
        row("cache", "infra", Some("healthy")),
    ];
    let summaries = summarize_targets(&rows);
    assert_eq!(summaries.len(), 3);
    assert_eq!(summaries[0].target_id, "web");
    assert_eq!(summaries[0].state, "down");
    assert_eq!(summaries[0].checks_count, 3);
    assert_eq!(summaries[0].group_path, "default");
    assert_eq!(summaries[1].state, "no_data");
    let groups = group_targets(&summaries);
    assert_eq!(
        groups,
        vec![
            ("default".to_string(), vec![0]),
            ("infra".to_string(), vec![1, 2])
        ]
    );
}

#[test]
fn series_points_from_rounds_rollups_and_merges() {
    let mut r = round(
        "complete",
        2,
        2,
        0,
        &[
            record(SampleOutcome::Success, Some(1_500)),
            record(SampleOutcome::Success, Some(2_000_000)),
        ],
    );
    r.min_latency_ns = Some(1_500);
    r.max_latency_ns = Some(2_000_000);
    let (point, latencies) = raw_rounds_counts(60_000, &[r]);
    assert_eq!(point.bucket_status, "observed");
    assert_eq!(point.healthy, 2);
    assert_eq!(point.min_latency_us, Some(1));
    assert_eq!(point.max_latency_us, Some(2_000));
    assert_eq!(latencies, vec![1_500, 2_000_000]);
    assert_eq!(point.histogram_bins.iter().sum::<u64>(), 2);
    let (skipped, _) = raw_rounds_counts(0, &[round("skipped_backpressure", 0, 0, 0, &[])]);
    assert_eq!(skipped.bucket_status, "skipped");

    let mut h = Histogram::new();
    h.record(5_000_000);
    let rollup = RollupRow {
        check_internal_id: 1,
        observer_internal_id: 1,
        resolution_seconds: 300,
        bucket_start: "2024-01-01T00:00:00Z".to_string(),
        scheduled_rounds: 10,
        completed_rounds: 9,
        partial_rounds: 1,
        configured_sample_slots: 30,
        attempted_samples: 30,
        latency_bearing_samples: 28,
        healthy_samples: 25,
        unhealthy_samples: 3,
        measurement_loss_samples: 2,
        outcome_counts: "{}".to_string(),
        min_latency_ns: Some(1_000_000),
        max_latency_ns: Some(50_000_000),
        sum_latency_ns: 200_000_000,
        histogram_version: 1,
        histogram_blob: Some(h.encode()),
        no_data_counts: "{}".to_string(),
    };
    let from_rollup = rollup_counts(&rollup);
    assert_eq!(from_rollup.timestamp_ms, 1_704_067_200_000);
    assert_eq!(from_rollup.rounds_count, 10);
    assert_eq!(from_rollup.healthy, 25);
    assert_eq!(from_rollup.min_latency_us, Some(1_000));
    assert_eq!(from_rollup.histogram_bins.len(), Histogram::num_bins());
    assert_eq!(from_rollup.histogram_bins.iter().sum::<u64>(), 1);

    let merged = merge_series_counts(&[point.clone(), from_rollup.clone(), empty_series_counts(5)]);
    assert_eq!(merged.timestamp_ms, 60_000);
    assert_eq!(merged.bucket_status, "observed");
    assert_eq!(merged.rounds_count, 11);
    assert_eq!(merged.healthy, 27);
    assert_eq!(merged.min_latency_us, Some(1));
    assert_eq!(merged.max_latency_us, Some(50_000));
    assert_eq!(merged.histogram_bins.iter().sum::<u64>(), 3);
    let single = merge_series_counts(&[empty_series_counts(9)]);
    assert_eq!(single.bucket_status, "missing");
    assert_eq!(single.timestamp_ms, 9);
}

#[test]
fn text_prefixes() {
    assert!(str_starts_with("skipped_overlap", "skipped"));
    assert!(!str_starts_with("skip", "skipped"));
    assert!(str_starts_with("anything", ""));
}

fn rollup_row(
    bucket_start: &str,
    rounds: (i64, i64, i64),
    samples: (i64, i64, i64, i64, i64),
    latency: (Option<i64>, Option<i64>, i64),
    histogram_blob: Option<Vec<u8>>,
) -> RollupRow {
    RollupRow {
        check_internal_id: 1,
        observer_internal_id: 1,
        resolution_seconds: 300,
        bucket_start: bucket_start.to_owned(),
        scheduled_rounds: rounds.0,
        completed_rounds: rounds.1,
        partial_rounds: rounds.2,
        configured_sample_slots: samples.0,
        attempted_samples: samples.0,
        latency_bearing_samples: samples.1,
        healthy_samples: samples.2,
        unhealthy_samples: samples.3,
        measurement_loss_samples: samples.4,
        outcome_counts: "{}".to_owned(),
        min_latency_ns: latency.0,
        max_latency_ns: latency.1,
        sum_latency_ns: latency.2,
        histogram_version: 1,
        histogram_blob,
        no_data_counts: "{}".to_owned(),
    }
}

#[test]
fn rollup_to_series_point_basic() {
    let row = rollup_row(
        "2024-01-01T00:00:00Z",
        (10, 9, 1),
        (30, 28, 25, 3, 2),
        (Some(1_000_000), Some(50_000_000), 200_000_000),
        None,
    );
    let point = rollup_counts(&row);
    assert_eq!(point.rounds_count, 10);
    assert_eq!(point.healthy, 25);
    assert_eq!(point.unhealthy, 3);
    assert_eq!(point.measurement_lost, 2);
    let measurement_loss_ratio = point.measurement_lost as f64 / point.attempted as f64;
    let health_failure_ratio = point.unhealthy as f64 / point.attempted as f64;
    assert!((measurement_loss_ratio - 0.0667).abs() < 0.01);
    assert!((health_failure_ratio - 0.1).abs() < 0.01);
    assert_eq!(point.histogram_bins.len(), Histogram::num_bins());
}

#[test]
fn merge_rollups_combines_counters() {
    let mut h1 = Histogram::new();
    h1.record(1_000_000);
    h1.record(2_000_000);
    let mut h2 = Histogram::new();
    h2.record(5_000_000);
    let row1 = rollup_row(
        "2024-01-01T00:00:00Z",
        (5, 5, 0),
        (15, 14, 14, 0, 1),
        (Some(1_000_000), Some(10_000_000), 50_000_000),
        Some(h1.encode()),
    );
    let row2 = rollup_row(
        "2024-01-01T00:05:00Z",
        (5, 4, 1),
        (15, 10, 8, 2, 5),
        (Some(3_000_000), Some(20_000_000), 80_000_000),
        Some(h2.encode()),
    );
    let merged = merge_series_counts(&[rollup_counts(&row1), rollup_counts(&row2)]);
    assert_eq!(merged.rounds_count, 10);
    assert_eq!(merged.healthy, 22);
    assert_eq!(merged.unhealthy, 2);
    assert_eq!(merged.measurement_lost, 6);
    assert_eq!(merged.min_latency_us, Some(1_000));
    assert_eq!(merged.max_latency_us, Some(20_000));
}

#[test]
fn startup_round_is_due_at_once_unless_aligned() {
    let interval = Duration::from_secs(60);
    let offset = Duration::from_secs(7);
    let now_secs: i64 = 1_700_000_030;
    let immediate = first_due(StartupMode::ImmediateThenAligned, now_secs, 250, interval, offset);
    assert_eq!(immediate, now_secs as i128 * 1_000_000_000 + 250);
    let aligned = first_due(StartupMode::Aligned, now_secs, 250, interval, offset);
    assert_eq!(aligned, 1_700_000_047i128 * 1_000_000_000);
}

#[test]
fn disk_steps_pause_and_resume_with_hysteresis() {
    let ratios = [0.5, 0.04, 0.08, 0.12, 0.08];
    let critical = 0.05;
    let warning = 0.10;
    let mut paused = false;
    let mut told = Vec::new();
    let mut ready = Vec::new();
    for r in ratios {
        let step: DiskStep = disk_step(paused, r <= critical, r <= warning);
        if let Some(p) = step.tell_scheduler {
            told.push(p);
        }
        ready.push(step.disk_ready);
        paused = step.paused;
    }
    assert_eq!(told, vec![true, false]);
    assert_eq!(ready, vec![true, false, false, true, true]);
}

#[test]
fn payload_needs_event_check_and_target() {
    assert!(payload_rows_found(true, true, true).is_ok());
    assert_eq!(payload_rows_found(false, false, false).unwrap_err().to_string(), "event not found");
    assert_eq!(payload_rows_found(true, false, true).unwrap_err().to_string(), "check not found");
    assert_eq!(payload_rows_found(true, true, false).unwrap_err().to_string(), "target not found");
}
