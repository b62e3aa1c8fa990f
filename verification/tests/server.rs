use kemuri::api::{
    bad_request, decode_cursor, decode_numeric_cursor, internal_error, not_found,
    page_by_numeric_id, parse_i64, state_rank, timestamp_millis, validate_limit,
};
use kemuri::failure_log::FailureLogLimiter;
use kemuri::histogram::Histogram;
use kemuri::ids::{CheckId, TargetId};
use kemuri::kinds::{ProbeKind, RoundExecutionStatus, SampleClassification, SampleOutcome};
use kemuri::probe::SampleResult;
use kemuri::registry::{ProbeRegistry, WorkerPool};
use kemuri::sample_blob::decode_samples;
use kemuri::scheduler::{compute_next_due, deterministic_offset};
use kemuri::synthetic::SyntheticProbe;
use kemuri::writer::{
    classify_execution_status, classify_outcome, classify_state, compute_median_latency,
    compute_round_stats, format_outcome_summary,
};
use std::sync::Arc;
use std::time::Duration;

#[test]
fn series_response_has_metadata() {
    let bin_reps_ns = Histogram::bin_representatives();
    let bin_reps_us: Vec<u64> = bin_reps_ns.iter().map(|&ns| ns / 1_000).collect();
    assert_eq!(bin_reps_us.len(), Histogram::num_bins());
    assert!(bin_reps_us.last().copied().unwrap_or_default() > 0);
}

#[test]
fn numeric_cursor_pages_in_descending_order() {
    let mut values = vec![9_i64, 8, 7];
    let cursor = page_by_numeric_id(&mut values, 2);
    assert_eq!(values, vec![9, 8]);
    assert_eq!(decode_numeric_cursor(cursor.as_deref()).unwrap(), Some(8));
}

#[test]
fn last_page_has_no_cursor() {
    let mut values = vec![3_i64, 2];
    assert_eq!(page_by_numeric_id(&mut values, 5), None);
    assert_eq!(values, vec![3, 2]);
    let mut negative = vec![-5_i64, -6];
    let cursor = page_by_numeric_id(&mut negative, 1).unwrap();
    assert_eq!(cursor, "2d35");
    assert_eq!(decode_numeric_cursor(Some(&cursor)).unwrap(), Some(-5));
}

#[test]
fn collection_limit_is_bounded() {
    assert_eq!(validate_limit(Some(1), 50).unwrap(), 1);
    assert_eq!(validate_limit(Some(200), 50).unwrap(), 200);
    assert!(validate_limit(Some(0), 50).is_err());
    assert!(validate_limit(Some(201), 50).is_err());
}

#[test]
fn default_limit_applies() {
    assert_eq!(validate_limit(None, 50).unwrap(), 50);
    let e = validate_limit(None, 0).unwrap_err();
    assert_eq!(e.code, "bad_request");
    assert_eq!(e.message, "limit must be between 1 and 200");
    assert_eq!(e.status(), 400);
}

#[test]
fn cursor_decoding() {
    assert_eq!(decode_cursor("68656c6c6f").unwrap(), "hello");
    let e = decode_cursor("zz").unwrap_err();
    assert_eq!(e.message, "invalid cursor");
    assert!(decode_cursor("ff").is_err());
    assert!(decode_numeric_cursor(Some("61")).is_err());
    assert_eq!(decode_numeric_cursor(None).unwrap(), None);
}

#[test]
fn api_errors_and_statuses() {
    let nf = not_found("target_not_found", "Target 'x' not found");
    assert_eq!(nf.status(), 404);
    assert_eq!(nf.message, "Target 'x' not found");
    assert!(!nf.request_id.is_empty());
    assert_eq!(bad_request("nope").status(), 400);
    let ie = internal_error();
    assert_eq!(ie.status(), 500);
    assert_eq!(ie.message, "An internal error occurred");
}

#[test]
fn state_ranks_and_numbers() {
    assert!(state_rank("down") > state_rank("degraded"));
    assert!(state_rank("degraded") > state_rank("no_data"));
    assert_eq!(state_rank("no_data"), state_rank("unknown"));
    assert!(state_rank("unknown") > state_rank("healthy"));
    assert_eq!(state_rank("other"), 0);
    assert_eq!(parse_i64("-9223372036854775808"), Some(i64::MIN));
    assert_eq!(parse_i64("+12"), Some(12));
    assert_eq!(parse_i64("9223372036854775808"), None);
    assert_eq!(parse_i64("-"), None);
}

#[test]
fn timestamps_in_milliseconds() {
    assert_eq!(timestamp_millis("1970-01-01T00:00:01.5Z"), 1500);
    assert_eq!(timestamp_millis("2024-01-01T00:00:00Z"), 1_704_067_200_000);
    assert_eq!(timestamp_millis("garbage"), 0);
}

#[test]
fn suppresses_repeated_failures_and_reports_on_recovery() {
    let mut limiter = FailureLogLimiter::new(Duration::from_secs(60));

    assert_eq!(limiter.failure("writer", "database"), Some(0));
    assert_eq!(limiter.failure("writer", "database"), None);
    assert_eq!(limiter.failure("writer", "database"), None);
    assert_eq!(limiter.recovery("writer", "database"), Some(2));
    assert_eq!(limiter.recovery("writer", "database"), None);
    assert_eq!(limiter.failure("writer", "database"), Some(0));
}

#[test]
fn keeps_components_and_error_classes_independent() {
    let mut limiter = FailureLogLimiter::new(Duration::from_secs(60));

    assert_eq!(limiter.failure("writer", "database"), Some(0));
    assert_eq!(limiter.failure("rollup", "database"), Some(0));
    assert_eq!(limiter.failure("writer", "queue"), Some(0));
    assert_eq!(limiter.failure("writer", "database"), None);
}

#[test]
fn failure_reported_again_after_interval() {
    let mut limiter = FailureLogLimiter::new(Duration::from_secs(60));
    let s = 1_000_000_000u128;
    assert_eq!(limiter.failure_at(0, "writer", "database"), Some(0));
    assert_eq!(limiter.failure_at(10 * s, "writer", "database"), None);
    assert_eq!(limiter.failure_at(20 * s, "writer", "database"), None);
    assert_eq!(limiter.failure_at(60 * s, "writer", "database"), Some(2));
    assert_eq!(limiter.failure_at(61 * s, "writer", "database"), None);
    assert_eq!(limiter.recovery("writer", "database"), Some(1));
}

#[test]
fn deterministic_offset_is_stable() {
    let target = TargetId::new("t1").unwrap();
    let check = CheckId::new("c1").unwrap();
    let interval = Duration::from_secs(30);
    let o1 = deterministic_offset(&target, &check, interval);
    let o2 = deterministic_offset(&target, &check, interval);
    assert_eq!(o1, o2);
}

#[test]
fn deterministic_offset_different_checks() {
    let target = TargetId::new("t1").unwrap();
    let c1 = CheckId::new("c1").unwrap();
    let c2 = CheckId::new("c2").unwrap();
    let interval = Duration::from_secs(30);
    let o1 = deterministic_offset(&target, &c1, interval);
    let o2 = deterministic_offset(&target, &c2, interval);
    assert_ne!(o1, o2);
}

#[test]
fn compute_next_due_after_now() {
    let now_secs: i64 = 1_704_067_210;
    let interval = Duration::from_secs(30);
    let offset = Duration::from_millis(100);
    let next = compute_next_due(now_secs, 0, interval, offset);
    let now_ns = now_secs as i128 * 1_000_000_000;
    assert!(next > now_ns);
    assert_eq!(next, 1_704_067_230 * 1_000_000_000 + 100_000_000);
}

#[test]
fn compute_next_due_in_current_slot() {
    let next = compute_next_due(95, 0, Duration::from_secs(30), Duration::from_secs(10));
    assert_eq!(next, 100 * 1_000_000_000);
    let same = compute_next_due(95, 500, Duration::from_millis(500), Duration::ZERO);
    assert_eq!(same, 95 * 1_000_000_000 + 500);
}

#[test]
fn offset_within_jitter_window() {
    let target = TargetId::new("t1").unwrap();
    let check = CheckId::new("c1").unwrap();
    let interval = Duration::from_secs(30);
    let offset = deterministic_offset(&target, &check, interval);
    let jitter_window = interval / 10;
    assert!(offset <= jitter_window);
}

#[test]
fn tiny_interval_has_no_offset() {
    let target = TargetId::new("t1").unwrap();
    let check = CheckId::new("c1").unwrap();
    assert_eq!(
        deterministic_offset(&target, &check, Duration::from_millis(5)),
        Duration::ZERO
    );
}

fn sample(outcome: SampleOutcome, latency_ms: Option<u64>) -> SampleResult {
    SampleResult {
        outcome,
        latency: latency_ms.map(Duration::from_millis),
        detail: None,
        metadata: None,
    }
}

#[test]
fn round_classification() {
    assert_eq!(
        classify_outcome(&SampleOutcome::Success),
        SampleClassification::HealthyResponse
    );
    assert_eq!(
        classify_outcome(&SampleOutcome::UnexpectedResponse),
        SampleClassification::UnhealthyResponse
    );
    assert_eq!(
        classify_outcome(&SampleOutcome::Timeout),
        SampleClassification::MeasurementLoss
    );
    let mixed = vec![
        sample(SampleOutcome::Success, Some(3)),
        sample(SampleOutcome::Timeout, None),
    ];
    let status = classify_execution_status(&mixed);
    assert_eq!(status, RoundExecutionStatus::Partial);
    assert_eq!(classify_state(&mixed, status), "degraded");
    let lost = vec![sample(SampleOutcome::Timeout, None)];
    assert_eq!(
        classify_state(&lost, classify_execution_status(&lost)),
        "down"
    );
    assert_eq!(classify_state(&[], RoundExecutionStatus::Complete), "no_data");
    assert_eq!(format_outcome_summary(&mixed), "1/2 healthy");
}

#[test]
fn median_and_round_stats() {
    let results = vec![
        sample(SampleOutcome::Success, Some(30)),
        sample(SampleOutcome::Success, Some(10)),
        sample(SampleOutcome::UnexpectedResponse, Some(20)),
        sample(SampleOutcome::Success, Some(40)),
        sample(SampleOutcome::Timeout, None),
    ];
    assert_eq!(compute_median_latency(&results), Some(25_000_000));
    assert_eq!(compute_median_latency(&results[4..]), None);
    let stats = compute_round_stats(&results);
    assert_eq!(stats.attempted, 5);
    assert_eq!(stats.healthy, 3);
    assert_eq!(stats.unhealthy, 1);
    assert_eq!(stats.measurement_loss, 1);
    assert_eq!(stats.latency_bearing, 4);
    assert_eq!(stats.min_latency_ns, Some(10_000_000));
    assert_eq!(stats.max_latency_ns, Some(40_000_000));
    let records = decode_samples(&stats.sample_blob.unwrap()).unwrap();
    assert_eq!(records.len(), 5);
    assert_eq!(records[2].classification, SampleClassification::UnhealthyResponse);
    assert_eq!(records[4].latency_ns, None);
    assert_eq!(compute_round_stats(&[]).sample_blob, None);
}

#[test]
fn sample_metadata_is_stored_as_json() {
    let results = vec![SampleResult {
        outcome: SampleOutcome::Success,
        latency: Some(Duration::from_millis(1)),
        detail: Some("ignored".to_string()),
        metadata: Some(vec![("port".to_string(), "443".to_string())]),
    }];
    let stats = compute_round_stats(&results);
    let records = decode_samples(&stats.sample_blob.unwrap()).unwrap();
    assert_eq!(
        records[0].metadata.as_deref(),
        Some(&b"{\"port\":\"443\"}"[..])
    );
}

#[test]
fn registry_keeps_one_probe_per_kind() {
    let mut registry: ProbeRegistry<SyntheticProbe> = ProbeRegistry::new();
    assert!(registry.get(ProbeKind::Http).is_none());
    registry.register(ProbeKind::Http, SyntheticProbe::timeout());
    registry.register(ProbeKind::Http, SyntheticProbe::success(Duration::from_millis(1)));
    assert_eq!(
        registry.get(ProbeKind::Http).unwrap().config().outcome,
        SampleOutcome::Success
    );
    assert!(registry.get(ProbeKind::Dns).is_none());
    let pool = WorkerPool::new(Arc::new(registry), 4);
    assert_eq!(pool.num_workers(), 4);
    assert!(pool.registry().get(ProbeKind::Http).is_some());
}
