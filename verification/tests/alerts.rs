use kemuri::alerts::{
    alert_transition, backoff_secs, clear_condition_of, compute_backoff, compute_fingerprint, compute_metric,
    invert_operator, no_data_transition, parse_alert_state, should_repeat_notification,
    should_transition_to_clear, should_transition_to_firing, AlertEventPlan, LatencyQuantile,
    MetricInput, StoredAlertState, ThresholdKind,
};
use kemuri::config::AlertRuleConfig;
use kemuri::ids::{NotifierId, ProfileId, RuleId};
use kemuri::rules::{applicable_rules, rule_metric_input};
use kemuri::rows::RoundRow;
use kemuri::kinds::{AlertEventKind, AlertState, SampleClassification, SampleOutcome};
use kemuri::sample_blob::{encode_samples, SampleRecord};
use std::time::Duration;

#[test]
fn parse_alert_state_variants() {
    assert_eq!(parse_alert_state("normal"), AlertState::Normal);
    assert_eq!(parse_alert_state("pending_fire"), AlertState::PendingFire);
    assert_eq!(parse_alert_state("firing"), AlertState::Firing);
    assert_eq!(parse_alert_state("pending_clear"), AlertState::PendingClear);
}

#[test]
fn unknown_alert_state_reads_as_normal() {
    assert_eq!(parse_alert_state("bogus"), AlertState::Normal);
}

#[test]
fn invert_operator_gte() {
    assert_eq!(invert_operator("gte"), "lt");
    assert_eq!(invert_operator("gt"), "lte");
    assert_eq!(invert_operator("lt"), "gte");
    assert_eq!(invert_operator("lte"), "gt");
}

#[test]
fn fingerprint_joins_rule_and_check() {
    let rule = RuleId::new("loss-high").unwrap();
    assert_eq!(compute_fingerprint(&rule, 42), "loss-high:42");
    assert_eq!(compute_fingerprint(&rule, -3), "loss-high:-3");
}

#[test]
fn compute_backoff_increases() {
    let d1 = compute_backoff(0);
    let d2 = compute_backoff(1);
    let d3 = compute_backoff(2);
    assert!(d1 <= d2);
    assert!(d2 <= d3);
}

#[test]
fn compute_backoff_max() {
    let d = compute_backoff(15);
    assert!(d <= Duration::from_secs(3600 + 360));
}

#[test]
fn backoff_exact_values() {
    assert_eq!(backoff_secs(0, 0), 30);
    assert_eq!(backoff_secs(1, 0), 60);
    assert_eq!(backoff_secs(1, 29), 60 + 14);
    assert_eq!(backoff_secs(7, 0), 3600);
    assert_eq!(backoff_secs(10, 12345), 3600);
    for attempt in 0..10 {
        for r in [0u64, 1, 7, 1000, u64::MAX] {
            let s = backoff_secs(attempt, r);
            assert!(s <= 3600);
            assert!(backoff_secs(attempt + 1, r) >= s);
        }
    }
}

fn make_round(attempted: i32, healthy: i32, unhealthy: i32, measurement_loss: i32) -> RoundRow {
    RoundRow {
        internal_id: 0,
        check_internal_id: 1,
        observer_internal_id: 1,
        scheduled_at: "2024-01-01T00:00:00Z".to_owned(),
        started_at: None,
        finished_at: None,
        execution_status: "complete".to_owned(),
        stop_reason: None,
        configured_samples: attempted,
        attempted_samples: attempted,
        latency_bearing_samples: healthy,
        healthy_samples: healthy,
        unhealthy_samples: unhealthy,
        measurement_loss_samples: measurement_loss,
        min_latency_ns: None,
        median_latency_ns: None,
        max_latency_ns: None,
        sample_blob: None,
        outcome_summary: None,
        config_generation: None,
        check_revision_id: None,
        created_at: "2024-01-01T00:00:00Z".to_owned(),
    }
}

fn ratio_of(m: MetricInput) -> f64 {
    match m {
        MetricInput::Ratio {
            numerator,
            denominator,
        } => numerator as f64 / denominator as f64,
        _ => panic!("expected value"),
    }
}

#[test]
fn compute_metric_measurement_loss_ratio() {
    let rounds = vec![make_round(10, 8, 0, 2), make_round(10, 5, 0, 5)];
    let v = ratio_of(compute_metric("measurement_loss_ratio", &rounds));
    assert!((v - 0.35).abs() < 0.01);
}

#[test]
fn compute_metric_health_failure_ratio() {
    let rounds = vec![make_round(10, 7, 2, 1), make_round(10, 6, 3, 1)];
    let v = ratio_of(compute_metric("health_failure_ratio", &rounds));
    assert!((v - 0.25).abs() < 0.01);
}

#[test]
fn compute_metric_healthy_sample_ratio() {
    let rounds = vec![make_round(10, 8, 1, 1)];
    let v = ratio_of(compute_metric("healthy_sample_ratio", &rounds));
    assert!((v - 0.8).abs() < 0.01);
}

#[test]
fn compute_metric_zero_attempted_is_insufficient() {
    let rounds = vec![make_round(0, 0, 0, 0)];
    let result = compute_metric("measurement_loss_ratio", &rounds);
    assert!(matches!(result, MetricInput::InsufficientData));
}

#[test]
fn compute_metric_consecutive_total_loss() {
    let mut rounds = vec![];
    for _ in 0..3 {
        rounds.push(make_round(5, 0, 0, 5));
    }
    let result = compute_metric("consecutive_total_loss_rounds", &rounds);
    assert!(matches!(result, MetricInput::Count(3)));
}

#[test]
fn compute_metric_consecutive_total_loss_broken_by_healthy() {
    let mut rounds = vec![];
    rounds.push(make_round(5, 5, 0, 0));
    for _ in 0..3 {
        rounds.push(make_round(5, 0, 0, 5));
    }
    let result = compute_metric("consecutive_total_loss_rounds", &rounds);
    assert!(matches!(result, MetricInput::Count(3)));
}

#[test]
fn compute_metric_consecutive_unhealthy() {
    let rounds = vec![
        make_round(5, 3, 2, 0),
        make_round(5, 2, 3, 0),
        make_round(5, 4, 1, 0),
    ];
    let result = compute_metric("consecutive_unhealthy_rounds", &rounds);
    assert!(matches!(result, MetricInput::Count(3)));
}

#[test]
fn consecutive_rounds_follow_schedule_order() {
    let mut lost = make_round(5, 0, 0, 5);
    lost.scheduled_at = "2024-01-01T00:02:00Z".to_string();
    let mut healthy = make_round(5, 5, 0, 0);
    healthy.scheduled_at = "2024-01-01T00:01:00Z".to_string();
    let mut older_lost = make_round(5, 0, 0, 5);
    older_lost.scheduled_at = "2024-01-01T00:00:00Z".to_string();
    let rounds = vec![lost, older_lost, healthy];
    let result = compute_metric("consecutive_total_loss_rounds", &rounds);
    assert!(matches!(result, MetricInput::Count(1)));
}

#[test]
fn latency_metric_reads_sample_blobs() {
    let record = SampleRecord {
        sample_index: 0,
        offset_us: 0,
        outcome: SampleOutcome::Success,
        classification: SampleClassification::HealthyResponse,
        latency_ns: Some(2_000_000),
        elapsed_ns: None,
        metadata: None,
    };
    let mut round = make_round(1, 1, 0, 0);
    round.sample_blob = Some(encode_samples(&[record]));
    match compute_metric("p95_latency", &[round]) {
        MetricInput::Latency {
            histogram,
            quantile,
        } => {
            assert_eq!(quantile, LatencyQuantile::P95);
            assert_eq!(histogram.count(), 1);
            assert_eq!(histogram.min(), Some(2_000_000));
        }
        _ => panic!("expected latency input"),
    }
    let empty = compute_metric("p50_latency", &[make_round(1, 1, 0, 0)]);
    assert!(matches!(empty, MetricInput::InsufficientData));
}

#[test]
fn should_transition_immediately_without_duration() {
    assert!(should_transition_to_firing(
        &None,
        "2024-01-01T00:00:00Z",
        "2024-01-01T00:00:01Z"
    ));
}

#[test]
fn should_not_transition_before_duration() {
    assert!(!should_transition_to_firing(
        &Some("2m".to_string()),
        "2024-01-01T00:00:00Z",
        "2024-01-01T00:01:30Z"
    ));
}

#[test]
fn should_transition_after_duration() {
    assert!(should_transition_to_firing(
        &Some("2m".to_string()),
        "2024-01-01T00:00:00Z",
        "2024-01-01T00:02:01Z"
    ));
}

#[test]
fn should_transition_exactly_at_duration() {
    assert!(should_transition_to_clear(
        &Some("2m".to_string()),
        "2024-01-01T00:00:00Z",
        "2024-01-01T00:02:00Z"
    ));
    assert!(!should_transition_to_clear(
        &Some("2m".to_string()),
        "2024-01-01T00:00:00Z",
        "2024-01-01T00:01:59.999Z"
    ));
}

#[test]
fn should_repeat_after_interval() {
    assert!(should_repeat_notification(
        &Some("15m".to_string()),
        &Some("2024-01-01T00:00:00Z".to_string()),
        "2024-01-01T00:15:01Z"
    ));
}

#[test]
fn should_not_repeat_before_interval() {
    assert!(!should_repeat_notification(
        &Some("15m".to_string()),
        &Some("2024-01-01T00:00:00Z".to_string()),
        "2024-01-01T00:10:00Z"
    ));
}

#[test]
fn repeat_edge_cases() {
    assert!(!should_repeat_notification(
        &None,
        &Some("2024-01-01T00:00:00Z".to_string()),
        "2024-01-02T00:00:00Z"
    ));
    assert!(should_repeat_notification(
        &Some("15m".to_string()),
        &None,
        "2024-01-01T00:10:00Z"
    ));
    assert!(should_repeat_notification(
        &Some("15m".to_string()),
        &Some("not a time".to_string()),
        "2024-01-01T00:10:00Z"
    ));
    assert!(!should_repeat_notification(
        &Some("15m".to_string()),
        &Some("2024-01-01T00:00:00Z".to_string()),
        "not a time"
    ));
}

fn stored(state: &str, entered: &str, first: Option<&str>, last: Option<&str>) -> Option<StoredAlertState> {
    Some(StoredAlertState {
        state: state.to_string(),
        state_entered_at: entered.to_string(),
        first_condition_true_at: first.map(|s| s.to_string()),
        last_notification_at: last.map(|s| s.to_string()),
    })
}

#[test]
fn alert_fires_after_hold_and_clears_with_hysteresis() {
    let hold = Some("2m".to_string());
    let t0 = "2024-01-01T00:00:00Z";
    let u = alert_transition(&hold, &None, &None, true, None, t0);
    assert_eq!(u.state, AlertState::PendingFire);
    assert_eq!(u.first_condition_true_at.as_deref(), Some(t0));
    assert!(u.event.is_none());

    let pending = stored("pending_fire", t0, Some(t0), None);
    let t1 = "2024-01-01T00:03:00Z";
    let u = alert_transition(&hold, &None, &pending, true, None, t1);
    assert_eq!(u.state, AlertState::Firing);
    assert_eq!(
        u.event,
        Some(AlertEventPlan {
            kind: AlertEventKind::Firing,
            from: AlertState::PendingFire,
            to: AlertState::Firing,
            threshold: ThresholdKind::Fire,
            publish: true,
        })
    );

    let firing = stored("firing", t1, Some(t0), Some(t1));
    let still = alert_transition(&hold, &None, &firing, true, None, "2024-01-01T00:04:00Z");
    assert_eq!(still.state, AlertState::Firing);
    assert!(still.event.is_none());

    let t2 = "2024-01-01T00:04:00Z";
    let u = alert_transition(&hold, &None, &firing, false, None, t2);
    assert_eq!(u.state, AlertState::PendingClear);

    let pending_clear = stored("pending_clear", t2, Some(t0), Some(t1));
    let back = alert_transition(&hold, &None, &pending_clear, false, Some(false), "2024-01-01T00:05:00Z");
    assert_eq!(back.state, AlertState::Firing);

    let u = alert_transition(&hold, &None, &pending_clear, false, None, "2024-01-01T00:07:00Z");
    assert_eq!(u.state, AlertState::Normal);
    assert_eq!(u.event.unwrap().kind, AlertEventKind::Resolved);
}

#[test]
fn alert_without_hold_fires_at_once() {
    let u = alert_transition(&None, &None, &None, true, None, "2024-01-01T00:00:00Z");
    assert_eq!(u.state, AlertState::Firing);
    assert_eq!(u.event.unwrap().from, AlertState::Normal);
}

#[test]
fn firing_alert_repeats_unpublished_event() {
    let firing = stored(
        "firing",
        "2024-01-01T00:00:00Z",
        Some("2024-01-01T00:00:00Z"),
        Some("2024-01-01T00:00:00Z"),
    );
    let u = alert_transition(
        &None,
        &Some("15m".to_string()),
        &firing,
        true,
        None,
        "2024-01-01T00:20:00Z",
    );
    assert_eq!(u.state, AlertState::Firing);
    let e = u.event.unwrap();
    assert_eq!(e.kind, AlertEventKind::Firing);
    assert!(!e.publish);
    assert_eq!(u.last_notification_at.as_deref(), Some("2024-01-01T00:20:00Z"));
}

#[test]
fn no_data_rule_transitions() {
    let fired = no_data_transition(&None, &None, &None, "2024-01-01T00:00:00Z").unwrap();
    assert_eq!(fired.state, AlertState::Firing);
}

#[test]
fn clear_condition_is_inverse_of_firing_without_clear_threshold() {
    assert!(clear_condition_of(false, None));
    assert!(!clear_condition_of(true, None));
    assert!(clear_condition_of(true, Some(true)));
    assert!(!clear_condition_of(false, Some(false)));

    let t = "2024-01-01T00:00:00Z";
    let firing = stored("firing", t, Some(t), Some(t));
    let cleared = alert_transition(&None, &None, &firing, false, None, "2024-01-01T00:01:00Z");
    assert_eq!(cleared.state, AlertState::Normal);
    let e = cleared.event.unwrap();
    assert_eq!(e.kind, AlertEventKind::Resolved);
    assert!(e.publish);

    let kept = alert_transition(&None, &None, &firing, true, None, "2024-01-01T00:01:00Z");
    assert_eq!(kept.state, AlertState::Firing);
    assert!(kept.event.is_none());

    let held = alert_transition(&None, &None, &firing, false, Some(false), "2024-01-01T00:01:00Z");
    assert_eq!(held.state, AlertState::Firing);
}

fn gated_rule(metric: &str, minimum_rounds: Option<u32>, minimum_latency_samples: Option<u32>) -> AlertRuleConfig {
    AlertRuleConfig {
        id: RuleId::new("r1").unwrap(),
        profile: ProfileId::new("p1").unwrap(),
        metric: metric.to_string(),
        operator: "gte".to_string(),
        threshold: "0.5".to_string(),
        window: "5m".to_string(),
        notifier: NotifierId::new("n1").unwrap(),
        duration: None,
        clear_threshold: None,
        clear_operator: None,
        repeat_every: None,
        minimum_rounds,
        minimum_latency_samples,
        no_data_period: None,
    }
}

#[test]
fn rule_input_waits_for_minimum_rounds_and_latency_samples() {
    let loss = gated_rule("measurement_loss_ratio", Some(3), None);
    let two = [make_round(4, 3, 0, 1), make_round(4, 4, 0, 0)];
    assert!(matches!(rule_metric_input(&loss, &two), MetricInput::InsufficientData));
    let three = [make_round(4, 3, 0, 1), make_round(4, 4, 0, 0), make_round(4, 2, 0, 2)];
    match rule_metric_input(&loss, &three) {
        MetricInput::Ratio { numerator, denominator } => {
            assert_eq!(numerator, 3);
            assert_eq!(denominator, 12);
        }
        _ => panic!("expected a ratio"),
    }
    let default_min = gated_rule("measurement_loss_ratio", None, None);
    assert!(matches!(rule_metric_input(&default_min, &[]), MetricInput::InsufficientData));

    let record = SampleRecord {
        sample_index: 0,
        offset_us: 0,
        outcome: SampleOutcome::Success,
        classification: SampleClassification::HealthyResponse,
        latency_ns: Some(2_000_000),
        elapsed_ns: None,
        metadata: None,
    };
    let mut round = make_round(1, 1, 0, 0);
    round.sample_blob = Some(encode_samples(&[record]));
    let rounds = [round];
    let strict = gated_rule("p95_latency", None, Some(2));
    assert!(matches!(rule_metric_input(&strict, &rounds), MetricInput::InsufficientData));
    let lenient = gated_rule("p95_latency", None, Some(1));
    assert!(matches!(rule_metric_input(&lenient, &rounds), MetricInput::Latency { .. }));
}

#[test]
fn rules_apply_to_checks_of_their_profile() {
    let mut a = gated_rule("measurement_loss_ratio", None, None);
    a.profile = ProfileId::new("ping-fast").unwrap();
    let mut b = gated_rule("measurement_loss_ratio", None, None);
    b.profile = ProfileId::new("ping-slow").unwrap();
    let c = gated_rule("p95_latency", None, None);
    let rules = vec![a, b, c];
    assert_eq!(applicable_rules(&rules, "ping-slow"), vec![1]);
    assert_eq!(applicable_rules(&rules, "p1"), vec![2]);
    assert!(applicable_rules(&rules, "other").is_empty());
}

#[test]
fn latency_sample_minimum_holds_back_every_metric() {
    let loss = gated_rule("measurement_loss_ratio", None, Some(5));
    let lossy = [make_round(3, 0, 0, 3)];
    assert!(matches!(rule_metric_input(&loss, &lossy), MetricInput::InsufficientData));
    let enough = [make_round(3, 3, 0, 0), make_round(3, 2, 0, 1)];
    match rule_metric_input(&loss, &enough) {
        MetricInput::Ratio { numerator, denominator } => assert_eq!((numerator, denominator), (1, 6)),
        _ => panic!("expected a ratio"),
    }
    let runs = gated_rule("consecutive_total_loss_rounds", None, Some(1));
    assert!(matches!(rule_metric_input(&runs, &lossy), MetricInput::InsufficientData));
}
