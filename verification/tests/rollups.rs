use kemuri::buckets::{bucket_start, plan_buckets, seconds_of_millis};
use kemuri::json::{counts_json, json_object_bytes};
use kemuri::kinds::{SampleClassification, SampleOutcome};
use kemuri::round_list::{decode_sample_details, rounds_response, SampleMetadata};
use kemuri::rows::RoundRow;
use kemuri::sample_blob::{encode_samples, SampleRecord};

fn round_at(scheduled_at: &str) -> RoundRow {
    RoundRow {
        internal_id: 0,
        check_internal_id: 1,
        observer_internal_id: 1,
        scheduled_at: scheduled_at.to_owned(),
        started_at: None,
        finished_at: None,
        execution_status: "complete".to_owned(),
        stop_reason: None,
        configured_samples: 1,
        attempted_samples: 1,
        latency_bearing_samples: 1,
        healthy_samples: 1,
        unhealthy_samples: 0,
        measurement_loss_samples: 0,
        min_latency_ns: None,
        median_latency_ns: None,
        max_latency_ns: None,
        sample_blob: None,
        outcome_summary: None,
        config_generation: None,
        check_revision_id: None,
        created_at: scheduled_at.to_owned(),
    }
}

#[test]
fn bucket_starts_round_toward_zero() {
    assert_eq!(bucket_start(1_704_067_499, 300), 1_704_067_200);
    assert_eq!(bucket_start(599, 300), 300);
    assert_eq!(bucket_start(-1, 300), 0);
    assert_eq!(bucket_start(-301, 300), -300);
    assert_eq!(bucket_start(i64::MIN, 3600), i64::MIN / 3600 * 3600);
    assert_eq!(seconds_of_millis(1_999), 1);
    assert_eq!(seconds_of_millis(-1), -1);
    assert_eq!(seconds_of_millis(-1_000), -1);
    assert_eq!(seconds_of_millis(-1_001), -2);
}

#[test]
fn rounds_are_planned_into_ascending_buckets() {
    let rounds = vec![
        round_at("2024-01-01T00:07:10Z"),
        round_at("2024-01-01T00:01:00Z"),
        round_at("not a time"),
        round_at("2024-01-01T00:04:59Z"),
        round_at("2024-01-01T00:05:00+00:00"),
    ];
    let plan = plan_buckets(&rounds, 300);
    assert_eq!(plan.len(), 2);
    assert_eq!(plan[0].0, 1_704_067_200);
    assert_eq!(plan[0].1, vec![1, 3]);
    assert_eq!(plan[1].0, 1_704_067_500);
    assert_eq!(plan[1].1, vec![0, 4]);
    let hourly = plan_buckets(&rounds, 3600);
    assert_eq!(hourly.len(), 1);
    assert_eq!(hourly[0].1, vec![0, 1, 3, 4]);
}

fn sample(outcome: SampleOutcome, latency_ns: Option<u64>, metadata: Option<&[u8]>) -> SampleRecord {
    SampleRecord {
        sample_index: 0,
        offset_us: 0,
        outcome,
        classification: SampleClassification::HealthyResponse,
        latency_ns,
        elapsed_ns: latency_ns,
        metadata: metadata.map(|m| m.to_vec()),
    }
}

#[test]
fn sample_details_decode_their_metadata() {
    let blob = encode_samples(&[
        sample(SampleOutcome::Success, Some(1_500_999), Some(br#"{"b":"2","a":"1"}"#.as_slice())),
        sample(SampleOutcome::Timeout, None, Some(b"no answer".as_slice())),
        sample(SampleOutcome::DnsError, None, Some([0xffu8, 0xfe].as_slice())),
    ]);
    let details = decode_sample_details(&Some(blob));
    assert_eq!(details.len(), 3);
    assert_eq!(details[0].outcome, "Success");
    assert_eq!(details[0].latency_us, Some(1_500));
    match &details[0].metadata {
        Some(SampleMetadata::Fields(f)) => assert_eq!(
            f,
            &vec![("a".to_string(), "1".to_string()), ("b".to_string(), "2".to_string())]
        ),
        other => panic!("unexpected {other:?}"),
    }
    match &details[1].metadata {
        Some(SampleMetadata::Detail(t)) => assert_eq!(t, "no answer"),
        other => panic!("unexpected {other:?}"),
    }
    assert_eq!(details[2].outcome, "DnsError");
    assert!(details[2].metadata.is_none());
    assert!(decode_sample_details(&Some(vec![9, 9])).is_empty());
    assert!(decode_sample_details(&None).is_empty());
}

#[test]
fn round_pages_end_with_a_cursor_when_more_follow() {
    let mut first = round_at("2024-01-01T00:00:00Z");
    first.min_latency_ns = Some(-1_500);
    first.max_latency_ns = Some(2_999);
    let rounds = vec![first, round_at("2024-01-01T00:01:00Z"), round_at("2024-01-01T00:02:00Z")];
    let page = rounds_response(&rounds, 2);
    assert_eq!(page.rounds.len(), 2);
    assert_eq!(page.rounds[0].timestamp_ms, 1_704_067_200_000);
    assert_eq!(page.rounds[0].min_latency_us, Some(-1));
    assert_eq!(page.rounds[0].max_latency_us, Some(2));
    assert_eq!(page.next_cursor.as_deref(), Some(hex_of("2024-01-01T00:01:00Z").as_str()));
    let all = rounds_response(&rounds, 3);
    assert_eq!(all.rounds.len(), 3);
    assert_eq!(all.next_cursor, None);
}

fn hex_of(s: &str) -> String {
    s.bytes().map(|b| format!("{b:02x}")).collect()
}

#[test]
fn json_objects_keep_each_key_once_in_order() {
    let counts = vec![("b".to_string(), 2i64), ("a\"x".to_string(), -1), ("b".to_string(), 5)];
    assert_eq!(counts_json(&counts), r#"{"a\"x":-1,"b":5}"#);
    assert_eq!(counts_json(&vec![]), "{}");
    let pairs = vec![("z".to_string(), "1".to_string()), ("y".to_string(), "é".to_string()), ("z".to_string(), "2".to_string())];
    assert_eq!(String::from_utf8(json_object_bytes(&pairs)).unwrap(), r#"{"y":"é","z":"2"}"#);
}

#[test]
fn json_keys_escape_quotes_backslashes_and_controls() {
    let counts = vec![("a\u{1}\"\\\n\u{1f}\u{7f}é\u{8}\u{c}\t\r".to_string(), 1i64)];
    assert_eq!(counts_json(&counts), "{\"a\\u0001\\\"\\\\\\n\\u001f\u{7f}é\\b\\f\\t\\r\":1}");
}
