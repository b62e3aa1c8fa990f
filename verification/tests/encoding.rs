use kemuri::histogram::{bin_representative, value_to_bin, Histogram, ENCODED_LEN};
use kemuri::kinds::{SampleClassification, SampleOutcome};
use kemuri::sample_blob::{decode_samples, encode_samples, SampleBlobError, SampleRecord};

#[test]
fn record_single_value() {
    let mut h = Histogram::new();
    h.record(1_000_000);
    assert_eq!(h.count(), 1);
    assert_eq!(h.min(), Some(1_000_000));
    assert_eq!(h.max(), Some(1_000_000));
    assert_eq!(h.sum(), 1_000_000);
}

#[test]
fn empty_histogram_counts() {
    let h = Histogram::new();
    assert_eq!(h.count(), 0);
    assert_eq!(h.min(), None);
    assert_eq!(h.max(), None);
    assert_eq!(h.sum(), 0);
}

#[test]
fn underflow_bin() {
    let mut h = Histogram::new();
    h.record(100);
    assert_eq!(h.underflow_count(), 1);
    assert_eq!(h.count(), 1);
}

#[test]
fn overflow_bin() {
    let mut h = Histogram::new();
    h.record(200_000_000_000);
    assert_eq!(h.overflow_count(), 1);
    assert_eq!(h.count(), 1);
}

#[test]
fn boundary_1us() {
    let mut h = Histogram::new();
    h.record(1000);
    assert_eq!(h.underflow_count(), 0);
    assert_eq!(h.bins()[1], 1);
}

#[test]
fn boundary_100s() {
    let mut h = Histogram::new();
    h.record(100_000_000_000);
    assert_eq!(h.overflow_count(), 1);
}

#[test]
fn just_under_100s() {
    let mut h = Histogram::new();
    h.record(99_999_999_999);
    assert_eq!(h.overflow_count(), 0);
}

#[test]
fn bin_placement_1ms() {
    let mut h = Histogram::new();
    h.record(1_000_000);
    assert_eq!(h.bins()[37], 1);
}

#[test]
fn merge_histograms() {
    let mut h1 = Histogram::new();
    h1.record(1_000_000);
    h1.record(2_000_000);

    let mut h2 = Histogram::new();
    h2.record(5_000_000);
    h2.record(500);

    h1.merge(&h2);
    assert_eq!(h1.count(), 4);
    assert_eq!(h1.min(), Some(500));
    assert_eq!(h1.max(), Some(5_000_000));
    assert_eq!(h1.underflow_count(), 1);
}

#[test]
fn encode_decode_roundtrip() {
    let mut h = Histogram::new();
    for v in [
        500,
        1_000,
        10_000,
        1_000_000,
        1_000_000_000,
        150_000_000_000,
    ] {
        h.record(v);
    }
    let encoded = h.encode();
    let decoded = Histogram::decode(&encoded).unwrap();
    assert_eq!(h, decoded);
}

#[test]
fn decode_truncated_data() {
    assert!(Histogram::decode(&[1, 2, 3]).is_none());
}

#[test]
fn min_max_tracking() {
    let mut h = Histogram::new();
    h.record(5_000);
    h.record(50_000);
    h.record(500_000);
    assert_eq!(h.min(), Some(5_000));
    assert_eq!(h.max(), Some(500_000));
}

#[test]
fn saturating_sum() {
    let mut h = Histogram::new();
    h.record(u64::MAX);
    h.record(1);
    assert_eq!(h.sum(), u64::MAX);
}

#[test]
fn histogram_encoding_layout() {
    let mut h = Histogram::new();
    h.record(1_000_000);
    let encoded = h.encode();
    assert_eq!(encoded.len(), ENCODED_LEN);
    assert_eq!(encoded[0], 1);
    assert_eq!(&encoded[1..9], &1u64.to_le_bytes());
    assert_eq!(&encoded[9..17], &1_000_000u64.to_le_bytes());
    assert_eq!(&encoded[17..25], &1_000_000u64.to_le_bytes());
}

#[test]
fn histogram_bins_and_representatives() {
    assert_eq!(value_to_bin(999), 0);
    assert_eq!(value_to_bin(1_000), 1);
    assert_eq!(value_to_bin(1_211), 1);
    assert_eq!(value_to_bin(1_212), 2);
    assert_eq!(value_to_bin(1_000_000), 37);
    assert_eq!(value_to_bin(100_000_000_000), 97);
    assert_eq!(bin_representative(0), 500);
    assert_eq!(Histogram::bin_representatives().len(), Histogram::num_bins());
}

fn make_record(
    index: u16,
    offset: u32,
    outcome: SampleOutcome,
    classification: SampleClassification,
) -> SampleRecord {
    SampleRecord {
        sample_index: index,
        offset_us: offset,
        outcome,
        classification,
        latency_ns: None,
        elapsed_ns: None,
        metadata: None,
    }
}

#[test]
fn empty_records() {
    let records: Vec<SampleRecord> = vec![];
    let encoded = encode_samples(&records);
    let decoded = decode_samples(&encoded).unwrap();
    assert!(decoded.is_empty());
}

#[test]
fn roundtrip_minimal() {
    let records = vec![make_record(
        0,
        0,
        SampleOutcome::Success,
        SampleClassification::HealthyResponse,
    )];
    let encoded = encode_samples(&records);
    let decoded = decode_samples(&encoded).unwrap();
    assert_eq!(records, decoded);
}

#[test]
fn roundtrip_with_latency() {
    let mut rec = make_record(
        0,
        100,
        SampleOutcome::Success,
        SampleClassification::HealthyResponse,
    );
    rec.latency_ns = Some(1_500_000);
    let records = vec![rec];
    let encoded = encode_samples(&records);
    let decoded = decode_samples(&encoded).unwrap();
    assert_eq!(records, decoded);
}

#[test]
fn roundtrip_with_all_fields() {
    let mut rec = make_record(
        5,
        2500,
        SampleOutcome::Timeout,
        SampleClassification::MeasurementLoss,
    );
    rec.latency_ns = Some(5_000_000_000);
    rec.elapsed_ns = Some(5_100_000_000);
    rec.metadata = Some(vec![0xDE, 0xAD, 0xBE, 0xEF]);
    let records = vec![rec];
    let encoded = encode_samples(&records);
    let decoded = decode_samples(&encoded).unwrap();
    assert_eq!(records, decoded);
}

#[test]
fn roundtrip_multiple_records() {
    let mut rec1 = make_record(
        0,
        0,
        SampleOutcome::Success,
        SampleClassification::HealthyResponse,
    );
    rec1.latency_ns = Some(1_000_000);
    let mut rec2 = make_record(
        1,
        1000,
        SampleOutcome::ConnectionRefused,
        SampleClassification::UnhealthyResponse,
    );
    rec2.elapsed_ns = Some(500_000);
    let rec3 = make_record(
        2,
        2000,
        SampleOutcome::DnsError,
        SampleClassification::MeasurementLoss,
    );
    let records = vec![rec1, rec2, rec3];
    let encoded = encode_samples(&records);
    let decoded = decode_samples(&encoded).unwrap();
    assert_eq!(records, decoded);
}

#[test]
fn reject_wrong_version() {
    let mut encoded = encode_samples(&[make_record(
        0,
        0,
        SampleOutcome::Success,
        SampleClassification::HealthyResponse,
    )]);
    encoded[0] = 99;
    assert!(matches!(
        decode_samples(&encoded),
        Err(SampleBlobError::UnsupportedVersion(99))
    ));
}

#[test]
fn reject_truncated() {
    let encoded = encode_samples(&[make_record(
        0,
        0,
        SampleOutcome::Success,
        SampleClassification::HealthyResponse,
    )]);
    assert!(matches!(
        decode_samples(&encoded[..2]),
        Err(SampleBlobError::Truncated)
    ));
}

#[test]
fn all_outcome_variants() {
    let outcomes = [
        SampleOutcome::Success,
        SampleOutcome::Timeout,
        SampleOutcome::DnsError,
        SampleOutcome::NetworkUnreachable,
        SampleOutcome::ConnectionRefused,
        SampleOutcome::ConnectionReset,
        SampleOutcome::TlsError,
        SampleOutcome::ProtocolError,
        SampleOutcome::UnexpectedResponse,
        SampleOutcome::PermissionDenied,
        SampleOutcome::Cancelled,
        SampleOutcome::InternalError,
    ];
    for (i, outcome) in outcomes.into_iter().enumerate() {
        let rec = make_record(i as u16, 0, outcome, SampleClassification::HealthyResponse);
        let encoded = encode_samples(std::slice::from_ref(&rec));
        let decoded = decode_samples(&encoded).unwrap();
        assert_eq!(rec, decoded[0]);
    }
}

#[test]
fn forward_compatibility_extra_bytes() {
    let mut encoded = encode_samples(&[make_record(
        0,
        0,
        SampleOutcome::Success,
        SampleClassification::HealthyResponse,
    )]);
    encoded.extend_from_slice(&[0xAA, 0xBB]);
    let decoded = decode_samples(&encoded).unwrap();
    assert_eq!(decoded.len(), 1);
}

#[test]
fn deterministic_encoding() {
    let rec = make_record(
        0,
        0,
        SampleOutcome::Success,
        SampleClassification::HealthyResponse,
    );
    let encoded1 = encode_samples(std::slice::from_ref(&rec));
    let encoded2 = encode_samples(&[rec]);
    assert_eq!(encoded1, encoded2);
}

#[test]
fn reject_invalid_outcome_and_classification() {
    let mut encoded = encode_samples(&[make_record(
        0,
        0,
        SampleOutcome::Success,
        SampleClassification::HealthyResponse,
    )]);
    let header = 3;
    let outcome_pos = header + 2 + 4;
    encoded[outcome_pos] = 42;
    assert_eq!(decode_samples(&encoded), Err(SampleBlobError::InvalidOutcome(42)));
    encoded[outcome_pos] = 0;
    encoded[outcome_pos + 1] = 9;
    assert_eq!(
        decode_samples(&encoded),
        Err(SampleBlobError::InvalidClassification(9))
    );
}

/// The bin of a value by the logarithmic formula: twelve bins per decade
/// from one microsecond, with an underflow and an overflow bin.
fn log_bin(v: u64) -> usize {
    if v < 1000 {
        return 0;
    }
    if v >= 100_000_000_000 {
        return 97;
    }
    let bin = (((v as f64).log10() - 3.0) * 12.0).floor() as usize;
    (bin + 1).min(96)
}

#[test]
fn bin_table_matches_the_logarithmic_formula_at_every_boundary() {
    // For each data bin, find by bisection the first value that the formula
    // places in it, and check that value and the one before it.
    for bin in 1..=97usize {
        let (mut lo, mut hi): (u64, u64) = (999, 100_000_000_000);
        while hi - lo > 1 {
            let mid = lo + (hi - lo) / 2;
            if log_bin(mid) >= bin {
                hi = mid;
            } else {
                lo = mid;
            }
        }
        assert_eq!(value_to_bin(hi), log_bin(hi), "value {hi}");
        assert_eq!(value_to_bin(hi - 1), log_bin(hi - 1), "value {}", hi - 1);
        assert_eq!(log_bin(hi), bin);
    }
    for v in [0u64, 1, 999, 1000, 1001, 99_999_999_999, 100_000_000_000, u64::MAX] {
        assert_eq!(value_to_bin(v), log_bin(v), "value {v}");
    }
}

#[test]
fn bin_representatives_match_the_geometric_middles() {
    assert_eq!(bin_representative(0), 500);
    assert_eq!(bin_representative(97), 100_000_000_000);
    for bin in 1..=96usize {
        let mid = 3.0 + ((bin - 1) as f64 + 0.5) / 12.0;
        assert_eq!(bin_representative(bin), 10f64.powf(mid).round() as u64, "bin {bin}");
    }
}
