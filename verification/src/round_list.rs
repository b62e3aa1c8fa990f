//! The recent rounds of a check as the API lists them: each round's
//! counters and latency extremes in microseconds, and its samples decoded
//! from the stored blob.
use vstd::prelude::*;

use crate::api::{hex_encode, hex_text, rfc3339_millis, string_from_utf8, timestamp_millis};
use crate::http::{json_string_map, read_json_string_map};
use crate::probe::{opt_view, pairs_view};
use crate::rollup::{blob_records, outcome_name, outcome_variant_name};
use crate::rows::RoundRow;
use crate::sample_blob::{decode_samples, record_views, SampleRecord, SampleRecordView};

verus! {

broadcast use vstd::string::group_string_axioms;

/// The metadata of a sample: its named values when it is a JSON object of
/// strings, else its text.
#[derive(Debug, Clone)]
pub enum SampleMetadata {
    Fields(Vec<(String, String)>),
    Detail(String),
}

/// The abstract content of `SampleMetadata`.
pub ghost enum SampleMetadataView {
    Fields(Seq<(Seq<char>, Seq<char>)>),
    Detail(Seq<char>),
}

impl View for SampleMetadata {
    type V = SampleMetadataView;

    open spec fn view(&self) -> SampleMetadataView {
        match self {
            SampleMetadata::Fields(v) => SampleMetadataView::Fields(pairs_view(v@)),
            SampleMetadata::Detail(t) => SampleMetadataView::Detail(t@),
        }
    }
}

/// One sample of a listed round: its outcome's name, its latency in
/// microseconds, and its metadata.
#[derive(Debug, Clone)]
pub struct SampleDetail {
    pub outcome: String,
    pub latency_us: Option<i64>,
    pub metadata: Option<SampleMetadata>,
}

/// A listed round.
#[derive(Debug, Clone)]
pub struct RoundSummary {
    pub timestamp_ms: i64,
    pub execution_status: String,
    pub stop_reason: Option<String>,
    pub attempted_samples: i32,
    pub healthy_samples: i32,
    pub unhealthy_samples: i32,
    pub measurement_loss_samples: i32,
    pub min_latency_us: Option<i64>,
    pub max_latency_us: Option<i64>,
    pub outcome_summary: Option<String>,
    pub samples: Vec<SampleDetail>,
}

/// A page of rounds and the cursor of the next page if there is one.
#[derive(Debug, Clone)]
pub struct RoundsResponse {
    pub rounds: Vec<RoundSummary>,
    pub next_cursor: Option<String>,
}

/// The metadata that stored bytes stand for: none unless they are UTF-8;
/// the named values of a JSON object of strings; else the text.
pub open spec fn spec_metadata(m: Option<Seq<u8>>) -> Option<SampleMetadataView> {
    match m {
        None => None,
        Some(b) => if !vstd::utf8::valid_utf8(b) {
            None
        } else {
            let t = vstd::utf8::decode_utf8(b);
            match json_string_map(t) {
                Ok(ps) => Some(SampleMetadataView::Fields(ps)),
                Err(_) => Some(SampleMetadataView::Detail(t)),
            }
        },
    }
}

/// The view of optional metadata.
pub open spec fn opt_metadata_view(m: Option<SampleMetadata>) -> Option<SampleMetadataView> {
    match m {
        Some(x) => Some(x@),
        None => None,
    }
}

/// Whether `d` lists the sample record `r`.
pub open spec fn lists_sample(d: SampleDetail, r: SampleRecordView) -> bool {
    &&& d.outcome@ == outcome_name(r.outcome)
    &&& d.latency_us == (match r.latency_ns {
        Some(ns) => Some((ns / 1000) as i64),
        None => None,
    })
    &&& opt_metadata_view(d.metadata) == spec_metadata(r.metadata)
}

/// The metadata of a sample.
fn metadata_of(m: &Option<Vec<u8>>) -> (r: Option<SampleMetadata>)
    ensures
        opt_metadata_view(r) == spec_metadata(
            match m {
                Some(b) => Some(b@),
                None => None,
            },
        ),
{
    match m {
        None => None,
        Some(b) => match string_from_utf8(b.clone()) {
            None => None,
            Some(t) => match read_json_string_map(t.as_str()) {
                Ok(ps) => Some(SampleMetadata::Fields(ps)),
                Err(_) => Some(SampleMetadata::Detail(t)),
            },
        },
    }
}

/// The samples of a round's blob, in order; none without a blob or when
/// it does not decode.
pub fn decode_sample_details(blob: &Option<Vec<u8>>) -> (r: Vec<SampleDetail>)
    ensures
        r@.len() == blob_records(*blob).len(),
        forall|i: int| 0 <= i < r@.len() ==> lists_sample(#[trigger] r@[i], blob_records(*blob)[i]),
{
    let records: Vec<SampleRecord> = match blob {
        None => return Vec::new(),
        Some(b) => match decode_samples(b.as_slice()) {
            Ok(v) => v,
            Err(_) => return Vec::new(),
        },
    };
    let ghost rv = record_views(records@);
    assert(rv == blob_records(*blob));
    let mut out: Vec<SampleDetail> = Vec::new();
    let mut i: usize = 0;
    while i < records.len()
        invariant
            i <= records@.len(),
            rv == record_views(records@),
            rv.len() == records@.len(),
            out@.len() == i,
            forall|k: int| 0 <= k < i ==> lists_sample(#[trigger] out@[k], rv[k]),
        decreases records@.len() - i,
    {
        let rec = &records[i];
        assert(rv[i as int] == records@[i as int]@);
        let latency_us = match rec.latency_ns {
            Some(ns) => Some((ns / 1000) as i64),
            None => None,
        };
        let d = SampleDetail {
            outcome: String::from_str(outcome_variant_name(rec.outcome)),
            latency_us,
            metadata: metadata_of(&rec.metadata),
        };
        out.push(d);
        i = i + 1;
    }
    out
}

/// A latency in nanoseconds in whole microseconds, rounded toward zero.
pub open spec fn micros_toward_zero(ns: i64) -> i64 {
    if ns >= 0 {
        (ns / 1000) as i64
    } else {
        (-((-ns) / 1000)) as i64
    }
}

fn micros_of_nanos(ns: Option<i64>) -> (r: Option<i64>)
    ensures
        r == (match ns {
            Some(n) => Some(micros_toward_zero(n)),
            None => None,
        }),
{
    match ns {
        None => None,
        Some(n) => {
            if n >= 0 {
                Some(n / 1000)
            } else {
                let a: u64 = ((-(n + 1)) as u64) + 1;
                Some((0i128 - ((a / 1000) as i128)) as i64)
            }
        },
    }
}

/// Whether `s` lists the round `r`.
pub open spec fn lists_round(s: RoundSummary, r: RoundRow) -> bool {
    &&& s.timestamp_ms == (match rfc3339_millis(r.scheduled_at@) {
        Some(m) => m,
        None => 0,
    })
    &&& s.execution_status@ == r.execution_status@
    &&& opt_view(s.stop_reason) == opt_view(r.stop_reason)
    &&& s.attempted_samples == r.attempted_samples
    &&& s.healthy_samples == r.healthy_samples
    &&& s.unhealthy_samples == r.unhealthy_samples
    &&& s.measurement_loss_samples == r.measurement_loss_samples
    &&& s.min_latency_us == (match r.min_latency_ns {
        Some(n) => Some(micros_toward_zero(n)),
        None => None,
    })
    &&& s.max_latency_us == (match r.max_latency_ns {
        Some(n) => Some(micros_toward_zero(n)),
        None => None,
    })
    &&& opt_view(s.outcome_summary) == opt_view(r.outcome_summary)
    &&& s.samples@.len() == blob_records(r.sample_blob).len()
    &&& forall|i: int| 0 <= i < s.samples@.len() ==> lists_sample(#[trigger] s.samples@[i], blob_records(r.sample_blob)[i])
}

/// The page of rounds fetched with one more than `limit`: the first
/// `limit` rounds, listed, and the cursor of the next page when more
/// followed: the hexadecimal form of the last listed round's scheduled
/// time.
pub fn rounds_response(rounds: &[RoundRow], limit: i64) -> (r: RoundsResponse)
    requires
        1 <= limit <= 200,
    ensures
        ({
            let n = if rounds@.len() > limit { limit as int } else { rounds@.len() as int };
            &&& r.rounds@.len() == n
            &&& forall|i: int| 0 <= i < n ==> lists_round(#[trigger] r.rounds@[i], rounds@[i])
            &&& opt_view(r.next_cursor) == (if rounds@.len() > limit {
                Some(hex_text(vstd::utf8::encode_utf8(rounds@[n - 1].scheduled_at@)))
            } else {
                None
            })
        }),
{
    let lim = limit as usize;
    let n = if rounds.len() > lim {
        lim
    } else {
        rounds.len()
    };
    let mut out: Vec<RoundSummary> = Vec::new();
    let mut i: usize = 0;
    while i < n
        invariant
            i <= n,
            n <= rounds@.len(),
            out@.len() == i,
            forall|k: int| 0 <= k < i ==> lists_round(#[trigger] out@[k], rounds@[k]),
        decreases n - i,
    {
        let r = &rounds[i];
        let s = RoundSummary {
            timestamp_ms: timestamp_millis(r.scheduled_at.as_str()),
            execution_status: r.execution_status.clone(),
            stop_reason: crate::probe::clone_opt(&r.stop_reason),
            attempted_samples: r.attempted_samples,
            healthy_samples: r.healthy_samples,
            unhealthy_samples: r.unhealthy_samples,
            measurement_loss_samples: r.measurement_loss_samples,
            min_latency_us: micros_of_nanos(r.min_latency_ns),
            max_latency_us: micros_of_nanos(r.max_latency_ns),
            outcome_summary: crate::probe::clone_opt(&r.outcome_summary),
            samples: decode_sample_details(&r.sample_blob),
        };
        out.push(s);
        i = i + 1;
    }
    let next_cursor = if rounds.len() > lim {
        Some(hex_encode(rounds[n - 1].scheduled_at.as_str().as_bytes()))
    } else {
        None
    };
    RoundsResponse { rounds: out, next_cursor }
}

} // verus!
