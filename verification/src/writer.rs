//! What is written for a finished round: the classification of samples,
//! the round's statistics and sample blob, its median latency, the check's
//! new state and a short summary.
use vstd::prelude::*;

use crate::duration::duration_nanos;
use crate::json::{json_object, json_object_bytes};
use crate::kinds::{RoundExecutionStatus, SampleClassification, SampleOutcome};
use crate::probe::{pairs_view, SampleResult};
use crate::sample_blob::{encode_samples, record_views, spec_encode_samples, SampleRecord, SampleRecordView};
use crate::text;
use crate::text::u64_to_decimal;

verus! {

broadcast use vstd::string::group_string_axioms;

/// What a sample outcome says about the service: success is healthy, an
/// unexpected response unhealthy, and every failure to measure is loss.
pub open spec fn spec_classify_outcome(o: SampleOutcome) -> SampleClassification {
    match o {
        SampleOutcome::Success => SampleClassification::HealthyResponse,
        SampleOutcome::UnexpectedResponse => SampleClassification::UnhealthyResponse,
        _ => SampleClassification::MeasurementLoss,
    }
}

/// The classification of a sample outcome.
pub fn classify_outcome(outcome: &SampleOutcome) -> (r: SampleClassification)
    ensures
        r == spec_classify_outcome(*outcome),
{
    match outcome {
        SampleOutcome::Success => SampleClassification::HealthyResponse,
        SampleOutcome::UnexpectedResponse => SampleClassification::UnhealthyResponse,
        _ => SampleClassification::MeasurementLoss,
    }
}

/// Whether an outcome is a response of the service, healthy or not.
pub open spec fn is_response(o: SampleOutcome) -> bool {
    o == SampleOutcome::Success || o == SampleOutcome::UnexpectedResponse
}

/// How a round executed: partial when some samples got a response and
/// others did not, complete otherwise.
pub open spec fn spec_execution_status(rs: Seq<SampleResult>) -> RoundExecutionStatus {
    if (exists|i: int| 0 <= i < rs.len() && !is_response(#[trigger] rs[i].outcome)) && (exists|i: int|
        0 <= i < rs.len() && is_response(#[trigger] rs[i].outcome)) {
        RoundExecutionStatus::Partial
    } else {
        RoundExecutionStatus::Complete
    }
}

/// The execution status of a round with the given sample results.
pub fn classify_execution_status(results: &[SampleResult]) -> (r: RoundExecutionStatus)
    ensures
        r == spec_execution_status(results@),
{
    let mut has_loss = false;
    let mut has_success = false;
    let mut i: usize = 0;
    while i < results.len()
        invariant
            i <= results@.len(),
            has_loss == exists|j: int| 0 <= j < i && !is_response(#[trigger] results@[j].outcome),
            has_success == exists|j: int| 0 <= j < i && is_response(#[trigger] results@[j].outcome),
        decreases results@.len() - i,
    {
        let o = results[i].outcome;
        if o == SampleOutcome::Success || o == SampleOutcome::UnexpectedResponse {
            has_success = true;
        } else {
            has_loss = true;
        }
        i = i + 1;
    }
    if has_loss && has_success {
        RoundExecutionStatus::Partial
    } else {
        RoundExecutionStatus::Complete
    }
}

/// The state of a check after a round: no data for a round that did not
/// run or has no samples; healthy when every sample is healthy, down when
/// every sample is lost, degraded otherwise.
pub open spec fn spec_classify_state(rs: Seq<SampleResult>, status: RoundExecutionStatus) -> Seq<char> {
    match status {
        RoundExecutionStatus::Complete | RoundExecutionStatus::Partial => if rs.len() == 0 {
            "no_data"@
        } else if forall|i: int|
            0 <= i < rs.len() ==> spec_classify_outcome(#[trigger] rs[i].outcome)
                == SampleClassification::HealthyResponse {
            "healthy"@
        } else if forall|i: int|
            0 <= i < rs.len() ==> spec_classify_outcome(#[trigger] rs[i].outcome)
                == SampleClassification::MeasurementLoss {
            "down"@
        } else {
            "degraded"@
        },
        _ => "no_data"@,
    }
}

/// The state name of a check after a round.
pub fn classify_state(results: &[SampleResult], execution_status: RoundExecutionStatus) -> (r: String)
    ensures
        r@ == spec_classify_state(results@, execution_status),
{
    match execution_status {
        RoundExecutionStatus::Complete | RoundExecutionStatus::Partial => {},
        _ => {
            return String::from_str("no_data");
        },
    }
    if results.len() == 0 {
        return String::from_str("no_data");
    }
    let mut all_healthy = true;
    let mut all_lost = true;
    let mut i: usize = 0;
    while i < results.len()
        invariant
            i <= results@.len(),
            all_healthy == forall|j: int|
                0 <= j < i ==> spec_classify_outcome(#[trigger] results@[j].outcome)
                    == SampleClassification::HealthyResponse,
            all_lost == forall|j: int|
                0 <= j < i ==> spec_classify_outcome(#[trigger] results@[j].outcome)
                    == SampleClassification::MeasurementLoss,
        decreases results@.len() - i,
    {
        let c = classify_outcome(&results[i].outcome);
        if c != SampleClassification::HealthyResponse {
            all_healthy = false;
        }
        if c != SampleClassification::MeasurementLoss {
            all_lost = false;
        }
        i = i + 1;
    }
    if all_healthy {
        String::from_str("healthy")
    } else if all_lost {
        String::from_str("down")
    } else {
        String::from_str("degraded")
    }
}

/// The number of successful samples.
pub open spec fn success_count(rs: Seq<SampleResult>) -> nat
    decreases rs.len(),
{
    if rs.len() == 0 {
        0
    } else {
        success_count(rs.drop_last()) + if rs.last().outcome == SampleOutcome::Success {
            1nat
        } else {
            0nat
        }
    }
}

proof fn lemma_success_count_le(rs: Seq<SampleResult>)
    ensures
        success_count(rs) <= rs.len(),
    decreases rs.len(),
{
    if rs.len() > 0 {
        lemma_success_count_le(rs.drop_last());
    }
}

/// A summary of a round: `h/n healthy` with the successful and all
/// samples, or `no samples`.
pub open spec fn spec_outcome_summary(rs: Seq<SampleResult>) -> Seq<char> {
    if rs.len() == 0 {
        "no samples"@
    } else {
        text::decimal(success_count(rs)) + "/"@ + text::decimal(rs.len()) + " healthy"@
    }
}

/// The summary of a round's samples.
pub fn format_outcome_summary(results: &[SampleResult]) -> (r: String)
    ensures
        r@ == spec_outcome_summary(results@),
{
    if results.len() == 0 {
        return String::from_str("no samples");
    }
    let mut healthy: usize = 0;
    let mut i: usize = 0;
    while i < results.len()
        invariant
            i <= results@.len(),
            healthy == success_count(results@.take(i as int)),
            healthy <= i,
        decreases results@.len() - i,
    {
        assert(results@.take(i + 1).drop_last() =~= results@.take(i as int));
        if results[i].outcome == SampleOutcome::Success {
            healthy = healthy + 1;
        }
        i = i + 1;
    }
    assert(results@.take(i as int) =~= results@);
    let mut s = u64_to_decimal(healthy as u64);
    s.append("/");
    s.append(u64_to_decimal(results.len() as u64).as_str());
    s.append(" healthy");
    s
}

/// The latencies of the samples that have one, in nanoseconds, in order.
pub open spec fn latencies_of(rs: Seq<SampleResult>) -> Seq<nat>
    decreases rs.len(),
{
    if rs.len() == 0 {
        Seq::empty()
    } else {
        match rs.last().latency {
            Some(d) => latencies_of(rs.drop_last()).push(duration_nanos(d)),
            None => latencies_of(rs.drop_last()),
        }
    }
}

/// `s` with `x` inserted after the last element no greater than `x`; `s`
/// is in ascending order.
pub open spec fn insert_ascending(s: Seq<nat>, x: nat) -> Seq<nat>
    decreases s.len(),
{
    if s.len() == 0 {
        seq![x]
    } else if s.last() <= x {
        s.push(x)
    } else {
        insert_ascending(s.drop_last(), x).push(s.last())
    }
}

/// `s` in ascending order.
pub open spec fn sort_ascending(s: Seq<nat>) -> Seq<nat>
    decreases s.len(),
{
    if s.len() == 0 {
        Seq::empty()
    } else {
        insert_ascending(sort_ascending(s.drop_last()), s.last())
    }
}

/// The median of a sorted list: the middle element, or for an even length
/// the mean of the two middle elements, rounded down.
pub open spec fn median_of_sorted(s: Seq<nat>) -> nat {
    let mid = s.len() / 2;
    if s.len() % 2 == 0 && mid > 0 {
        (s[mid - 1] + s[mid as int]) / 2
    } else {
        s[mid as int]
    }
}

/// Whether `s` is in ascending order.
pub open spec fn ascending(s: Seq<nat>) -> bool {
    forall|i: int, j: int| 0 <= i <= j < s.len() ==> s[i] <= s[j]
}

proof fn lemma_insert_ascending(s: Seq<nat>, x: nat)
    requires
        ascending(s),
    ensures
        ascending(insert_ascending(s, x)),
        insert_ascending(s, x).len() == s.len() + 1,
        insert_ascending(s, x).to_multiset() == s.to_multiset().insert(x),
    decreases s.len(),
{
    broadcast use vstd::seq_lib::group_to_multiset_ensures;
    if s.len() > 0 {
        if s.last() <= x {
            assert(s.push(x).to_multiset() == s.to_multiset().insert(x));
        } else {
            let d = s.drop_last();
            assert(ascending(d));
            lemma_insert_ascending(d, x);
            let t = insert_ascending(d, x);
            assert forall|i: int, j: int| 0 <= i <= j < t.push(s.last()).len() implies t.push(
                s.last(),
            )[i] <= t.push(s.last())[j] by {
                if j == t.len() {
                    if i < t.len() {
                        assert(t.to_multiset().count(t[i]) > 0);
                        assert(d.to_multiset().insert(x).count(t[i]) > 0);
                        if t[i] != x {
                            assert(d.to_multiset().count(t[i]) > 0);
                            assert(d.contains(t[i]));
                            let k = choose|k: int| 0 <= k < d.len() && d[k] == t[i];
                            assert(s[k] <= s[s.len() - 1]);
                        }
                    }
                }
            }
            assert(s =~= d.push(s.last()));
            assert(t.push(s.last()).to_multiset() == t.to_multiset().insert(s.last()));
            assert(s.to_multiset() == d.to_multiset().insert(s.last()));
            assert(t.push(s.last()).to_multiset() =~= s.to_multiset().insert(x));
        }
    }
}

/// Sorting puts the values in ascending order and keeps each of them.
pub proof fn law_sort_ascending(s: Seq<nat>)
    ensures
        ascending(sort_ascending(s)),
        sort_ascending(s).len() == s.len(),
        sort_ascending(s).to_multiset() == s.to_multiset(),
    decreases s.len(),
{
    broadcast use vstd::seq_lib::group_to_multiset_ensures;
    if s.len() > 0 {
        law_sort_ascending(s.drop_last());
        lemma_insert_ascending(sort_ascending(s.drop_last()), s.last());
        assert(s =~= s.drop_last().push(s.last()));
        assert(s.to_multiset() == s.drop_last().to_multiset().insert(s.last()));
    }
}

fn insert_sorted(v: &mut Vec<u128>, x: u128)
    requires
        ascending(old(v)@.map_values(|n: u128| n as nat)),
    ensures
        final(v)@.map_values(|n: u128| n as nat) == insert_ascending(
            old(v)@.map_values(|n: u128| n as nat),
            x as nat,
        ),
        final(v)@.len() == old(v)@.len() + 1,
{
    let ghost s = v@.map_values(|n: u128| n as nat);
    let mut i: usize = v.len();
    while i > 0 && v[i - 1] > x
        invariant
            i <= v@.len(),
            s == v@.map_values(|n: u128| n as nat),
            forall|j: int| i <= j < s.len() ==> #[trigger] s[j] > x,
        decreases i,
    {
        i = i - 1;
    }
    proof {
        lemma_insert_at(s, x as nat, i as int);
    }
    v.insert(i, x);
    assert(v@.map_values(|n: u128| n as nat) =~= s.take(i as int).push(x as nat) + s.skip(i as int));
}

proof fn lemma_insert_at(s: Seq<nat>, x: nat, i: int)
    requires
        0 <= i <= s.len(),
        forall|j: int| i <= j < s.len() ==> #[trigger] s[j] > x,
        i == 0 || s[i - 1] <= x,
    ensures
        insert_ascending(s, x) == s.take(i).push(x) + s.skip(i),
    decreases s.len() - i,
{
    if s.len() == 0 {
        assert(s.take(i).push(x) + s.skip(i) =~= seq![x]);
    } else if i == s.len() {
        assert(s.take(i).push(x) + s.skip(i) =~= s.push(x));
    } else {
        let d = s.drop_last();
        assert forall|j: int| i <= j < d.len() implies #[trigger] d[j] > x by {
            assert(d[j] == s[j]);
        }
        if i > 0 {
            assert(d[i - 1] == s[i - 1]);
        }
        lemma_insert_at(d, x, i);
        assert((d.take(i).push(x) + d.skip(i)).push(s.last()) =~= s.take(i).push(x) + s.skip(i));
    }
}

/// The median latency of a round's samples in nanoseconds, or `None` when
/// no sample has a latency.
pub fn compute_median_latency(results: &[SampleResult]) -> (r: Option<u128>)
    ensures
        match r {
            Some(m) => latencies_of(results@).len() > 0 && m as nat == median_of_sorted(
                sort_ascending(latencies_of(results@)),
            ),
            None => latencies_of(results@).len() == 0,
        },
{
    let mut sorted: Vec<u128> = Vec::new();
    let mut i: usize = 0;
    while i < results.len()
        invariant
            i <= results@.len(),
            sorted@.map_values(|n: u128| n as nat) == sort_ascending(latencies_of(results@.take(i as int))),
            sorted@.len() == latencies_of(results@.take(i as int)).len(),
            sorted@.len() <= i,
        decreases results@.len() - i,
    {
        assert(results@.take(i + 1).drop_last() =~= results@.take(i as int));
        proof {
            law_sort_ascending(latencies_of(results@.take(i as int)));
        }
        match results[i].latency {
            Some(d) => {
                let n = d.as_nanos();
                insert_sorted(&mut sorted, n);
                proof {
                    let before = latencies_of(results@.take(i as int));
                    assert(results@.take(i + 1).last() == results@[i as int]);
                    assert(latencies_of(results@.take(i + 1)) == before.push(n as nat));
                    assert(before.push(n as nat).drop_last() =~= before);
                    assert(sort_ascending(before.push(n as nat)) == insert_ascending(sort_ascending(before), n as nat));
                }
            },
            None => {
                assert(results@.take(i + 1).last() == results@[i as int]);
            },
        }
        i = i + 1;
    }
    assert(results@.take(i as int) =~= results@);
    if sorted.len() == 0 {
        return None;
    }
    let ghost s = sorted@.map_values(|n: u128| n as nat);
    let mid = sorted.len() / 2;
    if sorted.len() % 2 == 0 && mid > 0 {
        let a = sorted[mid - 1];
        let b = sorted[mid];
        assert(s[mid - 1] == a && s[mid as int] == b);
        Some(a / 2 + b / 2 + (a % 2 + b % 2) / 2)
    } else {
        assert(s[mid as int] == sorted@[mid as int]);
        Some(sorted[mid])
    }
}

/// The statistics of a round.
#[derive(Debug, Clone)]
pub struct RoundStats {
    pub attempted: usize,
    pub latency_bearing: usize,
    pub healthy: usize,
    pub unhealthy: usize,
    pub measurement_loss: usize,
    pub min_latency_ns: Option<u128>,
    pub max_latency_ns: Option<u128>,
    pub sample_blob: Option<Vec<u8>>,
}

/// The number of samples of class `c`.
pub open spec fn count_class(rs: Seq<SampleResult>, c: SampleClassification) -> nat
    decreases rs.len(),
{
    if rs.len() == 0 {
        0
    } else {
        count_class(rs.drop_last(), c) + if spec_classify_outcome(rs.last().outcome) == c {
            1nat
        } else {
            0nat
        }
    }
}

/// The number of responses, healthy or not, that carry a latency.
pub open spec fn count_bearing(rs: Seq<SampleResult>) -> nat
    decreases rs.len(),
{
    if rs.len() == 0 {
        0
    } else {
        count_bearing(rs.drop_last()) + if spec_classify_outcome(rs.last().outcome)
            != SampleClassification::MeasurementLoss && rs.last().latency is Some {
            1nat
        } else {
            0nat
        }
    }
}

/// The smallest value of `s`.
pub open spec fn seq_min(s: Seq<nat>) -> Option<nat>
    decreases s.len(),
{
    if s.len() == 0 {
        None
    } else {
        match seq_min(s.drop_last()) {
            Some(m) => Some(if s.last() < m { s.last() } else { m }),
            None => Some(s.last()),
        }
    }
}

/// The largest value of `s`.
pub open spec fn seq_max(s: Seq<nat>) -> Option<nat>
    decreases s.len(),
{
    if s.len() == 0 {
        None
    } else {
        match seq_max(s.drop_last()) {
            Some(m) => Some(if s.last() > m { s.last() } else { m }),
            None => Some(s.last()),
        }
    }
}

/// The stored record of sample `i`: its index (modulo 2^16), its outcome
/// and class, its latency in nanoseconds (modulo 2^64) as latency and
/// elapsed time, and as metadata the JSON object of its metadata, or else
/// the UTF-8 bytes of its detail.
pub open spec fn record_of(i: int, r: SampleResult) -> SampleRecordView {
    SampleRecordView {
        sample_index: i as u16,
        offset_us: 0,
        outcome: r.outcome,
        classification: spec_classify_outcome(r.outcome),
        latency_ns: match r.latency {
            Some(d) => Some(duration_nanos(d) as u64),
            None => None,
        },
        elapsed_ns: match r.latency {
            Some(d) => Some(duration_nanos(d) as u64),
            None => None,
        },
        metadata: match r.metadata {
            Some(m) => Some(json_object(pairs_view(m@))),
            None => match r.detail {
                Some(d) => Some(vstd::utf8::encode_utf8(d@)),
                None => None,
            },
        },
    }
}

/// The stored records of a round's samples.
pub open spec fn records_of(rs: Seq<SampleResult>) -> Seq<SampleRecordView> {
    Seq::new(rs.len(), |i: int| record_of(i, rs[i]))
}

/// The optional nanoseconds as a natural number.
pub open spec fn opt_nat(o: Option<u128>) -> Option<nat> {
    match o {
        Some(n) => Some(n as nat),
        None => None,
    }
}

fn sample_record(i: usize, r: &SampleResult) -> (rec: SampleRecord)
    ensures
        rec@ == record_of(i as int, *r),
{
    let latency: Option<u64> = match r.latency {
        Some(d) => Some(#[verifier::truncate] (d.as_nanos() as u64)),
        None => None,
    };
    let metadata: Option<Vec<u8>> = match &r.metadata {
        Some(m) => Some(json_object_bytes(m)),
        None => match &r.detail {
            Some(d) => Some(vstd::slice::slice_to_vec(d.as_str().as_bytes())),
            None => None,
        },
    };
    SampleRecord {
        sample_index: #[verifier::truncate] (i as u16),
        offset_us: 0,
        outcome: r.outcome,
        classification: classify_outcome(&r.outcome),
        latency_ns: latency,
        elapsed_ns: latency,
        metadata,
    }
}

/// The statistics of a round with the given sample results.
pub fn compute_round_stats(results: &[SampleResult]) -> (r: RoundStats)
    ensures
        r.attempted == results@.len(),
        r.healthy == count_class(results@, SampleClassification::HealthyResponse),
        r.unhealthy == count_class(results@, SampleClassification::UnhealthyResponse),
        r.measurement_loss == count_class(results@, SampleClassification::MeasurementLoss),
        r.latency_bearing == count_bearing(results@),
        opt_nat(r.min_latency_ns) == seq_min(latencies_of(results@)),
        opt_nat(r.max_latency_ns) == seq_max(latencies_of(results@)),
        match r.sample_blob {
            Some(b) => results@.len() > 0 && b@ == spec_encode_samples(records_of(results@)),
            None => results@.len() == 0,
        },
{
    let mut healthy: usize = 0;
    let mut unhealthy: usize = 0;
    let mut loss: usize = 0;
    let mut bearing: usize = 0;
    let mut min_lat: Option<u128> = None;
    let mut max_lat: Option<u128> = None;
    let mut records: Vec<SampleRecord> = Vec::new();
    let mut i: usize = 0;
    while i < results.len()
        invariant
            i <= results@.len(),
            healthy == count_class(results@.take(i as int), SampleClassification::HealthyResponse),
            unhealthy == count_class(results@.take(i as int), SampleClassification::UnhealthyResponse),
            loss == count_class(results@.take(i as int), SampleClassification::MeasurementLoss),
            bearing == count_bearing(results@.take(i as int)),
            healthy <= i,
            unhealthy <= i,
            loss <= i,
            bearing <= i,
            opt_nat(min_lat) == seq_min(latencies_of(results@.take(i as int))),
            opt_nat(max_lat) == seq_max(latencies_of(results@.take(i as int))),
            record_views(records@) == records_of(results@.take(i as int)),
            records@.len() == i,
        decreases results@.len() - i,
    {
        let ghost pre = results@.take(i as int);
        let ghost post = results@.take(i + 1);
        assert(post.drop_last() =~= pre);
        assert(post.last() == results@[i as int]);
        let r = &results[i];
        let c = classify_outcome(&r.outcome);
        match c {
            SampleClassification::HealthyResponse => {
                healthy = healthy + 1;
                if r.latency.is_some() {
                    bearing = bearing + 1;
                }
            },
            SampleClassification::UnhealthyResponse => {
                unhealthy = unhealthy + 1;
                if r.latency.is_some() {
                    bearing = bearing + 1;
                }
            },
            SampleClassification::MeasurementLoss => {
                loss = loss + 1;
            },
        }
        match r.latency {
            Some(d) => {
                let n = d.as_nanos();
                assert(latencies_of(post) == latencies_of(pre).push(n as nat));
                assert(latencies_of(pre).push(n as nat).drop_last() =~= latencies_of(pre));
                min_lat = Some(
                    match min_lat {
                        Some(m) => if n < m {
                            n
                        } else {
                            m
                        },
                        None => n,
                    },
                );
                max_lat = Some(
                    match max_lat {
                        Some(m) => if n > m {
                            n
                        } else {
                            m
                        },
                        None => n,
                    },
                );
            },
            None => {},
        }
        let rec = sample_record(i, r);
        let ghost old_records = records@;
        records.push(rec);
        assert forall|k: int| 0 <= k < i + 1 implies record_views(records@)[k] == records_of(post)[k] by {
            if k < i {
                assert(records@[k] == old_records[k]);
                assert(record_views(old_records)[k] == records_of(pre)[k]);
                assert(post[k] == pre[k]);
            } else {
                assert(records@[k] == rec);
            }
        }
        assert(record_views(records@) =~= records_of(post));
        i = i + 1;
    }
    assert(results@.take(i as int) =~= results@);
    let sample_blob = if records.len() == 0 {
        None
    } else {
        Some(encode_samples(records.as_slice()))
    };
    RoundStats {
        attempted: results.len(),
        latency_bearing: bearing,
        healthy,
        unhealthy,
        measurement_loss: loss,
        min_latency_ns: min_lat,
        max_latency_ns: max_lat,
        sample_blob,
    }
}

/// The name under which an execution status is stored.
pub open spec fn status_name(s: RoundExecutionStatus) -> Seq<char> {
    match s {
        RoundExecutionStatus::Complete => "complete"@,
        RoundExecutionStatus::Partial => "partial"@,
        RoundExecutionStatus::SkippedOverlap => "skipped_overlap"@,
        RoundExecutionStatus::SkippedBackpressure => "skipped_backpressure"@,
        RoundExecutionStatus::Cancelled => "cancelled"@,
        RoundExecutionStatus::InternalError => "internal_error"@,
    }
}

/// The name under which an execution status is stored.
pub fn execution_status_name(s: RoundExecutionStatus) -> (r: &'static str)
    ensures
        r@ == status_name(s),
{
    match s {
        RoundExecutionStatus::Complete => "complete",
        RoundExecutionStatus::Partial => "partial",
        RoundExecutionStatus::SkippedOverlap => "skipped_overlap",
        RoundExecutionStatus::SkippedBackpressure => "skipped_backpressure",
        RoundExecutionStatus::Cancelled => "cancelled",
        RoundExecutionStatus::InternalError => "internal_error",
    }
}

/// Optional nanoseconds as a stored signed number (modulo 2^64).
pub open spec fn stored_nanos(o: Option<u128>) -> Option<i64> {
    match o {
        Some(n) => Some(n as i64),
        None => None,
    }
}

fn to_stored_nanos(o: Option<u128>) -> (r: Option<i64>)
    ensures
        r == stored_nanos(o),
{
    match o {
        Some(n) => Some(#[verifier::truncate] (n as i64)),
        None => None,
    }
}

/// A round to store.
#[derive(Debug, Clone)]
pub struct InsertRound {
    pub check_internal_id: i64,
    pub observer_internal_id: i64,
    pub scheduled_at: String,
    pub started_at: Option<String>,
    pub finished_at: Option<String>,
    pub execution_status: String,
    pub stop_reason: Option<String>,
    pub configured_samples: i32,
    pub attempted_samples: i32,
    pub latency_bearing_samples: i32,
    pub healthy_samples: i32,
    pub unhealthy_samples: i32,
    pub measurement_loss_samples: i32,
    pub min_latency_ns: Option<i64>,
    pub median_latency_ns: Option<i64>,
    pub max_latency_ns: Option<i64>,
    pub sample_blob: Option<Vec<u8>>,
    pub outcome_summary: Option<String>,
    pub config_generation: Option<String>,
    pub check_revision_id: Option<String>,
}

/// The median latency of a round in nanoseconds, if any sample has one.
pub open spec fn spec_median(rs: Seq<SampleResult>) -> Option<u128> {
    if latencies_of(rs).len() > 0 {
        Some(median_of_sorted(sort_ascending(latencies_of(rs))) as u128)
    } else {
        None
    }
}

/// The round to store for a finished round of a check: its times (as
/// stored texts), execution status and stop reason, the configured number
/// of samples, and the statistics, median latency, sample blob and summary
/// of its sample results; counters and nanoseconds are stored as signed
/// numbers.
pub fn build_insert_round(
    check_internal_id: i64,
    observer_internal_id: i64,
    scheduled_at: &str,
    started_at: &str,
    finished_at: &str,
    execution_status: RoundExecutionStatus,
    stop_reason: Option<String>,
    configured_samples: u32,
    results: &[SampleResult],
) -> (r: InsertRound)
    ensures
        r.check_internal_id == check_internal_id,
        r.observer_internal_id == observer_internal_id,
        r.scheduled_at@ == scheduled_at@,
        r.started_at matches Some(s) && s@ == started_at@,
        r.finished_at matches Some(s) && s@ == finished_at@,
        r.execution_status@ == status_name(execution_status),
        r.stop_reason == stop_reason,
        r.configured_samples == configured_samples as i32,
        r.attempted_samples == results@.len() as i32,
        r.latency_bearing_samples == count_bearing(results@) as i32,
        r.healthy_samples == count_class(results@, SampleClassification::HealthyResponse) as i32,
        r.unhealthy_samples == count_class(results@, SampleClassification::UnhealthyResponse) as i32,
        r.measurement_loss_samples == count_class(results@, SampleClassification::MeasurementLoss) as i32,
        opt_nat_i64(r.min_latency_ns, seq_min(latencies_of(results@))),
        r.median_latency_ns == stored_nanos(spec_median(results@)),
        opt_nat_i64(r.max_latency_ns, seq_max(latencies_of(results@))),
        match r.sample_blob {
            Some(b) => results@.len() > 0 && b@ == spec_encode_samples(records_of(results@)),
            None => results@.len() == 0,
        },
        r.outcome_summary matches Some(s) && s@ == spec_outcome_summary(results@),
        r.config_generation is None,
        r.check_revision_id is None,
{
    let stats = compute_round_stats(results);
    let median = compute_median_latency(results);
    let summary = format_outcome_summary(results);
    InsertRound {
        check_internal_id,
        observer_internal_id,
        scheduled_at: String::from_str(scheduled_at),
        started_at: Some(String::from_str(started_at)),
        finished_at: Some(String::from_str(finished_at)),
        execution_status: String::from_str(execution_status_name(execution_status)),
        stop_reason,
        configured_samples: #[verifier::truncate] (configured_samples as i32),
        attempted_samples: #[verifier::truncate] (stats.attempted as i32),
        latency_bearing_samples: #[verifier::truncate] (stats.latency_bearing as i32),
        healthy_samples: #[verifier::truncate] (stats.healthy as i32),
        unhealthy_samples: #[verifier::truncate] (stats.unhealthy as i32),
        measurement_loss_samples: #[verifier::truncate] (stats.measurement_loss as i32),
        min_latency_ns: to_stored_nanos(stats.min_latency_ns),
        median_latency_ns: to_stored_nanos(median),
        max_latency_ns: to_stored_nanos(stats.max_latency_ns),
        sample_blob: stats.sample_blob,
        outcome_summary: Some(summary),
        config_generation: None,
        check_revision_id: None,
    }
}

/// Whether a stored optional nanosecond value is the given optional
/// latency, modulo 2^64.
pub open spec fn opt_nat_i64(stored: Option<i64>, v: Option<nat>) -> bool {
    match (stored, v) {
        (Some(s), Some(n)) => s == n as i64,
        (None, None) => true,
        _ => false,
    }
}

} // verus!
