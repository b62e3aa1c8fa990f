//! Aggregation of the rounds of one bucket into a rollup row.
use vstd::prelude::*;

use crate::alerts::{lemma_record_all_shape, record_all, record_latencies, sum_of};
use crate::histogram::{empty_histogram, spec_encode, Histogram, HistogramView};
use crate::json::{counts_json, json_counts};
use crate::kinds::SampleOutcome;
use crate::rows::RoundRow;
use crate::sample_blob::{decode_samples, record_views, spec_decode_samples, SampleRecord, SampleRecordView};
use crate::text::str_eq;

verus! {

broadcast use vstd::string::group_string_axioms;

/// The records that a round's sample blob holds; none when it has no blob
/// or the blob does not decode.
pub open spec fn blob_records(b: Option<Vec<u8>>) -> Seq<SampleRecordView> {
    match b {
        Some(v) => match spec_decode_samples(v@) {
            Ok(rs) => rs,
            Err(_) => Seq::empty(),
        },
        None => Seq::empty(),
    }
}

/// The records of all rounds, round by round.
pub open spec fn round_records(rs: Seq<RoundRow>) -> Seq<SampleRecordView>
    decreases rs.len(),
{
    if rs.len() == 0 {
        Seq::empty()
    } else {
        round_records(rs.drop_last()) + blob_records(rs.last().sample_blob)
    }
}

/// The decoded sample records of all rounds, round by round.
pub fn decoded_records(rounds: &[RoundRow]) -> (r: Vec<SampleRecord>)
    ensures
        record_views(r@) == round_records(rounds@),
{
    let mut out: Vec<SampleRecord> = Vec::new();
    let mut i: usize = 0;
    while i < rounds.len()
        invariant
            i <= rounds@.len(),
            record_views(out@) == round_records(rounds@.take(i as int)),
        decreases rounds@.len() - i,
    {
        assert(rounds@.take(i + 1).drop_last() =~= rounds@.take(i as int));
        assert(rounds@.take(i + 1).last() == rounds@[i as int]);
        match &rounds[i].sample_blob {
            Some(blob) => match decode_samples(blob.as_slice()) {
                Ok(mut recs) => {
                    let ghost before = out@;
                    let ghost added = recs@;
                    out.append(&mut recs);
                    assert(record_views(out@) =~= record_views(before) + record_views(added));
                },
                Err(_) => {
                    assert(round_records(rounds@.take(i + 1)) =~= round_records(rounds@.take(i as int)));
                },
            },
            None => {
                assert(round_records(rounds@.take(i + 1)) =~= round_records(rounds@.take(i as int)));
            },
        }
        i = i + 1;
    }
    assert(rounds@.take(i as int) =~= rounds@);
    out
}

/// The position of the entry for `k` in a list of counted keys, searching
/// from the end.
pub open spec fn find_key(t: Seq<(Seq<char>, i64)>, k: Seq<char>) -> Option<int>
    decreases t.len(),
{
    if t.len() == 0 {
        None
    } else if t.last().0 == k {
        Some(t.len() - 1)
    } else {
        find_key(t.drop_last(), k)
    }
}

/// `t` with one more occurrence of `k` counted.
pub open spec fn tally_step(t: Seq<(Seq<char>, i64)>, k: Seq<char>) -> Seq<(Seq<char>, i64)> {
    match find_key(t, k) {
        Some(j) => t.update(j, (k, (t[j].1 + 1) as i64)),
        None => t.push((k, 1)),
    }
}

/// Each distinct key of `keys` with its number of occurrences, in the order
/// of first occurrence.
pub open spec fn tally(keys: Seq<Seq<char>>) -> Seq<(Seq<char>, i64)>
    decreases keys.len(),
{
    if keys.len() == 0 {
        Seq::empty()
    } else {
        tally_step(tally(keys.drop_last()), keys.last())
    }
}

proof fn lemma_find_key(t: Seq<(Seq<char>, i64)>, k: Seq<char>)
    ensures
        find_key(t, k) matches Some(j) ==> 0 <= j < t.len() && t[j].0 == k,
        find_key(t, k) is None ==> forall|j: int| 0 <= j < t.len() ==> t[j].0 != k,
    decreases t.len(),
{
    if t.len() > 0 && t.last().0 != k {
        let d = t.drop_last();
        lemma_find_key(d, k);
        assert forall|j: int| 0 <= j < d.len() implies d[j] == t[j] by {}
    }
}

/// Every count of a tally is at least one and at most the number of keys.
pub proof fn lemma_tally_bounds(keys: Seq<Seq<char>>)
    requires
        keys.len() <= i64::MAX,
    ensures
        forall|j: int| 0 <= j < tally(keys).len() ==> 1 <= #[trigger] tally(keys)[j].1 <= keys.len(),
        tally(keys).len() <= keys.len(),
    decreases keys.len(),
{
    if keys.len() > 0 {
        let d = keys.drop_last();
        lemma_tally_bounds(d);
        lemma_find_key(tally(d), keys.last());
    }
}

/// The views of counted keys.
pub open spec fn counts_view(v: Seq<(String, i64)>) -> Seq<(Seq<char>, i64)> {
    Seq::new(v.len(), |i: int| (v[i].0@, v[i].1))
}

/// Counts one more occurrence of `key`.
fn tally_add(acc: &mut Vec<(String, i64)>, key: &str)
    requires
        find_key(counts_view(old(acc)@), key@) matches Some(j) ==> counts_view(old(acc)@)[j].1 < i64::MAX,
    ensures
        counts_view(final(acc)@) == tally_step(counts_view(old(acc)@), key@),
{
    let ghost t = counts_view(acc@);
    let mut j: usize = acc.len();
    assert(t.take(j as int) =~= t);
    while j > 0
        invariant
            j <= acc@.len(),
            t == counts_view(acc@),
            t == counts_view(old(acc)@),
            find_key(t, key@) == find_key(t.take(j as int), key@),
            find_key(t, key@) matches Some(k) ==> t[k].1 < i64::MAX,
        decreases j,
    {
        assert(t.take(j as int).last() == t[j - 1]);
        if str_eq(acc[j - 1].0.as_str(), key) {
            assert(t[j - 1].0 == key@);
            assert(find_key(t.take(j as int), key@) == Some((j - 1) as int));
            assert(find_key(t, key@) == Some((j - 1) as int));
            let c = acc[j - 1].1;
            let mut v: Vec<(String, i64)> = Vec::new();
            std::mem::swap(&mut v, acc);
            v.set(j - 1, (String::from_str(key), c + 1));
            *acc = v;
            assert(counts_view(acc@) =~= t.update(j - 1, (key@, (t[j - 1].1 + 1) as i64)));
            return;
        }
        assert(t.take(j as int).drop_last() =~= t.take(j - 1));
        j = j - 1;
    }
    assert(t.take(0) =~= Seq::<(Seq<char>, i64)>::empty());
    acc.push((String::from_str(key), 1));
    assert(counts_view(acc@) =~= t.push((key@, 1)));
}

/// The execution statuses of the rounds that did not complete, fully or
/// partly, in order.
pub open spec fn other_statuses(rs: Seq<RoundRow>) -> Seq<Seq<char>>
    decreases rs.len(),
{
    if rs.len() == 0 {
        Seq::empty()
    } else {
        let s = rs.last().execution_status@;
        if s == "complete"@ || s == "partial"@ {
            other_statuses(rs.drop_last())
        } else {
            other_statuses(rs.drop_last()).push(s)
        }
    }
}

/// The number of rounds with the execution status `s`.
pub open spec fn status_count(rs: Seq<RoundRow>, s: Seq<char>) -> nat
    decreases rs.len(),
{
    if rs.len() == 0 {
        0
    } else {
        status_count(rs.drop_last(), s) + if rs.last().execution_status@ == s {
            1nat
        } else {
            0nat
        }
    }
}

/// The rounds that completed, that completed partly, and the counts of
/// the other execution statuses.
fn count_statuses(rounds: &[RoundRow]) -> (r: (i64, i64, Vec<(String, i64)>))
    requires
        rounds@.len() <= i64::MAX,
    ensures
        r.0 == status_count(rounds@, "complete"@),
        r.1 == status_count(rounds@, "partial"@),
        counts_view(r.2@) == tally(other_statuses(rounds@)),
{
    let mut completed: i64 = 0;
    let mut partial: i64 = 0;
    let mut others: Vec<(String, i64)> = Vec::new();
    let mut i: usize = 0;
    while i < rounds.len()
        invariant
            i <= rounds@.len() <= i64::MAX,
            completed == status_count(rounds@.take(i as int), "complete"@),
            partial == status_count(rounds@.take(i as int), "partial"@),
            completed + partial <= i,
            other_statuses(rounds@.take(i as int)).len() <= i,
            counts_view(others@) == tally(other_statuses(rounds@.take(i as int))),
        decreases rounds@.len() - i,
    {
        let ghost pre = rounds@.take(i as int);
        assert(rounds@.take(i + 1).drop_last() =~= pre);
        assert(rounds@.take(i + 1).last() == rounds@[i as int]);
        let s = rounds[i].execution_status.as_str();
        proof {
            reveal_strlit("complete");
            reveal_strlit("partial");
        }
        assert(rounds@.take(i + 1).last().execution_status@ == s@);
        if str_eq(s, "complete") {
            completed = completed + 1;
        } else if str_eq(s, "partial") {
            assert(s@ != "complete"@);
            partial = partial + 1;
        } else {
            assert(s@ != "complete"@ && s@ != "partial"@);
            assert(other_statuses(rounds@.take(i + 1)) == other_statuses(pre).push(s@));
            assert(other_statuses(pre).push(s@).drop_last() =~= other_statuses(pre));
            proof {
                lemma_tally_bounds(other_statuses(pre));
                lemma_find_key(tally(other_statuses(pre)), s@);
            }
            tally_add(&mut others, s);
        }
        i = i + 1;
    }
    assert(rounds@.take(i as int) =~= rounds@);
    (completed, partial, others)
}

/// The name under which a sample outcome is counted: the variant's name.
pub open spec fn outcome_name(o: SampleOutcome) -> Seq<char> {
    match o {
        SampleOutcome::Success => "Success"@,
        SampleOutcome::Timeout => "Timeout"@,
        SampleOutcome::DnsError => "DnsError"@,
        SampleOutcome::NetworkUnreachable => "NetworkUnreachable"@,
        SampleOutcome::ConnectionRefused => "ConnectionRefused"@,
        SampleOutcome::ConnectionReset => "ConnectionReset"@,
        SampleOutcome::TlsError => "TlsError"@,
        SampleOutcome::ProtocolError => "ProtocolError"@,
        SampleOutcome::UnexpectedResponse => "UnexpectedResponse"@,
        SampleOutcome::PermissionDenied => "PermissionDenied"@,
        SampleOutcome::Cancelled => "Cancelled"@,
        SampleOutcome::InternalError => "InternalError"@,
    }
}

/// The name under which a sample outcome is counted.
pub fn outcome_variant_name(o: SampleOutcome) -> (r: &'static str)
    ensures
        r@ == outcome_name(o),
{
    match o {
        SampleOutcome::Success => "Success",
        SampleOutcome::Timeout => "Timeout",
        SampleOutcome::DnsError => "DnsError",
        SampleOutcome::NetworkUnreachable => "NetworkUnreachable",
        SampleOutcome::ConnectionRefused => "ConnectionRefused",
        SampleOutcome::ConnectionReset => "ConnectionReset",
        SampleOutcome::TlsError => "TlsError",
        SampleOutcome::ProtocolError => "ProtocolError",
        SampleOutcome::UnexpectedResponse => "UnexpectedResponse",
        SampleOutcome::PermissionDenied => "PermissionDenied",
        SampleOutcome::Cancelled => "Cancelled",
        SampleOutcome::InternalError => "InternalError",
    }
}

/// The outcome names of the records, in order.
pub open spec fn outcome_keys(recs: Seq<SampleRecordView>) -> Seq<Seq<char>> {
    Seq::new(recs.len(), |i: int| outcome_name(recs[i].outcome))
}

/// The sum of the latencies that the records carry, in nanoseconds.
pub open spec fn latency_sum(recs: Seq<SampleRecordView>) -> int
    decreases recs.len(),
{
    if recs.len() == 0 {
        0
    } else {
        latency_sum(recs.drop_last()) + match recs.last().latency_ns {
            Some(l) => l as int,
            None => 0int,
        }
    }
}

proof fn lemma_latency_prefix(recs: Seq<SampleRecordView>, j: int)
    requires
        0 <= j <= recs.len(),
    ensures
        0 <= latency_sum(recs.take(j)) <= latency_sum(recs),
        record_latencies(recs.take(j)).len() <= j,
    decreases recs.len() - j,
{
    lemma_latency_nonneg(recs.take(j));
    lemma_latencies_len(recs.take(j));
    if j < recs.len() {
        lemma_latency_prefix(recs, j + 1);
        assert(recs.take(j + 1).drop_last() =~= recs.take(j));
        assert(latency_sum(recs.take(j + 1)) >= latency_sum(recs.take(j)));
    } else {
        assert(recs.take(j) =~= recs);
    }
}

proof fn lemma_latency_nonneg(recs: Seq<SampleRecordView>)
    ensures
        latency_sum(recs) >= 0,
    decreases recs.len(),
{
    if recs.len() > 0 {
        lemma_latency_nonneg(recs.drop_last());
    }
}

proof fn lemma_latencies_len(recs: Seq<SampleRecordView>)
    ensures
        record_latencies(recs).len() <= recs.len(),
    decreases recs.len(),
{
    if recs.len() > 0 {
        lemma_latencies_len(recs.drop_last());
    }
}

/// What the records of a bucket give: the histogram of their latencies,
/// the sum of their latencies, and the counts of their outcome names.
fn summarize_records(recs: &Vec<SampleRecord>) -> (r: (Histogram, i64, Vec<(String, i64)>))
    requires
        recs@.len() <= i64::MAX,
        latency_sum(record_views(recs@)) <= i64::MAX,
    ensures
        r.0@ == record_all(empty_histogram(), record_latencies(record_views(recs@))),
        r.1 == latency_sum(record_views(recs@)),
        counts_view(r.2@) == tally(outcome_keys(record_views(recs@))),
{
    let ghost rv = record_views(recs@);
    let mut h = Histogram::new();
    let mut total: i64 = 0;
    let mut counts: Vec<(String, i64)> = Vec::new();
    let mut j: usize = 0;
    assert(outcome_keys(rv).take(0) =~= Seq::<Seq<char>>::empty());
    while j < recs.len()
        invariant
            j <= recs@.len() <= i64::MAX,
            rv == record_views(recs@),
            rv.len() == recs@.len(),
            latency_sum(rv) <= i64::MAX,
            h@ == record_all(empty_histogram(), record_latencies(rv.take(j as int))),
            total == latency_sum(rv.take(j as int)),
            counts_view(counts@) == tally(outcome_keys(rv).take(j as int)),
        decreases recs@.len() - j,
    {
        let ghost pre = rv.take(j as int);
        assert(rv.take(j + 1).drop_last() =~= pre);
        assert(rv[j as int] == recs@[j as int]@);
        proof {
            lemma_latency_prefix(rv, j + 1);
            lemma_latency_prefix(rv, j as int);
            lemma_record_all_shape(record_latencies(pre));
        }
        match recs[j].latency_ns {
            Some(l) => {
                proof {
                    crate::histogram::lemma_value_to_bin_range(l);
                    let vs = record_latencies(pre);
                    assert(record_latencies(rv.take(j + 1)) == vs.push(l));
                    assert(vs.push(l).drop_last() =~= vs);
                }
                h.record(l);
                total = total + l as i64;
            },
            None => {},
        }
        let name = outcome_variant_name(recs[j].outcome);
        let ghost keys = outcome_keys(rv);
        assert(keys.take(j + 1).drop_last() =~= keys.take(j as int));
        assert(keys.take(j + 1).last() == name@);
        proof {
            lemma_tally_bounds(keys.take(j as int));
            lemma_find_key(tally(keys.take(j as int)), name@);
        }
        tally_add(&mut counts, name);
        j = j + 1;
    }
    assert(rv.take(j as int) =~= rv);
    assert(outcome_keys(rv).take(j as int) =~= outcome_keys(rv));
    (h, total, counts)
}

/// A counter of a round: 0 the configured samples, 1 the attempted, 2 the
/// latency-bearing, 3 the healthy, 4 the unhealthy, and otherwise the
/// samples lost to measurement.
pub open spec fn round_field(r: RoundRow, which: u8) -> i32 {
    if which == 0 {
        r.configured_samples
    } else if which == 1 {
        r.attempted_samples
    } else if which == 2 {
        r.latency_bearing_samples
    } else if which == 3 {
        r.healthy_samples
    } else if which == 4 {
        r.unhealthy_samples
    } else {
        r.measurement_loss_samples
    }
}

/// The sum of one counter over rounds.
pub open spec fn field_total(rs: Seq<RoundRow>, which: u8) -> int
    decreases rs.len(),
{
    if rs.len() == 0 {
        0
    } else {
        field_total(rs.drop_last(), which) + round_field(rs.last(), which) as int
    }
}

pub(crate) fn sum_field(rounds: &[RoundRow], which: u8) -> (r: i64)
    requires
        rounds@.len() <= u32::MAX,
    ensures
        r == field_total(rounds@, which),
{
    let mut total: i64 = 0;
    let mut i: usize = 0;
    while i < rounds.len()
        invariant
            i <= rounds@.len() <= u32::MAX,
            total == field_total(rounds@.take(i as int), which),
            -(i as int) * 2147483648 <= total <= (i as int) * 2147483647,
        decreases rounds@.len() - i,
    {
        let r = &rounds[i];
        let v: i32 = if which == 0 {
            r.configured_samples
        } else if which == 1 {
            r.attempted_samples
        } else if which == 2 {
            r.latency_bearing_samples
        } else if which == 3 {
            r.healthy_samples
        } else if which == 4 {
            r.unhealthy_samples
        } else {
            r.measurement_loss_samples
        };
        assert(rounds@.take(i + 1).drop_last() =~= rounds@.take(i as int));
        assert(v == round_field(rounds@[i as int], which));
        assert(-(i as int) * 2147483648 - 2147483648 >= -9223372036854775808) by (nonlinear_arith)
            requires
                i <= u32::MAX,
        ;
        assert((i as int) * 2147483647 + 2147483647 <= 9223372036854775807) by (nonlinear_arith)
            requires
                i <= u32::MAX,
        ;
        total = total + v as i64;
        i = i + 1;
    }
    assert(rounds@.take(i as int) =~= rounds@);
    total
}

/// The smaller of an optional running minimum and a new value.
pub open spec fn min_with(acc: Option<i64>, v: i64) -> Option<i64> {
    match acc {
        Some(m) => Some(if v < m { v } else { m }),
        None => Some(v),
    }
}

/// The larger of an optional running maximum and a new value.
pub open spec fn max_with(acc: Option<i64>, v: i64) -> Option<i64> {
    match acc {
        Some(m) => Some(if v > m { v } else { m }),
        None => Some(v),
    }
}

/// The smallest minimum latency of the rounds that have one.
pub open spec fn rounds_min_latency(rs: Seq<RoundRow>) -> Option<i64>
    decreases rs.len(),
{
    if rs.len() == 0 {
        None
    } else {
        match rs.last().min_latency_ns {
            Some(v) => min_with(rounds_min_latency(rs.drop_last()), v),
            None => rounds_min_latency(rs.drop_last()),
        }
    }
}

/// The largest maximum latency of the rounds that have one.
pub open spec fn rounds_max_latency(rs: Seq<RoundRow>) -> Option<i64>
    decreases rs.len(),
{
    if rs.len() == 0 {
        None
    } else {
        match rs.last().max_latency_ns {
            Some(v) => max_with(rounds_max_latency(rs.drop_last()), v),
            None => rounds_max_latency(rs.drop_last()),
        }
    }
}

pub(crate) fn latency_extremes(rounds: &[RoundRow]) -> (r: (Option<i64>, Option<i64>))
    ensures
        r.0 == rounds_min_latency(rounds@),
        r.1 == rounds_max_latency(rounds@),
{
    let mut lo: Option<i64> = None;
    let mut hi: Option<i64> = None;
    let mut i: usize = 0;
    while i < rounds.len()
        invariant
            i <= rounds@.len(),
            lo == rounds_min_latency(rounds@.take(i as int)),
            hi == rounds_max_latency(rounds@.take(i as int)),
        decreases rounds@.len() - i,
    {
        assert(rounds@.take(i + 1).drop_last() =~= rounds@.take(i as int));
        assert(rounds@.take(i + 1).last() == rounds@[i as int]);
        if let Some(v) = rounds[i].min_latency_ns {
            lo = Some(
                match lo {
                    Some(m) => if v < m {
                        v
                    } else {
                        m
                    },
                    None => v,
                },
            );
        }
        if let Some(v) = rounds[i].max_latency_ns {
            hi = Some(
                match hi {
                    Some(m) => if v > m {
                        v
                    } else {
                        m
                    },
                    None => v,
                },
            );
        }
        i = i + 1;
    }
    assert(rounds@.take(i as int) =~= rounds@);
    (lo, hi)
}

/// A rollup bucket to store: the rounds of one check and observer within
/// one bucket of a resolution, summed.
#[derive(Debug, Clone)]
pub struct InsertRollup {
    pub check_internal_id: i64,
    pub observer_internal_id: i64,
    pub resolution_seconds: i64,
    pub bucket_start: String,
    pub scheduled_rounds: i64,
    pub completed_rounds: i64,
    pub partial_rounds: i64,
    pub configured_sample_slots: i64,
    pub attempted_samples: i64,
    pub latency_bearing_samples: i64,
    pub healthy_samples: i64,
    pub unhealthy_samples: i64,
    pub measurement_loss_samples: i64,
    pub outcome_counts: String,
    pub min_latency_ns: Option<i64>,
    pub max_latency_ns: Option<i64>,
    pub sum_latency_ns: i64,
    pub histogram_version: i64,
    pub histogram_blob: Option<Vec<u8>>,
    pub no_data_counts: String,
}

/// The histogram of the latencies that the rounds' samples carry.
pub open spec fn bucket_histogram(rs: Seq<RoundRow>) -> HistogramView {
    record_all(empty_histogram(), record_latencies(round_records(rs)))
}

/// Whether `r` is the rollup of `rounds` in the bucket starting at
/// `bucket_start` of a resolution, for a check and an observer: the number
/// of rounds, of complete and of partial ones, the sums of their sample
/// counters, the smallest and largest latency, the sum of the sample
/// latencies, the encoded histogram of those latencies (none when there
/// are none), and as JSON objects the counts of the samples' outcomes and
/// of the execution statuses of the rounds that did not complete.
pub open spec fn is_rollup_of(
    r: InsertRollup,
    check_internal_id: i64,
    observer_internal_id: i64,
    resolution_seconds: i64,
    bucket_start: Seq<char>,
    rounds: Seq<RoundRow>,
) -> bool {
    &&& r.check_internal_id == check_internal_id
    &&& r.observer_internal_id == observer_internal_id
    &&& r.resolution_seconds == resolution_seconds
    &&& r.bucket_start@ == bucket_start
    &&& r.scheduled_rounds == rounds.len()
    &&& r.completed_rounds == status_count(rounds, "complete"@)
    &&& r.partial_rounds == status_count(rounds, "partial"@)
    &&& r.configured_sample_slots == field_total(rounds, 0)
    &&& r.attempted_samples == field_total(rounds, 1)
    &&& r.latency_bearing_samples == field_total(rounds, 2)
    &&& r.healthy_samples == field_total(rounds, 3)
    &&& r.unhealthy_samples == field_total(rounds, 4)
    &&& r.measurement_loss_samples == field_total(rounds, 5)
    &&& r.outcome_counts@ == json_counts(tally(outcome_keys(round_records(rounds))))
    &&& r.min_latency_ns == rounds_min_latency(rounds)
    &&& r.max_latency_ns == rounds_max_latency(rounds)
    &&& r.sum_latency_ns == latency_sum(round_records(rounds))
    &&& r.histogram_version == 1
    &&& match r.histogram_blob {
        Some(b) => bucket_histogram(rounds).count > 0 && b@ == spec_encode(bucket_histogram(rounds)),
        None => bucket_histogram(rounds).count == 0,
    }
    &&& r.no_data_counts@ == json_counts(tally(other_statuses(rounds)))
}

/// The rollup of the rounds of one bucket: the number of rounds, of
/// complete and of partial ones, the sums of their sample counters, the
/// smallest and largest latency, the sum of the sample latencies, the
/// encoded histogram of those latencies (none when there are none), and as
/// JSON objects the counts of the samples' outcomes and of the execution
/// statuses of the rounds that did not complete.
pub fn aggregate_bucket(
    check_internal_id: i64,
    observer_internal_id: i64,
    resolution_seconds: i64,
    bucket_start: &str,
    rounds: &[RoundRow],
) -> (r: InsertRollup)
    requires
        rounds@.len() <= u32::MAX,
        round_records(rounds@).len() <= i64::MAX,
        latency_sum(round_records(rounds@)) <= i64::MAX,
    ensures
        is_rollup_of(r, check_internal_id, observer_internal_id, resolution_seconds, bucket_start@, rounds@),
{
    let (completed, partial, others) = count_statuses(rounds);
    let (min_latency_ns, max_latency_ns) = latency_extremes(rounds);
    let recs = decoded_records(rounds);
    let (histogram, sum_latency_ns, outcomes) = summarize_records(&recs);
    let histogram_blob = if histogram.count() > 0 {
        Some(histogram.encode())
    } else {
        None
    };
    InsertRollup {
        check_internal_id,
        observer_internal_id,
        resolution_seconds,
        bucket_start: String::from_str(bucket_start),
        scheduled_rounds: rounds.len() as i64,
        completed_rounds: completed,
        partial_rounds: partial,
        configured_sample_slots: sum_field(rounds, 0),
        attempted_samples: sum_field(rounds, 1),
        latency_bearing_samples: sum_field(rounds, 2),
        healthy_samples: sum_field(rounds, 3),
        unhealthy_samples: sum_field(rounds, 4),
        measurement_loss_samples: sum_field(rounds, 5),
        outcome_counts: counts_json(&outcomes),
        min_latency_ns,
        max_latency_ns,
        sum_latency_ns,
        histogram_version: 1,
        histogram_blob,
        no_data_counts: counts_json(&others),
    }
}

/// The histogram of the latencies that the records carry.
pub(crate) fn records_histogram(recs: &Vec<SampleRecord>) -> (h: Histogram)
    requires
        recs@.len() <= i64::MAX,
    ensures
        h@ == record_all(empty_histogram(), record_latencies(record_views(recs@))),
{
    let ghost rv = record_views(recs@);
    let mut h = Histogram::new();
    let mut j: usize = 0;
    while j < recs.len()
        invariant
            j <= recs@.len() <= i64::MAX,
            rv == record_views(recs@),
            rv.len() == recs@.len(),
            h@ == record_all(empty_histogram(), record_latencies(rv.take(j as int))),
        decreases recs@.len() - j,
    {
        let ghost pre = rv.take(j as int);
        assert(rv.take(j + 1).drop_last() =~= pre);
        assert(rv[j as int] == recs@[j as int]@);
        proof {
            lemma_latency_prefix(rv, j as int);
            lemma_record_all_shape(record_latencies(pre));
        }
        if let Some(l) = recs[j].latency_ns {
            proof {
                crate::histogram::lemma_value_to_bin_range(l);
                let vs = record_latencies(pre);
                assert(record_latencies(rv.take(j + 1)) == vs.push(l));
                assert(vs.push(l).drop_last() =~= vs);
            }
            h.record(l);
        }
        j = j + 1;
    }
    assert(rv.take(j as int) =~= rv);
    h
}

/// Aggregating the same rounds again gives the same rollup.
pub proof fn law_aggregate_idempotent(
    a: InsertRollup,
    b: InsertRollup,
    check_internal_id: i64,
    observer_internal_id: i64,
    resolution_seconds: i64,
    bucket_start: Seq<char>,
    rounds: Seq<RoundRow>,
)
    requires
        is_rollup_of(a, check_internal_id, observer_internal_id, resolution_seconds, bucket_start, rounds),
        is_rollup_of(b, check_internal_id, observer_internal_id, resolution_seconds, bucket_start, rounds),
    ensures
        a.scheduled_rounds == b.scheduled_rounds,
        a.completed_rounds == b.completed_rounds,
        a.partial_rounds == b.partial_rounds,
        a.configured_sample_slots == b.configured_sample_slots,
        a.attempted_samples == b.attempted_samples,
        a.latency_bearing_samples == b.latency_bearing_samples,
        a.healthy_samples == b.healthy_samples,
        a.unhealthy_samples == b.unhealthy_samples,
        a.measurement_loss_samples == b.measurement_loss_samples,
        a.outcome_counts@ == b.outcome_counts@,
        a.min_latency_ns == b.min_latency_ns,
        a.max_latency_ns == b.max_latency_ns,
        a.sum_latency_ns == b.sum_latency_ns,
        a.no_data_counts@ == b.no_data_counts@,
        match (a.histogram_blob, b.histogram_blob) {
            (Some(x), Some(y)) => x@ == y@,
            (None, None) => true,
            _ => false,
        },
{
}

proof fn lemma_field_sums(rs: Seq<RoundRow>)
    ensures
        field_total(rs, 0) == sum_of(rs, |x: RoundRow| x.configured_samples),
        field_total(rs, 1) == sum_of(rs, |x: RoundRow| x.attempted_samples),
        field_total(rs, 2) == sum_of(rs, |x: RoundRow| x.latency_bearing_samples),
        field_total(rs, 3) == sum_of(rs, |x: RoundRow| x.healthy_samples),
        field_total(rs, 4) == sum_of(rs, |x: RoundRow| x.unhealthy_samples),
        field_total(rs, 5) == sum_of(rs, |x: RoundRow| x.measurement_loss_samples),
    decreases rs.len(),
{
    if rs.len() > 0 {
        lemma_field_sums(rs.drop_last());
    }
}

proof fn lemma_status_count(rs: Seq<RoundRow>, st: Seq<char>, f: spec_fn(RoundRow) -> bool)
    requires
        forall|x: RoundRow| #[trigger] f(x) == (x.execution_status@ == st),
    ensures
        status_count(rs, st) == rs.filter(f).len(),
    decreases rs.len(),
{
    reveal(Seq::filter);
    if rs.len() > 0 {
        lemma_status_count(rs.drop_last(), st, f);
        assert(f(rs.last()) == (rs.last().execution_status@ == st));
    }
}

proof fn lemma_latency_extremes(rs: Seq<RoundRow>)
    ensures
        forall|k: int|
            0 <= k < rs.len() && (#[trigger] rs[k]).min_latency_ns is Some ==> (rounds_min_latency(rs) matches Some(
                m,
            ) && m <= rs[k].min_latency_ns->0),
        forall|k: int|
            0 <= k < rs.len() && (#[trigger] rs[k]).max_latency_ns is Some ==> (rounds_max_latency(rs) matches Some(
                m,
            ) && m >= rs[k].max_latency_ns->0),
        rounds_min_latency(rs) matches Some(m) ==> exists|k: int|
            0 <= k < rs.len() && (#[trigger] rs[k]).min_latency_ns == Some(m),
        rounds_max_latency(rs) matches Some(m) ==> exists|k: int|
            0 <= k < rs.len() && (#[trigger] rs[k]).max_latency_ns == Some(m),
        rounds_min_latency(rs) is None <==> forall|k: int| 0 <= k < rs.len() ==> (#[trigger] rs[k]).min_latency_ns is None,
        rounds_max_latency(rs) is None <==> forall|k: int| 0 <= k < rs.len() ==> (#[trigger] rs[k]).max_latency_ns is None,
    decreases rs.len(),
{
    if rs.len() > 0 {
        let pre = rs.drop_last();
        lemma_latency_extremes(pre);
        assert forall|k: int| 0 <= k < pre.len() implies #[trigger] pre[k] == rs[k] by {}
        let n = rs.len() - 1;
        assert forall|k: int|
            0 <= k < rs.len() && (#[trigger] rs[k]).min_latency_ns is Some implies (rounds_min_latency(rs) matches Some(
                m,
            ) && m <= rs[k].min_latency_ns->0) by {
            if k < n {
                assert(pre[k] == rs[k]);
            }
        }
        assert forall|k: int|
            0 <= k < rs.len() && (#[trigger] rs[k]).max_latency_ns is Some implies (rounds_max_latency(rs) matches Some(
                m,
            ) && m >= rs[k].max_latency_ns->0) by {
            if k < n {
                assert(pre[k] == rs[k]);
            }
        }
        if let Some(m) = rounds_min_latency(rs) {
            if let Some(p) = rounds_min_latency(pre) {
                if rs[n].min_latency_ns != Some(m) {
                    let k = choose|k: int| 0 <= k < pre.len() && (#[trigger] pre[k]).min_latency_ns == Some(p);
                    assert(rs[k] == pre[k]);
                }
            }
        }
        if let Some(m) = rounds_max_latency(rs) {
            if let Some(p) = rounds_max_latency(pre) {
                if rs[n].max_latency_ns != Some(m) {
                    let k = choose|k: int| 0 <= k < pre.len() && (#[trigger] pre[k]).max_latency_ns == Some(p);
                    assert(rs[k] == pre[k]);
                }
            }
        }
        if rounds_min_latency(rs) is None {
            assert forall|k: int| 0 <= k < rs.len() implies (#[trigger] rs[k]).min_latency_ns is None by {
                if k < n {
                    assert(pre[k] == rs[k]);
                }
            }
        }
        if rounds_max_latency(rs) is None {
            assert forall|k: int| 0 <= k < rs.len() implies (#[trigger] rs[k]).max_latency_ns is None by {
                if k < n {
                    assert(pre[k] == rs[k]);
                }
            }
        }
        if forall|k: int| 0 <= k < rs.len() ==> (#[trigger] rs[k]).min_latency_ns is None {
            assert(rs[n].min_latency_ns is None);
            assert forall|k: int| 0 <= k < pre.len() implies (#[trigger] pre[k]).min_latency_ns is None by {
                assert(rs[k].min_latency_ns is None);
            }
        }
        if forall|k: int| 0 <= k < rs.len() ==> (#[trigger] rs[k]).max_latency_ns is None {
            assert(rs[n].max_latency_ns is None);
            assert forall|k: int| 0 <= k < pre.len() implies (#[trigger] pre[k]).max_latency_ns is None by {
                assert(rs[k].max_latency_ns is None);
            }
        }
    }
}

/// A rollup counts the rounds of its bucket and sums each of their sample
/// counters into the counter of the same name; it counts the rounds that
/// completed and those that completed partly by their execution status;
/// and its smallest and largest latency are the least of the rounds'
/// minimum latencies and the greatest of their maximum latencies, none
/// when no round has one.
pub proof fn law_rollup_sums_rounds(
    r: InsertRollup,
    check_internal_id: i64,
    observer_internal_id: i64,
    resolution_seconds: i64,
    bucket_start: Seq<char>,
    rounds: Seq<RoundRow>,
)
    requires
        is_rollup_of(r, check_internal_id, observer_internal_id, resolution_seconds, bucket_start, rounds),
    ensures
        r.scheduled_rounds == rounds.len(),
        r.configured_sample_slots == sum_of(rounds, |x: RoundRow| x.configured_samples),
        r.attempted_samples == sum_of(rounds, |x: RoundRow| x.attempted_samples),
        r.latency_bearing_samples == sum_of(rounds, |x: RoundRow| x.latency_bearing_samples),
        r.healthy_samples == sum_of(rounds, |x: RoundRow| x.healthy_samples),
        r.unhealthy_samples == sum_of(rounds, |x: RoundRow| x.unhealthy_samples),
        r.measurement_loss_samples == sum_of(rounds, |x: RoundRow| x.measurement_loss_samples),
        r.completed_rounds == rounds.filter(|x: RoundRow| x.execution_status@ == "complete"@).len(),
        r.partial_rounds == rounds.filter(|x: RoundRow| x.execution_status@ == "partial"@).len(),
        forall|k: int|
            0 <= k < rounds.len() && (#[trigger] rounds[k]).min_latency_ns is Some ==> (r.min_latency_ns matches Some(
                m,
            ) && m <= rounds[k].min_latency_ns->0),
        forall|k: int|
            0 <= k < rounds.len() && (#[trigger] rounds[k]).max_latency_ns is Some ==> (r.max_latency_ns matches Some(
                m,
            ) && m >= rounds[k].max_latency_ns->0),
        r.min_latency_ns matches Some(m) ==> exists|k: int|
            0 <= k < rounds.len() && (#[trigger] rounds[k]).min_latency_ns == Some(m),
        r.max_latency_ns matches Some(m) ==> exists|k: int|
            0 <= k < rounds.len() && (#[trigger] rounds[k]).max_latency_ns == Some(m),
        r.min_latency_ns is None <==> forall|k: int| 0 <= k < rounds.len() ==> (#[trigger] rounds[k]).min_latency_ns is None,
        r.max_latency_ns is None <==> forall|k: int| 0 <= k < rounds.len() ==> (#[trigger] rounds[k]).max_latency_ns is None,
{
    lemma_field_sums(rounds);
    lemma_status_count(rounds, "complete"@, |x: RoundRow| x.execution_status@ == "complete"@);
    lemma_status_count(rounds, "partial"@, |x: RoundRow| x.execution_status@ == "partial"@);
    lemma_latency_extremes(rounds);
}

} // verus!
