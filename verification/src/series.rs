//! The integer parts of the points of a check's series: the sample
//! counters, latency extremes and latency histogram of a bucket, taken
//! from raw rounds or from a rollup, or merged from finer points.
use vstd::prelude::*;

use crate::alerts::{record_all, record_latencies};
use crate::api::{bad_request, rfc3339_millis, timestamp_millis, ApiError};
use crate::histogram::{empty_histogram, spec_decode, Histogram};
use crate::rollup::{
    bucket_histogram, decoded_records, field_total, max_with, min_with, records_histogram, round_records,
    rounds_max_latency, rounds_min_latency, sum_field,
};
use crate::rows::{RollupRow, RoundRow};
use crate::sample_blob::record_views;
use crate::text::{starts_with, str_eq, str_starts_with};

verus! {

broadcast use vstd::string::group_string_axioms;

/// The sample counters, latency extremes (in microseconds) and latency
/// histogram of one bucket of a series.
#[derive(Debug, Clone)]
pub struct SeriesCounts {
    pub timestamp_ms: i64,
    pub bucket_status: String,
    pub rounds_count: usize,
    pub attempted: i64,
    pub latency_bearing: i64,
    pub healthy: i64,
    pub unhealthy: i64,
    pub measurement_lost: i64,
    pub min_latency_us: Option<i64>,
    pub max_latency_us: Option<i64>,
    pub histogram_bins: Vec<u64>,
}

/// The abstract content of `SeriesCounts`.
pub ghost struct SeriesCountsView {
    pub timestamp_ms: i64,
    pub bucket_status: Seq<char>,
    pub rounds_count: nat,
    pub attempted: i64,
    pub latency_bearing: i64,
    pub healthy: i64,
    pub unhealthy: i64,
    pub measurement_lost: i64,
    pub min_latency_us: Option<i64>,
    pub max_latency_us: Option<i64>,
    pub histogram_bins: Seq<u64>,
}

impl View for SeriesCounts {
    type V = SeriesCountsView;

    open spec fn view(&self) -> SeriesCountsView {
        SeriesCountsView {
            timestamp_ms: self.timestamp_ms,
            bucket_status: self.bucket_status@,
            rounds_count: self.rounds_count as nat,
            attempted: self.attempted,
            latency_bearing: self.latency_bearing,
            healthy: self.healthy,
            unhealthy: self.unhealthy,
            measurement_lost: self.measurement_lost,
            min_latency_us: self.min_latency_us,
            max_latency_us: self.max_latency_us,
            histogram_bins: self.histogram_bins@,
        }
    }
}

/// `a` divided by `d`, rounded toward zero.
pub open spec fn div_toward_zero(a: int, d: int) -> int {
    if a >= 0 {
        a / d
    } else {
        -((-a) / d)
    }
}

/// Optional nanoseconds as microseconds, rounded toward zero.
pub open spec fn micros_of(o: Option<i64>) -> Option<i64> {
    match o {
        Some(v) => Some(div_toward_zero(v as int, 1000) as i64),
        None => None,
    }
}

fn to_micros(o: Option<i64>) -> (r: Option<i64>)
    ensures
        r == micros_of(o),
{
    match o {
        Some(v) => {
            let w: i128 = v as i128;
            let q: i128 = if w >= 0 {
                w / 1000
            } else {
                -((-w) / 1000)
            };
            Some(q as i64)
        },
        None => None,
    }
}

/// The empty point of a bucket with no rounds: missing, with zero counters
/// and an empty histogram.
pub fn empty_series_counts(timestamp_ms: i64) -> (r: SeriesCounts)
    ensures
        r@ == (SeriesCountsView {
            timestamp_ms,
            bucket_status: "missing"@,
            rounds_count: 0,
            attempted: 0,
            latency_bearing: 0,
            healthy: 0,
            unhealthy: 0,
            measurement_lost: 0,
            min_latency_us: None,
            max_latency_us: None,
            histogram_bins: Seq::new(98, |i: int| 0u64),
        }),
{
    let mut bins: Vec<u64> = Vec::new();
    let n = Histogram::num_bins();
    while bins.len() < n
        invariant
            n == 98,
            bins@.len() <= 98,
            forall|i: int| 0 <= i < bins@.len() ==> bins@[i] == 0,
        decreases 98 - bins@.len(),
    {
        bins.push(0);
    }
    assert(bins@ =~= Seq::new(98, |i: int| 0u64));
    SeriesCounts {
        timestamp_ms,
        bucket_status: String::from_str("missing"),
        rounds_count: 0,
        attempted: 0,
        latency_bearing: 0,
        healthy: 0,
        unhealthy: 0,
        measurement_lost: 0,
        min_latency_us: None,
        max_latency_us: None,
        histogram_bins: bins,
    }
}

/// Whether a round was skipped or cancelled.
pub open spec fn not_run(r: RoundRow) -> bool {
    starts_with(r.execution_status@, "skipped"@) || r.execution_status@ == "cancelled"@
}

/// Whether every round was skipped or cancelled.
pub open spec fn all_not_run(rs: Seq<RoundRow>) -> bool {
    forall|i: int| 0 <= i < rs.len() ==> not_run(#[trigger] rs[i])
}

fn none_ran(rounds: &[RoundRow]) -> (r: bool)
    ensures
        r == all_not_run(rounds@),
{
    let mut i: usize = 0;
    while i < rounds.len()
        invariant
            i <= rounds@.len(),
            forall|k: int| 0 <= k < i ==> not_run(#[trigger] rounds@[k]),
        decreases rounds@.len() - i,
    {
        let s = rounds[i].execution_status.as_str();
        if !(str_starts_with(s, "skipped") || str_eq(s, "cancelled")) {
            return false;
        }
        i = i + 1;
    }
    true
}

/// The latencies of the records as signed nanoseconds, in order.
pub open spec fn signed_latencies(v: Seq<u64>) -> Seq<i64> {
    Seq::new(v.len(), |i: int| v[i] as i64)
}

/// The point of a bucket from its raw rounds, and the latencies of their
/// samples in order as signed nanoseconds: skipped when every round was
/// skipped or cancelled, observed otherwise; the summed counters; the
/// smallest and largest round latency in microseconds; and the histogram
/// of the sample latencies.
pub fn raw_rounds_counts(timestamp_ms: i64, rounds: &[RoundRow]) -> (r: (SeriesCounts, Vec<i64>))
    requires
        rounds@.len() <= u32::MAX,
        round_records(rounds@).len() <= i64::MAX,
    ensures
        r.0.timestamp_ms == timestamp_ms,
        r.0.bucket_status@ == (if all_not_run(rounds@) {
            "skipped"@
        } else {
            "observed"@
        }),
        r.0.rounds_count == rounds@.len(),
        r.0.attempted == field_total(rounds@, 1),
        r.0.latency_bearing == field_total(rounds@, 2),
        r.0.healthy == field_total(rounds@, 3),
        r.0.unhealthy == field_total(rounds@, 4),
        r.0.measurement_lost == field_total(rounds@, 5),
        r.0.min_latency_us == micros_of(rounds_min_latency(rounds@)),
        r.0.max_latency_us == micros_of(rounds_max_latency(rounds@)),
        r.0.histogram_bins@ == bucket_histogram(rounds@).bins,
        r.1@ == signed_latencies(record_latencies(round_records(rounds@))),
{
    let recs = decoded_records(rounds);
    let histogram = records_histogram(&recs);
    let ghost rv = record_views(recs@);
    let mut latencies: Vec<i64> = Vec::new();
    let mut j: usize = 0;
    while j < recs.len()
        invariant
            j <= recs@.len(),
            rv == record_views(recs@),
            rv.len() == recs@.len(),
            latencies@ == signed_latencies(record_latencies(rv.take(j as int))),
        decreases recs@.len() - j,
    {
        assert(rv.take(j + 1).drop_last() =~= rv.take(j as int));
        assert(rv[j as int] == recs@[j as int]@);
        if let Some(l) = recs[j].latency_ns {
            let ghost before = latencies@;
            latencies.push(#[verifier::truncate] (l as i64));
            assert(latencies@ =~= signed_latencies(record_latencies(rv.take(j + 1))));
        } else {
            assert(record_latencies(rv.take(j + 1)) == record_latencies(rv.take(j as int)));
        }
        j = j + 1;
    }
    assert(rv.take(j as int) =~= rv);
    let (lo, hi) = crate::rollup::latency_extremes(rounds);
    let status = if none_ran(rounds) {
        String::from_str("skipped")
    } else {
        String::from_str("observed")
    };
    let bins = vstd::slice::slice_to_vec(histogram.bins().as_slice());
    let counts = SeriesCounts {
        timestamp_ms,
        bucket_status: status,
        rounds_count: rounds.len(),
        attempted: sum_field(rounds, 1),
        latency_bearing: sum_field(rounds, 2),
        healthy: sum_field(rounds, 3),
        unhealthy: sum_field(rounds, 4),
        measurement_lost: sum_field(rounds, 5),
        min_latency_us: to_micros(lo),
        max_latency_us: to_micros(hi),
        histogram_bins: bins,
    };
    (counts, latencies)
}

/// The histogram a rollup stores: its decoded histogram blob, empty when
/// it has none or it does not decode.
pub open spec fn rollup_histogram_bins(r: RollupRow) -> Seq<u64> {
    match r.histogram_blob {
        Some(b) => match spec_decode(b@) {
            Some(h) => h.bins,
            None => empty_histogram().bins,
        },
        None => empty_histogram().bins,
    }
}

/// The point of a bucket from its rollup: at the bucket's start (zero when
/// it does not read as a time), skipped when no round completed fully or
/// partly, observed otherwise; its counters; its latency extremes in
/// microseconds; and its histogram.
pub fn rollup_counts(r: &RollupRow) -> (p: SeriesCounts)
    ensures
        p.timestamp_ms == (match crate::api::rfc3339_millis(r.bucket_start@) {
            Some(m) => m,
            None => 0,
        }),
        p.bucket_status@ == (if r.completed_rounds + r.partial_rounds == 0 {
            "skipped"@
        } else {
            "observed"@
        }),
        p.rounds_count == r.scheduled_rounds as usize,
        p.attempted == r.attempted_samples,
        p.latency_bearing == r.latency_bearing_samples,
        p.healthy == r.healthy_samples,
        p.unhealthy == r.unhealthy_samples,
        p.measurement_lost == r.measurement_loss_samples,
        p.min_latency_us == micros_of(r.min_latency_ns),
        p.max_latency_us == micros_of(r.max_latency_ns),
        p.histogram_bins@ == rollup_histogram_bins(*r),
{
    let histogram = match &r.histogram_blob {
        Some(b) => match Histogram::decode(b.as_slice()) {
            Some(h) => h,
            None => Histogram::default(),
        },
        None => Histogram::default(),
    };
    let rounds_done: i128 = r.completed_rounds as i128 + r.partial_rounds as i128;
    SeriesCounts {
        timestamp_ms: timestamp_millis(r.bucket_start.as_str()),
        bucket_status: if rounds_done == 0 {
            String::from_str("skipped")
        } else {
            String::from_str("observed")
        },
        rounds_count: #[verifier::truncate] (r.scheduled_rounds as usize),
        attempted: r.attempted_samples,
        latency_bearing: r.latency_bearing_samples,
        healthy: r.healthy_samples,
        unhealthy: r.unhealthy_samples,
        measurement_lost: r.measurement_loss_samples,
        min_latency_us: to_micros(r.min_latency_ns),
        max_latency_us: to_micros(r.max_latency_ns),
        histogram_bins: vstd::slice::slice_to_vec(histogram.bins().as_slice()),
    }
}

/// A counter of a point: 0 the attempted samples, 1 the latency-bearing,
/// 2 the healthy, 3 the unhealthy, and otherwise those lost to
/// measurement.
pub open spec fn point_field(p: SeriesCountsView, which: u8) -> i64 {
    if which == 0 {
        p.attempted
    } else if which == 1 {
        p.latency_bearing
    } else if which == 2 {
        p.healthy
    } else if which == 3 {
        p.unhealthy
    } else {
        p.measurement_lost
    }
}

/// The sum of one counter over points.
pub open spec fn points_total(ps: Seq<SeriesCountsView>, which: u8) -> int
    decreases ps.len(),
{
    if ps.len() == 0 {
        0
    } else {
        points_total(ps.drop_last(), which) + point_field(ps.last(), which) as int
    }
}

/// The number of rounds over points.
pub open spec fn rounds_total(ps: Seq<SeriesCountsView>) -> int
    decreases ps.len(),
{
    if ps.len() == 0 {
        0
    } else {
        rounds_total(ps.drop_last()) + ps.last().rounds_count
    }
}

/// `a + b`, or the largest `u64` when that overflows.
pub open spec fn sat_add(a: u64, b: u64) -> u64 {
    if a + b > u64::MAX {
        u64::MAX
    } else {
        (a + b) as u64
    }
}

/// The count of bin `k` over points, added with saturation; a point
/// without that bin adds nothing.
pub open spec fn bin_total(ps: Seq<SeriesCountsView>, k: int) -> u64
    decreases ps.len(),
{
    if ps.len() == 0 {
        0
    } else {
        sat_add(
            bin_total(ps.drop_last(), k),
            if k < ps.last().histogram_bins.len() {
                ps.last().histogram_bins[k]
            } else {
                0
            },
        )
    }
}

/// The smallest minimum latency of the points that have one.
pub open spec fn points_min(ps: Seq<SeriesCountsView>) -> Option<i64>
    decreases ps.len(),
{
    if ps.len() == 0 {
        None
    } else {
        match ps.last().min_latency_us {
            Some(v) => min_with(points_min(ps.drop_last()), v),
            None => points_min(ps.drop_last()),
        }
    }
}

/// The largest maximum latency of the points that have one.
pub open spec fn points_max(ps: Seq<SeriesCountsView>) -> Option<i64>
    decreases ps.len(),
{
    if ps.len() == 0 {
        None
    } else {
        match ps.last().max_latency_us {
            Some(v) => max_with(points_max(ps.drop_last()), v),
            None => points_max(ps.drop_last()),
        }
    }
}

/// Whether some point has the bucket status `s`.
pub open spec fn some_status(ps: Seq<SeriesCountsView>, s: Seq<char>) -> bool {
    exists|i: int| 0 <= i < ps.len() && (#[trigger] ps[i]).bucket_status == s
}

/// The views of a list of points.
pub open spec fn points_view(v: Seq<SeriesCounts>) -> Seq<SeriesCountsView> {
    Seq::new(v.len(), |i: int| v[i]@)
}

/// Whether every prefix sum of the counters and of the rounds fits the
/// stored types.
pub open spec fn sums_fit(ps: Seq<SeriesCountsView>) -> bool {
    &&& forall|n: int, w: u8|
        0 <= n <= ps.len() && w < 5 ==> i64::MIN <= #[trigger] points_total(ps.take(n), w) <= i64::MAX
    &&& forall|n: int| 0 <= n <= ps.len() ==> #[trigger] rounds_total(ps.take(n)) <= usize::MAX
}

fn clone_counts(p: &SeriesCounts) -> (r: SeriesCounts)
    ensures
        r@ == p@,
{
    SeriesCounts {
        timestamp_ms: p.timestamp_ms,
        bucket_status: p.bucket_status.clone(),
        rounds_count: p.rounds_count,
        attempted: p.attempted,
        latency_bearing: p.latency_bearing,
        healthy: p.healthy,
        unhealthy: p.unhealthy,
        measurement_lost: p.measurement_lost,
        min_latency_us: p.min_latency_us,
        max_latency_us: p.max_latency_us,
        histogram_bins: p.histogram_bins.clone(),
    }
}

fn points_status(points: &[SeriesCounts], s: &str) -> (r: bool)
    ensures
        r == some_status(points_view(points@), s@),
{
    let ghost pv = points_view(points@);
    let mut i: usize = 0;
    while i < points.len()
        invariant
            i <= points@.len(),
            pv == points_view(points@),
            forall|k: int| 0 <= k < i ==> (#[trigger] pv[k]).bucket_status != s@,
        decreases points@.len() - i,
    {
        assert(pv[i as int] == points@[i as int]@);
        if str_eq(points[i].bucket_status.as_str(), s) {
            return true;
        }
        i = i + 1;
    }
    false
}

fn add_bins(bins: &mut Vec<u64>, other: &Vec<u64>)
    requires
        old(bins)@.len() == 98,
    ensures
        final(bins)@.len() == 98,
        forall|q: int|
            0 <= q < 98 ==> final(bins)@[q] == sat_add(
                old(bins)@[q],
                if q < other@.len() {
                    other@[q]
                } else {
                    0
                },
            ),
{
    let mut k: usize = 0;
    while k < 98 && k < other.len()
        invariant
            k <= 98,
            bins@.len() == 98,
            forall|q: int|
                0 <= q < k ==> bins@[q] == sat_add(
                    old(bins)@[q],
                    if q < other@.len() {
                        other@[q]
                    } else {
                        0
                    },
                ),
            forall|q: int| k <= q < 98 ==> bins@[q] == old(bins)@[q],
        decreases 98 - k,
    {
        let a = bins[k];
        let b = other[k];
        let v = if a > u64::MAX - b {
            u64::MAX
        } else {
            a + b
        };
        bins.set(k, v);
        k = k + 1;
    }
}

/// The point of a coarser bucket made of finer points: a single point as
/// it is; otherwise at the first point's time, observed when any point is,
/// else skipped when any point is, else missing, with the counters summed,
/// the extremes of the latency extremes, and the histograms added bin by
/// bin with saturation.
pub fn merge_series_counts(points: &[SeriesCounts]) -> (r: SeriesCounts)
    requires
        points@.len() >= 1,
        sums_fit(points_view(points@)),
    ensures
        points@.len() == 1 ==> r@ == points@[0]@,
        points@.len() > 1 ==> {
            let pv = points_view(points@);
            &&& r.timestamp_ms == points@[0].timestamp_ms
            &&& r.bucket_status@ == (if some_status(pv, "observed"@) {
                "observed"@
            } else if some_status(pv, "skipped"@) {
                "skipped"@
            } else {
                "missing"@
            })
            &&& r.rounds_count == rounds_total(pv)
            &&& r.attempted == points_total(pv, 0)
            &&& r.latency_bearing == points_total(pv, 1)
            &&& r.healthy == points_total(pv, 2)
            &&& r.unhealthy == points_total(pv, 3)
            &&& r.measurement_lost == points_total(pv, 4)
            &&& r.min_latency_us == points_min(pv)
            &&& r.max_latency_us == points_max(pv)
            &&& r.histogram_bins@ == Seq::new(98, |k: int| bin_total(pv, k))
        },
{
    if points.len() == 1 {
        return clone_counts(&points[0]);
    }
    let ghost pv = points_view(points@);
    let mut merged = empty_series_counts(points[0].timestamp_ms);
    merged.bucket_status = if points_status(points, "observed") {
        String::from_str("observed")
    } else if points_status(points, "skipped") {
        String::from_str("skipped")
    } else {
        String::from_str("missing")
    };
    let mut i: usize = 0;
    while i < points.len()
        invariant
            i <= points@.len(),
            pv == points_view(points@),
            sums_fit(pv),
            merged.timestamp_ms == points@[0].timestamp_ms,
            merged.rounds_count == rounds_total(pv.take(i as int)),
            merged.attempted == points_total(pv.take(i as int), 0),
            merged.latency_bearing == points_total(pv.take(i as int), 1),
            merged.healthy == points_total(pv.take(i as int), 2),
            merged.unhealthy == points_total(pv.take(i as int), 3),
            merged.measurement_lost == points_total(pv.take(i as int), 4),
            merged.min_latency_us == points_min(pv.take(i as int)),
            merged.max_latency_us == points_max(pv.take(i as int)),
            merged.histogram_bins@.len() == 98,
            forall|k: int| 0 <= k < 98 ==> merged.histogram_bins@[k] == bin_total(pv.take(i as int), k),
            merged.bucket_status@ == (if some_status(pv, "observed"@) {
                "observed"@
            } else if some_status(pv, "skipped"@) {
                "skipped"@
            } else {
                "missing"@
            }),
        decreases points@.len() - i,
    {
        let ghost pre = pv.take(i as int);
        let ghost next = pv.take(i + 1);
        assert(next.drop_last() =~= pre);
        assert(next.last() == points@[i as int]@);
        let p = &points[i];
        assert(i64::MIN <= points_total(next, 0) <= i64::MAX);
        assert(i64::MIN <= points_total(next, 1) <= i64::MAX);
        assert(i64::MIN <= points_total(next, 2) <= i64::MAX);
        assert(i64::MIN <= points_total(next, 3) <= i64::MAX);
        assert(i64::MIN <= points_total(next, 4) <= i64::MAX);
        assert(rounds_total(next) <= usize::MAX);
        merged.rounds_count = merged.rounds_count + p.rounds_count;
        merged.attempted = merged.attempted + p.attempted;
        merged.latency_bearing = merged.latency_bearing + p.latency_bearing;
        merged.healthy = merged.healthy + p.healthy;
        merged.unhealthy = merged.unhealthy + p.unhealthy;
        merged.measurement_lost = merged.measurement_lost + p.measurement_lost;
        if let Some(v) = p.min_latency_us {
            merged.min_latency_us = Some(
                match merged.min_latency_us {
                    Some(m) => if v < m {
                        v
                    } else {
                        m
                    },
                    None => v,
                },
            );
        }
        if let Some(v) = p.max_latency_us {
            merged.max_latency_us = Some(
                match merged.max_latency_us {
                    Some(m) => if v > m {
                        v
                    } else {
                        m
                    },
                    None => v,
                },
            );
        }
        add_bins(&mut merged.histogram_bins, &p.histogram_bins);
        assert forall|q: int| 0 <= q < 98 implies merged.histogram_bins@[q] == bin_total(next, q) by {
            assert(bin_total(next, q) == sat_add(
                bin_total(pre, q),
                if q < p.histogram_bins@.len() {
                    p.histogram_bins@[q]
                } else {
                    0
                },
            ));
        }
        i = i + 1;
    }
    assert(pv.take(i as int) =~= pv);
    assert(merged.histogram_bins@ =~= Seq::new(98, |k: int| bin_total(pv, k)));
    merged
}

/// The range and size of a series asked for: from and to, in milliseconds
/// since the epoch, and at most how many points (1000 when absent).
#[derive(Debug, Clone)]
pub struct SeriesQuery {
    pub from_ms: Option<i64>,
    pub to_ms: Option<i64>,
    pub max_points: Option<u32>,
}

/// Whether `chrono::DateTime::from_timestamp_millis` can represent the
/// instant `millis` milliseconds from the Unix epoch: from the first
/// millisecond of January 1 of the year -262143 to the last of December 31
/// of the year 262142, the range of chrono's dates.
pub open spec fn millis_representable(millis: i64) -> bool {
    -8_334_601_228_800_000 <= millis <= 8_210_266_876_799_999
}

/// `chrono::DateTime::from_timestamp_millis`: whether the instant can be
/// represented, which chrono's source bounds by the range of its dates,
/// the years -262143 to 262142.
#[verifier::external_body]
pub(crate) fn millis_in_range(millis: i64) -> (r: bool)
    ensures
        r == millis_representable(millis),
{
    chrono::DateTime::from_timestamp_millis(millis).is_some()
}

/// The error for a series query, if it has one: the number of points must
/// be from 1 to 5000, `from_ms` and then `to_ms` must be given and
/// representable, and the range must not be empty.
pub open spec fn series_query_error(q: SeriesQuery) -> Option<Seq<char>> {
    let max_points = match q.max_points {
        Some(m) => m,
        None => 1000,
    };
    if !(1 <= max_points <= 5000) {
        Some("max_points must be between 1 and 5000"@)
    } else if q.from_ms is None {
        Some("missing 'from_ms' parameter"@)
    } else if !millis_representable(q.from_ms->0) {
        Some("invalid 'from_ms' parameter"@)
    } else if q.to_ms is None {
        Some("missing 'to_ms' parameter"@)
    } else if !millis_representable(q.to_ms->0) {
        Some("invalid 'to_ms' parameter"@)
    } else if q.from_ms->0 >= q.to_ms->0 {
        Some("from_ms must be less than to_ms"@)
    } else {
        None
    }
}

/// Checks a series query: its number of points and its range, from and
/// to, or the bad request that answers it.
pub fn check_series_query(q: &SeriesQuery) -> (r: Result<(u32, i64, i64), ApiError>)
    ensures
        match series_query_error(*q) {
            Some(m) => r matches Err(e) && e.code@ == "bad_request"@ && e.message@ == m,
            None => r == Ok::<(u32, i64, i64), ApiError>(
                (match q.max_points { Some(m) => m, None => 1000u32 }, q.from_ms->0, q.to_ms->0),
            ),
        },
{
    let max_points = match q.max_points {
        Some(m) => m,
        None => 1000,
    };
    if !(1 <= max_points && max_points <= 5000) {
        return Err(bad_request("max_points must be between 1 and 5000"));
    }
    let from = match q.from_ms {
        None => return Err(bad_request("missing 'from_ms' parameter")),
        Some(f) => f,
    };
    if !millis_in_range(from) {
        return Err(bad_request("invalid 'from_ms' parameter"));
    }
    let to = match q.to_ms {
        None => return Err(bad_request("missing 'to_ms' parameter")),
        Some(t) => t,
    };
    if !millis_in_range(to) {
        return Err(bad_request("invalid 'to_ms' parameter"));
    }
    if from >= to {
        return Err(bad_request("from_ms must be less than to_ms"));
    }
    Ok((max_points, from, to))
}

/// Where the points of a series come from: raw rounds with exact
/// quantiles, or rollups of five minutes or of an hour with approximate
/// quantiles.
#[derive(Debug, Clone, Copy, PartialEq, Eq, Structural)]
pub enum SeriesSource {
    Raw,
    FiveMinuteRollups,
    HourlyRollups,
}

/// The whole seconds of a range, at least one.
pub open spec fn spec_range_seconds(from_ms: i64, to_ms: i64) -> int {
    let s = (to_ms - from_ms) / 1000;
    if s < 1 {
        1
    } else {
        s
    }
}

/// The source of a series of at most `max_points` points over a range of
/// `range_secs` seconds that holds `raw_count` raw rounds: the raw rounds
/// if there are at most one and a half times as many as points, else the
/// five-minute rollups if there are no more of those, else the hourly
/// ones.
pub open spec fn spec_series_source(raw_count: u64, range_secs: u64, max_points: u32) -> SeriesSource {
    let threshold = (max_points * 3) / 2;
    if raw_count <= threshold {
        SeriesSource::Raw
    } else if range_secs / 300 <= threshold {
        SeriesSource::FiveMinuteRollups
    } else {
        SeriesSource::HourlyRollups
    }
}

/// The whole seconds between `from_ms` and `to_ms`, at least one.
pub fn range_seconds(from_ms: i64, to_ms: i64) -> (r: u64)
    requires
        from_ms < to_ms,
    ensures
        r == spec_range_seconds(from_ms, to_ms),
{
    let span = (to_ms as i128) - (from_ms as i128);
    let s = span / 1000;
    if s < 1 {
        1
    } else {
        s as u64
    }
}

/// The source of a series.
pub fn series_source(raw_count: u64, range_secs: u64, max_points: u32) -> (r: SeriesSource)
    ensures
        r == spec_series_source(raw_count, range_secs, max_points),
{
    let threshold = (max_points as u64 * 3) / 2;
    if raw_count <= threshold {
        SeriesSource::Raw
    } else if range_secs / 300 <= threshold {
        SeriesSource::FiveMinuteRollups
    } else {
        SeriesSource::HourlyRollups
    }
}

/// The seconds of a bucket of a source (none for raw rounds) and the names
/// of the source and of its quantiles.
pub fn source_names(s: SeriesSource) -> (r: (i64, &'static str, &'static str))
    ensures
        r.0 == (match s { SeriesSource::Raw => 0i64, SeriesSource::FiveMinuteRollups => 300i64, SeriesSource::HourlyRollups => 3600i64 }),
        r.1@ == (match s { SeriesSource::Raw => "raw"@, _ => "rollup"@ }),
        r.2@ == (match s { SeriesSource::Raw => "exact"@, _ => "approximate"@ }),
{
    match s {
        SeriesSource::Raw => (0, "raw", "exact"),
        SeriesSource::FiveMinuteRollups => (300, "rollup", "approximate"),
        SeriesSource::HourlyRollups => (3600, "rollup", "approximate"),
    }
}

/// An alert event on a series' timeline.
#[derive(Debug, Clone)]
pub struct SeriesAlertEvent {
    pub timestamp_ms: i64,
    pub event_type: String,
    pub rule_id: String,
}

/// A change of a check's revision on a series' timeline.
#[derive(Debug, Clone)]
pub struct SeriesRevisionMarker {
    pub timestamp_ms: i64,
    pub revision_id: String,
}

/// The milliseconds of a stored timestamp, zero where it does not parse.
pub open spec fn stored_millis(t: Seq<char>) -> i64 {
    match rfc3339_millis(t) {
        Some(m) => m,
        None => 0,
    }
}

/// The alert events of stored (time, event type, rule) rows, in order.
#[verifier::spinoff_prover]
pub fn series_alert_events(rows: Vec<(String, String, String)>) -> (r: Vec<SeriesAlertEvent>)
    ensures
        r@.len() == rows@.len(),
        forall|i: int|
            0 <= i < rows@.len() ==> {
                &&& #[trigger] r@[i].timestamp_ms == stored_millis(rows@[i].0@)
                &&& r@[i].event_type@ == rows@[i].1@
                &&& r@[i].rule_id@ == rows@[i].2@
            },
{
    let ghost orig = rows@;
    let mut rest = rows;
    let mut out: Vec<SeriesAlertEvent> = Vec::new();
    while rest.len() > 0
        invariant
            out@.len() + rest@.len() == orig.len(),
            forall|j: int| 0 <= j < rest@.len() ==> #[trigger] rest@[j] == orig[out@.len() + j],
            forall|i: int|
                0 <= i < out@.len() ==> {
                    &&& #[trigger] out@[i].timestamp_ms == stored_millis(orig[i].0@)
                    &&& out@[i].event_type@ == orig[i].1@
                    &&& out@[i].rule_id@ == orig[i].2@
                },
        decreases rest@.len(),
    {
        let ghost before = rest@;
        let (t, kind, rule) = rest.remove(0);
        assert(before[0] == orig[out@.len() as int]);
        let e = SeriesAlertEvent { timestamp_ms: timestamp_millis(t.as_str()), event_type: kind, rule_id: rule };
        out.push(e);
        assert forall|j: int| 0 <= j < rest@.len() implies #[trigger] rest@[j] == orig[out@.len() + j] by {
            assert(rest@[j] == before[j + 1]);
        }
    }
    assert(out@.len() == orig.len());
    assert forall|i: int| 0 <= i < rows@.len() implies {
        &&& #[trigger] out@[i].timestamp_ms == stored_millis(rows@[i].0@)
        &&& out@[i].event_type@ == rows@[i].1@
        &&& out@[i].rule_id@ == rows@[i].2@
    } by {
        assert(out@[i].timestamp_ms == stored_millis(orig[i].0@));
    }
    out
}

/// The revision markers of stored (time, revision) rows, in order.
#[verifier::spinoff_prover]
pub fn series_revision_markers(rows: Vec<(String, String)>) -> (r: Vec<SeriesRevisionMarker>)
    ensures
        r@.len() == rows@.len(),
        forall|i: int|
            0 <= i < rows@.len() ==> {
                &&& #[trigger] r@[i].timestamp_ms == stored_millis(rows@[i].0@)
                &&& r@[i].revision_id@ == rows@[i].1@
            },
{
    let ghost orig = rows@;
    let mut rest = rows;
    let mut out: Vec<SeriesRevisionMarker> = Vec::new();
    while rest.len() > 0
        invariant
            out@.len() + rest@.len() == orig.len(),
            forall|j: int| 0 <= j < rest@.len() ==> #[trigger] rest@[j] == orig[out@.len() + j],
            forall|i: int|
                0 <= i < out@.len() ==> {
                    &&& #[trigger] out@[i].timestamp_ms == stored_millis(orig[i].0@)
                    &&& out@[i].revision_id@ == orig[i].1@
                },
        decreases rest@.len(),
    {
        let ghost before = rest@;
        let (t, rev) = rest.remove(0);
        assert(before[0] == orig[out@.len() as int]);
        let m = SeriesRevisionMarker { timestamp_ms: timestamp_millis(t.as_str()), revision_id: rev };
        out.push(m);
        assert forall|j: int| 0 <= j < rest@.len() implies #[trigger] rest@[j] == orig[out@.len() + j] by {
            assert(rest@[j] == before[j + 1]);
        }
    }
    assert(out@.len() == orig.len());
    assert forall|i: int| 0 <= i < rows@.len() implies {
        &&& #[trigger] out@[i].timestamp_ms == stored_millis(rows@[i].0@)
        &&& out@[i].revision_id@ == rows@[i].1@
    } by {
        assert(out@[i].timestamp_ms == stored_millis(orig[i].0@));
    }
    out
}

} // verus!
