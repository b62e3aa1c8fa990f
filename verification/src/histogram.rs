//! A log-scaled latency histogram: 12 bins per decade from 1 µs to 100 s,
//! with one underflow and one overflow bin, and its byte encoding.
use vstd::prelude::*;
use vstd::bytes::{spec_u64_from_le_bytes, spec_u64_to_le_bytes, u64_from_le_bytes, u64_to_le_bytes};

verus! {

/// The number of bins, including the underflow and the overflow bin.
pub const NUM_BINS: usize = 98;

/// The bin of values below 1 µs.
pub const UNDERFLOW_BIN: usize = 0;

/// The bin of values of 100 s and more.
pub const OVERFLOW_BIN: usize = 97;

/// The version that new histograms carry.
pub const HISTOGRAM_VERSION: u32 = 1;

/// The length of an encoded histogram in bytes.
pub const ENCODED_LEN: usize = 817;

/// The lowest value, in nanoseconds, of each data bin `1..=96`, in order.
/// Bin `k` holds the values `v` with `10^(3 + (k-1)/12) <= v < 10^(3 + k/12)`,
/// each bound being the first integer at which the logarithmic bin formula
/// moves to the next bin.
pub open spec fn bin_bounds() -> Seq<u64> {
    seq![
        1000, 1212, 1468, 1779, 2155, 2611, 3163, 3832, 4642, 5624, 6813, 8255, 10000, 12116,
        14678, 17783, 21545, 26102, 31623, 38312, 46416, 56235, 68130, 82541, 100000, 121153,
        146780, 177828, 215444, 261016, 316228, 383119, 464159, 562342, 681293, 825405,
        1000000, 1211528, 1467800, 1778280, 2154435, 2610158, 3162278, 3831187, 4641589,
        5623414, 6812921, 8254042, 10000000, 12115277, 14677993, 17782795, 21544347, 26101573,
        31622777, 38311869, 46415889, 56234133, 68129207, 82540419, 100000000, 121152766,
        146779927, 177827942, 215443470, 261015722, 316227767, 383118685, 464158884, 562341326,
        681292070, 825404186, 1000000000, 1211527659, 1467799268, 1778279411, 2154434691,
        2610157216, 3162277661, 3831186850, 4641588834, 5623413252, 6812920691, 8254041853,
        10000000000, 12115276587, 14677992677, 17782794101, 21544346901, 26101572157,
        31622776602, 38311868496, 46415888337, 56234132520, 68129206906, 82540418527,
    ]
}

/// The value, in nanoseconds, that stands for each bin: 500 for the
/// underflow bin, 100 s for the overflow bin, and the rounded geometric
/// middle `10^(3 + (k - 0.5)/12)` for data bin `k`.
pub open spec fn bin_representatives_spec() -> Seq<u64> {
    seq![
        500, 1101, 1334, 1616, 1957, 2371, 2873, 3481, 4217, 5109, 6190, 7499, 9085, 11007,
        13335, 16156, 19573, 23714, 28730, 34807, 42170, 51090, 61897, 74989, 90852, 110069,
        133352, 161560, 195734, 237137, 287298, 348070, 421697, 510897, 618966, 749894, 908518,
        1100694, 1333521, 1615598, 1957342, 2371374, 2872985, 3480701, 4216965, 5108970,
        6189658, 7498942, 9085176, 11006942, 13335214, 16155981, 19573418, 23713737, 28729848,
        34807006, 42169650, 51089698, 61896582, 74989421, 90851758, 110069417, 133352143,
        161559810, 195734178, 237137371, 287298483, 348070059, 421696503, 510896977, 618965819,
        749894209, 908517576, 1100694171, 1333521432, 1615598098, 1957341781, 2371373706,
        2872984833, 3480700588, 4216965034, 5108969775, 6189658189, 7498942093, 9085175757,
        11006941713, 13335214322, 16155980984, 19573417815, 23713737057, 28729848334,
        34807005884, 42169650343, 51089697745, 61896581889, 74989420933, 90851757565,
        100000000000,
    ]
}

/// Counts, from the lowest data bin up, the bins whose lower bound does not
/// exceed `v`.
pub open spec fn bound_scan(v: u64, i: nat) -> nat
    decreases 96 - i,
{
    if i < 96 && bin_bounds()[i as int] <= v {
        bound_scan(v, i + 1)
    } else {
        i
    }
}

/// The bin that a value of `v` nanoseconds falls into.
pub open spec fn spec_value_to_bin(v: u64) -> nat {
    if v < 1000 {
        0
    } else if v >= 100_000_000_000 {
        97
    } else {
        bound_scan(v, 0)
    }
}

proof fn lemma_bound_scan_range(v: u64, i: nat)
    requires
        i <= 96,
    ensures
        i <= bound_scan(v, i) <= 96,
    decreases 96 - i,
{
    if i < 96 && bin_bounds()[i as int] <= v {
        lemma_bound_scan_range(v, i + 1);
    }
}

/// Every value falls into one of the bins; values of at least 1 µs and
/// below 100 s fall into a data bin.
pub proof fn lemma_value_to_bin_range(v: u64)
    ensures
        spec_value_to_bin(v) < 98,
        1000 <= v < 100_000_000_000 ==> 1 <= spec_value_to_bin(v) <= 96,
{
    lemma_bound_scan_range(v, 0);
    if 1000 <= v < 100_000_000_000 {
        lemma_bound_scan_range(v, 1);
        assert(bin_bounds()[0] == 1000);
    }
}

/// The bin that a value of `v_ns` nanoseconds falls into.
pub fn value_to_bin(v_ns: u64) -> (r: usize)
    ensures
        r == spec_value_to_bin(v_ns),
        r < 98,
{
    proof {
        lemma_value_to_bin_range(v_ns);
    }
    if v_ns < 1000 {
        return UNDERFLOW_BIN;
    }
    if v_ns >= 100_000_000_000 {
        return OVERFLOW_BIN;
    }
    let bounds: [u64; 96] = [
        1000, 1212, 1468, 1779, 2155, 2611, 3163, 3832, 4642, 5624, 6813, 8255, 10000, 12116,
        14678, 17783, 21545, 26102, 31623, 38312, 46416, 56235, 68130, 82541, 100000, 121153,
        146780, 177828, 215444, 261016, 316228, 383119, 464159, 562342, 681293, 825405,
        1000000, 1211528, 1467800, 1778280, 2154435, 2610158, 3162278, 3831187, 4641589,
        5623414, 6812921, 8254042, 10000000, 12115277, 14677993, 17782795, 21544347, 26101573,
        31622777, 38311869, 46415889, 56234133, 68129207, 82540419, 100000000, 121152766,
        146779927, 177827942, 215443470, 261015722, 316227767, 383118685, 464158884, 562341326,
        681292070, 825404186, 1000000000, 1211527659, 1467799268, 1778279411, 2154434691,
        2610157216, 3162277661, 3831186850, 4641588834, 5623413252, 6812920691, 8254041853,
        10000000000, 12115276587, 14677992677, 17782794101, 21544346901, 26101572157,
        31622776602, 38311868496, 46415888337, 56234132520, 68129206906, 82540418527,
    ];
    assert(bounds@ =~= bin_bounds());
    let mut i: usize = 0;
    while i < 96 && bounds[i] <= v_ns
        invariant
            bounds@ == bin_bounds(),
            i <= 96,
            bound_scan(v_ns, i as nat) == bound_scan(v_ns, 0),
        decreases 96 - i,
    {
        i = i + 1;
    }
    i
}

/// The value, in nanoseconds, that stands for bin `bin`.
pub fn bin_representative(bin: usize) -> (r: u64)
    requires
        bin < 98,
    ensures
        r == bin_representatives_spec()[bin as int],
{
    let reps: [u64; 98] = [
        500, 1101, 1334, 1616, 1957, 2371, 2873, 3481, 4217, 5109, 6190, 7499, 9085, 11007,
        13335, 16156, 19573, 23714, 28730, 34807, 42170, 51090, 61897, 74989, 90852, 110069,
        133352, 161560, 195734, 237137, 287298, 348070, 421697, 510897, 618966, 749894, 908518,
        1100694, 1333521, 1615598, 1957342, 2371374, 2872985, 3480701, 4216965, 5108970,
        6189658, 7498942, 9085176, 11006942, 13335214, 16155981, 19573418, 23713737, 28729848,
        34807006, 42169650, 51089698, 61896582, 74989421, 90851758, 110069417, 133352143,
        161559810, 195734178, 237137371, 287298483, 348070059, 421696503, 510896977, 618965819,
        749894209, 908517576, 1100694171, 1333521432, 1615598098, 1957341781, 2371373706,
        2872984833, 3480700588, 4216965034, 5108969775, 6189658189, 7498942093, 9085175757,
        11006941713, 13335214322, 16155980984, 19573417815, 23713737057, 28729848334,
        34807005884, 42169650343, 51089697745, 61896581889, 74989420933, 90851757565,
        100000000000,
    ];
    assert(reps@ =~= bin_representatives_spec());
    reps[bin]
}

/// The abstract content of a histogram.
pub ghost struct HistogramView {
    pub version: u32,
    pub bins: Seq<u64>,
    pub min: Option<u64>,
    pub max: Option<u64>,
    pub sum: u64,
    pub count: u64,
}

/// A latency histogram: per-bin counts, the smallest and largest recorded
/// value, the saturating sum and the count of recorded values.
#[derive(Debug, Clone, PartialEq, Eq)]
pub struct Histogram {
    version: u32,
    bins: [u64; 98],
    min: Option<u64>,
    max: Option<u64>,
    sum: u64,
    count: u64,
}

impl View for Histogram {
    type V = HistogramView;

    closed spec fn view(&self) -> HistogramView {
        HistogramView {
            version: self.version,
            bins: self.bins@,
            min: self.min,
            max: self.max,
            sum: self.sum,
            count: self.count,
        }
    }
}

/// The smaller of an optional current minimum and `v`.
pub open spec fn min_with(m: Option<u64>, v: u64) -> u64 {
    match m {
        Some(x) => if v < x {
            v
        } else {
            x
        },
        None => v,
    }
}

/// The larger of an optional current maximum and `v`.
pub open spec fn max_with(m: Option<u64>, v: u64) -> u64 {
    match m {
        Some(x) => if v > x {
            v
        } else {
            x
        },
        None => v,
    }
}

/// `a + b`, or `u64::MAX` where the sum does not fit.
pub open spec fn sat_add(a: u64, b: u64) -> u64 {
    if a + b > u64::MAX {
        u64::MAX
    } else {
        (a + b) as u64
    }
}

/// The histogram that holds no value.
pub open spec fn empty_histogram() -> HistogramView {
    HistogramView {
        version: 1,
        bins: Seq::new(98, |i: int| 0u64),
        min: None,
        max: None,
        sum: 0,
        count: 0,
    }
}

/// `h` after recording a value of `v` nanoseconds.
pub open spec fn spec_record(h: HistogramView, v: u64) -> HistogramView {
    let b = spec_value_to_bin(v) as int;
    HistogramView {
        version: h.version,
        bins: h.bins.update(b, (h.bins[b] + 1) as u64),
        min: Some(min_with(h.min, v)),
        max: Some(max_with(h.max, v)),
        sum: sat_add(h.sum, v),
        count: (h.count + 1) as u64,
    }
}

/// The merged minimum (or maximum, with `pick_low == false`) of two
/// optional bounds.
pub open spec fn merge_bound(a: Option<u64>, b: Option<u64>, pick_low: bool) -> Option<u64> {
    match (a, b) {
        (Some(x), Some(y)) => Some(
            if pick_low {
                if y < x {
                    y
                } else {
                    x
                }
            } else {
                if y > x {
                    y
                } else {
                    x
                }
            },
        ),
        (None, Some(y)) => Some(y),
        _ => a,
    }
}

/// `h` after merging `o` into it: counts add up, saturating at `u64::MAX`,
/// and the bounds widen.
pub open spec fn spec_merge(h: HistogramView, o: HistogramView) -> HistogramView {
    HistogramView {
        version: h.version,
        bins: Seq::new(98, |i: int| sat_add(h.bins[i], o.bins[i])),
        min: merge_bound(h.min, o.min, true),
        max: merge_bound(h.max, o.max, false),
        sum: sat_add(h.sum, o.sum),
        count: sat_add(h.count, o.count),
    }
}

/// The little-endian bytes of each bin count, in bin order.
pub open spec fn bins_bytes(b: Seq<u64>) -> Seq<u8>
    decreases b.len(),
{
    if b.len() == 0 {
        seq![]
    } else {
        bins_bytes(b.drop_last()) + spec_u64_to_le_bytes(b.last())
    }
}

/// The header of an encoded histogram: the version as one byte, then the
/// count, the sum, the minimum and the maximum (0 where absent), each as
/// eight little-endian bytes.
pub open spec fn header_bytes(h: HistogramView) -> Seq<u8> {
    seq![h.version as u8] + spec_u64_to_le_bytes(h.count) + spec_u64_to_le_bytes(h.sum)
        + spec_u64_to_le_bytes(
        match h.min {
            Some(m) => m,
            None => 0,
        },
    ) + spec_u64_to_le_bytes(
        match h.max {
            Some(m) => m,
            None => 0,
        },
    )
}

/// The byte encoding of a histogram: the header followed by the bin counts.
pub open spec fn spec_encode(h: HistogramView) -> Seq<u8> {
    header_bytes(h) + bins_bytes(h.bins)
}

/// The eight-byte little-endian number at `off` in `d`.
pub open spec fn le64_at(d: Seq<u8>, off: int) -> u64 {
    spec_u64_from_le_bytes(d.subrange(off, off + 8))
}

/// The histogram that the bytes `d` encode, if they are long enough. A
/// minimum or maximum of 0 in a histogram with no values reads as absent.
pub open spec fn spec_decode(d: Seq<u8>) -> Option<HistogramView> {
    if d.len() < 817 {
        None
    } else {
        let count = le64_at(d, 1);
        let mv = le64_at(d, 17);
        let xv = le64_at(d, 25);
        Some(
            HistogramView {
                version: d[0] as u32,
                bins: Seq::new(98, |i: int| le64_at(d, 33 + 8 * i)),
                min: if mv > 0 || count > 0 {
                    Some(mv)
                } else {
                    None
                },
                max: if xv > 0 || count > 0 {
                    Some(xv)
                } else {
                    None
                },
                sum: le64_at(d, 9),
                count,
            },
        )
    }
}

/// Whether decoding the encoding of `h` gives `h` back: the version fits in
/// one byte, and an absent bound or a bound of 0 agrees with the count.
pub open spec fn encodable(h: HistogramView) -> bool {
    &&& h.version < 256
    &&& h.bins.len() == 98
    &&& (h.min is None ==> h.count == 0)
    &&& (h.max is None ==> h.count == 0)
    &&& (h.min == Some(0u64) ==> h.count > 0)
    &&& (h.max == Some(0u64) ==> h.count > 0)
}

proof fn lemma_bins_bytes(b: Seq<u64>)
    ensures
        bins_bytes(b).len() == 8 * b.len(),
        forall|i: int|
            0 <= i < b.len() ==> #[trigger] bins_bytes(b).subrange(8 * i, 8 * i + 8)
                == spec_u64_to_le_bytes(b[i]),
    decreases b.len(),
{
    vstd::bytes::lemma_auto_spec_u64_to_from_le_bytes();
    if b.len() > 0 {
        let p = b.drop_last();
        lemma_bins_bytes(p);
        assert forall|i: int| 0 <= i < b.len() implies #[trigger] bins_bytes(b).subrange(
            8 * i,
            8 * i + 8,
        ) == spec_u64_to_le_bytes(b[i]) by {
            if i < p.len() {
                assert(bins_bytes(b).subrange(8 * i, 8 * i + 8) =~= bins_bytes(p).subrange(
                    8 * i,
                    8 * i + 8,
                ));
            } else {
                assert(bins_bytes(b).subrange(8 * i, 8 * i + 8) =~= spec_u64_to_le_bytes(
                    b.last(),
                ));
            }
        }
    }
}

/// Decoding the encoding of a histogram gives the histogram back, for every
/// histogram whose encoding loses nothing.
pub proof fn lemma_decode_encode(h: HistogramView)
    requires
        encodable(h),
    ensures
        spec_decode(spec_encode(h)) == Some(h),
{
    vstd::bytes::lemma_auto_spec_u64_to_from_le_bytes();
    lemma_bins_bytes(h.bins);
    let e = spec_encode(h);
    let mv = match h.min {
        Some(m) => m,
        None => 0,
    };
    let xv = match h.max {
        Some(m) => m,
        None => 0,
    };
    assert(e.len() == 817);
    assert(e.subrange(1, 9) =~= spec_u64_to_le_bytes(h.count));
    assert(e.subrange(9, 17) =~= spec_u64_to_le_bytes(h.sum));
    assert(e.subrange(17, 25) =~= spec_u64_to_le_bytes(mv));
    assert(e.subrange(25, 33) =~= spec_u64_to_le_bytes(xv));
    assert(e[0] == h.version as u8);
    assert((h.version as u8) as u32 == h.version);
    let d = spec_decode(e).unwrap();
    assert forall|i: int| 0 <= i < 98 implies #[trigger] d.bins[i] == h.bins[i] by {
        assert(e.subrange(33 + 8 * i, 33 + 8 * i + 8) =~= bins_bytes(h.bins).subrange(
            8 * i,
            8 * i + 8,
        ));
    }
    assert(d.bins =~= h.bins);
}

impl Default for Histogram {
    /// An empty histogram.
    fn default() -> (r: Self)
        ensures
            r@ == empty_histogram(),
    {
        Histogram::new()
    }
}

impl Histogram {
    /// An empty histogram of the current version.
    pub fn new() -> (r: Self)
        ensures
            r@ == empty_histogram(),
    {
        let r = Self { version: HISTOGRAM_VERSION, bins: [0u64; 98], min: None, max: None, sum: 0, count: 0 };
        assert(r@.bins =~= empty_histogram().bins);
        r
    }

    /// Records a value of `value_ns` nanoseconds.
    pub fn record(&mut self, value_ns: u64)
        requires
            old(self)@.count < u64::MAX,
            old(self)@.bins[spec_value_to_bin(value_ns) as int] < u64::MAX,
        ensures
            final(self)@ == spec_record(old(self)@, value_ns),
    {
        let bin = value_to_bin(value_ns);
        self.bins[bin] = self.bins[bin] + 1;
        self.count = self.count + 1;
        self.sum = self.sum.saturating_add(value_ns);
        self.min = Some(
            match self.min {
                Some(m) => if value_ns < m {
                    value_ns
                } else {
                    m
                },
                None => value_ns,
            },
        );
        self.max = Some(
            match self.max {
                Some(m) => if value_ns > m {
                    value_ns
                } else {
                    m
                },
                None => value_ns,
            },
        );
    }

    /// Adds the counts of `other` to this histogram, saturating at
    /// `u64::MAX`, and widens the bounds.
    pub fn merge(&mut self, other: &Histogram)
        ensures
            final(self)@ == spec_merge(old(self)@, other@),
    {
        let ghost old_bins = self.bins@;
        let mut i: usize = 0;
        while i < 98
            invariant
                i <= 98,
                self.bins@.len() == 98,
                other.bins@.len() == 98,
                old_bins.len() == 98,
                old_bins == old(self).bins@,
                self.version == old(self).version,
                self.min == old(self).min,
                self.max == old(self).max,
                self.sum == old(self).sum,
                self.count == old(self).count,
                forall|k: int| 0 <= k < i ==> self.bins@[k] == sat_add(old_bins[k], other.bins@[k]),
                forall|k: int| i <= k < 98 ==> self.bins@[k] == old_bins[k],
            decreases 98 - i,
        {
            self.bins[i] = self.bins[i].saturating_add(other.bins[i]);
            i = i + 1;
        }
        self.count = self.count.saturating_add(other.count);
        self.sum = self.sum.saturating_add(other.sum);
        match (self.min, other.min) {
            (Some(a), Some(b)) => self.min = Some(if b < a { b } else { a }),
            (None, Some(b)) => self.min = Some(b),
            _ => {},
        }
        match (self.max, other.max) {
            (Some(a), Some(b)) => self.max = Some(if b > a { b } else { a }),
            (None, Some(b)) => self.max = Some(b),
            _ => {},
        }
        assert(self.bins@ =~= spec_merge(old(self)@, other@).bins);
    }

    /// The smallest recorded value.
    pub fn min(&self) -> (r: Option<u64>)
        ensures
            r == self@.min,
    {
        self.min
    }

    /// The largest recorded value.
    pub fn max(&self) -> (r: Option<u64>)
        ensures
            r == self@.max,
    {
        self.max
    }

    /// The sum of the recorded values, saturating at `u64::MAX`.
    pub fn sum(&self) -> (r: u64)
        ensures
            r == self@.sum,
    {
        self.sum
    }

    /// The number of recorded values.
    pub fn count(&self) -> (r: u64)
        ensures
            r == self@.count,
    {
        self.count
    }

    /// The histogram's format version.
    pub fn version(&self) -> (r: u32)
        ensures
            r == self@.version,
    {
        self.version
    }

    /// The per-bin counts.
    pub fn bins(&self) -> (r: &[u64; 98])
        ensures
            r@ == self@.bins,
    {
        &self.bins
    }

    /// The count of values below 1 µs.
    pub fn underflow_count(&self) -> (r: u64)
        ensures
            r == self@.bins[0],
    {
        self.bins[UNDERFLOW_BIN]
    }

    /// The count of values of 100 s and more.
    pub fn overflow_count(&self) -> (r: u64)
        ensures
            r == self@.bins[97],
    {
        self.bins[OVERFLOW_BIN]
    }

    /// The value that stands for each bin, in bin order.
    pub fn bin_representatives() -> (r: Vec<u64>)
        ensures
            r@ == bin_representatives_spec(),
    {
        let mut r: Vec<u64> = Vec::new();
        let mut i: usize = 0;
        while i < NUM_BINS
            invariant
                i <= 98,
                r@ == bin_representatives_spec().take(i as int),
            decreases 98 - i,
        {
            r.push(bin_representative(i));
            assert(r@ =~= bin_representatives_spec().take(i + 1));
            i = i + 1;
        }
        assert(r@ =~= bin_representatives_spec());
        r
    }

    /// The number of bins.
    pub fn num_bins() -> (r: usize)
        ensures
            r == 98,
    {
        NUM_BINS
    }

    /// The byte encoding of this histogram.
    pub fn encode(&self) -> (r: Vec<u8>)
        ensures
            r@ == spec_encode(self@),
    {
        let mut buf: Vec<u8> = Vec::with_capacity(ENCODED_LEN);
        buf.push(self.version as u8);
        let mut b = u64_to_le_bytes(self.count);
        buf.append(&mut b);
        let mut b = u64_to_le_bytes(self.sum);
        buf.append(&mut b);
        let min_val = match self.min {
            Some(m) => m,
            None => 0,
        };
        let max_val = match self.max {
            Some(m) => m,
            None => 0,
        };
        let mut b = u64_to_le_bytes(min_val);
        buf.append(&mut b);
        let mut b = u64_to_le_bytes(max_val);
        buf.append(&mut b);
        assert(buf@ =~= header_bytes(self@));
        let mut i: usize = 0;
        while i < NUM_BINS
            invariant
                i <= 98,
                self.bins@.len() == 98,
                buf@ == header_bytes(self@) + bins_bytes(self.bins@.take(i as int)),
            decreases 98 - i,
        {
            let mut b = u64_to_le_bytes(self.bins[i]);
            buf.append(&mut b);
            assert(self.bins@.take(i + 1).drop_last() =~= self.bins@.take(i as int));
            assert(buf@ =~= header_bytes(self@) + bins_bytes(self.bins@.take(i + 1)));
            i = i + 1;
        }
        assert(self.bins@.take(98) =~= self.bins@);
        buf
    }

    /// The histogram that `data` encodes; `None` when `data` is too short.
    pub fn decode(data: &[u8]) -> (r: Option<Self>)
        ensures
            match r {
                Some(h) => spec_decode(data@) == Some(h@),
                None => spec_decode(data@) is None,
            },
            r is None <==> data@.len() < 817,
    {
        if data.len() < ENCODED_LEN {
            return None;
        }
        let version = data[0] as u32;
        let count = u64_from_le_bytes(&data[1..9]);
        let sum = u64_from_le_bytes(&data[9..17]);
        let min_val = u64_from_le_bytes(&data[17..25]);
        let max_val = u64_from_le_bytes(&data[25..33]);
        let mut bins = [0u64; 98];
        let mut i: usize = 0;
        while i < NUM_BINS
            invariant
                i <= 98,
                data@.len() >= 817,
                bins@.len() == 98,
                forall|k: int| 0 <= k < i ==> bins@[k] == le64_at(data@, 33 + 8 * k),
            decreases 98 - i,
        {
            let off = 33 + 8 * i;
            bins[i] = u64_from_le_bytes(&data[off..off + 8]);
            i = i + 1;
        }
        let h = Self {
            version,
            bins,
            min: if min_val > 0 || count > 0 {
                Some(min_val)
            } else {
                None
            },
            max: if max_val > 0 || count > 0 {
                Some(max_val)
            } else {
                None
            },
            sum,
            count,
        };
        assert(h@.bins =~= spec_decode(data@).unwrap().bins);
        Some(h)
    }
}

/// Encoding a histogram and decoding the bytes gives the histogram back,
/// wherever the encoding loses nothing.
pub proof fn law_decode_encode_roundtrip(h: Histogram)
    requires
        encodable(h@),
    ensures
        spec_decode(spec_encode(h@)) == Some(h@),
{
    lemma_decode_encode(h@);
}

} // verus!
