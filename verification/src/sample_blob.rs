//! The compact byte encoding of the samples of one round.
use vstd::prelude::*;
use vstd::bytes::{
    spec_u16_from_le_bytes, spec_u16_to_le_bytes, spec_u32_from_le_bytes, spec_u32_to_le_bytes,
    spec_u64_from_le_bytes, spec_u64_to_le_bytes, u16_from_le_bytes, u16_to_le_bytes,
    u32_from_le_bytes, u32_to_le_bytes, u64_from_le_bytes, u64_to_le_bytes,
};

use crate::kinds::{SampleClassification, SampleOutcome};

verus! {

/// The version byte that starts every encoding.
pub const ENCODING_VERSION: u8 = 1;

/// Flag bit: the record carries a latency.
pub const FLAG_HAS_LATENCY: u8 = 1;

/// Flag bit: the record carries an elapsed time.
pub const FLAG_HAS_ELAPSED: u8 = 2;

/// Flag bit: the record carries metadata bytes.
pub const FLAG_HAS_METADATA: u8 = 4;

/// One sample of a round.
#[derive(Debug, Clone, PartialEq, Eq)]
pub struct SampleRecord {
    pub sample_index: u16,
    pub offset_us: u32,
    pub outcome: SampleOutcome,
    pub classification: SampleClassification,
    pub latency_ns: Option<u64>,
    pub elapsed_ns: Option<u64>,
    pub metadata: Option<Vec<u8>>,
}

/// The abstract content of a `SampleRecord`.
pub ghost struct SampleRecordView {
    pub sample_index: u16,
    pub offset_us: u32,
    pub outcome: SampleOutcome,
    pub classification: SampleClassification,
    pub latency_ns: Option<u64>,
    pub elapsed_ns: Option<u64>,
    pub metadata: Option<Seq<u8>>,
}

impl View for SampleRecord {
    type V = SampleRecordView;

    open spec fn view(&self) -> SampleRecordView {
        SampleRecordView {
            sample_index: self.sample_index,
            offset_us: self.offset_us,
            outcome: self.outcome,
            classification: self.classification,
            latency_ns: self.latency_ns,
            elapsed_ns: self.elapsed_ns,
            metadata: match &self.metadata {
                Some(m) => Some(m@),
                None => None,
            },
        }
    }
}

/// Why a blob could not be decoded.
#[derive(Debug, Clone, Copy, PartialEq, Eq, Structural)]
pub enum SampleBlobError {
    UnsupportedVersion(u8),
    InvalidOutcome(u8),
    InvalidClassification(u8),
    Truncated,
}

/// The byte that stands for an outcome.
pub open spec fn outcome_disc(o: SampleOutcome) -> u8 {
    match o {
        SampleOutcome::Success => 0,
        SampleOutcome::Timeout => 1,
        SampleOutcome::DnsError => 2,
        SampleOutcome::NetworkUnreachable => 3,
        SampleOutcome::ConnectionRefused => 4,
        SampleOutcome::ConnectionReset => 5,
        SampleOutcome::TlsError => 6,
        SampleOutcome::ProtocolError => 7,
        SampleOutcome::UnexpectedResponse => 8,
        SampleOutcome::PermissionDenied => 9,
        SampleOutcome::Cancelled => 10,
        SampleOutcome::InternalError => 11,
    }
}

/// The outcome that a byte stands for, if any.
pub open spec fn outcome_of_disc(v: u8) -> Option<SampleOutcome> {
    if v == 0 {
        Some(SampleOutcome::Success)
    } else if v == 1 {
        Some(SampleOutcome::Timeout)
    } else if v == 2 {
        Some(SampleOutcome::DnsError)
    } else if v == 3 {
        Some(SampleOutcome::NetworkUnreachable)
    } else if v == 4 {
        Some(SampleOutcome::ConnectionRefused)
    } else if v == 5 {
        Some(SampleOutcome::ConnectionReset)
    } else if v == 6 {
        Some(SampleOutcome::TlsError)
    } else if v == 7 {
        Some(SampleOutcome::ProtocolError)
    } else if v == 8 {
        Some(SampleOutcome::UnexpectedResponse)
    } else if v == 9 {
        Some(SampleOutcome::PermissionDenied)
    } else if v == 10 {
        Some(SampleOutcome::Cancelled)
    } else if v == 11 {
        Some(SampleOutcome::InternalError)
    } else {
        None
    }
}

/// The byte that stands for a classification.
pub open spec fn class_disc(c: SampleClassification) -> u8 {
    match c {
        SampleClassification::HealthyResponse => 0,
        SampleClassification::UnhealthyResponse => 1,
        SampleClassification::MeasurementLoss => 2,
    }
}

/// The classification that a byte stands for, if any.
pub open spec fn class_of_disc(v: u8) -> Option<SampleClassification> {
    if v == 0 {
        Some(SampleClassification::HealthyResponse)
    } else if v == 1 {
        Some(SampleClassification::UnhealthyResponse)
    } else if v == 2 {
        Some(SampleClassification::MeasurementLoss)
    } else {
        None
    }
}

impl SampleOutcome {
    /// The byte that stands for this outcome.
    pub fn to_discriminant(self) -> (r: u8)
        ensures
            r == outcome_disc(self),
    {
        match self {
            Self::Success => 0,
            Self::Timeout => 1,
            Self::DnsError => 2,
            Self::NetworkUnreachable => 3,
            Self::ConnectionRefused => 4,
            Self::ConnectionReset => 5,
            Self::TlsError => 6,
            Self::ProtocolError => 7,
            Self::UnexpectedResponse => 8,
            Self::PermissionDenied => 9,
            Self::Cancelled => 10,
            Self::InternalError => 11,
        }
    }

    /// The outcome that `v` stands for, if any.
    pub fn from_discriminant(v: u8) -> (r: Option<Self>)
        ensures
            r == outcome_of_disc(v),
    {
        match v {
            0 => Some(Self::Success),
            1 => Some(Self::Timeout),
            2 => Some(Self::DnsError),
            3 => Some(Self::NetworkUnreachable),
            4 => Some(Self::ConnectionRefused),
            5 => Some(Self::ConnectionReset),
            6 => Some(Self::TlsError),
            7 => Some(Self::ProtocolError),
            8 => Some(Self::UnexpectedResponse),
            9 => Some(Self::PermissionDenied),
            10 => Some(Self::Cancelled),
            11 => Some(Self::InternalError),
            _ => None,
        }
    }
}

impl SampleClassification {
    /// The byte that stands for this classification.
    pub fn to_discriminant(self) -> (r: u8)
        ensures
            r == class_disc(self),
    {
        match self {
            Self::HealthyResponse => 0,
            Self::UnhealthyResponse => 1,
            Self::MeasurementLoss => 2,
        }
    }

    /// The classification that `v` stands for, if any.
    pub fn from_discriminant(v: u8) -> (r: Option<Self>)
        ensures
            r == class_of_disc(v),
    {
        match v {
            0 => Some(Self::HealthyResponse),
            1 => Some(Self::UnhealthyResponse),
            2 => Some(Self::MeasurementLoss),
            _ => None,
        }
    }
}

/// The flag byte of a record.
pub open spec fn record_flags(r: SampleRecordView) -> u8 {
    (if r.latency_ns is Some {
        1u8
    } else {
        0u8
    }) | (if r.elapsed_ns is Some {
        2u8
    } else {
        0u8
    }) | (if r.metadata is Some {
        4u8
    } else {
        0u8
    })
}

/// The eight little-endian bytes of an optional number; nothing when absent.
pub open spec fn opt_u64_bytes(v: Option<u64>) -> Seq<u8> {
    match v {
        Some(x) => spec_u64_to_le_bytes(x),
        None => seq![],
    }
}

/// Optional metadata: its length in two little-endian bytes (truncated to
/// 16 bits) followed by the bytes; nothing when absent.
pub open spec fn metadata_bytes(m: Option<Seq<u8>>) -> Seq<u8> {
    match m {
        Some(b) => spec_u16_to_le_bytes(b.len() as u16) + b,
        None => seq![],
    }
}

/// The encoding of one record.
pub open spec fn record_bytes(r: SampleRecordView) -> Seq<u8> {
    spec_u16_to_le_bytes(r.sample_index) + spec_u32_to_le_bytes(r.offset_us) + seq![
        outcome_disc(r.outcome),
        class_disc(r.classification),
        record_flags(r),
    ] + opt_u64_bytes(r.latency_ns) + opt_u64_bytes(r.elapsed_ns) + metadata_bytes(r.metadata)
}

/// The encodings of the records, one after another.
pub open spec fn records_bytes(rs: Seq<SampleRecordView>) -> Seq<u8>
    decreases rs.len(),
{
    if rs.len() == 0 {
        seq![]
    } else {
        record_bytes(rs[0]) + records_bytes(rs.drop_first())
    }
}

/// The encoding of a round's records: the version byte, the number of
/// records in two little-endian bytes (truncated to 16 bits), then the
/// records.
pub open spec fn spec_encode_samples(rs: Seq<SampleRecordView>) -> Seq<u8> {
    seq![1u8] + spec_u16_to_le_bytes(rs.len() as u16) + records_bytes(rs)
}

/// The views of a sequence of records.
pub open spec fn record_views(rs: Seq<SampleRecord>) -> Seq<SampleRecordView> {
    rs.map_values(|r: SampleRecord| r@)
}

/// The 16-bit little-endian number at `off`.
pub open spec fn le16_at(d: Seq<u8>, off: int) -> u16 {
    spec_u16_from_le_bytes(d.subrange(off, off + 2))
}

/// The 32-bit little-endian number at `off`.
pub open spec fn le32_at(d: Seq<u8>, off: int) -> u32 {
    spec_u32_from_le_bytes(d.subrange(off, off + 4))
}

/// The 64-bit little-endian number at `off`.
pub open spec fn le64_at(d: Seq<u8>, off: int) -> u64 {
    spec_u64_from_le_bytes(d.subrange(off, off + 8))
}

/// Reads the optional eight-byte field at `off` when `present`; gives the
/// value and the offset after it.
pub open spec fn read_opt_u64(d: Seq<u8>, off: int, present: bool) -> Result<
    (Option<u64>, int),
    SampleBlobError,
> {
    if !present {
        Ok((None, off))
    } else if off + 8 > d.len() {
        Err(SampleBlobError::Truncated)
    } else {
        Ok((Some(le64_at(d, off)), off + 8))
    }
}

/// Reads the optional metadata at `off` when `present`.
pub open spec fn read_metadata(d: Seq<u8>, off: int, present: bool) -> Result<
    (Option<Seq<u8>>, int),
    SampleBlobError,
> {
    if !present {
        Ok((None, off))
    } else if off + 2 > d.len() {
        Err(SampleBlobError::Truncated)
    } else {
        let n = le16_at(d, off) as int;
        if off + 2 + n > d.len() {
            Err(SampleBlobError::Truncated)
        } else {
            Ok((Some(d.subrange(off + 2, off + 2 + n)), off + 2 + n))
        }
    }
}

/// Reads the record at `off`; gives the record and the offset after it.
pub open spec fn parse_record(d: Seq<u8>, off: int) -> Result<(SampleRecordView, int), SampleBlobError> {
    if off + 9 > d.len() {
        Err(SampleBlobError::Truncated)
    } else {
        let od = d[off + 6];
        let cd = d[off + 7];
        let flags = d[off + 8];
        match (outcome_of_disc(od), class_of_disc(cd)) {
            (None, _) => Err(SampleBlobError::InvalidOutcome(od)),
            (Some(_), None) => Err(SampleBlobError::InvalidClassification(cd)),
            (Some(o), Some(c)) => match read_opt_u64(d, off + 9, flags & 1 != 0) {
                Err(e) => Err(e),
                Ok((lat, o1)) => match read_opt_u64(d, o1, flags & 2 != 0) {
                    Err(e) => Err(e),
                    Ok((el, o2)) => match read_metadata(d, o2, flags & 4 != 0) {
                        Err(e) => Err(e),
                        Ok((meta, o3)) => Ok(
                            (
                                SampleRecordView {
                                    sample_index: le16_at(d, off),
                                    offset_us: le32_at(d, off + 2),
                                    outcome: o,
                                    classification: c,
                                    latency_ns: lat,
                                    elapsed_ns: el,
                                    metadata: meta,
                                },
                                o3,
                            ),
                        ),
                    },
                },
            },
        }
    }
}

/// Reads `n` records one after another from `off`.
pub open spec fn parse_records(d: Seq<u8>, off: int, n: nat) -> Result<
    Seq<SampleRecordView>,
    SampleBlobError,
>
    decreases n,
{
    if n == 0 {
        Ok(seq![])
    } else {
        match parse_record(d, off) {
            Err(e) => Err(e),
            Ok((r, next)) => match parse_records(d, next, (n - 1) as nat) {
                Err(e) => Err(e),
                Ok(rest) => Ok(seq![r] + rest),
            },
        }
    }
}

/// What decoding the bytes `d` gives: the version byte must be 1, the next
/// two bytes give the number of records, and the records follow. Bytes
/// after the last record are ignored.
pub open spec fn spec_decode_samples(d: Seq<u8>) -> Result<Seq<SampleRecordView>, SampleBlobError> {
    if d.len() == 0 {
        Err(SampleBlobError::Truncated)
    } else if d[0] != 1 {
        Err(SampleBlobError::UnsupportedVersion(d[0]))
    } else if d.len() < 3 {
        Err(SampleBlobError::Truncated)
    } else {
        parse_records(d, 3, le16_at(d, 1) as nat)
    }
}

/// Whether the record's metadata, if any, is shorter than 65536 bytes.
pub open spec fn metadata_fits(r: SampleRecordView) -> bool {
    match r.metadata {
        Some(m) => m.len() < 65536,
        None => true,
    }
}

/// Whether nothing is lost in the encoding of `rs`: fewer than 65536
/// records, each with fewer than 65536 metadata bytes.
pub open spec fn encodable_records(rs: Seq<SampleRecordView>) -> bool {
    &&& rs.len() < 65536
    &&& forall|i: int|
        0 <= i < rs.len() ==> metadata_fits(#[trigger] rs[i])
}

proof fn lemma_flags(a: u8, b: u8, c: u8)
    requires
        a == 0 || a == 1,
        b == 0 || b == 2,
        c == 0 || c == 4,
    ensures
        ((a | b | c) & 1 != 0) == (a == 1),
        ((a | b | c) & 2 != 0) == (b == 2),
        ((a | b | c) & 4 != 0) == (c == 4),
{
    assert(((a | b | c) & 1 != 0) == (a == 1)) by (bit_vector)
        requires
            a == 0 || a == 1,
            b == 0 || b == 2,
            c == 0 || c == 4,
    ;
    assert(((a | b | c) & 2 != 0) == (b == 2)) by (bit_vector)
        requires
            a == 0 || a == 1,
            b == 0 || b == 2,
            c == 0 || c == 4,
    ;
    assert(((a | b | c) & 4 != 0) == (c == 4)) by (bit_vector)
        requires
            a == 0 || a == 1,
            b == 0 || b == 2,
            c == 0 || c == 4,
    ;
}

proof fn lemma_le_bytes()
    ensures
        forall|x: u16|
            #![trigger spec_u16_to_le_bytes(x)]
            spec_u16_to_le_bytes(x).len() == 2 && spec_u16_from_le_bytes(spec_u16_to_le_bytes(x))
                == x,
        forall|x: u32|
            #![trigger spec_u32_to_le_bytes(x)]
            spec_u32_to_le_bytes(x).len() == 4 && spec_u32_from_le_bytes(spec_u32_to_le_bytes(x))
                == x,
        forall|x: u64| #[trigger] spec_u64_to_le_bytes(x).len() == 8,
        forall|x: u64| #[trigger] spec_u64_from_le_bytes(spec_u64_to_le_bytes(x)) == x,
{
    vstd::bytes::lemma_auto_spec_u16_to_from_le_bytes();
    vstd::bytes::lemma_auto_spec_u32_to_from_le_bytes();
    vstd::bytes::lemma_auto_spec_u64_to_from_le_bytes();
    assert forall|x: u16|
        #![trigger spec_u16_to_le_bytes(x)]
        spec_u16_to_le_bytes(x).len() == 2 && spec_u16_from_le_bytes(spec_u16_to_le_bytes(x))
            == x by {
        assert(spec_u16_to_le_bytes(x).len() == 2);
    }
    assert forall|x: u32|
        #![trigger spec_u32_to_le_bytes(x)]
        spec_u32_to_le_bytes(x).len() == 4 && spec_u32_from_le_bytes(spec_u32_to_le_bytes(x))
            == x by {
        assert(spec_u32_to_le_bytes(x).len() == 4);
    }
}

/// A record's encoding, wherever it stands, reads back as the record.
proof fn lemma_parse_record_bytes(p: Seq<u8>, r: SampleRecordView, t: Seq<u8>)
    requires
        metadata_fits(r),
    ensures
        parse_record(p + record_bytes(r) + t, p.len() as int) == Ok::<
            (SampleRecordView, int),
            SampleBlobError,
        >((r, p.len() + record_bytes(r).len() as int)),
{
    lemma_le_bytes();
    let d = p + record_bytes(r) + t;
    let off = p.len() as int;
    let a: u8 = if r.latency_ns is Some {
        1
    } else {
        0
    };
    let b: u8 = if r.elapsed_ns is Some {
        2
    } else {
        0
    };
    let c: u8 = if r.metadata is Some {
        4
    } else {
        0
    };
    lemma_flags(a, b, c);
    assert(record_flags(r) == a | b | c);
    let head = spec_u16_to_le_bytes(r.sample_index) + spec_u32_to_le_bytes(r.offset_us) + seq![
        outcome_disc(r.outcome),
        class_disc(r.classification),
        record_flags(r),
    ];
    assert(head.len() == 9);
    assert(d.subrange(off, off + 2) =~= spec_u16_to_le_bytes(r.sample_index));
    assert(d.subrange(off + 2, off + 6) =~= spec_u32_to_le_bytes(r.offset_us));
    assert(d[off + 6] == outcome_disc(r.outcome));
    assert(d[off + 7] == class_disc(r.classification));
    assert(d[off + 8] == record_flags(r));
    assert(outcome_of_disc(outcome_disc(r.outcome)) == Some(r.outcome));
    assert(class_of_disc(class_disc(r.classification)) == Some(r.classification));
    let o1 = off + 9 + opt_u64_bytes(r.latency_ns).len();
    let o2 = o1 + opt_u64_bytes(r.elapsed_ns).len();
    if let Some(x) = r.latency_ns {
        assert(d.subrange(off + 9, off + 17) =~= spec_u64_to_le_bytes(x));
    }
    if let Some(x) = r.elapsed_ns {
        assert(d.subrange(o1, o1 + 8) =~= spec_u64_to_le_bytes(x));
    }
    if let Some(m) = r.metadata {
        assert(d.subrange(o2, o2 + 2) =~= spec_u16_to_le_bytes(m.len() as u16));
        assert(d.subrange(o2 + 2, o2 + 2 + m.len()) =~= m);
    }
}

proof fn lemma_parse_records_bytes(p: Seq<u8>, rs: Seq<SampleRecordView>, t: Seq<u8>)
    requires
        forall|i: int|
            0 <= i < rs.len() ==> metadata_fits(#[trigger] rs[i]),
    ensures
        parse_records(p + records_bytes(rs) + t, p.len() as int, rs.len()) == Ok::<
            Seq<SampleRecordView>,
            SampleBlobError,
        >(rs),
    decreases rs.len(),
{
    if rs.len() > 0 {
        let r = rs[0];
        let rest = rs.drop_first();
        assert(rs[0] == r);
        let t2 = records_bytes(rest) + t;
        assert(p + records_bytes(rs) + t =~= p + record_bytes(r) + t2);
        lemma_parse_record_bytes(p, r, t2);
        assert forall|i: int| 0 <= i < rest.len() implies metadata_fits(#[trigger] rest[i]) by {
            assert(rest[i] == rs[i + 1]);
        }
        lemma_parse_records_bytes(p + record_bytes(r), rest, t);
        assert(p + record_bytes(r) + records_bytes(rest) + t =~= p + record_bytes(r) + t2);
        assert(seq![r] + rest =~= rs);
    } else {
        assert(rs =~= seq![]);
    }
}

/// Decoding the encoding of records gives the records back, also when more
/// bytes follow the encoding, wherever nothing is lost in the encoding.
pub proof fn law_decode_encode_samples(rs: Seq<SampleRecordView>, extra: Seq<u8>)
    requires
        encodable_records(rs),
    ensures
        spec_decode_samples(spec_encode_samples(rs) + extra) == Ok::<
            Seq<SampleRecordView>,
            SampleBlobError,
        >(rs),
{
    lemma_le_bytes();
    let p = seq![1u8] + spec_u16_to_le_bytes(rs.len() as u16);
    let d = spec_encode_samples(rs) + extra;
    assert(d =~= p + records_bytes(rs) + extra);
    assert(d.subrange(1, 3) =~= spec_u16_to_le_bytes(rs.len() as u16));
    lemma_parse_records_bytes(p, rs, extra);
}

proof fn lemma_records_bytes_push(rs: Seq<SampleRecordView>, r: SampleRecordView)
    ensures
        records_bytes(rs.push(r)) == records_bytes(rs) + record_bytes(r),
    decreases rs.len(),
{
    if rs.len() == 0 {
        assert(rs.push(r).drop_first() =~= Seq::<SampleRecordView>::empty());
        assert(rs.push(r)[0] == r);
        assert(records_bytes(Seq::<SampleRecordView>::empty()) =~= Seq::<u8>::empty());
        assert(records_bytes(rs.push(r)) =~= record_bytes(r));
        assert(rs =~= Seq::<SampleRecordView>::empty());
    } else {
        lemma_records_bytes_push(rs.drop_first(), r);
        assert(rs.push(r).drop_first() =~= rs.drop_first().push(r));
        assert(records_bytes(rs.push(r)) =~= records_bytes(rs) + record_bytes(r));
    }
}

fn encode_record(buf: &mut Vec<u8>, record: &SampleRecord)
    ensures
        final(buf)@ == old(buf)@ + record_bytes(record@),
{
    let mut b = u16_to_le_bytes(record.sample_index);
    buf.append(&mut b);
    let mut b = u32_to_le_bytes(record.offset_us);
    buf.append(&mut b);
    buf.push(record.outcome.to_discriminant());
    buf.push(record.classification.to_discriminant());
    let a: u8 = if record.latency_ns.is_some() {
        FLAG_HAS_LATENCY
    } else {
        0
    };
    let b: u8 = if record.elapsed_ns.is_some() {
        FLAG_HAS_ELAPSED
    } else {
        0
    };
    let c: u8 = if record.metadata.is_some() {
        FLAG_HAS_METADATA
    } else {
        0
    };
    let flags = a | b | c;
    buf.push(flags);
    if let Some(lat) = record.latency_ns {
        let mut b = u64_to_le_bytes(lat);
        buf.append(&mut b);
    }
    if let Some(elapsed) = record.elapsed_ns {
        let mut b = u64_to_le_bytes(elapsed);
        buf.append(&mut b);
    }
    if let Some(meta) = &record.metadata {
        let mut b = u16_to_le_bytes(#[verifier::truncate] (meta.len() as u16));
        buf.append(&mut b);
        buf.extend_from_slice(meta.as_slice());
    }
    assert(buf@ =~= old(buf)@ + record_bytes(record@));
}

/// The byte encoding of a round's records.
pub fn encode_samples(records: &[SampleRecord]) -> (r: Vec<u8>)
    ensures
        r@ == spec_encode_samples(record_views(records@)),
{
    let mut buf: Vec<u8> = Vec::new();
    buf.push(ENCODING_VERSION);
    let mut b = u16_to_le_bytes(#[verifier::truncate] (records.len() as u16));
    buf.append(&mut b);
    let ghost head = buf@;
    let mut i: usize = 0;
    while i < records.len()
        invariant
            i <= records@.len(),
            head == seq![1u8] + spec_u16_to_le_bytes(records@.len() as u16),
            buf@ == head + records_bytes(record_views(records@).take(i as int)),
        decreases records@.len() - i,
    {
        encode_record(&mut buf, &records[i]);
        proof {
            let rv = record_views(records@);
            assert(rv.take(i + 1) =~= rv.take(i as int).push(records@[i as int]@));
            lemma_records_bytes_push(rv.take(i as int), records@[i as int]@);
        }
        i = i + 1;
    }
    assert(record_views(records@).take(records@.len() as int) =~= record_views(records@));
    buf
}

fn decode_opt_u64(data: &[u8], off: usize, present: bool) -> (r: Result<(Option<u64>, usize), SampleBlobError>)
    requires
        off <= data@.len(),
    ensures
        match (r, read_opt_u64(data@, off as int, present)) {
            (Ok((v, n)), Ok((w, m))) => v == w && n == m && n <= data@.len(),
            (Err(e), Err(f)) => e == f,
            _ => false,
        },
{
    if !present {
        return Ok((None, off));
    }
    if data.len() - off < 8 {
        return Err(SampleBlobError::Truncated);
    }
    Ok((Some(u64_from_le_bytes(&data[off..off + 8])), off + 8))
}

fn decode_record(data: &[u8], offset: usize) -> (r: Result<(SampleRecord, usize), SampleBlobError>)
    requires
        offset <= data@.len(),
    ensures
        match (r, parse_record(data@, offset as int)) {
            (Ok((rec, n)), Ok((rv, m))) => rec@ == rv && n == m && n <= data@.len(),
            (Err(e), Err(f)) => e == f,
            _ => false,
        },
{
    if data.len() - offset < 9 {
        return Err(SampleBlobError::Truncated);
    }
    let sample_index = u16_from_le_bytes(&data[offset..offset + 2]);
    let offset_us = u32_from_le_bytes(&data[offset + 2..offset + 6]);
    let outcome_disc = data[offset + 6];
    let class_disc = data[offset + 7];
    let flags = data[offset + 8];
    let outcome = match SampleOutcome::from_discriminant(outcome_disc) {
        Some(o) => o,
        None => return Err(SampleBlobError::InvalidOutcome(outcome_disc)),
    };
    let classification = match SampleClassification::from_discriminant(class_disc) {
        Some(c) => c,
        None => return Err(SampleBlobError::InvalidClassification(class_disc)),
    };
    let (latency_ns, o1) = decode_opt_u64(data, offset + 9, flags & FLAG_HAS_LATENCY != 0)?;
    let (elapsed_ns, o2) = decode_opt_u64(data, o1, flags & FLAG_HAS_ELAPSED != 0)?;
    let (metadata, o3) = if flags & FLAG_HAS_METADATA != 0 {
        if data.len() - o2 < 2 {
            return Err(SampleBlobError::Truncated);
        }
        let meta_len = u16_from_le_bytes(&data[o2..o2 + 2]) as usize;
        if data.len() - (o2 + 2) < meta_len {
            return Err(SampleBlobError::Truncated);
        }
        let meta = vstd::slice::slice_to_vec(&data[o2 + 2..o2 + 2 + meta_len]);
        (Some(meta), o2 + 2 + meta_len)
    } else {
        (None, o2)
    };
    let rec = SampleRecord {
        sample_index,
        offset_us,
        outcome,
        classification,
        latency_ns,
        elapsed_ns,
        metadata,
    };
    Ok((rec, o3))
}

/// The records that the bytes `data` encode.
pub fn decode_samples(data: &[u8]) -> (r: Result<Vec<SampleRecord>, SampleBlobError>)
    ensures
        match r {
            Ok(v) => spec_decode_samples(data@) == Ok::<Seq<SampleRecordView>, SampleBlobError>(
                record_views(v@),
            ),
            Err(e) => spec_decode_samples(data@) == Err::<Seq<SampleRecordView>, SampleBlobError>(
                e,
            ),
        },
{
    if data.len() == 0 {
        return Err(SampleBlobError::Truncated);
    }
    let version = data[0];
    if version != ENCODING_VERSION {
        return Err(SampleBlobError::UnsupportedVersion(version));
    }
    if data.len() < 3 {
        return Err(SampleBlobError::Truncated);
    }
    let count = u16_from_le_bytes(&data[1..3]) as usize;
    let mut offset: usize = 3;
    let mut records: Vec<SampleRecord> = Vec::new();
    let mut k: usize = 0;
    while k < count
        invariant
            offset <= data@.len(),
            k <= count,
            count == le16_at(data@, 1),
            spec_decode_samples(data@) == match parse_records(data@, offset as int, (count - k) as nat) {
                Ok(rest) => Ok(record_views(records@) + rest),
                Err(e) => Err(e),
            },
        decreases count - k,
    {
        let ghost before = records@;
        let (rec, next) = match decode_record(data, offset) {
            Ok(x) => x,
            Err(e) => return Err(e),
        };
        records.push(rec);
        proof {
            assert(record_views(records@) =~= record_views(before).push(rec@));
            match parse_records(data@, next as int, (count - k - 1) as nat) {
                Ok(rest) => {
                    assert(record_views(before) + (seq![rec@] + rest) =~= record_views(records@)
                        + rest);
                },
                Err(_) => {},
            }
        }
        offset = next;
        k = k + 1;
    }
    assert(record_views(records@) + Seq::<SampleRecordView>::empty() =~= record_views(records@));
    Ok(records)
}

} // verus!
