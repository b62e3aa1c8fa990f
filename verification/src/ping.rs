//! ICMP echo: building echo requests, the Internet checksum, and reading
//! echo replies and ICMP errors; the ICMP probe's settings.
use std::time::Duration;
use vstd::prelude::*;

use crate::kinds::SampleOutcome;
use crate::probe::{IoErrorInfo, IoErrorKind, SampleResult};
use crate::text;
use crate::text::{concat, str_contains, to_lowercase, u64_to_decimal};

verus! {

/// ICMPv4 echo request type.
pub const ICMP_ECHO_REQUEST_V4: u8 = 8;

/// ICMPv4 echo reply type.
pub const ICMP_ECHO_REPLY_V4: u8 = 0;

/// ICMPv4 destination unreachable type.
pub const ICMP_DEST_UNREACH_V4: u8 = 3;

/// ICMPv4 time exceeded type.
pub const ICMP_TIME_EXCEEDED_V4: u8 = 11;

/// ICMPv6 echo request type.
pub const ICMP_ECHO_REQUEST_V6: u8 = 128;

/// ICMPv6 echo reply type.
pub const ICMP_ECHO_REPLY_V6: u8 = 129;

/// ICMPv6 destination unreachable type.
pub const ICMP_DEST_UNREACH_V6: u8 = 1;

/// ICMPv6 time exceeded type.
pub const ICMP_TIME_EXCEEDED_V6: u8 = 3;

/// The payload size of echo requests unless configured otherwise.
pub const DEFAULT_PAYLOAD_SIZE: usize = 56;

/// The sum of the 16-bit big-endian words of `d`; an odd last byte counts
/// as the high byte of a word.
pub open spec fn word_sum(d: Seq<u8>) -> nat
    decreases d.len(),
{
    if d.len() == 0 {
        0
    } else if d.len() == 1 {
        d[0] as nat * 256
    } else {
        d[0] as nat * 256 + d[1] as nat + word_sum(d.skip(2))
    }
}

/// One folding step shrinks a sum of 65536 or more, keeps it positive and
/// keeps its remainder modulo 65535.
pub proof fn lemma_fold_step(s: nat)
    requires
        s >= 65536,
    ensures
        s % 65536 + s / 65536 < s,
        (s % 65536 + s / 65536) % 65535 == s % 65535,
        s % 65536 + s / 65536 > 0,
{
    let q = s / 65536;
    let r = s % 65536;
    assert(s == 65536 * q + r && 0 <= r < 65536 && q >= 1) by (nonlinear_arith)
        requires
            s >= 65536,
            q == s / 65536,
            r == s % 65536,
    ;
    assert((r + q) % 65535 == s % 65535) by (nonlinear_arith)
        requires
            s == 65536 * q + r,
            q >= 0,
            r >= 0,
    {
        assert(s == 65535 * q + (r + q));
        vstd::arithmetic::div_mod::lemma_mod_multiples_vanish(q as int, (r + q) as int, 65535);
    }
}

/// Folds the carries of a ones' complement sum until it fits in 16 bits.
pub open spec fn fold_carries(s: nat) -> nat
    decreases s,
{
    if s < 65536 {
        s
    } else {
        proof {
            lemma_fold_step(s);
        }
        fold_carries(s % 65536 + s / 65536)
    }
}

proof fn lemma_fold(s: nat)
    ensures
        fold_carries(s) < 65536,
        fold_carries(s) <= s,
        fold_carries(s) % 65535 == s % 65535,
        s > 0 ==> fold_carries(s) > 0,
    decreases s,
{
    if s >= 65536 {
        lemma_fold_step(s);
        lemma_fold(s % 65536 + s / 65536);
    }
}

/// The Internet checksum of `d`: the ones' complement of the folded sum of
/// its 16-bit words.
pub open spec fn spec_checksum(d: Seq<u8>) -> u16 {
    (65535 - fold_carries(word_sum(d))) as u16
}

proof fn lemma_word_sum_skip(d: Seq<u8>, i: int)
    requires
        0 <= i,
        i + 2 <= d.len(),
    ensures
        word_sum(d.skip(i)) == d[i] as nat * 256 + d[i + 1] as nat + word_sum(d.skip(i + 2)),
{
    assert(d.skip(i).skip(2) =~= d.skip(i + 2));
}

/// The Internet checksum of `data`.
pub fn compute_checksum(data: &[u8]) -> (r: u16)
    requires
        word_sum(data@) <= u32::MAX,
    ensures
        r == spec_checksum(data@),
{
    let len = data.len();
    let mut sum: u32 = 0;
    let mut i: usize = 0;
    assert(data@.skip(0) =~= data@);
    while len - i >= 2
        invariant
            len == data@.len(),
            i <= len,
            sum + word_sum(data@.skip(i as int)) == word_sum(data@),
            word_sum(data@) <= u32::MAX,
        decreases len - i,
    {
        proof {
            lemma_word_sum_skip(data@, i as int);
        }
        let w = (data[i] as u32) * 256 + data[i + 1] as u32;
        sum = sum + w;
        i = i + 2;
    }
    if i < len {
        assert(data@.skip(i as int).len() == 1);
        sum = sum + (data[i] as u32) * 256;
    } else {
        assert(data@.skip(i as int).len() == 0);
    }
    assert(sum == word_sum(data@));
    let ghost total = sum as nat;
    while sum >= 65536
        invariant
            fold_carries(sum as nat) == fold_carries(total),
        decreases sum,
    {
        proof {
            lemma_fold_step(sum as nat);
        }
        assert((sum & 0xffff) == sum % 65536 && (sum >> 16) == sum / 65536) by (bit_vector);
        sum = (sum & 0xffff) + (sum >> 16);
    }
    proof {
        lemma_fold(total);
    }
    (65535 - sum) as u16
}

/// The ICMP type of an echo request.
pub open spec fn echo_request_type(is_ipv6: bool) -> u8 {
    if is_ipv6 {
        128
    } else {
        8
    }
}

/// The two big-endian bytes of `x`.
pub open spec fn be16(x: u16) -> Seq<u8> {
    seq![(x / 256) as u8, (x % 256) as u8]
}

/// The payload of an echo request of `n` bytes: byte `i` is `i mod 256`.
pub open spec fn echo_payload(n: nat) -> Seq<u8> {
    Seq::new(n, |i: int| (i % 256) as u8)
}

/// An echo request whose checksum field holds `checksum`.
pub open spec fn echo_with_checksum(is_ipv6: bool, identifier: u16, sequence: u16, n: nat, checksum: u16) -> Seq<u8> {
    seq![echo_request_type(is_ipv6), 0u8] + be16(checksum) + be16(identifier) + be16(sequence)
        + echo_payload(n)
}

/// The echo request with its checksum filled in.
pub open spec fn spec_echo_request(is_ipv6: bool, identifier: u16, sequence: u16, n: nat) -> Seq<u8> {
    echo_with_checksum(
        is_ipv6,
        identifier,
        sequence,
        n,
        spec_checksum(echo_with_checksum(is_ipv6, identifier, sequence, n, 0)),
    )
}

proof fn lemma_echo_word_sum(is_ipv6: bool, identifier: u16, sequence: u16, n: nat, ck: u16)
    ensures
        word_sum(echo_with_checksum(is_ipv6, identifier, sequence, n, ck)) == word_sum(
            echo_with_checksum(is_ipv6, identifier, sequence, n, 0),
        ) + ck,
{
    let d1 = echo_with_checksum(is_ipv6, identifier, sequence, n, ck);
    let d0 = echo_with_checksum(is_ipv6, identifier, sequence, n, 0);
    assert(d1.skip(2).skip(2) =~= d0.skip(2).skip(2));
    assert(d1.skip(2)[0] as nat * 256 + d1.skip(2)[1] as nat == ck as nat);
    assert(d0.skip(2)[0] == 0 && d0.skip(2)[1] == 0);
    assert(d1[0] == d0[0] && d1[1] == d0[1]);
    assert(word_sum(d1) == d1[0] as nat * 256 + d1[1] as nat + word_sum(d1.skip(2)));
    assert(word_sum(d0) == d0[0] as nat * 256 + d0[1] as nat + word_sum(d0.skip(2)));
    assert(word_sum(d1.skip(2)) == d1.skip(2)[0] as nat * 256 + d1.skip(2)[1] as nat + word_sum(
        d1.skip(2).skip(2),
    ));
    assert(word_sum(d0.skip(2)) == d0.skip(2)[0] as nat * 256 + d0.skip(2)[1] as nat + word_sum(
        d0.skip(2).skip(2),
    ));
}

/// An echo request that carries its checksum checks out: recomputing the
/// checksum over the whole packet gives 0.
pub proof fn law_echo_request_checksum_verifies(is_ipv6: bool, identifier: u16, sequence: u16, n: nat)
    ensures
        spec_checksum(spec_echo_request(is_ipv6, identifier, sequence, n)) == 0,
{
    let s = word_sum(echo_with_checksum(is_ipv6, identifier, sequence, n, 0));
    lemma_fold(s);
    let f = fold_carries(s);
    let ck = (65535 - f) as u16;
    lemma_echo_word_sum(is_ipv6, identifier, sequence, n, ck);
    let s2: nat = s + ck as nat;
    lemma_fold(s2);
    let f2 = fold_carries(s2);
    assert(s2 % 65535 == 0) by (nonlinear_arith)
        requires
            s2 == s + 65535 - f,
            f % 65535 == s % 65535,
            f <= s,
    {
        assert(s2 == (s - f) + 65535);
        assert((s - f) % 65535 == 0) by {
            vstd::arithmetic::div_mod::lemma_sub_mod_noop(s as int, f as int, 65535);
        }
    }
    assert(f2 == 65535) by (nonlinear_arith)
        requires
            f2 % 65535 == 0,
            0 < f2 < 65536,
    ;
}

/// The echo request of the given kind, identifier, sequence number and
/// payload size, with its checksum filled in.
pub fn build_echo_request(is_ipv6: bool, identifier: u16, sequence: u16, payload_size: usize) -> (r: Vec<u8>)
    requires
        word_sum(echo_with_checksum(is_ipv6, identifier, sequence, payload_size as nat, 0)) <= u32::MAX,
    ensures
        r@ == spec_echo_request(is_ipv6, identifier, sequence, payload_size as nat),
{
    let msg_type = if is_ipv6 {
        ICMP_ECHO_REQUEST_V6
    } else {
        ICMP_ECHO_REQUEST_V4
    };
    let mut packet: Vec<u8> = Vec::new();
    packet.push(msg_type);
    packet.push(0);
    packet.push(0);
    packet.push(0);
    packet.push((identifier / 256) as u8);
    packet.push((identifier % 256) as u8);
    packet.push((sequence / 256) as u8);
    packet.push((sequence % 256) as u8);
    let ghost head = packet@;
    let mut i: usize = 0;
    while i < payload_size
        invariant
            i <= payload_size,
            packet@ == head + echo_payload(i as nat),
        decreases payload_size - i,
    {
        packet.push((i % 256) as u8);
        assert(packet@ =~= head + echo_payload((i + 1) as nat));
        i = i + 1;
    }
    assert(packet@ =~= echo_with_checksum(is_ipv6, identifier, sequence, payload_size as nat, 0));
    let checksum = compute_checksum(packet.as_slice());
    packet.set(2, (checksum / 256) as u8);
    packet.set(3, (checksum % 256) as u8);
    assert(packet@ =~= spec_echo_request(is_ipv6, identifier, sequence, payload_size as nat));
    packet
}

/// The address family that a probe resolves to.
#[derive(Debug, Clone, Copy, PartialEq, Eq, Structural)]
pub enum AddressFamily {
    Auto,
    Ipv4,
    Ipv6,
}

impl AddressFamily {
    /// The family used unless configured otherwise: `Auto`.
    pub fn default() -> (r: Self)
        ensures
            r == AddressFamily::Auto,
    {
        AddressFamily::Auto
    }
}

/// The settings of the ICMP probe.
#[derive(Debug, Clone)]
pub struct IcmpProbeConfig {
    pub address_family: AddressFamily,
    pub payload_size: usize,
    pub source_address: Option<String>,
}

impl IcmpProbeConfig {
    /// Automatic address family, 56-byte payload, no source address.
    pub fn default() -> (r: Self)
        ensures
            r.address_family == AddressFamily::Auto,
            r.payload_size == 56,
            r.source_address is None,
    {
        IcmpProbeConfig { address_family: AddressFamily::Auto, payload_size: DEFAULT_PAYLOAD_SIZE, source_address: None }
    }
}

/// The kind of socket that sends ICMP messages.
#[derive(Debug, Clone, Copy, PartialEq, Eq, Structural)]
pub enum SocketMethod {
    Dgram,
    Raw,
}

/// The name of a socket kind.
pub open spec fn socket_method_name(m: SocketMethod) -> Seq<char> {
    match m {
        SocketMethod::Dgram => "dgram"@,
        SocketMethod::Raw => "raw"@,
    }
}

impl SocketMethod {
    /// The kind's name: `dgram` or `raw`.
    pub fn to_string(&self) -> (r: String)
        ensures
            r@ == socket_method_name(*self),
    {
        match self {
            SocketMethod::Dgram => String::from_str("dgram"),
            SocketMethod::Raw => String::from_str("raw"),
        }
    }
}

/// Which socket kinds can send ICMP messages on this host, per family.
#[derive(Debug, Clone, Copy)]
pub struct IcmpCapability {
    pub ipv4: Option<SocketMethod>,
    pub ipv6: Option<SocketMethod>,
}

impl IcmpCapability {
    /// Whether ICMP can be sent in at least one family.
    pub fn is_available(&self) -> (r: bool)
        ensures
            r == (self.ipv4 is Some || self.ipv6 is Some),
    {
        self.ipv4.is_some() || self.ipv6.is_some()
    }
}

/// The ICMP probe and its settings.
pub struct IcmpProbe {
    config: IcmpProbeConfig,
}

impl IcmpProbe {
    /// The probe with the given settings.
    pub fn new(config: IcmpProbeConfig) -> (r: Self)
        ensures
            r.spec_config() == config,
    {
        Self { config }
    }

    /// The probe's settings.
    pub closed spec fn spec_config(&self) -> IcmpProbeConfig {
        self.config
    }

    /// The probe's settings.
    pub fn config(&self) -> (r: &IcmpProbeConfig)
        ensures
            *r == self.spec_config(),
    {
        &self.config
    }
}

/// The ICMP type of an echo reply.
pub open spec fn echo_reply_type(is_ipv6: bool) -> u8 {
    if is_ipv6 {
        129
    } else {
        0
    }
}

/// Whether `t` is an error type: destination unreachable or time exceeded.
pub open spec fn spec_is_error_type(t: u8, is_ipv6: bool) -> bool {
    if is_ipv6 {
        t == 1 || t == 3
    } else {
        t == 3 || t == 11
    }
}

/// The outcome that an ICMP message type stands for.
pub open spec fn spec_classify_error(t: u8, is_ipv6: bool) -> SampleOutcome {
    if spec_is_error_type(t, is_ipv6) {
        SampleOutcome::NetworkUnreachable
    } else {
        SampleOutcome::UnexpectedResponse
    }
}

/// Whether `t` is an ICMP error type: destination unreachable or time
/// exceeded.
pub fn is_icmp_error_type(t: u8, is_ipv6: bool) -> (r: bool)
    ensures
        r == spec_is_error_type(t, is_ipv6),
{
    if is_ipv6 {
        t == ICMP_DEST_UNREACH_V6 || t == ICMP_TIME_EXCEEDED_V6
    } else {
        t == ICMP_DEST_UNREACH_V4 || t == ICMP_TIME_EXCEEDED_V4
    }
}

/// The outcome that an ICMP message of type `t` stands for: unreachable
/// for the error types, an unexpected response otherwise.
pub fn classify_icmp_error(t: u8, is_ipv6: bool) -> (r: SampleOutcome)
    ensures
        r == spec_classify_error(t, is_ipv6),
{
    if is_icmp_error_type(t, is_ipv6) {
        SampleOutcome::NetworkUnreachable
    } else {
        SampleOutcome::UnexpectedResponse
    }
}

/// What reading a received message gives.
#[derive(Debug)]
pub enum ParsedReply {
    Match(String),
    Error(SampleOutcome, String),
    Retry,
}

/// The abstract content of a `ParsedReply`.
pub ghost enum ParsedReplyView {
    Match(Seq<char>),
    Error(SampleOutcome, Seq<char>),
    Retry,
}

impl View for ParsedReply {
    type V = ParsedReplyView;

    open spec fn view(&self) -> ParsedReplyView {
        match self {
            ParsedReply::Match(s) => ParsedReplyView::Match(s@),
            ParsedReply::Error(o, s) => ParsedReplyView::Error(*o, s@),
            ParsedReply::Retry => ParsedReplyView::Retry,
        }
    }
}

/// The ICMP message inside received bytes: raw IPv4 sockets deliver the IP
/// header first, whose length is in the low four bits of the first byte.
/// `None` when the bytes are too short for the header.
pub open spec fn message_of(data: Seq<u8>, is_ipv6: bool, method: SocketMethod) -> Option<Seq<u8>> {
    match method {
        SocketMethod::Dgram => Some(data),
        SocketMethod::Raw => if is_ipv6 {
            Some(data)
        } else if data.len() < 20 {
            None
        } else if data.len() < (data[0] % 16) * 4 + 8 {
            None
        } else {
            Some(data.skip((data[0] % 16) * 4))
        },
    }
}

/// The big-endian 16-bit number at `i`.
pub open spec fn be16_at(m: Seq<u8>, i: int) -> nat {
    m[i] as nat * 256 + m[i + 1] as nat
}

/// The detail of a matching echo reply.
pub open spec fn match_detail(identifier: nat, sequence: nat, method: SocketMethod) -> Seq<char> {
    "id="@ + text::decimal(identifier) + " seq="@ + text::decimal(sequence) + " socket_type="@
        + socket_method_name(method)
}

/// The detail of an ICMP error message.
pub open spec fn error_detail(t: u8, code: u8) -> Seq<char> {
    "icmp_type="@ + text::decimal(t as nat) + " icmp_code="@ + text::decimal(code as nat)
}

/// What a received message means for a request with the given identifier
/// and sequence number: a match, an ICMP error, or something to skip.
pub open spec fn spec_parse_reply(
    data: Seq<u8>,
    is_ipv6: bool,
    method: SocketMethod,
    identifier: u16,
    sequence: u16,
) -> ParsedReplyView {
    match message_of(data, is_ipv6, method) {
        None => ParsedReplyView::Retry,
        Some(m) => if m.len() < 8 {
            ParsedReplyView::Retry
        } else if m[0] == echo_reply_type(is_ipv6) && m[1] == 0 && be16_at(m, 4) == identifier
            && be16_at(m, 6) == sequence {
            ParsedReplyView::Match(match_detail(be16_at(m, 4), be16_at(m, 6), method))
        } else if spec_is_error_type(m[0], is_ipv6) {
            ParsedReplyView::Error(spec_classify_error(m[0], is_ipv6), error_detail(m[0], m[1]))
        } else {
            ParsedReplyView::Retry
        },
    }
}

fn be_u16(hi: u8, lo: u8) -> (r: u16)
    ensures
        r == hi as nat * 256 + lo as nat,
{
    (hi as u16) * 256 + lo as u16
}

fn ip_header_len(b: u8) -> (r: usize)
    ensures
        r == (b % 16) * 4,
{
    ((b % 16) as usize) * 4
}

fn u16_text(x: u16) -> (r: String)
    ensures
        r@ == text::decimal(x as nat),
{
    u64_to_decimal(x as u64)
}

fn u8_text(x: u8) -> (r: String)
    ensures
        r@ == text::decimal(x as nat),
{
    u64_to_decimal(x as u64)
}

/// Reads a received message for the request with the given identifier and
/// sequence number.
pub fn parse_icmp_reply(
    data: &[u8],
    is_ipv6: bool,
    method: SocketMethod,
    expected_identifier: u16,
    expected_sequence: u16,
) -> (r: ParsedReply)
    ensures
        r@ == spec_parse_reply(data@, is_ipv6, method, expected_identifier, expected_sequence),
{
    let msg: &[u8] = match method {
        SocketMethod::Dgram => data,
        SocketMethod::Raw => {
            if is_ipv6 {
                data
            } else {
                if data.len() < 20 {
                    return ParsedReply::Retry;
                }
                let ihl = ip_header_len(data[0]);
                if data.len() < ihl + 8 {
                    return ParsedReply::Retry;
                }
                &data[ihl..data.len()]
            }
        },
    };
    assert(message_of(data@, is_ipv6, method) == Some(msg@));
    if msg.len() < 8 {
        return ParsedReply::Retry;
    }
    let msg_type = msg[0];
    let code = msg[1];
    let identifier = be_u16(msg[4], msg[5]);
    let sequence = be_u16(msg[6], msg[7]);
    let reply_type = if is_ipv6 {
        ICMP_ECHO_REPLY_V6
    } else {
        ICMP_ECHO_REPLY_V4
    };
    if msg_type == reply_type && code == 0 && identifier == expected_identifier && sequence
        == expected_sequence {
        let mut d = String::from_str("id=");
        d.append(u16_text(identifier).as_str());
        d.append(" seq=");
        d.append(u16_text(sequence).as_str());
        d.append(" socket_type=");
        d.append(method.to_string().as_str());
        return ParsedReply::Match(d);
    }
    if is_icmp_error_type(msg_type, is_ipv6) {
        let outcome = classify_icmp_error(msg_type, is_ipv6);
        let mut d = String::from_str("icmp_type=");
        d.append(u8_text(msg_type).as_str());
        d.append(" icmp_code=");
        d.append(u8_text(code).as_str());
        return ParsedReply::Error(outcome, d);
    }
    ParsedReply::Retry
}

/// The outcome of a failed send: permission and reachability errors by
/// kind, or by a lowercase message that mentions them; an internal error
/// otherwise.
pub open spec fn spec_send_outcome(kind: IoErrorKind, message: Seq<char>) -> SampleOutcome {
    if kind == IoErrorKind::PermissionDenied {
        SampleOutcome::PermissionDenied
    } else if kind == IoErrorKind::NetworkUnreachable {
        SampleOutcome::NetworkUnreachable
    } else if text::contains(text::lowercase(message), "unreachable"@) {
        SampleOutcome::NetworkUnreachable
    } else if text::contains(text::lowercase(message), "permission"@) {
        SampleOutcome::PermissionDenied
    } else {
        SampleOutcome::InternalError
    }
}

/// The sample result of a failed send.
pub fn classify_send_error(e: &IoErrorInfo) -> (r: SampleResult)
    ensures
        r.outcome == spec_send_outcome(e.kind, e.message@),
        r.latency is None,
        r.detail matches Some(d) && d@ == "icmp send error: "@ + e.message@,
        r.metadata is None,
{
    let outcome = if e.kind == IoErrorKind::PermissionDenied {
        SampleOutcome::PermissionDenied
    } else if e.kind == IoErrorKind::NetworkUnreachable {
        SampleOutcome::NetworkUnreachable
    } else {
        let msg = to_lowercase(e.message.as_str());
        if str_contains(msg.as_str(), "unreachable") {
            SampleOutcome::NetworkUnreachable
        } else if str_contains(msg.as_str(), "permission") {
            SampleOutcome::PermissionDenied
        } else {
            SampleOutcome::InternalError
        }
    };
    SampleResult {
        outcome,
        latency: None,
        detail: Some(concat("icmp send error: ", e.message.as_str())),
        metadata: None,
    }
}

/// The outcome of a failed receive: permission and reachability errors by
/// kind; an internal error otherwise.
pub open spec fn spec_recv_outcome(kind: IoErrorKind) -> SampleOutcome {
    if kind == IoErrorKind::PermissionDenied {
        SampleOutcome::PermissionDenied
    } else if kind == IoErrorKind::NetworkUnreachable {
        SampleOutcome::NetworkUnreachable
    } else {
        SampleOutcome::InternalError
    }
}

/// The sample result of a failed receive after `elapsed`.
pub fn classify_recv_error(e: &IoErrorInfo, elapsed: Duration) -> (r: SampleResult)
    ensures
        r.outcome == spec_recv_outcome(e.kind),
        r.latency == Some(elapsed),
        r.detail matches Some(d) && d@ == "icmp recv error: "@ + e.message@,
        r.metadata is None,
{
    let outcome = if e.kind == IoErrorKind::PermissionDenied {
        SampleOutcome::PermissionDenied
    } else if e.kind == IoErrorKind::NetworkUnreachable {
        SampleOutcome::NetworkUnreachable
    } else {
        SampleOutcome::InternalError
    };
    SampleResult {
        outcome,
        latency: Some(elapsed),
        detail: Some(concat("icmp recv error: ", e.message.as_str())),
        metadata: None,
    }
}

impl crate::probe::Probe for IcmpProbe {
    open spec fn spec_kind(&self) -> crate::kinds::ProbeKind {
        crate::kinds::ProbeKind::Icmp
    }

    fn kind(&self) -> (r: crate::kinds::ProbeKind) {
        crate::kinds::ProbeKind::Icmp
    }
}

} // verus!
