//! Scheduling of rounds: the stable per-check offset that spreads rounds
//! over a jitter window, and the next due time of a check.
use std::time::Duration;
use vstd::prelude::*;

use crate::duration::duration_nanos;
use crate::config::{CheckConfig, ResolvedCheckDef, StartupMode, TargetConfig};
use crate::kinds::ProbeKind;
use crate::ids::{CheckId, TargetId};

verus! {

/// A command to the scheduler: take this set of checks as the ones to
/// run.
#[derive(Debug, Clone)]
pub enum SchedulerCommand {
    Reconcile(Vec<ResolvedCheckDef>),
}

/// The SHA-256 digest of `data`, as `sha2::Sha256::digest` computes it.
pub uninterp spec fn sha256(data: Seq<u8>) -> Seq<u8>;

/// Computes the SHA-256 digest of `data` with `sha2::Sha256::digest`; its
/// result is named `sha256` and has 32 bytes.
#[verifier::external_body]
pub(crate) fn sha256_digest(data: &[u8]) -> (r: Vec<u8>)
    ensures
        r@ == sha256(data@),
        r@.len() == 32,
{
    <sha2::Sha256 as sha2::Digest>::digest(data).to_vec()
}

/// The little-endian 64-bit number in the first eight bytes of `b`.
pub open spec fn le_u64_prefix(b: Seq<u8>) -> nat {
    b[0] as nat + 256 * (b[1] as nat + 256 * (b[2] as nat + 256 * (b[3] as nat + 256 * (b[4] as nat
        + 256 * (b[5] as nat + 256 * (b[6] as nat + 256 * b[7] as nat))))))
}

/// The jitter window of an interval in milliseconds: a tenth of it, and at
/// least one.
pub open spec fn jitter_window(interval_ms: nat) -> nat {
    if interval_ms / 10 >= 1 {
        interval_ms / 10
    } else {
        1
    }
}

/// The offset in milliseconds of a check's rounds within the jitter window
/// of an interval of `interval_ms` milliseconds: the first eight bytes of
/// the SHA-256 digest of the target and check ids, modulo the window.
pub open spec fn spec_offset_ms(target: Seq<char>, check: Seq<char>, interval_ms: nat) -> nat {
    le_u64_prefix(sha256(vstd::utf8::encode_utf8(target) + vstd::utf8::encode_utf8(check)))
        % jitter_window(interval_ms)
}

fn le_u64(b: &[u8]) -> (r: u64)
    requires
        b@.len() >= 8,
    ensures
        r == le_u64_prefix(b@),
{
    let r = b[0] as u64 + 256 * (b[1] as u64 + 256 * (b[2] as u64 + 256 * (b[3] as u64 + 256 * (b[4] as u64
        + 256 * (b[5] as u64 + 256 * (b[6] as u64 + 256 * b[7] as u64))))));
    r
}

/// The offset of a check's rounds within the jitter window of `interval`:
/// the same for the same ids and interval, and below a tenth of the
/// interval.
pub fn deterministic_offset(target_id: &TargetId, check_id: &CheckId, interval: Duration) -> (r: Duration)
    requires
        duration_nanos(interval) / 1_000_000 <= u64::MAX,
    ensures
        duration_nanos(r) == spec_offset_ms(target_id@, check_id@, duration_nanos(interval) / 1_000_000)
            * 1_000_000,
{
    let mut data: Vec<u8> = vstd::slice::slice_to_vec(target_id.as_str().as_bytes());
    let mut tail: Vec<u8> = vstd::slice::slice_to_vec(check_id.as_str().as_bytes());
    data.append(&mut tail);
    let hash = sha256_digest(data.as_slice());
    let hash_val = le_u64(hash.as_slice());
    let interval_ms: u64 = (interval.as_nanos() / 1_000_000) as u64;
    let window = interval_ms / 10;
    let window = if window >= 1 {
        window
    } else {
        1
    };
    Duration::from_millis(hash_val % window)
}

/// A check's offset stays within a tenth of its interval.
pub proof fn law_offset_within_window(target: Seq<char>, check: Seq<char>, interval_ns: nat)
    ensures
        spec_offset_ms(target, check, interval_ns / 1_000_000) * 1_000_000 <= interval_ns / 10,
{
    let ms = interval_ns / 1_000_000;
    let w = jitter_window(ms);
    let o = spec_offset_ms(target, check, ms);
    assert(o < w) by {
        vstd::arithmetic::div_mod::lemma_mod_bound(
            le_u64_prefix(sha256(vstd::utf8::encode_utf8(target) + vstd::utf8::encode_utf8(check))) as int,
            w as int,
        );
    }
    if ms / 10 >= 1 {
        assert(o * 1_000_000 <= (ms / 10 - 1) * 1_000_000) by (nonlinear_arith)
            requires
                o < ms / 10,
        ;
        assert((ms / 10) * 1_000_000 <= interval_ns / 10) by (nonlinear_arith)
            requires
                ms == interval_ns / 1_000_000,
        ;
    } else {
        assert(o == 0);
    }
}

/// An instant as whole seconds since the Unix epoch and the nanoseconds
/// beyond them.
pub open spec fn instant_nanos(secs: i64, nanos: u32) -> int {
    secs * 1_000_000_000 + nanos
}

/// When a check with the given interval and offset is next due after the
/// instant `after`: the start of the interval's slot that holds `after`
/// (slots counted from the epoch, the division rounding toward zero) plus
/// the offset, or the next slot's start plus the offset when that is not
/// later than `after`; `after` itself for an interval below one second.
pub open spec fn spec_next_due(after_secs: i64, after_nanos: u32, interval_secs: u64, offset_ns: nat) -> int {
    if interval_secs == 0 {
        instant_nanos(after_secs, after_nanos)
    } else {
        let k = interval_secs as int;
        let a = after_secs as int;
        let slot = if a >= 0 {
            a / k
        } else {
            -((-a) / k)
        };
        let candidate = slot * k * 1_000_000_000 + offset_ns;
        if candidate > instant_nanos(after_secs, after_nanos) {
            candidate
        } else {
            (slot + 1) * k * 1_000_000_000 + offset_ns
        }
    }
}

/// When a check with `interval` and `offset` is next due after the instant
/// `after_secs` seconds and `after_nanos` nanoseconds past the epoch, in
/// nanoseconds since the epoch.
pub fn compute_next_due(after_secs: i64, after_nanos: u32, interval: Duration, offset: Duration) -> (r: i128)
    requires
        after_nanos < 1_000_000_000,
        duration_nanos(interval) / 1_000_000_000 <= i64::MAX,
        duration_nanos(offset) <= u64::MAX,
    ensures
        r == spec_next_due(after_secs, after_nanos, (duration_nanos(interval) / 1_000_000_000) as u64, duration_nanos(offset)),
{
    let interval_secs: u64 = (interval.as_nanos() / 1_000_000_000) as u64;
    let offset_ns: i128 = offset.as_nanos() as i128;
    let after: i128 = after_secs as i128 * 1_000_000_000 + after_nanos as i128;
    if interval_secs == 0 {
        return after;
    }
    let k: i128 = interval_secs as i128;
    let a: i128 = after_secs as i128;
    let m: i128 = if a >= 0 {
        a
    } else {
        -a
    };
    let q: i128 = m / k;
    assert(0 <= q * k <= m) by (nonlinear_arith)
        requires
            q == m / k,
            m >= 0,
            k >= 1,
    ;
    let start: i128 = if a >= 0 {
        q * k
    } else {
        -(q * k)
    };
    let ghost slot: int = if a >= 0 {
        q as int
    } else {
        -(q as int)
    };
    assert(start == slot * k) by (nonlinear_arith)
        requires
            start == (if a >= 0 { q * k } else { -(q * k) }),
            slot == (if a >= 0 { q as int } else { -(q as int) }),
    ;
    assert((slot + 1) * k == slot * k + k) by (nonlinear_arith);
    let candidate: i128 = start * 1_000_000_000 + offset_ns;
    if candidate > after {
        candidate
    } else {
        (start + k) * 1_000_000_000 + offset_ns
    }
}

/// What the scheduler does with a check at a tick.
#[derive(Debug, Clone, Copy, PartialEq, Eq, Structural)]
pub enum TickAction {
    NotDue,
    SkipOverlap,
    Backpressure,
    Dispatch,
}

/// What to do at a tick with a check due at `due_ns` when the time is
/// `now_ns`: nothing before it is due; skip the round while the previous
/// one still runs; hold back while `max_concurrent` rounds run; otherwise
/// dispatch it.
pub fn tick_action(due_ns: i128, now_ns: i128, is_running: bool, running_count: usize, max_concurrent: u32) -> (r:
    TickAction)
    ensures
        r == (if due_ns > now_ns {
            TickAction::NotDue
        } else if is_running {
            TickAction::SkipOverlap
        } else if running_count >= max_concurrent {
            TickAction::Backpressure
        } else {
            TickAction::Dispatch
        }),
{
    if due_ns > now_ns {
        TickAction::NotDue
    } else if is_running {
        TickAction::SkipOverlap
    } else if running_count >= max_concurrent as usize {
        TickAction::Backpressure
    } else {
        TickAction::Dispatch
    }
}

/// The whole seconds since the epoch of an instant `t` nanoseconds after
/// it, and the nanoseconds beyond them.
pub open spec fn split_instant(t: int) -> (int, int) {
    (t / 1_000_000_000, t % 1_000_000_000)
}

fn split_nanos(t: i128) -> (r: (i64, u32))
    requires
        i64::MIN * 1_000_000_000 <= t <= i64::MAX * 1_000_000_000,
    ensures
        r.0 as int == split_instant(t as int).0,
        r.1 as int == split_instant(t as int).1,
        r.1 < 1_000_000_000,
{
    let d: u128 = 1_000_000_000;
    let neg = t < 0;
    let m: u128 = if neg {
        (-t) as u128
    } else {
        t as u128
    };
    let q: u128 = m / d;
    let rem: u128 = m % d;
    proof {
        vstd::arithmetic::div_mod::lemma_fundamental_div_mod(m as int, d as int);
    }
    assert(m == q * 1_000_000_000 + rem && rem < 1_000_000_000);
    let (s, n): (i128, i128) = if !neg {
        (q as i128, rem as i128)
    } else if rem == 0 {
        (-(q as i128), 0)
    } else {
        (-(q as i128) - 1, 1_000_000_000 - rem as i128)
    };
    assert(t == s * 1_000_000_000 + n && 0 <= n < 1_000_000_000) by (nonlinear_arith)
        requires
            m == q * 1_000_000_000 + rem,
            rem < 1_000_000_000,
            neg ==> m == -t,
            !neg ==> m == t,
            !neg ==> s == q && n == rem,
            neg && rem == 0 ==> s == -q && n == 0,
            neg && rem != 0 ==> s == -q - 1 && n == 1_000_000_000 - rem,
    ;
    proof {
        vstd::arithmetic::div_mod::lemma_fundamental_div_mod_converse(
            t as int,
            1_000_000_000,
            s as int,
            n as int,
        );
    }
    assert(i64::MIN <= s <= i64::MAX) by (nonlinear_arith)
        requires
            t == s * 1_000_000_000 + n,
            0 <= n < 1_000_000_000,
            i64::MIN * 1_000_000_000 <= t <= i64::MAX * 1_000_000_000,
    ;
    (s as i64, n as u32)
}

/// When a check is next due after its round that was due at `due_ns`: the
/// next due time after one interval past `due_ns`.
pub open spec fn spec_next_due_after(due_ns: int, interval_ns: nat, offset_ns: nat) -> int {
    let t = split_instant(due_ns + interval_ns);
    spec_next_due(t.0 as i64, t.1 as u32, (interval_ns / 1_000_000_000) as u64, offset_ns)
}

/// When a check with `interval` and `offset` is next due after its round
/// that was due at `due_ns` nanoseconds past the epoch.
pub fn next_due_after(due_ns: i128, interval: Duration, offset: Duration) -> (r: i128)
    requires
        i64::MIN * 1_000_000_000 <= due_ns + duration_nanos(interval) <= i64::MAX * 1_000_000_000,
        duration_nanos(interval) / 1_000_000_000 <= i64::MAX,
        duration_nanos(offset) <= u64::MAX,
    ensures
        r == spec_next_due_after(due_ns as int, duration_nanos(interval), duration_nanos(offset)),
{
    let iv: u128 = interval.as_nanos();
    let t: i128 = due_ns + iv as i128;
    let (secs, nanos) = split_nanos(t);
    compute_next_due(secs, nanos, interval, offset)
}

/// The key of a check: its target and its own identifier.
pub open spec fn check_key(c: ResolvedCheckDef) -> (Seq<char>, Seq<char>) {
    (c.target_id@, c.check_id@)
}

/// Whether some check of `cs` has the key `k`.
pub open spec fn has_check_key(cs: Seq<ResolvedCheckDef>, k: (Seq<char>, Seq<char>)) -> bool {
    exists|i: int| 0 <= i < cs.len() && check_key(cs[i]) == k
}

/// The positions of the checks of `cs` whose key no check of `other` has,
/// in order.
pub open spec fn missing_from(cs: Seq<ResolvedCheckDef>, other: Seq<ResolvedCheckDef>) -> Seq<usize>
    decreases cs.len(),
{
    if cs.len() == 0 {
        Seq::empty()
    } else if has_check_key(other, check_key(cs.last())) {
        missing_from(cs.drop_last(), other)
    } else {
        missing_from(cs.drop_last(), other).push((cs.len() - 1) as usize)
    }
}

fn contains_key(cs: &Vec<ResolvedCheckDef>, c: &ResolvedCheckDef) -> (r: bool)
    ensures
        r == has_check_key(cs@, check_key(*c)),
{
    let mut i: usize = 0;
    while i < cs.len()
        invariant
            i <= cs@.len(),
            forall|j: int| 0 <= j < i ==> check_key(#[trigger] cs@[j]) != check_key(*c),
        decreases cs@.len() - i,
    {
        if crate::text::str_eq(cs[i].target_id.as_str(), c.target_id.as_str()) && crate::text::str_eq(
            cs[i].check_id.as_str(),
            c.check_id.as_str(),
        ) {
            return true;
        }
        i = i + 1;
    }
    false
}

fn positions_missing(cs: &Vec<ResolvedCheckDef>, other: &Vec<ResolvedCheckDef>) -> (r: Vec<usize>)
    ensures
        r@ == missing_from(cs@, other@),
{
    let mut out: Vec<usize> = Vec::new();
    let mut i: usize = 0;
    while i < cs.len()
        invariant
            i <= cs@.len(),
            out@ == missing_from(cs@.take(i as int), other@),
        decreases cs@.len() - i,
    {
        assert(cs@.take(i + 1).drop_last() =~= cs@.take(i as int));
        assert(cs@.take(i + 1).last() == cs@[i as int]);
        if !contains_key(other, &cs[i]) {
            out.push(i);
        }
        i = i + 1;
    }
    assert(cs@.take(i as int) =~= cs@);
    out
}

/// What a reconcile changes: the positions of the running checks that are
/// no longer wanted, and of the wanted checks that are new.
pub fn reconcile_plan(active: &Vec<ResolvedCheckDef>, wanted: &Vec<ResolvedCheckDef>) -> (r: (
    Vec<usize>,
    Vec<usize>,
))
    ensures
        r.0@ == missing_from(active@, wanted@),
        r.1@ == missing_from(wanted@, active@),
{
    (positions_missing(active, wanted), positions_missing(wanted, active))
}

/// The enabled checks of the enabled targets, as (target, check)
/// positions, in order.
pub open spec fn enabled_checks(ts: Seq<TargetConfig>) -> Seq<(usize, usize)>
    decreases ts.len(),
{
    if ts.len() == 0 {
        Seq::empty()
    } else if ts.last().enabled {
        enabled_checks(ts.drop_last()) + enabled_of((ts.len() - 1) as usize, ts.last().checks@)
    } else {
        enabled_checks(ts.drop_last())
    }
}

/// The positions of the enabled checks of target `t`.
pub open spec fn enabled_of(t: usize, cs: Seq<CheckConfig>) -> Seq<(usize, usize)>
    decreases cs.len(),
{
    if cs.len() == 0 {
        Seq::empty()
    } else if cs.last().enabled {
        enabled_of(t, cs.drop_last()).push((t, (cs.len() - 1) as usize))
    } else {
        enabled_of(t, cs.drop_last())
    }
}

/// The checks that are scheduled: the enabled checks of the enabled
/// targets, as (target, check) positions in configuration order.
pub fn schedulable_checks(targets: &[TargetConfig]) -> (r: Vec<(usize, usize)>)
    ensures
        r@ == enabled_checks(targets@),
        forall|k: int|
            0 <= k < r@.len() ==> {
                let (t, c) = #[trigger] r@[k];
                &&& t < targets@.len()
                &&& targets@[t as int].enabled
                &&& c < targets@[t as int].checks@.len()
                &&& targets@[t as int].checks@[c as int].enabled
            },
{
    let mut out: Vec<(usize, usize)> = Vec::new();
    let mut t: usize = 0;
    while t < targets.len()
        invariant
            t <= targets@.len(),
            out@ == enabled_checks(targets@.take(t as int)),
            forall|k: int|
                0 <= k < out@.len() ==> {
                    let (a, b) = #[trigger] out@[k];
                    &&& a < t
                    &&& targets@[a as int].enabled
                    &&& b < targets@[a as int].checks@.len()
                    &&& targets@[a as int].checks@[b as int].enabled
                },
        decreases targets@.len() - t,
    {
        assert(targets@.take(t + 1).drop_last() =~= targets@.take(t as int));
        assert(targets@.take(t + 1).last() == targets@[t as int]);
        if targets[t].enabled {
            let cs = &targets[t].checks;
            let ghost base = out@;
            let mut c: usize = 0;
            while c < cs.len()
                invariant
                    c <= cs@.len(),
                    t < targets@.len(),
                    targets@[t as int].enabled,
                    cs@ == targets@[t as int].checks@,
                    out@ == base + enabled_of(t, cs@.take(c as int)),
                    forall|k: int|
                        0 <= k < out@.len() ==> {
                            let (a, b) = #[trigger] out@[k];
                            &&& a <= t
                            &&& targets@[a as int].enabled
                            &&& b < targets@[a as int].checks@.len()
                            &&& targets@[a as int].checks@[b as int].enabled
                        },
                decreases cs@.len() - c,
            {
                assert(cs@.take(c + 1).drop_last() =~= cs@.take(c as int));
                assert(cs@.take(c + 1).last() == cs@[c as int]);
                if cs[c].enabled {
                    out.push((t, c));
                    assert(out@ =~= base + enabled_of(t, cs@.take(c + 1)));
                }
                c = c + 1;
            }
            assert(cs@.take(c as int) =~= cs@);
        }
        t = t + 1;
    }
    assert(targets@.take(t as int) =~= targets@);
    out
}

/// Whether probing can start: ICMP is available, or no check uses it.
pub fn probes_ready(icmp_available: bool, checks: &Vec<ResolvedCheckDef>) -> (r: bool)
    ensures
        r == (icmp_available || forall|i: int| 0 <= i < checks@.len() ==> (#[trigger] checks@[i]).probe_kind
            != ProbeKind::Icmp),
{
    if icmp_available {
        return true;
    }
    let mut i: usize = 0;
    while i < checks.len()
        invariant
            i <= checks@.len(),
            !icmp_available,
            forall|k: int| 0 <= k < i ==> (#[trigger] checks@[k]).probe_kind != ProbeKind::Icmp,
        decreases checks@.len() - i,
    {
        if checks[i].probe_kind == ProbeKind::Icmp {
            return false;
        }
        i = i + 1;
    }
    true
}

/// Whether scheduling is paused after a disk check, given whether it was
/// paused and whether the free space is at or below the critical and the
/// warning level: it pauses when the free space reaches the critical
/// level, and resumes only once it exceeds the warning level.
pub fn next_paused(paused: bool, at_or_below_critical: bool, at_or_below_warning: bool) -> (r: bool)
    ensures
        r == (if paused {
            at_or_below_warning
        } else {
            at_or_below_critical
        }),
{
    if paused {
        at_or_below_warning
    } else {
        at_or_below_critical
    }
}

/// When a check is first due once the scheduler starts, or takes it on, at
/// the instant `now`: at once under `ImmediateThenAligned` (its startup
/// round), else at its next aligned slot.
pub open spec fn spec_first_due(mode: StartupMode, now_secs: i64, now_nanos: u32, interval_secs: u64, offset_ns: nat) -> int {
    match mode {
        StartupMode::ImmediateThenAligned => instant_nanos(now_secs, now_nanos),
        StartupMode::Aligned => spec_next_due(now_secs, now_nanos, interval_secs, offset_ns),
    }
}

/// When a check with `interval` and `offset` is first due once the
/// scheduler starts at the instant `now_secs` seconds and `now_nanos`
/// nanoseconds past the epoch, in nanoseconds since the epoch; after its
/// startup round it is due at its aligned slots (`next_due_after`).
pub fn first_due(mode: StartupMode, now_secs: i64, now_nanos: u32, interval: Duration, offset: Duration) -> (r: i128)
    requires
        now_nanos < 1_000_000_000,
        duration_nanos(interval) / 1_000_000_000 <= i64::MAX,
        duration_nanos(offset) <= u64::MAX,
    ensures
        r == spec_first_due(mode, now_secs, now_nanos, (duration_nanos(interval) / 1_000_000_000) as u64, duration_nanos(offset)),
{
    match mode {
        StartupMode::ImmediateThenAligned => now_secs as i128 * 1_000_000_000 + now_nanos as i128,
        StartupMode::Aligned => compute_next_due(now_secs, now_nanos, interval, offset),
    }
}

/// What a disk check does: whether scheduling is now paused, whether the
/// disk counts as ready (exactly when not paused), and whether to tell the
/// scheduler to pause or resume (exactly when the paused state changed).
#[derive(Debug, Clone, Copy, PartialEq, Eq, Structural)]
pub struct DiskStep {
    pub paused: bool,
    pub disk_ready: bool,
    pub tell_scheduler: Option<bool>,
}

/// The disk check after one reading of the free space, given whether
/// scheduling was paused and whether the free space is at or below the
/// critical and the warning level.
pub fn disk_step(paused: bool, at_or_below_critical: bool, at_or_below_warning: bool) -> (r: DiskStep)
    ensures
        r.paused == (if paused {
            at_or_below_warning
        } else {
            at_or_below_critical
        }),
        r.disk_ready == !r.paused,
        r.tell_scheduler == (if r.paused != paused {
            Some(r.paused)
        } else {
            None
        }),
{
    let now = next_paused(paused, at_or_below_critical, at_or_below_warning);
    DiskStep { paused: now, disk_ready: !now, tell_scheduler: if now != paused { Some(now) } else { None } }
}

} // verus!
