//! Alert evaluation: the alert state machine, its timing decisions, retry
//! backoff of notifications, and the reading of stored alert states.
use vstd::prelude::*;

use crate::duration::{duration_nanos, parse_duration_millis, spec_parse_duration};
use crate::histogram::{empty_histogram, spec_record, Histogram, HistogramView};
use crate::ids::RuleId;
use crate::order::{insert_by_key, keyed_view, keys_ascending, law_sort_by_key, lemma_sort_len, sort_by_key};
use crate::sample_blob::{decode_samples, record_views, spec_decode_samples, SampleRecordView};
use crate::kinds::{AlertEventKind, AlertState};
use crate::probe::{clone_opt, opt_view};
use crate::rows::RoundRow;
use crate::text;
use crate::text::{concat3, i64_to_decimal, str_eq, str_le};
use std::time::Duration;

verus! {

/// Deliveries of a notification are retried this many times at most before
/// the longest interval is used.
pub const MAX_RETRY_ATTEMPTS: i64 = 10;

/// The first retry interval, in seconds.
pub const RETRY_BASE_SECS: u64 = 30;

/// The longest retry interval, in seconds.
pub const RETRY_MAX_SECS: u64 = 3600;

/// The state that a stored state name stands for; anything unknown is
/// `Normal`.
pub open spec fn spec_parse_alert_state(s: Seq<char>) -> AlertState {
    if s == "pending_fire"@ {
        AlertState::PendingFire
    } else if s == "firing"@ {
        AlertState::Firing
    } else if s == "pending_clear"@ {
        AlertState::PendingClear
    } else {
        AlertState::Normal
    }
}

/// Reads a stored alert state name.
pub fn parse_alert_state(s: &str) -> (r: AlertState)
    ensures
        r == spec_parse_alert_state(s@),
{
    if str_eq(s, "pending_fire") {
        AlertState::PendingFire
    } else if str_eq(s, "firing") {
        AlertState::Firing
    } else if str_eq(s, "pending_clear") {
        AlertState::PendingClear
    } else {
        AlertState::Normal
    }
}

/// The operator that clears what `op` fires on: the negation of each
/// comparison, and `lt` for anything unknown.
pub open spec fn spec_invert_operator(op: Seq<char>) -> Seq<char> {
    if op == "gt"@ {
        "lte"@
    } else if op == "gte"@ {
        "lt"@
    } else if op == "lt"@ {
        "gte"@
    } else if op == "lte"@ {
        "gt"@
    } else {
        "lt"@
    }
}

/// The clearing operator of a firing operator.
pub fn invert_operator(op: &str) -> (r: &'static str)
    ensures
        r@ == spec_invert_operator(op@),
{
    if str_eq(op, "gt") {
        "lte"
    } else if str_eq(op, "gte") {
        "lt"
    } else if str_eq(op, "lt") {
        "gte"
    } else if str_eq(op, "lte") {
        "gt"
    } else {
        "lt"
    }
}

/// Whether `value op threshold` holds for one of the comparison operators
/// `gt`, `gte`, `lt` and `lte`; it never holds for another operator.
pub open spec fn condition_holds(value: int, threshold: int, op: Seq<char>) -> bool {
    if op == "gt"@ {
        value > threshold
    } else if op == "gte"@ {
        value >= threshold
    } else if op == "lt"@ {
        value < threshold
    } else if op == "lte"@ {
        value <= threshold
    } else {
        false
    }
}

/// For each comparison operator, the inverted operator holds exactly when
/// the operator does not, on the same value and threshold.
pub proof fn law_inverted_operator_negates(op: Seq<char>, value: int, threshold: int)
    requires
        op == "gt"@ || op == "gte"@ || op == "lt"@ || op == "lte"@,
    ensures
        condition_holds(value, threshold, spec_invert_operator(op)) == !condition_holds(value, threshold, op),
{
    reveal_strlit("gt");
    reveal_strlit("gte");
    reveal_strlit("lt");
    reveal_strlit("lte");
    assert("gt"@.len() == 2 && "lt"@.len() == 2 && "gte"@.len() == 3 && "lte"@.len() == 3);
    assert("gt"@[0] != "lt"@[0] && "gte"@[0] != "lte"@[0]);
    assert("gt"@ != "gte"@ && "gt"@ != "lt"@ && "gt"@ != "lte"@);
    assert("gte"@ != "lt"@ && "gte"@ != "lte"@ && "lt"@ != "lte"@);
}

/// The fingerprint of an alert instance: the rule and the check's internal
/// id, joined by a colon.
pub fn compute_fingerprint(rule_id: &RuleId, check_internal_id: i64) -> (r: String)
    ensures
        r@ == rule_id@ + ":"@ + text::int_decimal(check_internal_id as int),
{
    concat3(rule_id.as_str(), ":", i64_to_decimal(check_internal_id).as_str())
}

/// `2` raised to `n`.
pub open spec fn pow2(n: nat) -> nat
    decreases n,
{
    if n == 0 {
        1
    } else {
        2 * pow2((n - 1) as nat)
    }
}

/// The retry interval before jitter: `30 * 2^attempt` seconds, at most an
/// hour.
pub open spec fn backoff_interval(attempt: nat) -> nat {
    let i = 30 * pow2(attempt);
    if i < 3600 {
        i
    } else {
        3600
    }
}

/// The jitter that the random number `r` gives for the jitter range
/// `range`: `r mod 2·range` less `range`, and never below zero.
pub open spec fn backoff_jitter(range: nat, r: u64) -> nat {
    if range > 0 {
        let x = r as nat % (range * 2);
        if x >= range {
            (x - range) as nat
        } else {
            0
        }
    } else {
        0
    }
}

/// The retry delay in seconds for `attempt` and the random number `r`: the
/// interval plus the jitter of a quarter of it, at most an hour; an hour
/// from the tenth attempt on.
pub open spec fn spec_backoff_secs(attempt: nat, r: u64) -> nat {
    let interval = backoff_interval(attempt);
    let jitter = backoff_jitter(interval / 4, r);
    if attempt >= 10 {
        3600
    } else if interval + jitter < 3600 {
        interval + jitter
    } else {
        3600
    }
}

proof fn lemma_jitter_lt(range: nat, r: u64)
    ensures
        range > 0 ==> backoff_jitter(range, r) < range,
        range == 0 ==> backoff_jitter(range, r) == 0,
{
    if range > 0 {
        vstd::arithmetic::div_mod::lemma_mod_bound(r as int, (range * 2) as int);
    }
}

proof fn lemma_pow2_pos(n: nat)
    ensures
        pow2(n) >= 1,
    decreases n,
{
    if n > 0 {
        lemma_pow2_pos((n - 1) as nat);
    }
}

proof fn lemma_pow2_bound(n: nat)
    requires
        n <= 59,
    ensures
        1 <= pow2(n) <= pow2(59),
        30 * pow2(59) <= u64::MAX,
{
    lemma_pow2_pos(n);
    lemma_pow2_mono(n, 59);
    lemma_pow2_agrees(59);
    vstd::arithmetic::power2::lemma2_to64_rest();
}

proof fn lemma_pow2_agrees(n: nat)
    ensures
        pow2(n) == vstd::arithmetic::power2::pow2(n),
    decreases n,
{
    if n > 0 {
        lemma_pow2_agrees((n - 1) as nat);
        vstd::arithmetic::power2::lemma_pow2_unfold(n);
    } else {
        vstd::arithmetic::power2::lemma2_to64();
    }
}

proof fn lemma_pow2_mono(a: nat, b: nat)
    requires
        a <= b,
    ensures
        pow2(a) <= pow2(b),
        a < b ==> 2 * pow2(a) <= pow2(b),
    decreases b,
{
    if a < b {
        lemma_pow2_mono(a, (b - 1) as nat);
    }
}

/// The retry delay in seconds for `attempt`, given the random number `r`.
pub fn backoff_secs(attempt: i64, r: u64) -> (s: u64)
    requires
        0 <= attempt <= 59,
    ensures
        s == spec_backoff_secs(attempt as nat, r),
{
    proof {
        lemma_pow2_bound(attempt as nat);
    }
    let mut multiplier: u64 = 1;
    let mut k: i64 = 0;
    while k < attempt
        invariant
            0 <= k <= attempt <= 59,
            multiplier == pow2(k as nat),
            pow2(attempt as nat) <= pow2(59),
            30 * pow2(59) <= u64::MAX,
        decreases attempt - k,
    {
        proof {
            lemma_pow2_mono((k + 1) as nat, attempt as nat);
        }
        multiplier = multiplier * 2;
        k = k + 1;
    }
    let raw = RETRY_BASE_SECS * multiplier;
    let interval = if raw < RETRY_MAX_SECS {
        raw
    } else {
        RETRY_MAX_SECS
    };
    let range = interval / 4;
    let jitter: u64 = if range > 0 {
        let x = r % (range * 2);
        x.saturating_sub(range)
    } else {
        0
    };
    if attempt >= MAX_RETRY_ATTEMPTS {
        RETRY_MAX_SECS
    } else {
        let t = interval + jitter;
        if t < RETRY_MAX_SECS {
            t
        } else {
            RETRY_MAX_SECS
        }
    }
}

/// A random number, drawn by `rand::random`; nothing is known of it.
#[verifier::external_body]
fn random_u64() -> u64 {
    rand::random::<u64>()
}

/// The delay before the next delivery attempt of a notification: the
/// backoff for `attempt` with a random jitter.
pub fn compute_backoff(attempt: i64) -> (d: Duration)
    requires
        0 <= attempt <= 59,
    ensures
        exists|r: u64| duration_nanos(d) == #[trigger] spec_backoff_secs(attempt as nat, r) * 1_000_000_000,
{
    let r = random_u64();
    let s = backoff_secs(attempt, r);
    Duration::from_secs(s)
}

/// Retry delays never exceed an hour, and before the tenth attempt never
/// fall below the interval nor reach a quarter beyond it.
pub proof fn law_backoff_bounds(attempt: nat, r: u64)
    ensures
        spec_backoff_secs(attempt, r) <= 3600,
        attempt < 10 ==> backoff_interval(attempt) <= spec_backoff_secs(attempt, r),
        attempt < 10 && backoff_interval(attempt) / 4 > 0 ==> spec_backoff_secs(attempt, r)
            < backoff_interval(attempt) + backoff_interval(attempt) / 4,
        attempt >= 10 ==> spec_backoff_secs(attempt, r) == 3600,
{
    lemma_jitter_lt(backoff_interval(attempt) / 4, r);
}

/// A later attempt never waits less than an earlier one, whatever the
/// random jitter of either.
pub proof fn law_backoff_monotone(a: nat, b: nat, ra: u64, rb: u64)
    requires
        a < b,
    ensures
        spec_backoff_secs(a, ra) <= spec_backoff_secs(b, rb),
{
    lemma_pow2_mono(a, b);
    let ia = backoff_interval(a);
    let ib = backoff_interval(b);
    lemma_jitter_lt(ia / 4, ra);
    lemma_jitter_lt(ib / 4, rb);
    assert(ia + ia / 4 <= 2 * ia);
    assert(2 * ia <= ib || ib == 3600);
}

/// Why the span between two timestamps could not be taken: the earlier or
/// the later text is not an RFC 3339 timestamp.
#[derive(Debug, Clone, Copy, PartialEq, Eq, Structural)]
pub enum SpanError {
    From,
    To,
}

/// The signed time from the RFC 3339 timestamp `from` to `to`, as chrono
/// gives it after `DateTime::parse_from_rfc3339` of both: whole seconds
/// and the nanoseconds beyond them, both rounded toward zero; or which text
/// did not parse, `from` first.
pub uninterp spec fn rfc3339_span(from: Seq<char>, to: Seq<char>) -> Result<(i64, i32), SpanError>;

/// Parses `from` and `to` with `DateTime::parse_from_rfc3339` and takes
/// the difference; its result is named `rfc3339_span`.
#[verifier::external_body]
fn timestamp_span(from: &str, to: &str) -> (r: Result<(i64, i32), SpanError>)
    ensures
        r == rfc3339_span(from@, to@),
{
    let f = match chrono::DateTime::parse_from_rfc3339(from) {
        Ok(f) => f,
        Err(_) => return Err(SpanError::From),
    };
    let t = match chrono::DateTime::parse_from_rfc3339(to) {
        Ok(t) => t,
        Err(_) => return Err(SpanError::To),
    };
    let d = t - f;
    Ok((d.num_seconds(), d.subsec_nanos()))
}

/// The length of a span in nanoseconds.
pub open spec fn span_nanos(s: (i64, i32)) -> int {
    s.0 * 1_000_000_000 + s.1
}

/// The span that a duration of `ms` milliseconds becomes: itself up to the
/// longest span chrono holds (`i64::MAX` milliseconds), and zero beyond.
pub open spec fn required_nanos(ms: nat) -> int {
    if ms <= i64::MAX {
        (ms * 1_000_000) as int
    } else {
        0
    }
}

/// Whether a rule's hold time has passed between `since` and `now`: always
/// when the rule has no hold time that reads, or when either timestamp
/// does not read.
pub open spec fn spec_hold_elapsed(hold: Option<Seq<char>>, since: Seq<char>, now: Seq<char>) -> bool {
    match hold {
        Some(h) => match spec_parse_duration(h) {
            Ok(ms) => match rfc3339_span(since, now) {
                Ok(s) => span_nanos(s) >= required_nanos(ms),
                Err(_) => true,
            },
            Err(_) => true,
        },
        None => true,
    }
}

/// Whether a firing alert repeats its notification: only when the rule
/// repeats with a reading interval; always when nothing was sent or the
/// last sending time does not read; never when `now` does not read; else
/// when the interval has passed.
pub open spec fn spec_should_repeat(
    repeat_every: Option<Seq<char>>,
    last: Option<Seq<char>>,
    now: Seq<char>,
) -> bool {
    match repeat_every {
        Some(r) => match spec_parse_duration(r) {
            Ok(ms) => match last {
                Some(l) => match rfc3339_span(l, now) {
                    Ok(s) => span_nanos(s) >= required_nanos(ms),
                    Err(SpanError::From) => true,
                    Err(SpanError::To) => false,
                },
                None => true,
            },
            Err(_) => false,
        },
        None => false,
    }
}

fn span_reached(s: (i64, i32), ms: u64) -> (r: bool)
    ensures
        r == (span_nanos(s) >= required_nanos(ms as nat)),
{
    let elapsed: i128 = (s.0 as i128) * 1_000_000_000 + s.1 as i128;
    let required: i128 = if ms <= 9223372036854775807 {
        (ms as i128) * 1_000_000
    } else {
        0
    };
    elapsed >= required
}

/// Whether the hold time `duration` has passed since `since`.
fn hold_elapsed(duration: &Option<String>, since: &str, now: &str) -> (r: bool)
    ensures
        r == spec_hold_elapsed(opt_view(*duration), since@, now@),
{
    match duration {
        Some(h) => match parse_duration_millis(h.as_str()) {
            Ok(ms) => match timestamp_span(since, now) {
                Ok(s) => span_reached(s, ms),
                Err(_) => true,
            },
            Err(_) => true,
        },
        None => true,
    }
}

/// Whether an alert whose condition holds since `first_condition_true_at`
/// fires now: once the rule's hold time has passed.
pub fn should_transition_to_firing(
    duration: &Option<String>,
    first_condition_true_at: &str,
    now: &str,
) -> (r: bool)
    ensures
        r == spec_hold_elapsed(opt_view(*duration), first_condition_true_at@, now@),
{
    hold_elapsed(duration, first_condition_true_at, now)
}

/// Whether an alert that entered its state at `state_entered_at` (empty
/// when unknown) clears now: once the rule's hold time has passed.
pub fn should_transition_to_clear(duration: &Option<String>, state_entered_at: &str, now: &str) -> (r:
    bool)
    ensures
        r == spec_hold_elapsed(opt_view(*duration), state_entered_at@, now@),
{
    hold_elapsed(duration, state_entered_at, now)
}

/// Whether a firing alert notifies again now.
pub fn should_repeat_notification(
    repeat_every: &Option<String>,
    last_notification_at: &Option<String>,
    now: &str,
) -> (r: bool)
    ensures
        r == spec_should_repeat(opt_view(*repeat_every), opt_view(*last_notification_at), now@),
{
    match repeat_every {
        Some(rep) => match parse_duration_millis(rep.as_str()) {
            Ok(ms) => match last_notification_at {
                Some(l) => match timestamp_span(l.as_str(), now) {
                    Ok(s) => span_reached(s, ms),
                    Err(SpanError::From) => true,
                    Err(SpanError::To) => false,
                },
                None => true,
            },
            Err(_) => false,
        },
        None => false,
    }
}

/// The stored state of one alert instance, as plain values.
#[derive(Debug, Clone)]
pub struct StoredAlertState {
    pub state: String,
    pub state_entered_at: String,
    pub first_condition_true_at: Option<String>,
    pub last_notification_at: Option<String>,
}

/// Which threshold an event reports: the firing one or the clearing one.
#[derive(Debug, Clone, Copy, PartialEq, Eq, Structural)]
pub enum ThresholdKind {
    Fire,
    Clear,
}

/// An alert event to record: its kind, the states it leaves and enters,
/// the threshold it reports, and whether it is announced to subscribers.
#[derive(Debug, Clone, Copy, PartialEq, Eq, Structural)]
pub struct AlertEventPlan {
    pub kind: AlertEventKind,
    pub from: AlertState,
    pub to: AlertState,
    pub threshold: ThresholdKind,
    pub publish: bool,
}

/// What an evaluation writes for an alert instance: its new state and
/// timestamps, and the event it records, if any.
#[derive(Debug, Clone)]
pub struct AlertUpdate {
    pub state: AlertState,
    pub state_entered_at: String,
    pub first_condition_true_at: Option<String>,
    pub last_notification_at: Option<String>,
    pub event: Option<AlertEventPlan>,
}

/// The abstract content of an `AlertUpdate`.
pub ghost struct AlertUpdateView {
    pub state: AlertState,
    pub state_entered_at: Seq<char>,
    pub first_condition_true_at: Option<Seq<char>>,
    pub last_notification_at: Option<Seq<char>>,
    pub event: Option<AlertEventPlan>,
}

impl View for AlertUpdate {
    type V = AlertUpdateView;

    open spec fn view(&self) -> AlertUpdateView {
        AlertUpdateView {
            state: self.state,
            state_entered_at: self.state_entered_at@,
            first_condition_true_at: opt_view(self.first_condition_true_at),
            last_notification_at: opt_view(self.last_notification_at),
            event: self.event,
        }
    }
}

/// The state of an instance: the stored one, `Normal` when none is stored.
pub open spec fn current_state(existing: Option<StoredAlertState>) -> AlertState {
    match existing {
        Some(e) => spec_parse_alert_state(e.state@),
        None => AlertState::Normal,
    }
}

/// When the stored state was entered, or `now` when none is stored.
pub open spec fn entered_or(existing: Option<StoredAlertState>, now: Seq<char>) -> Seq<char> {
    match existing {
        Some(e) => e.state_entered_at@,
        None => now,
    }
}

/// When the stored state was entered, empty when none is stored.
pub open spec fn entered_or_empty(existing: Option<StoredAlertState>) -> Seq<char> {
    match existing {
        Some(e) => e.state_entered_at@,
        None => Seq::empty(),
    }
}

/// Since when the stored condition holds.
pub open spec fn first_of(existing: Option<StoredAlertState>) -> Option<Seq<char>> {
    match existing {
        Some(e) => opt_view(e.first_condition_true_at),
        None => None,
    }
}

/// When the stored instance last notified.
pub open spec fn last_of(existing: Option<StoredAlertState>) -> Option<Seq<char>> {
    match existing {
        Some(e) => opt_view(e.last_notification_at),
        None => None,
    }
}

/// Since when the condition holds: the stored time, or `now`.
pub open spec fn first_or(existing: Option<StoredAlertState>, now: Seq<char>) -> Seq<char> {
    match first_of(existing) {
        Some(f) => f,
        None => now,
    }
}

/// An update with the given parts.
pub open spec fn upd(
    state: AlertState,
    entered: Seq<char>,
    first: Option<Seq<char>>,
    last: Option<Seq<char>>,
    event: Option<AlertEventPlan>,
) -> AlertUpdateView {
    AlertUpdateView {
        state,
        state_entered_at: entered,
        first_condition_true_at: first,
        last_notification_at: last,
        event,
    }
}

/// An event with the given parts.
pub open spec fn plan(
    kind: AlertEventKind,
    from: AlertState,
    to: AlertState,
    threshold: ThresholdKind,
    publish: bool,
) -> AlertEventPlan {
    AlertEventPlan { kind, from, to, threshold, publish }
}

/// One step of the alert state machine for a rule with hold time `hold`
/// and repeat interval `repeat`, given the stored instance, whether the
/// firing and the clearing condition hold, and the time `now`.
///
/// A firing condition moves `Normal` to `PendingFire`, and on to `Firing`
/// once it has held for the hold time; a clearing condition moves `Firing`
/// to `PendingClear`, and on to `Normal` once the hold time has passed since
/// the state was entered. Losing the condition on the way goes back.
pub open spec fn spec_transition(
    hold: Option<Seq<char>>,
    repeat: Option<Seq<char>>,
    existing: Option<StoredAlertState>,
    fire: bool,
    clear: bool,
    now: Seq<char>,
) -> AlertUpdateView {
    match current_state(existing) {
        AlertState::Normal => if fire {
            let first = first_or(existing, now);
            if spec_hold_elapsed(hold, first, now) {
                upd(
                    AlertState::Firing,
                    now,
                    Some(first),
                    None,
                    Some(plan(AlertEventKind::Firing, AlertState::Normal, AlertState::Firing, ThresholdKind::Fire, true)),
                )
            } else {
                upd(AlertState::PendingFire, now, Some(first), None, None)
            }
        } else {
            upd(AlertState::Normal, entered_or(existing, now), None, None, None)
        },
        AlertState::PendingFire => if !fire {
            upd(AlertState::Normal, now, None, None, None)
        } else {
            let first = first_or(existing, now);
            if spec_hold_elapsed(hold, first, now) {
                upd(
                    AlertState::Firing,
                    now,
                    Some(first),
                    Some(now),
                    Some(plan(AlertEventKind::Firing, AlertState::PendingFire, AlertState::Firing, ThresholdKind::Fire, true)),
                )
            } else {
                upd(AlertState::PendingFire, entered_or(existing, now), Some(first), None, None)
            }
        },
        AlertState::Firing => if clear {
            if spec_hold_elapsed(hold, entered_or_empty(existing), now) {
                upd(
                    AlertState::Normal,
                    now,
                    None,
                    Some(now),
                    Some(plan(AlertEventKind::Resolved, AlertState::Firing, AlertState::Normal, ThresholdKind::Clear, true)),
                )
            } else {
                upd(AlertState::PendingClear, now, first_of(existing), last_of(existing), None)
            }
        } else if spec_should_repeat(repeat, last_of(existing), now) {
            upd(
                AlertState::Firing,
                entered_or(existing, now),
                first_of(existing),
                Some(now),
                Some(plan(AlertEventKind::Firing, AlertState::Firing, AlertState::Firing, ThresholdKind::Fire, false)),
            )
        } else {
            upd(AlertState::Firing, entered_or(existing, now), first_of(existing), last_of(existing), None)
        },
        AlertState::PendingClear => if !clear {
            upd(AlertState::Firing, entered_or(existing, now), first_of(existing), last_of(existing), None)
        } else if spec_hold_elapsed(hold, entered_or_empty(existing), now) {
            upd(
                AlertState::Normal,
                now,
                None,
                Some(now),
                Some(plan(AlertEventKind::Resolved, AlertState::PendingClear, AlertState::Normal, ThresholdKind::Clear, true)),
            )
        } else {
            upd(AlertState::PendingClear, entered_or(existing, now), first_of(existing), last_of(existing), None)
        },
    }
}

/// One step of the state machine of a no-data rule, whose condition holds
/// whenever it is evaluated: `None` when nothing is written (an instance
/// that is pending to fire stays as it is).
pub open spec fn spec_no_data_transition(
    hold: Option<Seq<char>>,
    repeat: Option<Seq<char>>,
    existing: Option<StoredAlertState>,
    now: Seq<char>,
) -> Option<AlertUpdateView> {
    let cur = current_state(existing);
    match cur {
        AlertState::PendingFire => None,
        AlertState::Firing => if spec_should_repeat(repeat, last_of(existing), now) {
            Some(
                upd(
                    AlertState::Firing,
                    entered_or(existing, now),
                    first_of(existing),
                    Some(now),
                    Some(plan(AlertEventKind::Firing, AlertState::Firing, AlertState::Firing, ThresholdKind::Fire, false)),
                ),
            )
        } else {
            Some(upd(AlertState::Firing, entered_or(existing, now), first_of(existing), last_of(existing), None))
        },
        _ => {
            let first = first_or(existing, now);
            if spec_hold_elapsed(hold, first, now) {
                Some(
                    upd(
                        AlertState::Firing,
                        now,
                        Some(first),
                        last_of(existing),
                        Some(plan(AlertEventKind::Firing, cur, AlertState::Firing, ThresholdKind::Fire, true)),
                    ),
                )
            } else {
                Some(upd(AlertState::PendingFire, now, Some(first), last_of(existing), None))
            }
        },
    }
}

fn stored_state(existing: &Option<StoredAlertState>) -> (r: AlertState)
    ensures
        r == current_state(*existing),
{
    match existing {
        Some(e) => parse_alert_state(e.state.as_str()),
        None => AlertState::Normal,
    }
}

fn stored_entered_or(existing: &Option<StoredAlertState>, now: &str) -> (r: String)
    ensures
        r@ == entered_or(*existing, now@),
{
    match existing {
        Some(e) => e.state_entered_at.clone(),
        None => String::from_str(now),
    }
}

fn stored_entered_or_empty(existing: &Option<StoredAlertState>) -> (r: String)
    ensures
        r@ == entered_or_empty(*existing),
{
    match existing {
        Some(e) => e.state_entered_at.clone(),
        None => String::new(),
    }
}

fn stored_first(existing: &Option<StoredAlertState>) -> (r: Option<String>)
    ensures
        opt_view(r) == first_of(*existing),
{
    match existing {
        Some(e) => clone_opt(&e.first_condition_true_at),
        None => None,
    }
}

fn stored_last(existing: &Option<StoredAlertState>) -> (r: Option<String>)
    ensures
        opt_view(r) == last_of(*existing),
{
    match existing {
        Some(e) => clone_opt(&e.last_notification_at),
        None => None,
    }
}

fn stored_first_or(existing: &Option<StoredAlertState>, now: &str) -> (r: String)
    ensures
        r@ == first_or(*existing, now@),
{
    match stored_first(existing) {
        Some(f) => f,
        None => String::from_str(now),
    }
}

fn event_plan(
    kind: AlertEventKind,
    from: AlertState,
    to: AlertState,
    threshold: ThresholdKind,
    publish: bool,
) -> (r: AlertEventPlan)
    ensures
        r == plan(kind, from, to, threshold, publish),
{
    AlertEventPlan { kind, from, to, threshold, publish }
}

/// The clearing condition of a rule: what its own clearing threshold gives
/// where it has one, and otherwise the logical inverse of the firing
/// condition.
pub open spec fn spec_clear_condition(fire: bool, explicit_clear: Option<bool>) -> bool {
    match explicit_clear {
        Some(c) => c,
        None => !fire,
    }
}

/// The clearing condition of a rule from its firing condition and, where the
/// rule sets a clearing threshold, the outcome of that comparison.
pub fn clear_condition_of(fire_condition: bool, explicit_clear: Option<bool>) -> (r: bool)
    ensures
        r == spec_clear_condition(fire_condition, explicit_clear),
{
    match explicit_clear {
        Some(c) => c,
        None => !fire_condition,
    }
}

/// One step of the alert state machine. `explicit_clear` is the outcome of
/// the rule's own clearing comparison, `None` for a rule without a clearing
/// threshold, whose clearing condition is then the inverse of the firing
/// condition.
pub fn alert_transition(
    hold: &Option<String>,
    repeat: &Option<String>,
    existing: &Option<StoredAlertState>,
    fire_condition: bool,
    explicit_clear: Option<bool>,
    now: &str,
) -> (r: AlertUpdate)
    ensures
        r@ == spec_transition(
            opt_view(*hold),
            opt_view(*repeat),
            *existing,
            fire_condition,
            spec_clear_condition(fire_condition, explicit_clear),
            now@,
        ),
{
    let clear_condition = clear_condition_of(fire_condition, explicit_clear);
    let n = String::from_str(now);
    match stored_state(existing) {
        AlertState::Normal => {
            if fire_condition {
                let first = stored_first_or(existing, now);
                if should_transition_to_firing(hold, first.as_str(), now) {
                    AlertUpdate {
                        state: AlertState::Firing,
                        state_entered_at: n,
                        first_condition_true_at: Some(first),
                        last_notification_at: None,
                        event: Some(event_plan(AlertEventKind::Firing, AlertState::Normal, AlertState::Firing, ThresholdKind::Fire, true)),
                    }
                } else {
                    AlertUpdate {
                        state: AlertState::PendingFire,
                        state_entered_at: n,
                        first_condition_true_at: Some(first),
                        last_notification_at: None,
                        event: None,
                    }
                }
            } else {
                AlertUpdate {
                    state: AlertState::Normal,
                    state_entered_at: stored_entered_or(existing, now),
                    first_condition_true_at: None,
                    last_notification_at: None,
                    event: None,
                }
            }
        },
        AlertState::PendingFire => {
            if !fire_condition {
                AlertUpdate {
                    state: AlertState::Normal,
                    state_entered_at: n,
                    first_condition_true_at: None,
                    last_notification_at: None,
                    event: None,
                }
            } else {
                let first = stored_first_or(existing, now);
                if should_transition_to_firing(hold, first.as_str(), now) {
                    AlertUpdate {
                        state: AlertState::Firing,
                        state_entered_at: n,
                        first_condition_true_at: Some(first),
                        last_notification_at: Some(String::from_str(now)),
                        event: Some(event_plan(AlertEventKind::Firing, AlertState::PendingFire, AlertState::Firing, ThresholdKind::Fire, true)),
                    }
                } else {
                    AlertUpdate {
                        state: AlertState::PendingFire,
                        state_entered_at: stored_entered_or(existing, now),
                        first_condition_true_at: Some(first),
                        last_notification_at: None,
                        event: None,
                    }
                }
            }
        },
        AlertState::Firing => {
            if clear_condition {
                let entered = stored_entered_or_empty(existing);
                if should_transition_to_clear(hold, entered.as_str(), now) {
                    AlertUpdate {
                        state: AlertState::Normal,
                        state_entered_at: n,
                        first_condition_true_at: None,
                        last_notification_at: Some(String::from_str(now)),
                        event: Some(event_plan(AlertEventKind::Resolved, AlertState::Firing, AlertState::Normal, ThresholdKind::Clear, true)),
                    }
                } else {
                    AlertUpdate {
                        state: AlertState::PendingClear,
                        state_entered_at: n,
                        first_condition_true_at: stored_first(existing),
                        last_notification_at: stored_last(existing),
                        event: None,
                    }
                }
            } else {
                let last = stored_last(existing);
                if should_repeat_notification(repeat, &last, now) {
                    AlertUpdate {
                        state: AlertState::Firing,
                        state_entered_at: stored_entered_or(existing, now),
                        first_condition_true_at: stored_first(existing),
                        last_notification_at: Some(n),
                        event: Some(event_plan(AlertEventKind::Firing, AlertState::Firing, AlertState::Firing, ThresholdKind::Fire, false)),
                    }
                } else {
                    AlertUpdate {
                        state: AlertState::Firing,
                        state_entered_at: stored_entered_or(existing, now),
                        first_condition_true_at: stored_first(existing),
                        last_notification_at: last,
                        event: None,
                    }
                }
            }
        },
        AlertState::PendingClear => {
            if !clear_condition {
                AlertUpdate {
                    state: AlertState::Firing,
                    state_entered_at: stored_entered_or(existing, now),
                    first_condition_true_at: stored_first(existing),
                    last_notification_at: stored_last(existing),
                    event: None,
                }
            } else {
                let entered = stored_entered_or_empty(existing);
                if should_transition_to_clear(hold, entered.as_str(), now) {
                    AlertUpdate {
                        state: AlertState::Normal,
                        state_entered_at: n,
                        first_condition_true_at: None,
                        last_notification_at: Some(String::from_str(now)),
                        event: Some(event_plan(AlertEventKind::Resolved, AlertState::PendingClear, AlertState::Normal, ThresholdKind::Clear, true)),
                    }
                } else {
                    AlertUpdate {
                        state: AlertState::PendingClear,
                        state_entered_at: stored_entered_or(existing, now),
                        first_condition_true_at: stored_first(existing),
                        last_notification_at: stored_last(existing),
                        event: None,
                    }
                }
            }
        },
    }
}

/// One step of the state machine of a no-data rule.
pub fn no_data_transition(
    hold: &Option<String>,
    repeat: &Option<String>,
    existing: &Option<StoredAlertState>,
    now: &str,
) -> (r: Option<AlertUpdate>)
    ensures
        match (r, spec_no_data_transition(opt_view(*hold), opt_view(*repeat), *existing, now@)) {
            (Some(u), Some(v)) => u@ == v,
            (None, None) => true,
            _ => false,
        },
{
    let cur = stored_state(existing);
    match cur {
        AlertState::PendingFire => None,
        AlertState::Firing => {
            let last = stored_last(existing);
            if should_repeat_notification(repeat, &last, now) {
                Some(AlertUpdate {
                    state: AlertState::Firing,
                    state_entered_at: stored_entered_or(existing, now),
                    first_condition_true_at: stored_first(existing),
                    last_notification_at: Some(String::from_str(now)),
                    event: Some(event_plan(AlertEventKind::Firing, AlertState::Firing, AlertState::Firing, ThresholdKind::Fire, false)),
                })
            } else {
                Some(AlertUpdate {
                    state: AlertState::Firing,
                    state_entered_at: stored_entered_or(existing, now),
                    first_condition_true_at: stored_first(existing),
                    last_notification_at: last,
                    event: None,
                })
            }
        },
        _ => {
            let first = stored_first_or(existing, now);
            if should_transition_to_firing(hold, first.as_str(), now) {
                Some(AlertUpdate {
                    state: AlertState::Firing,
                    state_entered_at: String::from_str(now),
                    first_condition_true_at: Some(first),
                    last_notification_at: stored_last(existing),
                    event: Some(event_plan(AlertEventKind::Firing, cur, AlertState::Firing, ThresholdKind::Fire, true)),
                })
            } else {
                Some(AlertUpdate {
                    state: AlertState::PendingFire,
                    state_entered_at: String::from_str(now),
                    first_condition_true_at: Some(first),
                    last_notification_at: stored_last(existing),
                    event: None,
                })
            }
        },
    }
}

/// The moves that the alert state machine allows: a pending state never
/// turns into the other pending state, and `Normal` and `Firing` are never
/// left for the pending state of the opposite direction.
pub open spec fn allowed_move(from: AlertState, to: AlertState) -> bool {
    match from {
        AlertState::Normal => to != AlertState::PendingClear,
        AlertState::PendingFire => to != AlertState::PendingClear,
        AlertState::Firing => to != AlertState::PendingFire,
        AlertState::PendingClear => to != AlertState::PendingFire,
    }
}

/// What every recorded event satisfies: it leaves the state the instance
/// was in and enters the new one; a firing event enters `Firing` and a
/// resolved event enters `Normal`.
pub open spec fn event_consistent(cur: AlertState, u: AlertUpdateView) -> bool {
    match u.event {
        Some(e) => {
            &&& e.from == cur
            &&& e.to == u.state
            &&& (e.kind == AlertEventKind::Firing ==> e.to == AlertState::Firing && e.threshold
                == ThresholdKind::Fire)
            &&& (e.kind == AlertEventKind::Resolved ==> e.to == AlertState::Normal && e.threshold
                == ThresholdKind::Clear)
        },
        None => true,
    }
}

/// Every step of the state machine moves along an allowed edge, and every
/// event it records agrees with the move. Entering `Firing` from `Normal`
/// or `PendingFire` always records and announces a firing event (a
/// clearing that is called off returns to `Firing` silently); returning to
/// `Normal` from `Firing` or `PendingClear` always records and announces a
/// resolved event; no other change of state records anything.
pub proof fn law_alert_transitions(
    hold: Option<Seq<char>>,
    repeat: Option<Seq<char>>,
    existing: Option<StoredAlertState>,
    fire: bool,
    clear: bool,
    now: Seq<char>,
)
    ensures
        ({
            let cur = current_state(existing);
            let u = spec_transition(hold, repeat, existing, fire, clear, now);
            &&& allowed_move(cur, u.state)
            &&& event_consistent(cur, u)
            &&& ((cur == AlertState::Normal || cur == AlertState::PendingFire) && u.state
                == AlertState::Firing) ==> (u.event matches Some(e) && e.kind
                == AlertEventKind::Firing && e.publish)
            &&& ((cur == AlertState::Firing || cur == AlertState::PendingClear) && u.state
                == AlertState::Normal) ==> (u.event matches Some(e) && e.kind
                == AlertEventKind::Resolved && e.publish)
            &&& (u.event matches Some(e) && e.publish) ==> cur != u.state
        }),
{
}

/// Without a firing condition an instance in `Normal` stays there and
/// records nothing; without a clearing condition a firing instance keeps
/// firing.
pub proof fn law_alert_hysteresis(
    hold: Option<Seq<char>>,
    repeat: Option<Seq<char>>,
    existing: Option<StoredAlertState>,
    fire: bool,
    clear: bool,
    now: Seq<char>,
)
    ensures
        ({
            let cur = current_state(existing);
            let u = spec_transition(hold, repeat, existing, fire, clear, now);
            &&& (cur == AlertState::Normal && !fire) ==> (u.state == AlertState::Normal && u.event is None)
            &&& (cur == AlertState::Firing && !clear) ==> u.state == AlertState::Firing
            &&& (cur == AlertState::PendingClear && !clear) ==> u.state == AlertState::Firing
            &&& (cur == AlertState::PendingFire && !fire) ==> u.state == AlertState::Normal
        }),
{
}

/// A rule without a hold time fires as soon as its condition holds.
pub proof fn law_fires_without_hold(
    repeat: Option<Seq<char>>,
    existing: Option<StoredAlertState>,
    clear: bool,
    now: Seq<char>,
)
    requires
        current_state(existing) == AlertState::Normal || current_state(existing)
            == AlertState::PendingFire,
    ensures
        spec_transition(None, repeat, existing, true, clear, now).state == AlertState::Firing,
{
}

/// Whether a step records a resolved event.
pub open spec fn records_resolved(u: AlertUpdateView) -> bool {
    u.event matches Some(e) && e.kind == AlertEventKind::Resolved
}

/// Whether a step announces the event it records.
pub open spec fn announces(u: AlertUpdateView) -> bool {
    u.event matches Some(e) && e.publish
}

/// For a rule without a clearing threshold the clearing condition is the
/// inverse of the firing condition: without a hold time a firing instance
/// returns to `Normal` with an announced resolved event exactly when the
/// firing condition no longer holds, and otherwise keeps firing and
/// resolves nothing.
pub proof fn law_clear_is_inverse_of_firing(
    repeat: Option<Seq<char>>,
    existing: Option<StoredAlertState>,
    fire: bool,
    now: Seq<char>,
)
    requires
        current_state(existing) == AlertState::Firing,
    ensures
        ({
            let u = spec_transition(None, repeat, existing, fire, spec_clear_condition(fire, None), now);
            &&& (u.state == AlertState::Normal && records_resolved(u) && announces(u)) <==> !fire
            &&& fire ==> (u.state == AlertState::Firing && !records_resolved(u))
        }),
{
}

/// A no-data step moves along an allowed edge and its events agree with
/// the move; it never clears.
pub proof fn law_no_data_transitions(
    hold: Option<Seq<char>>,
    repeat: Option<Seq<char>>,
    existing: Option<StoredAlertState>,
    now: Seq<char>,
)
    ensures
        ({
            let cur = current_state(existing);
            match spec_no_data_transition(hold, repeat, existing, now) {
                Some(u) => {
                    &&& allowed_move(cur, u.state) || cur == AlertState::PendingClear
                    &&& u.state == AlertState::Firing || u.state == AlertState::PendingFire
                    &&& event_consistent(cur, u)
                },
                None => cur == AlertState::PendingFire,
            }
        }),
{
}


/// The latency quantiles that alert rules can watch.
#[derive(Debug, Clone, Copy, PartialEq, Eq, Structural)]
pub enum LatencyQuantile {
    P50,
    P95,
    P99,
}

/// What a metric's value is computed from: too little data; a ratio of two
/// sample counts; a count of rounds; a latency quantile of the recorded
/// latencies, in milliseconds; or zero.
#[derive(Debug, Clone)]
pub enum MetricInput {
    InsufficientData,
    Ratio { numerator: i64, denominator: i64 },
    Count(u64),
    Latency { histogram: Histogram, quantile: LatencyQuantile },
    Zero,
}

/// The sum of one counter over rounds.
pub open spec fn sum_of(rs: Seq<RoundRow>, f: spec_fn(RoundRow) -> i32) -> int
    decreases rs.len(),
{
    if rs.len() == 0 {
        0
    } else {
        sum_of(rs.drop_last(), f) + f(rs.last()) as int
    }
}

/// The attempted samples of a round.
pub open spec fn attempted_of(r: RoundRow) -> i32 {
    r.attempted_samples
}

/// The samples of a round lost to measurement.
pub open spec fn lost_of(r: RoundRow) -> i32 {
    r.measurement_loss_samples
}

/// The unhealthy samples of a round.
pub open spec fn unhealthy_of(r: RoundRow) -> i32 {
    r.unhealthy_samples
}

/// The healthy samples of a round.
pub open spec fn healthy_of(r: RoundRow) -> i32 {
    r.healthy_samples
}

/// A round's scheduling time with whether it counts toward a run.
pub open spec fn keyed(r: RoundRow, metric_total_loss: bool) -> (Seq<char>, bool) {
    (
        r.scheduled_at@,
        if metric_total_loss {
            r.attempted_samples > 0 && r.measurement_loss_samples == r.attempted_samples
        } else {
            r.unhealthy_samples > 0
        },
    )
}

/// The number of elements at the end of `s` that count.
pub open spec fn trailing_run(s: Seq<(Seq<char>, bool)>) -> nat
    decreases s.len(),
{
    if s.len() > 0 && s.last().1 {
        1 + trailing_run(s.drop_last())
    } else {
        0
    }
}

/// The rounds keyed by time, for one of the two run metrics.
pub open spec fn keyed_rounds(rs: Seq<RoundRow>, total_loss: bool) -> Seq<(Seq<char>, bool)> {
    Seq::new(rs.len(), |i: int| keyed(rs[i], total_loss))
}

/// The latencies of decoded sample records that carry one, in order.
pub open spec fn record_latencies(rs: Seq<SampleRecordView>) -> Seq<u64>
    decreases rs.len(),
{
    if rs.len() == 0 {
        Seq::empty()
    } else {
        match rs.last().latency_ns {
            Some(l) => record_latencies(rs.drop_last()).push(l),
            None => record_latencies(rs.drop_last()),
        }
    }
}

/// The latencies that a round's sample blob holds; none when it has no
/// blob or the blob does not decode.
pub open spec fn blob_latencies(b: Option<Vec<u8>>) -> Seq<u64> {
    match b {
        Some(v) => match spec_decode_samples(v@) {
            Ok(rs) => record_latencies(rs),
            Err(_) => Seq::empty(),
        },
        None => Seq::empty(),
    }
}

/// The latencies of all rounds, round by round.
pub open spec fn round_latencies(rs: Seq<RoundRow>) -> Seq<u64>
    decreases rs.len(),
{
    if rs.len() == 0 {
        Seq::empty()
    } else {
        round_latencies(rs.drop_last()) + blob_latencies(rs.last().sample_blob)
    }
}

/// `h` after recording each of `vs` in order.
pub open spec fn record_all(h: HistogramView, vs: Seq<u64>) -> HistogramView
    decreases vs.len(),
{
    if vs.len() == 0 {
        h
    } else {
        spec_record(record_all(h, vs.drop_last()), vs.last())
    }
}

/// The input of the metric named `metric` over `rounds`: the ratio metrics
/// divide a summed sample count by the attempted samples (too little data
/// when none were attempted); the latency quantiles read the latencies of
/// all sample blobs (too little data when there are none); the run metrics
/// count the latest rounds in time order that lost every sample, or that
/// had an unhealthy sample; `no_data` is zero; anything else has too little
/// data.
pub open spec fn spec_metric_input(metric: Seq<char>, rounds: Seq<RoundRow>) -> MetricInputView {
    let attempted = sum_of(rounds, |r: RoundRow| attempted_of(r));
    if metric == "measurement_loss_ratio"@ || metric == "health_failure_ratio"@ || metric
        == "healthy_sample_ratio"@ {
        if attempted == 0 {
            MetricInputView::InsufficientData
        } else {
            MetricInputView::Ratio {
                numerator: if metric == "measurement_loss_ratio"@ {
                    sum_of(rounds, |r: RoundRow| lost_of(r))
                } else if metric == "health_failure_ratio"@ {
                    sum_of(rounds, |r: RoundRow| unhealthy_of(r))
                } else {
                    sum_of(rounds, |r: RoundRow| healthy_of(r))
                },
                denominator: attempted,
            }
        }
    } else if metric == "p50_latency"@ || metric == "p95_latency"@ || metric == "p99_latency"@ {
        let ls = round_latencies(rounds);
        if ls.len() == 0 {
            MetricInputView::InsufficientData
        } else {
            MetricInputView::Latency {
                histogram: record_all(empty_histogram(), ls),
                quantile: if metric == "p50_latency"@ {
                    LatencyQuantile::P50
                } else if metric == "p95_latency"@ {
                    LatencyQuantile::P95
                } else {
                    LatencyQuantile::P99
                },
            }
        }
    } else if metric == "consecutive_total_loss_rounds"@ {
        MetricInputView::Count(trailing_run(sort_by_key(keyed_rounds(rounds, true))))
    } else if metric == "consecutive_unhealthy_rounds"@ {
        MetricInputView::Count(trailing_run(sort_by_key(keyed_rounds(rounds, false))))
    } else if metric == "no_data"@ {
        MetricInputView::Zero
    } else {
        MetricInputView::InsufficientData
    }
}

/// The abstract content of a `MetricInput`.
pub ghost enum MetricInputView {
    InsufficientData,
    Ratio { numerator: int, denominator: int },
    Count(nat),
    Latency { histogram: HistogramView, quantile: LatencyQuantile },
    Zero,
}

impl View for MetricInput {
    type V = MetricInputView;

    open spec fn view(&self) -> MetricInputView {
        match self {
            MetricInput::InsufficientData => MetricInputView::InsufficientData,
            MetricInput::Ratio { numerator, denominator } => MetricInputView::Ratio {
                numerator: *numerator as int,
                denominator: *denominator as int,
            },
            MetricInput::Count(n) => MetricInputView::Count(*n as nat),
            MetricInput::Latency { histogram, quantile } => MetricInputView::Latency {
                histogram: histogram@,
                quantile: *quantile,
            },
            MetricInput::Zero => MetricInputView::Zero,
        }
    }
}

fn sum_counter(rounds: &[RoundRow], which: u8) -> (r: i64)
    requires
        rounds@.len() <= u32::MAX,
        which < 4,
    ensures
        r == sum_of(
            rounds@,
            if which == 0 {
                |r: RoundRow| attempted_of(r)
            } else if which == 1 {
                |r: RoundRow| lost_of(r)
            } else if which == 2 {
                |r: RoundRow| unhealthy_of(r)
            } else {
                |r: RoundRow| healthy_of(r)
            },
        ),
{
    let ghost f = if which == 0 {
        |r: RoundRow| attempted_of(r)
    } else if which == 1 {
        |r: RoundRow| lost_of(r)
    } else if which == 2 {
        |r: RoundRow| unhealthy_of(r)
    } else {
        |r: RoundRow| healthy_of(r)
    };
    let mut total: i64 = 0;
    let mut i: usize = 0;
    while i < rounds.len()
        invariant
            i <= rounds@.len() <= u32::MAX,
            which < 4,
            f == (if which == 0 {
                |r: RoundRow| attempted_of(r)
            } else if which == 1 {
                |r: RoundRow| lost_of(r)
            } else if which == 2 {
                |r: RoundRow| unhealthy_of(r)
            } else {
                |r: RoundRow| healthy_of(r)
            }),
            total == sum_of(rounds@.take(i as int), f),
            -(i as int) * 2147483648 <= total <= (i as int) * 2147483647,
        decreases rounds@.len() - i,
    {
        let r = &rounds[i];
        let v: i32 = if which == 0 {
            r.attempted_samples
        } else if which == 1 {
            r.measurement_loss_samples
        } else if which == 2 {
            r.unhealthy_samples
        } else {
            r.healthy_samples
        };
        assert(rounds@.take(i + 1).drop_last() =~= rounds@.take(i as int));
        assert(v == f(rounds@[i as int]));
        assert(-(i as int) * 2147483648 - 2147483648 >= -9223372036854775808) by (nonlinear_arith)
            requires
                i <= u32::MAX,
        ;
        assert((i as int) * 2147483647 + 2147483647 <= 9223372036854775807) by (nonlinear_arith)
            requires
                i <= u32::MAX,
        ;
        total = total + v as i64;
        i = i + 1;
    }
    assert(rounds@.take(i as int) =~= rounds@);
    total
}

fn trailing_count(rounds: &[RoundRow], total_loss: bool) -> (r: u64)
    ensures
        r == trailing_run(sort_by_key(keyed_rounds(rounds@, total_loss))),
{
    let mut v: Vec<(String, bool)> = Vec::new();
    let mut i: usize = 0;
    while i < rounds.len()
        invariant
            i <= rounds@.len(),
            keyed_view(v@) == sort_by_key(keyed_rounds(rounds@.take(i as int), total_loss)),
            v@.len() == i,
        decreases rounds@.len() - i,
    {
        let r = &rounds[i];
        let flag = if total_loss {
            r.attempted_samples > 0 && r.measurement_loss_samples == r.attempted_samples
        } else {
            r.unhealthy_samples > 0
        };
        let ghost before = keyed_rounds(rounds@.take(i as int), total_loss);
        let ghost after = keyed_rounds(rounds@.take(i + 1), total_loss);
        assert(after.drop_last() =~= before);
        assert(after.last() == (r.scheduled_at@, flag));
        insert_by_key(&mut v, (r.scheduled_at.clone(), flag));
        proof {
            lemma_sort_len(before);
        }
        i = i + 1;
    }
    assert(rounds@.take(i as int) =~= rounds@);
    let mut count: usize = 0;
    let mut k: usize = v.len();
    let ghost sv = keyed_view(v@);
    assert(sv.take(k as int) =~= sv);
    while k > 0 && v[k - 1].1
        invariant
            k <= v@.len(),
            sv == keyed_view(v@),
            count + k == v@.len(),
            trailing_run(sv) == count + trailing_run(sv.take(k as int)),
        decreases k,
    {
        assert(sv.take(k as int).drop_last() =~= sv.take(k - 1));
        assert(count < v@.len());
        count = count + 1;
        k = k - 1;
    }
    assert(sv.take(v@.len() as int) =~= sv);
    count as u64
}

/// Recording values into an empty histogram counts each of them once,
/// in one of its bins.
pub proof fn lemma_record_all_shape(vs: Seq<u64>)
    requires
        vs.len() <= u64::MAX,
    ensures
        record_all(empty_histogram(), vs).count == vs.len(),
        record_all(empty_histogram(), vs).bins.len() == 98,
        forall|k: int|
            0 <= k < 98 ==> #[trigger] record_all(empty_histogram(), vs).bins[k] <= vs.len(),
    decreases vs.len(),
{
    if vs.len() > 0 {
        lemma_record_all_shape(vs.drop_last());
        crate::histogram::lemma_value_to_bin_range(vs.last());
        let h = record_all(empty_histogram(), vs.drop_last());
        let b = crate::histogram::spec_value_to_bin(vs.last()) as int;
        assert forall|k: int| 0 <= k < 98 implies #[trigger] record_all(empty_histogram(), vs).bins[k]
            <= vs.len() by {
            if k == b {
                assert(h.bins[k] <= vs.len() - 1);
            } else {
                assert(h.bins[k] <= vs.len() - 1);
            }
        }
    }
}

proof fn lemma_record_latencies_prefix(rs: Seq<SampleRecordView>, j: int)
    requires
        0 <= j <= rs.len(),
    ensures
        record_latencies(rs.take(j)).len() <= record_latencies(rs).len(),
    decreases rs.len() - j,
{
    if j < rs.len() {
        lemma_record_latencies_prefix(rs, j + 1);
        assert(rs.take(j + 1).drop_last() =~= rs.take(j));
    } else {
        assert(rs.take(j) =~= rs);
    }
}

proof fn lemma_round_latencies_prefix(rs: Seq<RoundRow>, i: int)
    requires
        0 <= i <= rs.len(),
    ensures
        round_latencies(rs.take(i)).len() <= round_latencies(rs).len(),
    decreases rs.len() - i,
{
    if i < rs.len() {
        lemma_round_latencies_prefix(rs, i + 1);
        assert(rs.take(i + 1).drop_last() =~= rs.take(i));
    } else {
        assert(rs.take(i) =~= rs);
    }
}

fn latency_histogram(rounds: &[RoundRow]) -> (r: Histogram)
    requires
        round_latencies(rounds@).len() < u64::MAX,
    ensures
        r@ == record_all(empty_histogram(), round_latencies(rounds@)),
{
    let ghost total = round_latencies(rounds@).len();
    let mut h = Histogram::new();
    let mut i: usize = 0;
    while i < rounds.len()
        invariant
            i <= rounds@.len(),
            total == round_latencies(rounds@).len() < u64::MAX,
            h@ == record_all(empty_histogram(), round_latencies(rounds@.take(i as int))),
        decreases rounds@.len() - i,
    {
        let ghost before = round_latencies(rounds@.take(i as int));
        assert(rounds@.take(i + 1).drop_last() =~= rounds@.take(i as int));
        assert(rounds@.take(i + 1).last() == rounds@[i as int]);
        proof {
            lemma_round_latencies_prefix(rounds@, i + 1);
        }
        match &rounds[i].sample_blob {
            Some(blob) => {
                match decode_samples(blob.as_slice()) {
                    Ok(recs) => {
                        let ghost rv = record_views(recs@);
                        let mut j: usize = 0;
                        while j < recs.len()
                            invariant
                                j <= recs@.len(),
                                rv == record_views(recs@),
                                rv.len() == recs@.len(),
                                before.len() + record_latencies(rv).len() <= total,
                                total < u64::MAX,
                                h@ == record_all(empty_histogram(), before + record_latencies(rv.take(j as int))),
                            decreases recs@.len() - j,
                        {
                            assert(rv.take(j + 1).drop_last() =~= rv.take(j as int));
                            assert(rv[j as int] == recs@[j as int]@);
                            match recs[j].latency_ns {
                                Some(l) => {
                                    let ghost sofar = before + record_latencies(rv.take(j as int));
                                    proof {
                                        lemma_record_latencies_prefix(rv, j + 1);
                                        lemma_record_all_shape(sofar);
                                        crate::histogram::lemma_value_to_bin_range(l);
                                    }
                                    h.record(l);
                                    assert(sofar.push(l) =~= before + record_latencies(rv.take(j + 1)));
                                    assert(sofar.push(l).drop_last() =~= sofar);
                                },
                                None => {
                                    assert(before + record_latencies(rv.take(j as int)) =~= before
                                        + record_latencies(rv.take(j + 1)));
                                },
                            }
                            j = j + 1;
                        }
                        assert(rv.take(j as int) =~= rv);
                    },
                    Err(_) => {
                        assert(before + Seq::<u64>::empty() =~= before);
                    },
                }
            },
            None => {
                assert(before + Seq::<u64>::empty() =~= before);
            },
        }
        i = i + 1;
    }
    assert(rounds@.take(i as int) =~= rounds@);
    h
}

/// The input of the metric named `metric` over `rounds`.
pub fn compute_metric(metric: &str, rounds: &[RoundRow]) -> (r: MetricInput)
    requires
        rounds@.len() <= u32::MAX,
        round_latencies(rounds@).len() < u64::MAX,
    ensures
        r@ == spec_metric_input(metric@, rounds@),
{
    if str_eq(metric, "measurement_loss_ratio") || str_eq(metric, "health_failure_ratio")
        || str_eq(metric, "healthy_sample_ratio") {
        let attempted = sum_counter(rounds, 0);
        if attempted == 0 {
            return MetricInput::InsufficientData;
        }
        let numerator = if str_eq(metric, "measurement_loss_ratio") {
            sum_counter(rounds, 1)
        } else if str_eq(metric, "health_failure_ratio") {
            sum_counter(rounds, 2)
        } else {
            sum_counter(rounds, 3)
        };
        return MetricInput::Ratio { numerator, denominator: attempted };
    }
    if str_eq(metric, "p50_latency") || str_eq(metric, "p95_latency") || str_eq(metric, "p99_latency") {
        let histogram = latency_histogram(rounds);
        proof {
            lemma_record_all_shape(round_latencies(rounds@));
        }
        if histogram.count() == 0 {
            return MetricInput::InsufficientData;
        }
        let quantile = if str_eq(metric, "p50_latency") {
            LatencyQuantile::P50
        } else if str_eq(metric, "p95_latency") {
            LatencyQuantile::P95
        } else {
            LatencyQuantile::P99
        };
        return MetricInput::Latency { histogram, quantile };
    }
    if str_eq(metric, "consecutive_total_loss_rounds") {
        return MetricInput::Count(trailing_count(rounds, true));
    }
    if str_eq(metric, "consecutive_unhealthy_rounds") {
        return MetricInput::Count(trailing_count(rounds, false));
    }
    if str_eq(metric, "no_data") {
        return MetricInput::Zero;
    }
    MetricInput::InsufficientData
}

/// The time from which a stored instance measures its hold while the
/// condition that it waits on keeps holding: when it entered its state.
pub open spec fn entered_at(e: StoredAlertState) -> Seq<char> {
    e.state_entered_at@
}

/// Since when the firing condition of a stored instance holds: its stored
/// first time, or `now` when it has none.
pub open spec fn condition_since(e: StoredAlertState, now: Seq<char>) -> Seq<char> {
    match e.first_condition_true_at {
        Some(f) => f@,
        None => now,
    }
}

/// A firing or clearing instance whose clearing condition holds returns to
/// `Normal`, recording and announcing a resolved event, exactly when the
/// hold time has passed since the instance entered its current state (the
/// stored `state_entered_at`); otherwise it waits in `PendingClear` and
/// records nothing. Without a hold time it clears at once; with a hold of
/// `ms` milliseconds and readable timestamps it clears exactly when at
/// least `ms` milliseconds lie between entering the state and `now`.
pub proof fn law_clear_waits_for_hold(
    hold: Option<Seq<char>>,
    repeat: Option<Seq<char>>,
    e: StoredAlertState,
    fire: bool,
    now: Seq<char>,
)
    requires
        e.state@ == "firing"@ || e.state@ == "pending_clear"@,
    ensures
        ({
            let u = spec_transition(hold, repeat, Some(e), fire, true, now);
            &&& (u.state == AlertState::Normal) <==> spec_hold_elapsed(hold, entered_at(e), now)
            &&& u.state == AlertState::Normal ==> (records_resolved(u) && announces(u)
                && u.state_entered_at == now && u.first_condition_true_at is None
                && u.last_notification_at == Some(now))
            &&& u.state != AlertState::Normal ==> (u.state == AlertState::PendingClear && u.event is None)
            &&& hold is None ==> u.state == AlertState::Normal
            &&& hold matches Some(h) ==> (spec_parse_duration(h) matches Ok(ms) ==> (rfc3339_span(
                entered_at(e),
                now,
            ) matches Ok(sp) ==> (ms <= i64::MAX ==> ((u.state == AlertState::Normal) <==> sp.0
                * 1_000_000_000 + sp.1 >= ms * 1_000_000))))
        }),
{
    reveal_strlit("firing");
    reveal_strlit("pending_clear");
    reveal_strlit("pending_fire");
    assert("firing"@[0] != "pending_clear"@[0] && "firing"@[0] != "pending_fire"@[0]);
    assert("pending_clear"@[8] != "pending_fire"@[8]);
}

/// A normal or pending instance whose firing condition holds starts to
/// fire, recording and announcing a firing event, exactly when the hold
/// time has passed since the condition first held (the stored first time,
/// or now for an instance that has none); otherwise it waits in
/// `PendingFire`, remembers since when the condition holds, and records
/// nothing.
pub proof fn law_fire_waits_for_hold(
    hold: Option<Seq<char>>,
    repeat: Option<Seq<char>>,
    e: StoredAlertState,
    clear: bool,
    now: Seq<char>,
)
    requires
        e.state@ == "pending_fire"@ || !(e.state@ == "firing"@ || e.state@ == "pending_clear"@),
    ensures
        ({
            let u = spec_transition(hold, repeat, Some(e), true, clear, now);
            &&& (u.state == AlertState::Firing) <==> spec_hold_elapsed(hold, condition_since(e, now), now)
            &&& u.state == AlertState::Firing ==> (u.event matches Some(ev) && ev.kind
                == AlertEventKind::Firing && ev.publish && u.state_entered_at == now)
            &&& u.state != AlertState::Firing ==> (u.state == AlertState::PendingFire && u.event is None)
            &&& u.first_condition_true_at == Some(condition_since(e, now))
            &&& hold is None ==> u.state == AlertState::Firing
            &&& hold matches Some(h) ==> (spec_parse_duration(h) matches Ok(ms) ==> (rfc3339_span(
                condition_since(e, now),
                now,
            ) matches Ok(sp) ==> (ms <= i64::MAX ==> ((u.state == AlertState::Firing) <==> sp.0
                * 1_000_000_000 + sp.1 >= ms * 1_000_000))))
        }),
{
    reveal_strlit("firing");
    reveal_strlit("pending_clear");
    reveal_strlit("pending_fire");
    assert("firing"@[0] != "pending_clear"@[0] && "firing"@[0] != "pending_fire"@[0]);
    assert("pending_clear"@[8] != "pending_fire"@[8]);
}

/// A firing instance whose clearing condition does not hold keeps firing
/// since the time it entered that state; it records an unannounced firing
/// event, and notes `now` as its last notification, exactly when its
/// notification is due to repeat, and otherwise keeps its last
/// notification time and records nothing.
pub proof fn law_firing_repeats(
    hold: Option<Seq<char>>,
    repeat: Option<Seq<char>>,
    e: StoredAlertState,
    fire: bool,
    now: Seq<char>,
)
    requires
        e.state@ == "firing"@,
    ensures
        ({
            let u = spec_transition(hold, repeat, Some(e), fire, false, now);
            let last = match e.last_notification_at {
                Some(l) => Some(l@),
                None => None,
            };
            &&& u.state == AlertState::Firing
            &&& u.state_entered_at == entered_at(e)
            &&& (u.event is Some) <==> spec_should_repeat(repeat, last, now)
            &&& u.event matches Some(ev) ==> (ev.kind == AlertEventKind::Firing && !ev.publish)
            &&& u.last_notification_at == (if spec_should_repeat(repeat, last, now) {
                Some(now)
            } else {
                last
            })
        }),
{
    reveal_strlit("firing");
    reveal_strlit("pending_clear");
    reveal_strlit("pending_fire");
    assert("firing"@[0] != "pending_clear"@[0] && "firing"@[0] != "pending_fire"@[0]);
}

proof fn lemma_metric_names_differ()
    ensures
        "measurement_loss_ratio"@ != "health_failure_ratio"@,
        "measurement_loss_ratio"@ != "healthy_sample_ratio"@,
        "health_failure_ratio"@ != "healthy_sample_ratio"@,
        "p50_latency"@ != "p95_latency"@,
        "p50_latency"@ != "p99_latency"@,
        "p95_latency"@ != "p99_latency"@,
        "p50_latency"@ != "measurement_loss_ratio"@,
        "p50_latency"@ != "health_failure_ratio"@,
        "p50_latency"@ != "healthy_sample_ratio"@,
        "p95_latency"@ != "measurement_loss_ratio"@,
        "p95_latency"@ != "health_failure_ratio"@,
        "p95_latency"@ != "healthy_sample_ratio"@,
        "p99_latency"@ != "measurement_loss_ratio"@,
        "p99_latency"@ != "health_failure_ratio"@,
        "p99_latency"@ != "healthy_sample_ratio"@,
{
    reveal_strlit("measurement_loss_ratio");
    reveal_strlit("health_failure_ratio");
    reveal_strlit("healthy_sample_ratio");
    reveal_strlit("p50_latency");
    reveal_strlit("p95_latency");
    reveal_strlit("p99_latency");
    assert("measurement_loss_ratio"@[0] != "health_failure_ratio"@[0]);
    assert("measurement_loss_ratio"@[0] != "healthy_sample_ratio"@[0]);
    assert("health_failure_ratio"@[6] != "healthy_sample_ratio"@[6]);
    assert("p50_latency"@[1] != "p95_latency"@[1]);
    assert("p50_latency"@[1] != "p99_latency"@[1]);
    assert("p95_latency"@[2] != "p99_latency"@[2]);
    assert("p50_latency"@[0] != "measurement_loss_ratio"@[0]);
    assert("p50_latency"@[0] != "health_failure_ratio"@[0]);
    assert("p50_latency"@[0] != "healthy_sample_ratio"@[0]);
    assert("p95_latency"@[0] != "measurement_loss_ratio"@[0]);
    assert("p95_latency"@[0] != "health_failure_ratio"@[0]);
    assert("p95_latency"@[0] != "healthy_sample_ratio"@[0]);
    assert("p99_latency"@[0] != "measurement_loss_ratio"@[0]);
    assert("p99_latency"@[0] != "health_failure_ratio"@[0]);
    assert("p99_latency"@[0] != "healthy_sample_ratio"@[0]);
}

/// Each latency metric reads the quantile it names (`p50_latency` the
/// median, `p95_latency` the 0.95 quantile, `p99_latency` the 0.99
/// quantile) from a histogram of every latency of the rounds' samples,
/// and has too little data when no sample carries a latency.
pub proof fn law_latency_metrics_read_their_quantile(rounds: Seq<RoundRow>)
    requires
        round_latencies(rounds).len() <= u64::MAX,
    ensures
        ({
            let n = round_latencies(rounds).len();
            &&& n > 0 ==> (spec_metric_input("p50_latency"@, rounds) matches MetricInputView::Latency {
                histogram,
                quantile,
            } && quantile == LatencyQuantile::P50 && histogram.count == n)
            &&& n > 0 ==> (spec_metric_input("p95_latency"@, rounds) matches MetricInputView::Latency {
                histogram,
                quantile,
            } && quantile == LatencyQuantile::P95 && histogram.count == n)
            &&& n > 0 ==> (spec_metric_input("p99_latency"@, rounds) matches MetricInputView::Latency {
                histogram,
                quantile,
            } && quantile == LatencyQuantile::P99 && histogram.count == n)
            &&& n == 0 ==> (spec_metric_input("p50_latency"@, rounds) is InsufficientData
                && spec_metric_input("p95_latency"@, rounds) is InsufficientData
                && spec_metric_input("p99_latency"@, rounds) is InsufficientData)
        }),
{
    lemma_metric_names_differ();
    lemma_record_all_shape(round_latencies(rounds));
}

/// Each ratio metric divides a sum of one sample counter of the rounds by
/// the sum of their attempted samples: lost samples for the measurement
/// loss ratio, unhealthy samples for the health failure ratio, healthy
/// samples for the healthy sample ratio; with nothing attempted it has too
/// little data.
pub proof fn law_ratio_metrics(rounds: Seq<RoundRow>)
    ensures
        ({
            let attempted = sum_of(rounds, |r: RoundRow| r.attempted_samples);
            &&& attempted != 0 ==> spec_metric_input("measurement_loss_ratio"@, rounds)
                == (MetricInputView::Ratio {
                numerator: sum_of(rounds, |r: RoundRow| r.measurement_loss_samples),
                denominator: attempted,
            })
            &&& attempted != 0 ==> spec_metric_input("health_failure_ratio"@, rounds)
                == (MetricInputView::Ratio {
                numerator: sum_of(rounds, |r: RoundRow| r.unhealthy_samples),
                denominator: attempted,
            })
            &&& attempted != 0 ==> spec_metric_input("healthy_sample_ratio"@, rounds)
                == (MetricInputView::Ratio {
                numerator: sum_of(rounds, |r: RoundRow| r.healthy_samples),
                denominator: attempted,
            })
            &&& attempted == 0 ==> (spec_metric_input("measurement_loss_ratio"@, rounds) is InsufficientData
                && spec_metric_input("health_failure_ratio"@, rounds) is InsufficientData
                && spec_metric_input("healthy_sample_ratio"@, rounds) is InsufficientData)
        }),
{
    lemma_metric_names_differ();
    assert((|r: RoundRow| r.attempted_samples) =~= (|r: RoundRow| attempted_of(r)));
    assert((|r: RoundRow| r.measurement_loss_samples) =~= (|r: RoundRow| lost_of(r)));
    assert((|r: RoundRow| r.unhealthy_samples) =~= (|r: RoundRow| unhealthy_of(r)));
    assert((|r: RoundRow| r.healthy_samples) =~= (|r: RoundRow| healthy_of(r)));
}

/// A no-data rule, whose condition holds whenever it is evaluated, starts
/// to fire an instance that is normal or clearing exactly when the hold
/// time has passed since the condition first held (its stored first time,
/// or now), recording and announcing a firing event; otherwise the instance
/// waits in `PendingFire`. A pending instance is left as it is; a firing one
/// keeps firing and records an unannounced event exactly when its
/// notification is due to repeat. Every written instance remembers its
/// last notification time unless that repeat happened.
pub proof fn law_no_data_waits_for_hold(
    hold: Option<Seq<char>>,
    repeat: Option<Seq<char>>,
    e: StoredAlertState,
    now: Seq<char>,
)
    ensures
        ({
            let r = spec_no_data_transition(hold, repeat, Some(e), now);
            let last = match e.last_notification_at {
                Some(l) => Some(l@),
                None => None,
            };
            &&& e.state@ == "pending_fire"@ ==> r is None
            &&& e.state@ == "firing"@ ==> (r matches Some(u) && u.state == AlertState::Firing
                && u.state_entered_at == entered_at(e) && ((u.event is Some) <==> spec_should_repeat(
                repeat,
                last,
                now,
            )) && (u.event matches Some(ev) ==> !ev.publish) && u.last_notification_at == (if spec_should_repeat(
                repeat,
                last,
                now,
            ) {
                Some(now)
            } else {
                last
            }))
            &&& !(e.state@ == "pending_fire"@ || e.state@ == "firing"@) ==> (r matches Some(u) && ((u.state
                == AlertState::Firing) <==> spec_hold_elapsed(hold, condition_since(e, now), now)) && (u.state
                == AlertState::Firing ==> (u.event matches Some(ev) && ev.kind == AlertEventKind::Firing
                && ev.publish)) && (u.state != AlertState::Firing ==> (u.state == AlertState::PendingFire
                && u.event is None)) && u.first_condition_true_at == Some(condition_since(e, now))
                && u.state_entered_at == now && u.last_notification_at == last)
        }),
{
    reveal_strlit("firing");
    reveal_strlit("pending_clear");
    reveal_strlit("pending_fire");
    assert("firing"@[0] != "pending_clear"@[0] && "firing"@[0] != "pending_fire"@[0]);
    assert("pending_clear"@[8] != "pending_fire"@[8]);
}

/// An instance whose firing condition does not hold and that is normal or
/// waiting to fire is normal afterwards, forgets since when the condition
/// held, and records nothing; a clearing instance whose clearing condition
/// does not hold returns to firing silently, keeping its times.
pub proof fn law_conditions_lost(
    hold: Option<Seq<char>>,
    repeat: Option<Seq<char>>,
    e: StoredAlertState,
    now: Seq<char>,
)
    ensures
        ({
            let u = spec_transition(hold, repeat, Some(e), false, false, now);
            let first = match e.first_condition_true_at {
                Some(f) => Some(f@),
                None => None,
            };
            let last = match e.last_notification_at {
                Some(l) => Some(l@),
                None => None,
            };
            &&& !(e.state@ == "firing"@ || e.state@ == "pending_clear"@) ==> (u.state == AlertState::Normal
                && u.event is None && u.first_condition_true_at is None)
            &&& e.state@ == "pending_clear"@ ==> (u.state == AlertState::Firing && u.event is None
                && u.state_entered_at == entered_at(e) && u.first_condition_true_at == first
                && u.last_notification_at == last)
        }),
{
    reveal_strlit("firing");
    reveal_strlit("pending_clear");
    reveal_strlit("pending_fire");
    assert("firing"@[0] != "pending_clear"@[0] && "firing"@[0] != "pending_fire"@[0]);
    assert("pending_clear"@[8] != "pending_fire"@[8]);
}

proof fn lemma_run_names_differ()
    ensures
        "consecutive_total_loss_rounds"@ != "measurement_loss_ratio"@,
        "consecutive_total_loss_rounds"@ != "health_failure_ratio"@,
        "consecutive_total_loss_rounds"@ != "healthy_sample_ratio"@,
        "consecutive_total_loss_rounds"@ != "p50_latency"@,
        "consecutive_total_loss_rounds"@ != "p95_latency"@,
        "consecutive_total_loss_rounds"@ != "p99_latency"@,
        "consecutive_unhealthy_rounds"@ != "measurement_loss_ratio"@,
        "consecutive_unhealthy_rounds"@ != "health_failure_ratio"@,
        "consecutive_unhealthy_rounds"@ != "healthy_sample_ratio"@,
        "consecutive_unhealthy_rounds"@ != "p50_latency"@,
        "consecutive_unhealthy_rounds"@ != "p95_latency"@,
        "consecutive_unhealthy_rounds"@ != "p99_latency"@,
        "consecutive_total_loss_rounds"@ != "consecutive_unhealthy_rounds"@,
{
    reveal_strlit("measurement_loss_ratio");
    reveal_strlit("health_failure_ratio");
    reveal_strlit("healthy_sample_ratio");
    reveal_strlit("p50_latency");
    reveal_strlit("p95_latency");
    reveal_strlit("p99_latency");
    reveal_strlit("consecutive_total_loss_rounds");
    reveal_strlit("consecutive_unhealthy_rounds");
    assert("consecutive_total_loss_rounds"@[0] != "measurement_loss_ratio"@[0]);
    assert("consecutive_total_loss_rounds"@[0] != "health_failure_ratio"@[0]);
    assert("consecutive_total_loss_rounds"@[0] != "healthy_sample_ratio"@[0]);
    assert("consecutive_total_loss_rounds"@[0] != "p50_latency"@[0]);
    assert("consecutive_total_loss_rounds"@[0] != "p95_latency"@[0]);
    assert("consecutive_total_loss_rounds"@[0] != "p99_latency"@[0]);
    assert("consecutive_unhealthy_rounds"@[0] != "measurement_loss_ratio"@[0]);
    assert("consecutive_unhealthy_rounds"@[0] != "health_failure_ratio"@[0]);
    assert("consecutive_unhealthy_rounds"@[0] != "healthy_sample_ratio"@[0]);
    assert("consecutive_unhealthy_rounds"@[0] != "p50_latency"@[0]);
    assert("consecutive_unhealthy_rounds"@[0] != "p95_latency"@[0]);
    assert("consecutive_unhealthy_rounds"@[0] != "p99_latency"@[0]);
    assert("consecutive_total_loss_rounds"@[12] != "consecutive_unhealthy_rounds"@[12]);
}

proof fn lemma_trailing_run(t: Seq<(Seq<char>, bool)>)
    ensures
        trailing_run(t) <= t.len(),
        forall|j: int| t.len() - trailing_run(t) <= j < t.len() ==> (#[trigger] t[j]).1,
        trailing_run(t) < t.len() ==> !t[t.len() - trailing_run(t) - 1].1,
    decreases t.len(),
{
    if t.len() > 0 && t.last().1 {
        lemma_trailing_run(t.drop_last());
        assert forall|j: int| t.len() - trailing_run(t) <= j < t.len() implies (#[trigger] t[j]).1 by {
            if j < t.len() - 1 {
                assert(t[j] == t.drop_last()[j]);
            }
        }
        if trailing_run(t) < t.len() {
            assert(t[t.len() - trailing_run(t) - 1] == t.drop_last()[t.drop_last().len() - trailing_run(
                t.drop_last(),
            ) - 1]);
        }
    }
}

/// The rounds, in time order, with whether each lost every sample it
/// attempted (`total_loss`) or had an unhealthy sample (otherwise).
pub open spec fn rounds_in_time_order(rounds: Seq<RoundRow>, total_loss: bool) -> Seq<(Seq<char>, bool)> {
    sort_by_key(keyed_rounds(rounds, total_loss))
}

/// The run metrics count the bad rounds at the end of the rounds taken in
/// the order of their scheduling times: the count is the number of latest
/// rounds that are all bad, stopping at the latest good one. A round is bad
/// for `consecutive_total_loss_rounds` when it attempted samples and lost
/// every one of them, and for `consecutive_unhealthy_rounds` when it had an
/// unhealthy sample.
pub proof fn law_run_metrics_count_latest_bad_rounds(rounds: Seq<RoundRow>, total_loss: bool)
    ensures
        ({
            let name = if total_loss {
                "consecutive_total_loss_rounds"@
            } else {
                "consecutive_unhealthy_rounds"@
            };
            let t = rounds_in_time_order(rounds, total_loss);
            let flags = Seq::new(
                rounds.len(),
                |i: int|
                    (
                        rounds[i].scheduled_at@,
                        if total_loss {
                            rounds[i].attempted_samples > 0 && rounds[i].measurement_loss_samples
                                == rounds[i].attempted_samples
                        } else {
                            rounds[i].unhealthy_samples > 0
                        },
                    ),
            );
            &&& keys_ascending(t)
            &&& t.to_multiset() == flags.to_multiset()
            &&& t.len() == rounds.len()
            &&& spec_metric_input(name, rounds) matches MetricInputView::Count(k) && {
                &&& k <= rounds.len()
                &&& forall|j: int| rounds.len() - k <= j < rounds.len() ==> (#[trigger] t[j]).1
                &&& k < rounds.len() ==> !t[rounds.len() - k - 1].1
            }
        }),
{
    lemma_metric_names_differ();
    lemma_run_names_differ();
    law_sort_by_key(keyed_rounds(rounds, total_loss));
    lemma_sort_len(keyed_rounds(rounds, total_loss));
    lemma_trailing_run(rounds_in_time_order(rounds, total_loss));
    let flags = Seq::new(
        rounds.len(),
        |i: int|
            (
                rounds[i].scheduled_at@,
                if total_loss {
                    rounds[i].attempted_samples > 0 && rounds[i].measurement_loss_samples
                        == rounds[i].attempted_samples
                } else {
                    rounds[i].unhealthy_samples > 0
                },
            ),
    );
    assert(keyed_rounds(rounds, total_loss) =~= flags);
}

} // verus!
