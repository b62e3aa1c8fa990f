//! Which alert rules apply to a check, and the periods over which they
//! look back.
use vstd::prelude::*;

use crate::alerts::{
    compute_metric, round_latencies, spec_metric_input, sum_of, MetricInput, MetricInputView,
};
use crate::config::AlertRuleConfig;
use crate::duration::{parse_duration_millis, spec_parse_duration};
use crate::probe::opt_view;
use crate::rows::RoundRow;
use crate::text::str_eq;

verus! {

broadcast use vstd::string::group_string_axioms;

/// Whether `rule` is evaluated for a check of the profile with identifier
/// `check_profile`: alert states are kept only for checks that use the
/// rule's profile.
pub open spec fn rule_applies(rule: AlertRuleConfig, check_profile: Seq<char>) -> bool {
    rule.profile@ == check_profile
}

/// The positions of the rules that are evaluated for a check of the
/// profile with identifier `check_profile`, in order.
pub open spec fn rules_for_profile(rules: Seq<AlertRuleConfig>, check_profile: Seq<char>) -> Seq<usize>
    decreases rules.len(),
{
    if rules.len() == 0 {
        Seq::empty()
    } else if rule_applies(rules.last(), check_profile) {
        rules_for_profile(rules.drop_last(), check_profile).push((rules.len() - 1) as usize)
    } else {
        rules_for_profile(rules.drop_last(), check_profile)
    }
}

/// The rules evaluated for a check are exactly those of its profile: every
/// listed position holds a rule of that profile, and every rule of that
/// profile is listed, in order.
pub proof fn law_rules_for_profile(rules: Seq<AlertRuleConfig>, check_profile: Seq<char>)
    requires
        rules.len() <= usize::MAX,
    ensures
        forall|k: int|
            0 <= k < rules_for_profile(rules, check_profile).len() ==> {
                let i = #[trigger] rules_for_profile(rules, check_profile)[k];
                &&& i < rules.len()
                &&& rules[i as int].profile@ == check_profile
            },
        forall|i: int|
            0 <= i < rules.len() && #[trigger] rules[i].profile@ == check_profile ==> rules_for_profile(
                rules,
                check_profile,
            ).contains(i as usize),
        forall|a: int, b: int|
            0 <= a < b < rules_for_profile(rules, check_profile).len() ==> #[trigger] rules_for_profile(
                rules,
                check_profile,
            )[a] < #[trigger] rules_for_profile(rules, check_profile)[b],
    decreases rules.len(),
{
    if rules.len() > 0 {
        let pre = rules.drop_last();
        law_rules_for_profile(pre, check_profile);
        let r0 = rules_for_profile(pre, check_profile);
        let r = rules_for_profile(rules, check_profile);
        assert forall|k: int| 0 <= k < r.len() implies {
            let i = #[trigger] r[k];
            &&& i < rules.len()
            &&& rules[i as int].profile@ == check_profile
        } by {
            if k < r0.len() {
                assert(r[k] == r0[k]);
                assert(rules[r0[k] as int] == pre[r0[k] as int]);
            }
        }
        assert forall|a: int, b: int| 0 <= a < b < r.len() implies #[trigger] r[a] < #[trigger] r[b] by {
            if b < r0.len() {
                assert(r[a] == r0[a] && r[b] == r0[b]);
            } else {
                assert(r[a] == r0[a]);
                assert(r0[a] < pre.len());
            }
        }
        assert forall|i: int|
            0 <= i < rules.len() && #[trigger] rules[i].profile@ == check_profile implies r.contains(i as usize) by {
            if i < pre.len() {
                assert(pre[i] == rules[i]);
                let w = choose|w: int| 0 <= w < r0.len() && r0[w] == i as usize;
                assert(r[w] == r0[w]);
            } else {
                assert(r[r.len() - 1] == i as usize);
            }
        }
    }
}

/// Whether a rule watches for missing data.
pub open spec fn is_no_data_rule(rule: AlertRuleConfig) -> bool {
    rule.metric@ == "no_data"@
}

/// The positions of the no-data rules, in order.
pub open spec fn no_data_positions(rules: Seq<AlertRuleConfig>) -> Seq<usize>
    decreases rules.len(),
{
    if rules.len() == 0 {
        Seq::empty()
    } else if is_no_data_rule(rules.last()) {
        no_data_positions(rules.drop_last()).push((rules.len() - 1) as usize)
    } else {
        no_data_positions(rules.drop_last())
    }
}

/// The positions of the rules that are evaluated for a check of the
/// profile with identifier `check_profile`, in order.
pub fn applicable_rules(rules: &[AlertRuleConfig], check_profile: &str) -> (r: Vec<usize>)
    ensures
        r@ == rules_for_profile(rules@, check_profile@),
{
    let mut out: Vec<usize> = Vec::new();
    let mut i: usize = 0;
    while i < rules.len()
        invariant
            i <= rules@.len(),
            out@ == rules_for_profile(rules@.take(i as int), check_profile@),
        decreases rules@.len() - i,
    {
        assert(rules@.take(i + 1).drop_last() =~= rules@.take(i as int));
        assert(rules@.take(i + 1).last() == rules@[i as int]);
        if str_eq(rules[i].profile.as_str(), check_profile) {
            out.push(i);
        }
        i = i + 1;
    }
    assert(rules@.take(i as int) =~= rules@);
    out
}

/// The positions of the no-data rules.
pub fn no_data_rules(rules: &[AlertRuleConfig]) -> (r: Vec<usize>)
    ensures
        r@ == no_data_positions(rules@),
{
    let mut out: Vec<usize> = Vec::new();
    let mut i: usize = 0;
    while i < rules.len()
        invariant
            i <= rules@.len(),
            out@ == no_data_positions(rules@.take(i as int)),
        decreases rules@.len() - i,
    {
        assert(rules@.take(i + 1).drop_last() =~= rules@.take(i as int));
        assert(rules@.take(i + 1).last() == rules@[i as int]);
        if str_eq(rules[i].metric.as_str(), "no_data") {
            out.push(i);
        }
        i = i + 1;
    }
    assert(rules@.take(i as int) =~= rules@);
    out
}

/// The milliseconds that a duration setting gives, or five minutes when it
/// does not parse.
pub open spec fn millis_or_five_minutes(s: Seq<char>) -> nat {
    match spec_parse_duration(s) {
        Ok(ms) => ms,
        Err(_) => 300_000,
    }
}

/// The window of a rule in milliseconds; five minutes when it does not
/// parse.
pub fn window_millis(rule: &AlertRuleConfig) -> (r: u64)
    ensures
        r == millis_or_five_minutes(rule.window@),
{
    match parse_duration_millis(rule.window.as_str()) {
        Ok(ms) => ms,
        Err(_) => 300_000,
    }
}

/// The period without rounds after which a no-data rule fires, in
/// milliseconds: its no-data period, or else its window; five minutes when
/// that does not parse.
pub fn no_data_period_millis(rule: &AlertRuleConfig) -> (r: u64)
    ensures
        r == millis_or_five_minutes(
            match opt_view(rule.no_data_period) {
                Some(p) => p,
                None => rule.window@,
            },
        ),
{
    let s = match &rule.no_data_period {
        Some(p) => p.as_str(),
        None => rule.window.as_str(),
    };
    match parse_duration_millis(s) {
        Ok(ms) => ms,
        Err(_) => 300_000,
    }
}

/// Whether a rule has enough rounds in its window to be evaluated: at
/// least its minimum, one by default.
pub fn has_minimum_rounds(rule: &AlertRuleConfig, rounds: usize) -> (r: bool)
    ensures
        r == (rounds >= match rule.minimum_rounds {
            Some(m) => m as int,
            None => 1,
        }),
{
    let minimum: usize = match rule.minimum_rounds {
        Some(m) => m as usize,
        None => 1,
    };
    rounds >= minimum
}

/// The latency-bearing samples of a round.
pub open spec fn latency_bearing_of(r: RoundRow) -> i32 {
    r.latency_bearing_samples
}

/// The latency-bearing samples of the rounds, summed.
pub open spec fn latency_samples(rounds: Seq<RoundRow>) -> int {
    sum_of(rounds, |r: RoundRow| latency_bearing_of(r))
}

/// What the evaluation of a rule reads from the rounds in its window: too
/// little data where there are fewer rounds than the rule's minimum (one by
/// default), or, where the rule sets a minimum number of latency samples,
/// fewer latency-bearing samples than that, whatever the metric; otherwise
/// the input of its metric.
pub open spec fn spec_rule_input(rule: AlertRuleConfig, rounds: Seq<RoundRow>) -> MetricInputView {
    let min_rounds: int = match rule.minimum_rounds {
        Some(m) => m as int,
        None => 1,
    };
    if rounds.len() < min_rounds {
        MetricInputView::InsufficientData
    } else if rule.minimum_latency_samples matches Some(k) && latency_samples(rounds) < k {
        MetricInputView::InsufficientData
    } else {
        spec_metric_input(rule.metric@, rounds)
    }
}

/// The latency-bearing samples of the rounds, summed.
pub fn count_latency_samples(rounds: &[RoundRow]) -> (r: i64)
    requires
        rounds@.len() <= u32::MAX,
    ensures
        r == latency_samples(rounds@),
{
    let ghost f = |r: RoundRow| latency_bearing_of(r);
    let mut total: i64 = 0;
    let mut i: usize = 0;
    while i < rounds.len()
        invariant
            i <= rounds@.len() <= u32::MAX,
            f == (|r: RoundRow| latency_bearing_of(r)),
            total == sum_of(rounds@.take(i as int), f),
            -(i as int) * 2147483648 <= total <= (i as int) * 2147483647,
        decreases rounds@.len() - i,
    {
        let v: i32 = rounds[i].latency_bearing_samples;
        assert(rounds@.take(i + 1).drop_last() =~= rounds@.take(i as int));
        assert(rounds@.take(i + 1).last() == rounds@[i as int]);
        total = total + v as i64;
        i = i + 1;
    }
    assert(rounds@.take(i as int) =~= rounds@);
    total
}

/// The input of a rule's metric over the rounds in its window, held back as
/// too little data below the rule's minimum number of rounds and, whatever
/// the metric, below its minimum number of latency samples.
pub fn rule_metric_input(rule: &AlertRuleConfig, rounds: &[RoundRow]) -> (r: MetricInput)
    requires
        rounds@.len() <= u32::MAX,
        round_latencies(rounds@).len() < u64::MAX,
    ensures
        r@ == spec_rule_input(*rule, rounds@),
{
    if !has_minimum_rounds(rule, rounds.len()) {
        return MetricInput::InsufficientData;
    }
    match rule.minimum_latency_samples {
        Some(k) => {
            if count_latency_samples(rounds) < k as i64 {
                return MetricInput::InsufficientData;
            }
        },
        None => {},
    }
    compute_metric(rule.metric.as_str(), rounds)
}

} // verus!
