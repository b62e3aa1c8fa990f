//! What the validation of a configuration promises as a whole: repeated
//! identifiers are refused, each part is accepted exactly when its settings
//! are, and the warnings of an accepted configuration are one per secret
//! given literally.
use vstd::prelude::*;

use crate::config::{
    check_warnings, config_warnings, gather, header_warnings, is_literal, notifier_warnings,
    target_warnings, CheckConfig, NotifierConfig, SecretRef, duration_field_check, notifier_id, profile_id, profile_interval, profile_step,
    profile_timeout, rule_step, run_checks, spec_profile_check, spec_scheduler_check,
    spec_target_check, spec_validate, target_check_step, notifier_step, target_step, verr,
    among, ConfigErrorView, KemuriConfig, NumericChecks, ProbeProfileConfig, SchedulerConfig,
    TargetConfig, spec_status_resolve, HttpStatusExpectation,
};
use crate::http::status_value;
use crate::text::split_once_spec;
use crate::duration::spec_parse_duration;

verus! {

/// A run of checks succeeds exactly when every one of its checks does.
pub proof fn lemma_run_checks_ok(n: nat, step: spec_fn(int) -> Result<(), ConfigErrorView>)
    ensures
        (run_checks(n, step) is Ok) <==> (forall|i: int| 0 <= i < n ==> (#[trigger] step(i)) is Ok),
    decreases n,
{
    if n > 0 {
        lemma_run_checks_ok((n - 1) as nat, step);
    }
}

/// A run of checks whose first failing check is `k` fails with that check's
/// error.
pub proof fn lemma_run_checks_first_error(n: nat, k: nat, step: spec_fn(int) -> Result<(), ConfigErrorView>)
    requires
        k < n,
        forall|i: int| 0 <= i < k ==> (#[trigger] step(i)) is Ok,
        step(k as int) is Err,
    ensures
        run_checks(n, step) == step(k as int),
{
    lemma_run_checks_ok(k, step);
    if k + 1 < n {
        crate::config::lemma_run_checks_stop(k, n, step);
    }
}

/// A configuration in which two profiles, two notifiers, two rules or two
/// targets share an identifier is refused.
pub proof fn law_duplicate_ids_rejected(c: KemuriConfig, n: NumericChecks, i: int, j: int)
    requires
        0 <= i < j,
        (j < c.profiles@.len() && profile_id(c.profiles@[i]) == profile_id(c.profiles@[j]))
            || (j < c.notifiers@.len() && notifier_id(c.notifiers@[i]) == notifier_id(c.notifiers@[j]))
            || (j < c.rules@.len() && c.rules@[i].id@ == c.rules@[j].id@)
            || (j < c.targets@.len() && c.targets@[i].id@ == c.targets@[j].id@),
    ensures
        spec_validate(c, n) is Err,
{
    let ps = |k: int| profile_step(c.profiles@, k);
    let ns = |k: int| notifier_step(c.notifiers@, k);
    let rs = |k: int| rule_step(c.rules@, k, crate::config::profile_ids_of(c.profiles@), crate::config::notifier_ids_of(c.notifiers@), n);
    let ts = |k: int| target_step(c.targets@, k, crate::config::profile_ids_of(c.profiles@));
    lemma_run_checks_ok(c.profiles@.len(), ps);
    lemma_run_checks_ok(c.notifiers@.len(), ns);
    lemma_run_checks_ok(c.rules@.len(), rs);
    lemma_run_checks_ok(c.targets@.len(), ts);
    if j < c.profiles@.len() && profile_id(c.profiles@[i]) == profile_id(c.profiles@[j]) {
        assert(ps(j) is Err);
    } else if j < c.notifiers@.len() && notifier_id(c.notifiers@[i]) == notifier_id(c.notifiers@[j]) {
        assert(ns(j) is Err);
    } else if j < c.rules@.len() && c.rules@[i].id@ == c.rules@[j].id@ {
        assert(rs(j) is Err);
    } else {
        assert(ts(j) is Err);
    }
}

/// Where the second of two profiles with one identifier is the first
/// profile to fail, a configuration of the supported version is refused at
/// that profile's path, as a duplicate profile id.
pub proof fn law_duplicate_profile_error(c: KemuriConfig, n: NumericChecks, i: int, j: int)
    requires
        c.version == 1,
        0 <= i < j < c.profiles@.len(),
        profile_id(c.profiles@[i]) == profile_id(c.profiles@[j]),
        forall|k: int| 0 <= k < j ==> (#[trigger] profile_step(c.profiles@, k)) is Ok,
    ensures
        spec_validate(c, n) == Err::<Seq<(Seq<char>, Seq<char>)>, ConfigErrorView>(
            verr("profiles."@ + profile_id(c.profiles@[j]), "duplicate profile id"@),
        ),
{
    let ps = |k: int| profile_step(c.profiles@, k);
    assert(ps(j) is Err);
    lemma_run_checks_first_error(c.profiles@.len(), j as nat, ps);
}

/// Where the profiles pass and the second of two notifiers with one
/// identifier is the first notifier to fail, a configuration of the
/// supported version is refused as a duplicate notifier id.
pub proof fn law_duplicate_notifier_error(c: KemuriConfig, n: NumericChecks, i: int, j: int)
    requires
        c.version == 1,
        run_checks(c.profiles@.len(), |k: int| profile_step(c.profiles@, k)) is Ok,
        0 <= i < j < c.notifiers@.len(),
        notifier_id(c.notifiers@[i]) == notifier_id(c.notifiers@[j]),
        forall|k: int| 0 <= k < j ==> (#[trigger] notifier_step(c.notifiers@, k)) is Ok,
    ensures
        spec_validate(c, n) == Err::<Seq<(Seq<char>, Seq<char>)>, ConfigErrorView>(
            verr("notifiers."@ + notifier_id(c.notifiers@[j]), "duplicate notifier id"@),
        ),
{
    let ns = |k: int| notifier_step(c.notifiers@, k);
    assert(ns(j) is Err);
    lemma_run_checks_first_error(c.notifiers@.len(), j as nat, ns);
}

/// Where the profiles and notifiers pass and the second of two rules with
/// one identifier is the first rule to fail, a configuration of the
/// supported version is refused as a duplicate rule id.
pub proof fn law_duplicate_rule_error(c: KemuriConfig, n: NumericChecks, i: int, j: int)
    requires
        c.version == 1,
        run_checks(c.profiles@.len(), |k: int| profile_step(c.profiles@, k)) is Ok,
        run_checks(c.notifiers@.len(), |k: int| notifier_step(c.notifiers@, k)) is Ok,
        0 <= i < j < c.rules@.len(),
        c.rules@[i].id@ == c.rules@[j].id@,
        forall|k: int|
            0 <= k < j ==> (#[trigger] rule_step(
                c.rules@,
                k,
                crate::config::profile_ids_of(c.profiles@),
                crate::config::notifier_ids_of(c.notifiers@),
                n,
            )) is Ok,
    ensures
        spec_validate(c, n) == Err::<Seq<(Seq<char>, Seq<char>)>, ConfigErrorView>(
            verr("rules."@ + c.rules@[j].id@, "duplicate rule id"@),
        ),
{
    let rs = |k: int|
        rule_step(c.rules@, k, crate::config::profile_ids_of(c.profiles@), crate::config::notifier_ids_of(c.notifiers@), n);
    assert(rs(j) is Err);
    lemma_run_checks_first_error(c.rules@.len(), j as nat, rs);
}

/// Where the profiles, notifiers and rules pass and the second of two
/// targets with one identifier is the first target to fail, a configuration
/// of the supported version is refused as a duplicate target id.
pub proof fn law_duplicate_target_error(c: KemuriConfig, n: NumericChecks, i: int, j: int)
    requires
        c.version == 1,
        run_checks(c.profiles@.len(), |k: int| profile_step(c.profiles@, k)) is Ok,
        run_checks(c.notifiers@.len(), |k: int| notifier_step(c.notifiers@, k)) is Ok,
        run_checks(
            c.rules@.len(),
            |k: int|
                rule_step(
                    c.rules@,
                    k,
                    crate::config::profile_ids_of(c.profiles@),
                    crate::config::notifier_ids_of(c.notifiers@),
                    n,
                ),
        ) is Ok,
        0 <= i < j < c.targets@.len(),
        c.targets@[i].id@ == c.targets@[j].id@,
        forall|k: int|
            0 <= k < j ==> (#[trigger] target_step(c.targets@, k, crate::config::profile_ids_of(c.profiles@))) is Ok,
    ensures
        spec_validate(c, n) == Err::<Seq<(Seq<char>, Seq<char>)>, ConfigErrorView>(
            verr("targets."@ + c.targets@[j].id@, "duplicate target id"@),
        ),
{
    let ts = |k: int| target_step(c.targets@, k, crate::config::profile_ids_of(c.profiles@));
    assert(ts(j) is Err);
    lemma_run_checks_first_error(c.targets@.len(), j as nat, ts);
}

/// Whether a duration setting reads as a positive duration.
pub open spec fn positive_duration(s: Seq<char>) -> bool {
    spec_parse_duration(s) matches Ok(ms) && ms > 0
}

/// A profile is accepted exactly when its interval and its timeout both
/// read as positive durations; a bad interval is reported first.
pub proof fn law_profile_accepts_positive_timing(p: ProbeProfileConfig)
    ensures
        (spec_profile_check(p) is Ok) <==> (positive_duration(profile_interval(p)) && positive_duration(
            profile_timeout(p),
        )),
        !positive_duration(profile_interval(p)) ==> spec_profile_check(p) == duration_field_check(
            profile_interval(p),
            "profiles."@ + profile_id(p) + ".interval"@,
        ),
{
}

/// The scheduler's settings are accepted exactly when the tick reads as a
/// positive duration, at least one round may run at once, the jitter
/// passed its check, and no per-kind limit is zero.
pub proof fn law_scheduler_rejects_zero(s: SchedulerConfig, jitter: Result<(), ConfigErrorView>)
    ensures
        (spec_scheduler_check(s, jitter) is Ok) <==> ({
            &&& positive_duration(s.tick_interval@)
            &&& s.max_concurrent > 0
            &&& jitter is Ok
            &&& s.max_concurrent_by_probe.icmp != Some(0u32)
            &&& s.max_concurrent_by_probe.http != Some(0u32)
            &&& s.max_concurrent_by_probe.tcp != Some(0u32)
            &&& s.max_concurrent_by_probe.dns != Some(0u32)
        }),
{
}

/// A target's checks are accepted exactly when no two of them share an
/// identifier and each names a known profile.
pub proof fn law_target_checks(t: TargetConfig, profiles: Seq<Seq<char>>)
    ensures
        (spec_target_check(t, profiles) is Ok) <==> ({
            &&& forall|i: int, j: int|
                0 <= i < j < t.checks@.len() ==> #[trigger] t.checks@[i].id@ != #[trigger] t.checks@[j].id@
            &&& forall|i: int| 0 <= i < t.checks@.len() ==> among(profiles, #[trigger] t.checks@[i].profile@)
        }),
{
    let step = |k: int| target_check_step(t.id@, t.checks@, profiles, k);
    lemma_run_checks_ok(t.checks@.len(), step);
    if spec_target_check(t, profiles) is Ok {
        assert forall|i: int, j: int| 0 <= i < j < t.checks@.len() implies #[trigger] t.checks@[i].id@
            != #[trigger] t.checks@[j].id@ by {
            assert(step(j) is Ok);
        }
        assert forall|i: int| 0 <= i < t.checks@.len() implies among(profiles, #[trigger] t.checks@[i].profile@) by {
            assert(step(i) is Ok);
        }
    }
    if (forall|i: int, j: int|
        0 <= i < j < t.checks@.len() ==> #[trigger] t.checks@[i].id@ != #[trigger] t.checks@[j].id@)
        && (forall|i: int| 0 <= i < t.checks@.len() ==> among(profiles, #[trigger] t.checks@[i].profile@)) {
        assert forall|k: int| 0 <= k < t.checks@.len() implies (#[trigger] step(k)) is Ok by {
            assert(!(exists|j: int| 0 <= j < k && t.checks@[j].id@ == t.checks@[k].id@));
            assert(among(profiles, t.checks@[k].profile@));
        }
    }
}

/// The sum of `f` over the first `n` indices.
pub open spec fn total(n: nat, f: spec_fn(int) -> nat) -> nat
    decreases n,
{
    if n == 0 {
        0
    } else {
        total((n - 1) as nat, f) + f(n - 1)
    }
}

/// One for a secret given literally, none otherwise.
pub open spec fn literal_count(s: SecretRef) -> nat {
    if is_literal(s) {
        1
    } else {
        0
    }
}

/// The number of header values given literally.
pub open spec fn literal_headers(hs: Seq<(String, SecretRef)>) -> nat
    decreases hs.len(),
{
    if hs.len() == 0 {
        0
    } else {
        literal_headers(hs.drop_last()) + literal_count(hs.last().1)
    }
}

/// The number of secrets a notifier gives literally: a webhook's URL and
/// header values, an SMTP server's password.
pub open spec fn notifier_literals(n: NotifierConfig) -> nat {
    match n {
        NotifierConfig::Webhook(p) => literal_count(p.url) + match p.headers {
            Some(hs) => literal_headers(hs@),
            None => 0,
        },
        NotifierConfig::Smtp(p) => match p.password {
            Some(s) => literal_count(s),
            None => 0,
        },
    }
}

/// One for a check whose body is given literally, none otherwise.
pub open spec fn check_literals(c: CheckConfig) -> nat {
    match c.body {
        Some(b) => literal_count(b),
        None => 0,
    }
}

/// The number of checks of a target whose body is given literally.
pub open spec fn target_literals(t: TargetConfig) -> nat {
    total(t.checks@.len(), |k: int| check_literals(t.checks@[k]))
}

/// The number of secrets a configuration gives literally.
pub open spec fn literal_secret_count(c: KemuriConfig) -> nat {
    total(c.notifiers@.len(), |i: int| notifier_literals(c.notifiers@[i])) + total(
        c.targets@.len(),
        |i: int| target_literals(c.targets@[i]),
    )
}

/// The messages of the warnings about secrets given literally.
pub open spec fn literal_secret_message(m: Seq<char>) -> bool {
    ||| m == "literal secret value for URL; use from_env or from_file"@
    ||| m == "literal secret value in header; use from_env or from_file"@
    ||| m == "literal secret value for password; use from_env or from_file"@
    ||| m == "literal secret value for body; use from_env or from_file"@
}

/// Whether every warning of a list is about a secret given literally.
pub open spec fn all_literal_messages(ws: Seq<(Seq<char>, Seq<char>)>) -> bool {
    forall|k: int| 0 <= k < ws.len() ==> literal_secret_message(#[trigger] ws[k].1)
}

proof fn lemma_concat_literal(a: Seq<(Seq<char>, Seq<char>)>, b: Seq<(Seq<char>, Seq<char>)>)
    requires
        all_literal_messages(a),
        all_literal_messages(b),
    ensures
        all_literal_messages(a + b),
{
    assert forall|k: int| 0 <= k < (a + b).len() implies literal_secret_message(#[trigger] (a + b)[k].1) by {
        if k < a.len() {
            assert((a + b)[k] == a[k]);
        } else {
            assert((a + b)[k] == b[k - a.len()]);
        }
    }
}

proof fn lemma_gather(n: nat, w: spec_fn(int) -> Seq<(Seq<char>, Seq<char>)>, f: spec_fn(int) -> nat)
    requires
        forall|i: int| 0 <= i < n ==> (#[trigger] w(i)).len() == f(i) && all_literal_messages(w(i)),
    ensures
        gather(n, w).len() == total(n, f),
        all_literal_messages(gather(n, w)),
    decreases n,
{
    if n > 0 {
        lemma_gather((n - 1) as nat, w, f);
        assert(w(n - 1).len() == f(n - 1) && all_literal_messages(w(n - 1)));
        lemma_concat_literal(gather((n - 1) as nat, w), w(n - 1));
    }
}

proof fn lemma_headers(id: Seq<char>, hs: Seq<(String, SecretRef)>)
    ensures
        header_warnings(id, hs).len() == literal_headers(hs),
        all_literal_messages(header_warnings(id, hs)),
    decreases hs.len(),
{
    if hs.len() > 0 {
        lemma_headers(id, hs.drop_last());
        let last: Seq<(Seq<char>, Seq<char>)> = if is_literal(hs.last().1) {
            seq![
                (
                    "notifiers."@ + id + ".headers."@ + hs.last().0@,
                    "literal secret value in header; use from_env or from_file"@,
                ),
            ]
        } else {
            Seq::empty()
        };
        assert(all_literal_messages(last));
        lemma_concat_literal(header_warnings(id, hs.drop_last()), last);
    }
}

proof fn lemma_notifier(n: NotifierConfig)
    ensures
        notifier_warnings(n).len() == notifier_literals(n),
        all_literal_messages(notifier_warnings(n)),
{
    match n {
        NotifierConfig::Webhook(p) => {
            let first: Seq<(Seq<char>, Seq<char>)> = if is_literal(p.url) {
                seq![("notifiers."@ + p.id@ + ".url"@, "literal secret value for URL; use from_env or from_file"@)]
            } else {
                Seq::empty()
            };
            let rest = match p.headers {
                Some(hs) => header_warnings(p.id@, hs@),
                None => Seq::empty(),
            };
            match p.headers {
                Some(hs) => lemma_headers(p.id@, hs@),
                None => {},
            }
            assert(all_literal_messages(first));
            assert(all_literal_messages(rest));
            lemma_concat_literal(first, rest);
        },
        NotifierConfig::Smtp(p) => {},
    }
}

proof fn lemma_target(t: TargetConfig)
    ensures
        target_warnings(t, t.checks@.len()).len() == target_literals(t),
        all_literal_messages(target_warnings(t, t.checks@.len())),
{
    let w = |i: int| check_warnings(t.checks@[i], crate::config::check_path(t.id@, t.checks@[i].id@));
    let f = |k: int| check_literals(t.checks@[k]);
    assert forall|i: int| 0 <= i < t.checks@.len() implies (#[trigger] w(i)).len() == f(i)
        && all_literal_messages(w(i)) by {}
    lemma_gather(t.checks@.len(), w, f);
}

/// The warnings of an accepted configuration are one for each secret it
/// gives literally (a webhook's URL or header value, an SMTP password, a
/// check's body), each saying that a literal secret value was found;
/// secrets read from the environment or from a file give none.
pub proof fn law_warnings_count_literal_secrets(c: KemuriConfig, n: NumericChecks)
    requires
        spec_validate(c, n) is Ok,
    ensures
        spec_validate(c, n)->Ok_0.len() == literal_secret_count(c),
        all_literal_messages(spec_validate(c, n)->Ok_0),
{
    let wn = |i: int| notifier_warnings(c.notifiers@[i]);
    let fnl = |i: int| notifier_literals(c.notifiers@[i]);
    assert forall|i: int| 0 <= i < c.notifiers@.len() implies (#[trigger] wn(i)).len() == fnl(i)
        && all_literal_messages(wn(i)) by {
        lemma_notifier(c.notifiers@[i]);
    }
    lemma_gather(c.notifiers@.len(), wn, fnl);
    let wt = |i: int| target_warnings(c.targets@[i], c.targets@[i].checks@.len());
    let ft = |i: int| target_literals(c.targets@[i]);
    assert forall|i: int| 0 <= i < c.targets@.len() implies (#[trigger] wt(i)).len() == ft(i)
        && all_literal_messages(wt(i)) by {
        lemma_target(c.targets@[i]);
    }
    lemma_gather(c.targets@.len(), wt, ft);
    lemma_concat_literal(gather(c.notifiers@.len(), wn), gather(c.targets@.len(), wt));
    assert(config_warnings(c) == gather(c.notifiers@.len(), wn) + gather(c.targets@.len(), wt));
}

/// An expected status is accepted exactly when it lies between 100 and
/// 599; a range exactly when it splits at its first `-` into two statuses
/// in that band, the first not above the second. Whatever is refused is
/// refused at the path `expected_status`.
pub proof fn law_status_expectation(e: HttpStatusExpectation)
    ensures
        match e {
            HttpStatusExpectation::Status(s) => (spec_status_resolve(e) is Ok) <==> 100 <= s <= 599,
            HttpStatusExpectation::Range(v) => (spec_status_resolve(e) is Ok) <==> ({
                let parts = split_once_spec(v@, '-');
                &&& parts is Some
                &&& status_value(parts->Some_0.0) is Some
                &&& status_value(parts->Some_0.1) is Some
                &&& 100 <= status_value(parts->Some_0.0)->Some_0
                &&& status_value(parts->Some_0.0)->Some_0 <= status_value(parts->Some_0.1)->Some_0
                &&& status_value(parts->Some_0.1)->Some_0 <= 599
            }),
        },
        match spec_status_resolve(e) {
            Ok((status, range)) => match e {
                HttpStatusExpectation::Status(s) => status == Some(s) && range is None,
                HttpStatusExpectation::Range(v) => status is None && range == Some(
                    (
                        status_value(split_once_spec(v@, '-')->Some_0.0)->Some_0,
                        status_value(split_once_spec(v@, '-')->Some_0.1)->Some_0,
                    ),
                ),
            },
            Err(err) => err matches ConfigErrorView::Validation { path, .. } && path == "expected_status"@,
        },
{
}

} // verus!
