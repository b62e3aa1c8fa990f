//! The canonical form of a configuration, from which its generation is
//! computed: every list of identified entries in the order of the
//! identifiers, and the secrets that the generation covers, each under a
//! key that says where it stands.
use vstd::prelude::*;

use crate::config::{
    notifier_id, profile_id, AlertRuleConfig, CheckConfig, KemuriConfig, NotifierConfig,
    ProbeProfileConfig, SecretRef, TargetConfig,
};
use crate::order::{keyed_view, sort_by_key, sort_pairs_by_key};
use crate::text::{lowercase, to_lowercase};

verus! {

broadcast use vstd::string::group_string_axioms;

/// The entries of a sorted keyed list, without their keys.
pub open spec fn unkeyed<X>(s: Seq<(Seq<char>, X)>) -> Seq<X> {
    Seq::new(s.len(), |i: int| s[i].1)
}

/// The items with their keys.
pub open spec fn keyed_by<X>(items: Seq<X>, key: spec_fn(X) -> Seq<char>) -> Seq<(Seq<char>, X)> {
    Seq::new(items.len(), |i: int| (key(items[i]), items[i]))
}

/// `items` in the order of `key`, keeping the order of equal keys.
pub open spec fn sorted_by<X>(items: Seq<X>, key: spec_fn(X) -> Seq<char>) -> Seq<X> {
    unkeyed(sort_by_key(keyed_by(items, key)))
}

fn strip_keys<X>(v: Vec<(String, X)>) -> (r: Vec<X>)
    ensures
        r@ == unkeyed(keyed_view(v@)),
{
    let ghost kv = keyed_view(v@);
    let mut rest = v;
    let mut out: Vec<X> = Vec::new();
    let ghost n = rest@.len();
    while rest.len() > 0
        invariant
            out@.len() + rest@.len() == n,
            kv.len() == n,
            out@ == unkeyed(kv).take(out@.len() as int),
            forall|i: int| 0 <= i < rest@.len() ==> (#[trigger] rest@[i]).1 == kv[out@.len() + i].1,
        decreases rest@.len(),
    {
        let (_, x) = rest.remove(0);
        out.push(x);
        assert(out@ =~= unkeyed(kv).take(out@.len() as int));
    }
    assert(out@ =~= unkeyed(kv));
    out
}

/// The profiles in the order of their identifiers.
pub fn sort_profiles(v: Vec<ProbeProfileConfig>) -> (r: Vec<ProbeProfileConfig>)
    ensures
        r@ == sorted_by(v@, |p: ProbeProfileConfig| profile_id(p)),
{
    let ghost orig = v@;
    let ghost key = |p: ProbeProfileConfig| profile_id(p);
    let mut rest = v;
    let mut keyed: Vec<(String, ProbeProfileConfig)> = Vec::new();
    while rest.len() > 0
        invariant
            keyed@.len() + rest@.len() == orig.len(),
            key == (|p: ProbeProfileConfig| profile_id(p)),
            keyed_view(keyed@) == Seq::new(orig.len(), |i: int| (key(orig[i]), orig[i])).take(keyed@.len() as int),
            forall|i: int| 0 <= i < rest@.len() ==> #[trigger] rest@[i] == orig[keyed@.len() + i],
        decreases rest@.len(),
    {
        let p = rest.remove(0);
        let k = String::from_str(p.id().as_str());
        keyed.push((k, p));
        assert(keyed_view(keyed@) =~= Seq::new(orig.len(), |i: int| (key(orig[i]), orig[i])).take(keyed@.len() as int));
    }
    assert(Seq::new(orig.len(), |i: int| (key(orig[i]), orig[i])).take(keyed@.len() as int) =~= Seq::new(orig.len(), |i: int| (key(orig[i]), orig[i])));
    strip_keys(sort_pairs_by_key(keyed))
}

/// The notifiers in the order of their identifiers.
pub fn sort_notifiers(v: Vec<NotifierConfig>) -> (r: Vec<NotifierConfig>)
    ensures
        r@ == sorted_by(v@, |n: NotifierConfig| notifier_id(n)),
{
    let ghost orig = v@;
    let ghost key = |n: NotifierConfig| notifier_id(n);
    let mut rest = v;
    let mut keyed: Vec<(String, NotifierConfig)> = Vec::new();
    while rest.len() > 0
        invariant
            keyed@.len() + rest@.len() == orig.len(),
            key == (|n: NotifierConfig| notifier_id(n)),
            keyed_view(keyed@) == Seq::new(orig.len(), |i: int| (key(orig[i]), orig[i])).take(keyed@.len() as int),
            forall|i: int| 0 <= i < rest@.len() ==> #[trigger] rest@[i] == orig[keyed@.len() + i],
        decreases rest@.len(),
    {
        let n = rest.remove(0);
        let k = String::from_str(n.id().as_str());
        keyed.push((k, n));
        assert(keyed_view(keyed@) =~= Seq::new(orig.len(), |i: int| (key(orig[i]), orig[i])).take(keyed@.len() as int));
    }
    assert(Seq::new(orig.len(), |i: int| (key(orig[i]), orig[i])).take(keyed@.len() as int) =~= Seq::new(orig.len(), |i: int| (key(orig[i]), orig[i])));
    strip_keys(sort_pairs_by_key(keyed))
}

/// The rules in the order of their identifiers.
pub fn sort_rules(v: Vec<AlertRuleConfig>) -> (r: Vec<AlertRuleConfig>)
    ensures
        r@ == sorted_by(v@, |x: AlertRuleConfig| x.id@),
{
    let ghost orig = v@;
    let ghost key = |x: AlertRuleConfig| x.id@;
    let mut rest = v;
    let mut keyed: Vec<(String, AlertRuleConfig)> = Vec::new();
    while rest.len() > 0
        invariant
            keyed@.len() + rest@.len() == orig.len(),
            key == (|x: AlertRuleConfig| x.id@),
            keyed_view(keyed@) == Seq::new(orig.len(), |i: int| (key(orig[i]), orig[i])).take(keyed@.len() as int),
            forall|i: int| 0 <= i < rest@.len() ==> #[trigger] rest@[i] == orig[keyed@.len() + i],
        decreases rest@.len(),
    {
        let x = rest.remove(0);
        let k = String::from_str(x.id.as_str());
        keyed.push((k, x));
        assert(keyed_view(keyed@) =~= Seq::new(orig.len(), |i: int| (key(orig[i]), orig[i])).take(keyed@.len() as int));
    }
    assert(Seq::new(orig.len(), |i: int| (key(orig[i]), orig[i])).take(keyed@.len() as int) =~= Seq::new(orig.len(), |i: int| (key(orig[i]), orig[i])));
    strip_keys(sort_pairs_by_key(keyed))
}

/// The checks in the order of their identifiers.
pub fn sort_checks(v: Vec<CheckConfig>) -> (r: Vec<CheckConfig>)
    ensures
        r@ == sorted_by(v@, |x: CheckConfig| x.id@),
{
    let ghost orig = v@;
    let ghost key = |x: CheckConfig| x.id@;
    let mut rest = v;
    let mut keyed: Vec<(String, CheckConfig)> = Vec::new();
    while rest.len() > 0
        invariant
            keyed@.len() + rest@.len() == orig.len(),
            key == (|x: CheckConfig| x.id@),
            keyed_view(keyed@) == Seq::new(orig.len(), |i: int| (key(orig[i]), orig[i])).take(keyed@.len() as int),
            forall|i: int| 0 <= i < rest@.len() ==> #[trigger] rest@[i] == orig[keyed@.len() + i],
        decreases rest@.len(),
    {
        let x = rest.remove(0);
        let k = String::from_str(x.id.as_str());
        keyed.push((k, x));
        assert(keyed_view(keyed@) =~= Seq::new(orig.len(), |i: int| (key(orig[i]), orig[i])).take(keyed@.len() as int));
    }
    assert(Seq::new(orig.len(), |i: int| (key(orig[i]), orig[i])).take(keyed@.len() as int) =~= Seq::new(orig.len(), |i: int| (key(orig[i]), orig[i])));
    strip_keys(sort_pairs_by_key(keyed))
}

/// The targets in the order of their identifiers.
fn sort_targets(v: Vec<TargetConfig>) -> (r: Vec<TargetConfig>)
    ensures
        r@ == sorted_by(v@, |x: TargetConfig| x.id@),
{
    let ghost orig = v@;
    let ghost key = |x: TargetConfig| x.id@;
    let mut rest = v;
    let mut keyed: Vec<(String, TargetConfig)> = Vec::new();
    while rest.len() > 0
        invariant
            keyed@.len() + rest@.len() == orig.len(),
            key == (|x: TargetConfig| x.id@),
            keyed_view(keyed@) == Seq::new(orig.len(), |i: int| (key(orig[i]), orig[i])).take(keyed@.len() as int),
            forall|i: int| 0 <= i < rest@.len() ==> #[trigger] rest@[i] == orig[keyed@.len() + i],
        decreases rest@.len(),
    {
        let x = rest.remove(0);
        let k = String::from_str(x.id.as_str());
        keyed.push((k, x));
        assert(keyed_view(keyed@) =~= Seq::new(orig.len(), |i: int| (key(orig[i]), orig[i])).take(keyed@.len() as int));
    }
    assert(Seq::new(orig.len(), |i: int| (key(orig[i]), orig[i])).take(keyed@.len() as int) =~= Seq::new(orig.len(), |i: int| (key(orig[i]), orig[i])));
    strip_keys(sort_pairs_by_key(keyed))
}

/// Whether `t` is `s` with its checks in the order of their identifiers.
pub open spec fn canonical_target(t: TargetConfig, s: TargetConfig) -> bool {
    &&& t.id == s.id
    &&& t.address == s.address
    &&& t.name == s.name
    &&& t.group_path == s.group_path
    &&& t.labels == s.labels
    &&& t.enabled == s.enabled
    &&& t.checks@ == sorted_by(s.checks@, |x: CheckConfig| x.id@)
}

/// The targets in the order of their identifiers, each with its checks in
/// the order of theirs.
pub fn canonical_targets(v: Vec<TargetConfig>) -> (r: Vec<TargetConfig>)
    ensures
        r@.len() == v@.len(),
        forall|i: int|
            0 <= i < r@.len() ==> canonical_target(#[trigger] r@[i], sorted_by(v@, |x: TargetConfig| x.id@)[i]),
{
    let ghost orig = v@;
    let sorted = sort_targets(v);
    let ghost s = sorted@;
    proof {
        crate::order::lemma_sort_len(
            Seq::new(orig.len(), |i: int| ((|x: TargetConfig| x.id@)(orig[i]), orig[i])),
        );
    }
    let mut rest = sorted;
    let mut out: Vec<TargetConfig> = Vec::new();
    while rest.len() > 0
        invariant
            out@.len() + rest@.len() == s.len(),
            forall|i: int| 0 <= i < out@.len() ==> canonical_target(#[trigger] out@[i], s[i]),
            forall|i: int| 0 <= i < rest@.len() ==> #[trigger] rest@[i] == s[out@.len() + i],
        decreases rest@.len(),
    {
        let t = rest.remove(0);
        let TargetConfig { id, address, name, group_path, labels, checks, enabled } = t;
        let checks = sort_checks(checks);
        out.push(TargetConfig { id, address, name, group_path, labels, checks, enabled });
    }
    out
}

/// The canonical form of a configuration: its profiles, notifiers, rules
/// and targets in the order of their identifiers, and each target's checks
/// in the order of theirs.
pub fn canonical_config(c: KemuriConfig) -> (r: KemuriConfig)
    ensures
        r.version == c.version,
        r.server == c.server,
        r.logging == c.logging,
        r.storage == c.storage,
        r.scheduler == c.scheduler,
        r.profiles@ == sorted_by(c.profiles@, |p: ProbeProfileConfig| profile_id(p)),
        r.notifiers@ == sorted_by(c.notifiers@, |n: NotifierConfig| notifier_id(n)),
        r.rules@ == sorted_by(c.rules@, |x: AlertRuleConfig| x.id@),
        r.targets@.len() == c.targets@.len(),
        forall|i: int|
            0 <= i < r.targets@.len() ==> canonical_target(
                #[trigger] r.targets@[i],
                sorted_by(c.targets@, |x: TargetConfig| x.id@)[i],
            ),
{
    let KemuriConfig { version, server, logging, storage, scheduler, profiles, notifiers, rules, targets } = c;
    KemuriConfig {
        version,
        server,
        logging,
        storage,
        scheduler,
        profiles: sort_profiles(profiles),
        notifiers: sort_notifiers(notifiers),
        rules: sort_rules(rules),
        targets: canonical_targets(targets),
    }
}

proof fn lemma_keyed_multiset<X>(a: Seq<X>, b: Seq<X>, key: spec_fn(X) -> Seq<char>)
    requires
        a.to_multiset() == b.to_multiset(),
    ensures
        keyed_by(a, key).to_multiset() == keyed_by(b, key).to_multiset(),
    decreases a.len(),
{
    broadcast use vstd::seq_lib::group_to_multiset_ensures;
    assert(a.len() == a.to_multiset().len());
    assert(b.len() == b.to_multiset().len());
    if a.len() == 0 {
        assert(keyed_by(a, key) =~= keyed_by(b, key));
    } else {
        let n = a.len();
        let x = a.last();
        assert(a.contains(x));
        assert(b.to_multiset().contains(x));
        let j = choose|j: int| 0 <= j < b.len() && b[j] == x;
        let d = a.drop_last();
        let r = b.remove(j);
        assert(a.remove(n - 1) =~= d);
        assert(d.to_multiset() == a.to_multiset().remove(x));
        assert(r.to_multiset() == b.to_multiset().remove(x));
        lemma_keyed_multiset(d, r, key);
        assert(keyed_by(a, key) =~= keyed_by(d, key).push((key(x), x)));
        assert(keyed_by(b, key) =~= keyed_by(r, key).insert(j, (key(x), x)));
    }
}

/// The canonical order of a list of entries does not depend on the order
/// in which they are listed, where their identifiers are all different:
/// two lists that hold the same entries come out the same.
pub proof fn law_sorted_by_order_independent<X>(a: Seq<X>, b: Seq<X>, key: spec_fn(X) -> Seq<char>)
    requires
        a.to_multiset() == b.to_multiset(),
        forall|i: int, j: int| 0 <= i < a.len() && 0 <= j < a.len() && i != j ==> key(a[i]) != key(a[j]),
    ensures
        sorted_by(a, key) == sorted_by(b, key),
{
    lemma_keyed_multiset(a, b, key);
    let k = keyed_by(a, key);
    assert forall|i: int, j: int| 0 <= i < k.len() && 0 <= j < k.len() && i != j implies #[trigger] k[i].0 != #[trigger] k[j].0 by {
        assert(k[i].0 == key(a[i]) && k[j].0 == key(a[j]));
    }
    crate::order::law_sort_order_independent(k, keyed_by(b, key));
}

fn clone_secret(s: &SecretRef) -> (r: SecretRef)
    ensures
        r == *s,
{
    match s {
        SecretRef::Literal(v) => SecretRef::Literal(v.clone()),
        SecretRef::FromEnv { from_env } => SecretRef::FromEnv { from_env: from_env.clone() },
        SecretRef::FromFile { from_file } => SecretRef::FromFile { from_file: from_file.clone() },
    }
}

/// The secrets of a webhook's headers, keyed by the notifier and the
/// lowercase header name.
pub open spec fn header_secrets(id: Seq<char>, hs: Seq<(String, SecretRef)>) -> Seq<(Seq<char>, SecretRef)> {
    Seq::new(hs.len(), |i: int| ("notifier:"@ + id + ":header:"@ + lowercase(hs[i].0@), hs[i].1))
}

/// The secrets of a notifier: a webhook's URL and headers, an e-mail
/// notifier's password.
pub open spec fn notifier_secrets(n: NotifierConfig) -> Seq<(Seq<char>, SecretRef)> {
    match n {
        NotifierConfig::Webhook(p) => seq![("notifier:"@ + p.id@ + ":url"@, p.url)] + match p.headers {
            Some(h) => header_secrets(p.id@, h@),
            None => Seq::empty(),
        },
        NotifierConfig::Smtp(p) => match p.password {
            Some(s) => seq![("notifier:"@ + p.id@ + ":password"@, s)],
            None => Seq::empty(),
        },
    }
}

/// The secrets of the notifiers, in order.
pub open spec fn notifiers_secrets(ns: Seq<NotifierConfig>) -> Seq<(Seq<char>, SecretRef)>
    decreases ns.len(),
{
    if ns.len() == 0 {
        Seq::empty()
    } else {
        notifiers_secrets(ns.drop_last()) + notifier_secrets(ns.last())
    }
}

/// The bodies of the checks of target `tid`, in order.
pub open spec fn check_secrets(tid: Seq<char>, cs: Seq<CheckConfig>) -> Seq<(Seq<char>, SecretRef)>
    decreases cs.len(),
{
    if cs.len() == 0 {
        Seq::empty()
    } else {
        check_secrets(tid, cs.drop_last()) + match cs.last().body {
            Some(b) => seq![("target:"@ + tid + ":check:"@ + cs.last().id@ + ":body"@, b)],
            None => Seq::empty(),
        }
    }
}

/// The check bodies of the targets, in order.
pub open spec fn targets_secrets(ts: Seq<TargetConfig>) -> Seq<(Seq<char>, SecretRef)>
    decreases ts.len(),
{
    if ts.len() == 0 {
        Seq::empty()
    } else {
        targets_secrets(ts.drop_last()) + check_secrets(ts.last().id@, ts.last().checks@)
    }
}

fn push_key(out: &mut Vec<(String, SecretRef)>, key: String, s: &SecretRef)
    ensures
        keyed_view(final(out)@) == keyed_view(old(out)@).push((key@, *s)),
{
    let ghost before = keyed_view(out@);
    out.push((key, clone_secret(s)));
    assert(keyed_view(out@) =~= before.push((key@, *s)));
}

/// The secrets that the generation of a configuration covers, each keyed
/// by where it stands: the notifiers' secrets, then the check bodies.
pub fn secret_refs(c: &KemuriConfig) -> (r: Vec<(String, SecretRef)>)
    ensures
        keyed_view(r@) == notifiers_secrets(c.notifiers@) + targets_secrets(c.targets@),
{
    let mut out: Vec<(String, SecretRef)> = Vec::new();
    let mut i: usize = 0;
    while i < c.notifiers.len()
        invariant
            i <= c.notifiers@.len(),
            keyed_view(out@) == notifiers_secrets(c.notifiers@.take(i as int)),
        decreases c.notifiers@.len() - i,
    {
        assert(c.notifiers@.take(i + 1).drop_last() =~= c.notifiers@.take(i as int));
        assert(c.notifiers@.take(i + 1).last() == c.notifiers@[i as int]);
        let ghost before = keyed_view(out@);
        match &c.notifiers[i] {
            NotifierConfig::Webhook(p) => {
                let mut k = String::from_str("notifier:");
                k.append(p.id.as_str());
                k.append(":url");
                push_key(&mut out, k, &p.url);
                if let Some(hs) = &p.headers {
                    let ghost mid = keyed_view(out@);
                    let mut j: usize = 0;
                    while j < hs.len()
                        invariant
                            j <= hs@.len(),
                            keyed_view(out@) == mid + header_secrets(p.id@, hs@).take(j as int),
                        decreases hs@.len() - j,
                    {
                        let mut k = String::from_str("notifier:");
                        k.append(p.id.as_str());
                        k.append(":header:");
                        let lower = to_lowercase(hs[j].0.as_str());
                        k.append(lower.as_str());
                        push_key(&mut out, k, &hs[j].1);
                        assert(header_secrets(p.id@, hs@).take(j + 1) =~= header_secrets(p.id@, hs@).take(
                            j as int,
                        ).push(header_secrets(p.id@, hs@)[j as int]));
                        j = j + 1;
                    }
                    assert(header_secrets(p.id@, hs@).take(j as int) =~= header_secrets(p.id@, hs@));
                }
                assert(keyed_view(out@) =~= before + notifier_secrets(c.notifiers@[i as int]));
            },
            NotifierConfig::Smtp(p) => {
                if let Some(pw) = &p.password {
                    let mut k = String::from_str("notifier:");
                    k.append(p.id.as_str());
                    k.append(":password");
                    push_key(&mut out, k, pw);
                }
                assert(keyed_view(out@) =~= before + notifier_secrets(c.notifiers@[i as int]));
            },
        }
        i = i + 1;
    }
    assert(c.notifiers@.take(i as int) =~= c.notifiers@);
    let ghost ns = keyed_view(out@);
    let mut t: usize = 0;
    while t < c.targets.len()
        invariant
            t <= c.targets@.len(),
            ns == notifiers_secrets(c.notifiers@),
            keyed_view(out@) == ns + targets_secrets(c.targets@.take(t as int)),
        decreases c.targets@.len() - t,
    {
        assert(c.targets@.take(t + 1).drop_last() =~= c.targets@.take(t as int));
        assert(c.targets@.take(t + 1).last() == c.targets@[t as int]);
        let target = &c.targets[t];
        let ghost before = keyed_view(out@);
        let mut j: usize = 0;
        while j < target.checks.len()
            invariant
                j <= target.checks@.len(),
                keyed_view(out@) == before + check_secrets(target.id@, target.checks@.take(j as int)),
            decreases target.checks@.len() - j,
        {
            let ch = &target.checks[j];
            assert(target.checks@.take(j + 1).drop_last() =~= target.checks@.take(j as int));
            assert(target.checks@.take(j + 1).last() == target.checks@[j as int]);
            if let Some(b) = &ch.body {
                let mut k = String::from_str("target:");
                k.append(target.id.as_str());
                k.append(":check:");
                k.append(ch.id.as_str());
                k.append(":body");
                push_key(&mut out, k, b);
            }
            assert(keyed_view(out@) =~= before + check_secrets(target.id@, target.checks@.take(j + 1)));
            j = j + 1;
        }
        assert(target.checks@.take(j as int) =~= target.checks@);
        assert(keyed_view(out@) =~= ns + targets_secrets(c.targets@.take(t + 1)));
        t = t + 1;
    }
    assert(c.targets@.take(t as int) =~= c.targets@);
    out
}

} // verus!
