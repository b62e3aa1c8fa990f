//! Rate limiting of repeated failure reports: the first failure of a
//! component and error class is reported, later ones are counted and
//! reported at most once per interval, and a recovery reports how many
//! were held back.
use std::time::{Duration, Instant};
use vstd::prelude::*;

use crate::clock::instant_now;
use crate::duration::duration_nanos;
use crate::text::str_eq;

verus! {

/// The nanoseconds from `origin` to now, from `Instant::elapsed`; they
/// depend on the time of the call, so nothing is known of them.
#[verifier::external_body]
fn nanos_since(origin: &Instant) -> u128 {
    origin.elapsed().as_nanos()
}

/// The report state of one component and error class.
#[derive(Debug, Clone)]
pub struct FailureEntry {
    pub component: String,
    pub class: String,
    pub last_reported_ns: u128,
    pub suppressed: u64,
}

/// The abstract content of a `FailureEntry`.
pub ghost struct FailureEntryView {
    pub component: Seq<char>,
    pub class: Seq<char>,
    pub last_reported_ns: nat,
    pub suppressed: u64,
}

impl View for FailureEntry {
    type V = FailureEntryView;

    open spec fn view(&self) -> FailureEntryView {
        FailureEntryView {
            component: self.component@,
            class: self.class@,
            last_reported_ns: self.last_reported_ns as nat,
            suppressed: self.suppressed,
        }
    }
}

/// The views of a list of entries.
pub open spec fn entries_view(es: Seq<FailureEntry>) -> Seq<FailureEntryView> {
    Seq::new(es.len(), |i: int| es[i]@)
}

/// Whether entry `e` belongs to `component` and `class`.
pub open spec fn is_key(e: FailureEntryView, component: Seq<char>, class: Seq<char>) -> bool {
    e.component == component && e.class == class
}

/// The index of the entry of `component` and `class`, if there is one.
pub open spec fn find_entry(es: Seq<FailureEntryView>, component: Seq<char>, class: Seq<char>) -> Option<
    int,
> {
    if exists|i: int| 0 <= i < es.len() && is_key(#[trigger] es[i], component, class) {
        Some(choose|i: int| 0 <= i < es.len() && is_key(#[trigger] es[i], component, class))
    } else {
        None
    }
}

/// Whether no two entries share a component and class.
pub open spec fn keys_distinct(es: Seq<FailureEntryView>) -> bool {
    forall|i: int, j: int|
        0 <= i < j < es.len() ==> !is_key(#[trigger] es[i], es[j].component, #[trigger] es[j].class)
}

/// The time from `earlier` to `later`, zero when `later` comes first.
pub open spec fn elapsed_since(earlier: nat, later: nat) -> nat {
    if later >= earlier {
        (later - earlier) as nat
    } else {
        0
    }
}

/// The outcome of a failure at `now` for the entries `es`, with the report
/// interval `interval`: what is reported (the number of failures held back
/// since the last report), and the entries after.
pub open spec fn spec_failure(
    es: Seq<FailureEntryView>,
    interval: nat,
    now: nat,
    component: Seq<char>,
    class: Seq<char>,
) -> (Option<u64>, Seq<FailureEntryView>) {
    match find_entry(es, component, class) {
        None => (
            Some(0u64),
            es.push(FailureEntryView { component, class, last_reported_ns: now, suppressed: 0 }),
        ),
        Some(i) => if elapsed_since(es[i].last_reported_ns, now) >= interval {
            (Some(es[i].suppressed), es.update(i, FailureEntryView { last_reported_ns: now, suppressed: 0, ..es[i] }))
        } else {
            (None, es.update(i, FailureEntryView { suppressed: (es[i].suppressed + 1) as u64, ..es[i] }))
        },
    }
}

/// The outcome of a recovery for the entries `es`: the number of failures
/// held back, if the pair had failed, and the entries after.
pub open spec fn spec_recovery(es: Seq<FailureEntryView>, component: Seq<char>, class: Seq<char>) -> (
    Option<u64>,
    Seq<FailureEntryView>,
) {
    match find_entry(es, component, class) {
        None => (None, es),
        Some(i) => (Some(es[i].suppressed), es.remove(i)),
    }
}

/// Reports of repeated failures, per component and error class.
pub struct FailureLogLimiter {
    report_interval: Duration,
    origin: Instant,
    entries: Vec<FailureEntry>,
}

impl FailureLogLimiter {
    /// Each component and error class has at most one entry.
    #[verifier::type_invariant]
    spec fn wf(self) -> bool {
        keys_distinct(entries_view(self.entries@))
    }

    /// The entries, one per component and error class that failed.
    pub closed spec fn spec_entries(&self) -> Seq<FailureEntryView> {
        entries_view(self.entries@)
    }

    /// The report interval in nanoseconds.
    pub closed spec fn spec_interval(&self) -> nat {
        duration_nanos(self.report_interval)
    }

    /// A limiter with no failures that reports at most once per
    /// `report_interval`.
    pub fn new(report_interval: Duration) -> (r: Self)
        ensures
            r.spec_entries() == Seq::<FailureEntryView>::empty(),
            r.spec_interval() == duration_nanos(report_interval),
    {
        let r = Self { report_interval, origin: instant_now(), entries: Vec::new() };
        assert(entries_view(r.entries@) =~= Seq::<FailureEntryView>::empty());
        r
    }

    fn find(&self, component: &str, class: &str) -> (r: Option<usize>)
        ensures
            match r {
                Some(i) => find_entry(self.spec_entries(), component@, class@) == Some(i as int),
                None => find_entry(self.spec_entries(), component@, class@) is None,
            },
    {
        proof {
            use_type_invariant(self);
        }
        let ghost es = self.spec_entries();
        let mut i: usize = 0;
        while i < self.entries.len()
            invariant
                i <= self.entries@.len(),
                es == entries_view(self.entries@),
                keys_distinct(es),
                forall|j: int| 0 <= j < i ==> !is_key(#[trigger] es[j], component@, class@),
            decreases self.entries@.len() - i,
        {
            if str_eq(self.entries[i].component.as_str(), component) && str_eq(
                self.entries[i].class.as_str(),
                class,
            ) {
                proof {
                    assert(is_key(es[i as int], component@, class@));
                    let k = choose|k: int| 0 <= k < es.len() && is_key(#[trigger] es[k], component@, class@);
                    if k != i {
                        if k < i {
                            assert(!is_key(es[k], component@, class@));
                        } else {
                            assert(!is_key(es[i as int], es[k].component, es[k].class));
                        }
                    }
                }
                return Some(i);
            }
            i = i + 1;
        }
        None
    }

    /// Records a failure of `component` with error `class` at `now_ns`
    /// nanoseconds of this limiter's clock: reports `Some(0)` for a first
    /// failure, `Some(n)` with the `n` failures held back once the interval
    /// has passed since the last report, and `None` otherwise.
    pub fn failure_at(&mut self, now_ns: u128, component: &str, class: &str) -> (r: Option<u64>)
        requires
            find_entry(old(self).spec_entries(), component@, class@) matches Some(i) ==> old(
                self,
            ).spec_entries()[i].suppressed < u64::MAX,
        ensures
            (r, final(self).spec_entries()) == spec_failure(
                old(self).spec_entries(),
                old(self).spec_interval(),
                now_ns as nat,
                component@,
                class@,
            ),
            final(self).spec_interval() == old(self).spec_interval(),
    {
        proof {
            use_type_invariant(&*self);
        }
        let ghost es = self.spec_entries();
        let interval = self.report_interval.as_nanos();
        match self.find(component, class) {
            None => {
                let e = FailureEntry {
                    component: String::from_str(component),
                    class: String::from_str(class),
                    last_reported_ns: now_ns,
                    suppressed: 0,
                };
                proof {
                    assert forall|j: int| 0 <= j < es.len() implies !is_key(#[trigger] es[j], component@, class@) by {
                        if is_key(es[j], component@, class@) {
                            assert(exists|i: int| 0 <= i < es.len() && is_key(#[trigger] es[i], component@, class@));
                        }
                    }
                }
                let mut v: Vec<FailureEntry> = Vec::new();
                std::mem::swap(&mut v, &mut self.entries);
                v.push(e);
                let ghost nv = FailureEntryView {
                    component: component@,
                    class: class@,
                    last_reported_ns: now_ns as nat,
                    suppressed: 0,
                };
                assert(entries_view(v@) =~= es.push(nv));
                assert forall|a: int, b: int| 0 <= a < b < es.push(nv).len() implies !is_key(
                    #[trigger] es.push(nv)[a],
                    es.push(nv)[b].component,
                    #[trigger] es.push(nv)[b].class,
                ) by {
                    if b < es.len() {
                        assert(es.push(nv)[a] == es[a] && es.push(nv)[b] == es[b]);
                    } else {
                        assert(es.push(nv)[a] == es[a]);
                    }
                }
                self.entries = v;
                assert(self.spec_entries() =~= es.push(FailureEntryView {
                    component: component@,
                    class: class@,
                    last_reported_ns: now_ns as nat,
                    suppressed: 0,
                }));
                Some(0)
            },
            Some(i) => {
                let last = self.entries[i].last_reported_ns;
                let suppressed = self.entries[i].suppressed;
                let elapsed = if now_ns >= last {
                    now_ns - last
                } else {
                    0
                };
                if elapsed >= interval {
                    let e = FailureEntry {
                        component: self.entries[i].component.clone(),
                        class: self.entries[i].class.clone(),
                        last_reported_ns: now_ns,
                        suppressed: 0,
                    };
                    let mut v: Vec<FailureEntry> = Vec::new();
                    std::mem::swap(&mut v, &mut self.entries);
                    v.set(i, e);
                    assert(entries_view(v@) =~= es.update(
                        i as int,
                        FailureEntryView { last_reported_ns: now_ns as nat, suppressed: 0, ..es[i as int] },
                    ));
                    self.entries = v;
                    Some(suppressed)
                } else {
                    let e = FailureEntry {
                        component: self.entries[i].component.clone(),
                        class: self.entries[i].class.clone(),
                        last_reported_ns: last,
                        suppressed: suppressed + 1,
                    };
                    let mut v: Vec<FailureEntry> = Vec::new();
                    std::mem::swap(&mut v, &mut self.entries);
                    v.set(i, e);
                    assert(entries_view(v@) =~= es.update(
                        i as int,
                        FailureEntryView { suppressed: (suppressed + 1) as u64, ..es[i as int] },
                    ));
                    self.entries = v;
                    None
                }
            },
        }
    }

    /// Records a failure of `component` with error `class` now.
    pub fn failure(&mut self, component: &str, class: &str) -> (r: Option<u64>)
        requires
            find_entry(old(self).spec_entries(), component@, class@) matches Some(i) ==> old(
                self,
            ).spec_entries()[i].suppressed < u64::MAX,
        ensures
            exists|now: nat|
                (r, final(self).spec_entries()) == #[trigger] spec_failure(
                    old(self).spec_entries(),
                    old(self).spec_interval(),
                    now,
                    component@,
                    class@,
                ),
            final(self).spec_interval() == old(self).spec_interval(),
    {
        let now = nanos_since(&self.origin);
        self.failure_at(now, component, class)
    }

    /// Records that `component` recovered from error `class`: reports the
    /// number of failures held back, if it had failed, and forgets it.
    pub fn recovery(&mut self, component: &str, class: &str) -> (r: Option<u64>)
        ensures
            (r, final(self).spec_entries()) == spec_recovery(old(self).spec_entries(), component@, class@),
            final(self).spec_interval() == old(self).spec_interval(),
    {
        proof {
            use_type_invariant(&*self);
        }
        let ghost es = self.spec_entries();
        match self.find(component, class) {
            None => None,
            Some(i) => {
                let mut v: Vec<FailureEntry> = Vec::new();
                std::mem::swap(&mut v, &mut self.entries);
                let e = v.remove(i);
                assert(entries_view(v@) =~= es.remove(i as int));
                self.entries = v;
                Some(e.suppressed)
            },
        }
    }
}

/// A first failure is reported; until the interval has passed, a second
/// one is held back; a recovery then reports the failures held back and
/// forgets the pair, so that its next failure counts as a first one.
pub proof fn law_failure_report_cycle(
    es: Seq<FailureEntryView>,
    interval: nat,
    t1: nat,
    t2: nat,
    component: Seq<char>,
    class: Seq<char>,
)
    requires
        keys_distinct(es),
        find_entry(es, component, class) is None,
        interval > 0,
        t1 <= t2 < t1 + interval,
    ensures
        ({
            let (r1, es1) = spec_failure(es, interval, t1, component, class);
            let (r2, es2) = spec_failure(es1, interval, t2, component, class);
            let (r3, es3) = spec_recovery(es2, component, class);
            &&& r1 == Some(0u64)
            &&& r2 is None
            &&& r3 == Some(1u64)
            &&& find_entry(es3, component, class) is None
        }),
{
    let (r1, es1) = spec_failure(es, interval, t1, component, class);
    let n = es.len() as int;
    assert(is_key(es1[n], component, class));
    assert forall|i: int| 0 <= i < es1.len() && is_key(#[trigger] es1[i], component, class) implies i == n by {
        if i < n {
            assert(es1[i] == es[i]);
            assert(exists|k: int| 0 <= k < es.len() && is_key(#[trigger] es[k], component, class));
        }
    }
    assert(find_entry(es1, component, class) == Some(n));
    let (r2, es2) = spec_failure(es1, interval, t2, component, class);
    assert(is_key(es2[n], component, class));
    assert forall|i: int| 0 <= i < es2.len() && is_key(#[trigger] es2[i], component, class) implies i == n by {
        if i < n {
            assert(es2[i] == es[i]);
            assert(exists|k: int| 0 <= k < es.len() && is_key(#[trigger] es[k], component, class));
        }
    }
    assert(find_entry(es2, component, class) == Some(n));
    let (r3, es3) = spec_recovery(es2, component, class);
    assert(es3 =~= es);
}

/// A failure of one component and error class leaves the entries of every
/// other pair as they were.
pub proof fn law_failure_pairs_independent(
    es: Seq<FailureEntryView>,
    interval: nat,
    now: nat,
    component: Seq<char>,
    class: Seq<char>,
    other_component: Seq<char>,
    other_class: Seq<char>,
)
    requires
        keys_distinct(es),
        component != other_component || class != other_class,
    ensures
        ({
            let es1 = spec_failure(es, interval, now, component, class).1;
            forall|i: int|
                0 <= i < es.len() && is_key(#[trigger] es[i], other_component, other_class) ==> es1[i]
                    == es[i]
        }),
{
}

} // verus!
