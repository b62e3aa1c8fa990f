//! Stable ordering of items by a text key, in the order in which strings
//! compare.
use vstd::prelude::*;

use crate::text;
use crate::text::str_le;

verus! {

/// `s` with `x` inserted after the last element whose key is no later
/// than that of `x`; `s` is in key order.
pub open spec fn sort_insert<X>(s: Seq<(Seq<char>, X)>, x: (Seq<char>, X)) -> Seq<(Seq<char>, X)>
    decreases s.len(),
{
    if s.len() == 0 {
        seq![x]
    } else if text::text_le(s.last().0, x.0) {
        s.push(x)
    } else {
        sort_insert(s.drop_last(), x).push(s.last())
    }
}

/// `s` in the order of its keys; elements of equal key keep their order.
pub open spec fn sort_by_key<X>(s: Seq<(Seq<char>, X)>) -> Seq<(Seq<char>, X)>
    decreases s.len(),
{
    if s.len() == 0 {
        Seq::empty()
    } else {
        sort_insert(sort_by_key(s.drop_last()), s.last())
    }
}

pub proof fn lemma_sort_insert_at<X>(s: Seq<(Seq<char>, X)>, x: (Seq<char>, X), i: int)
    requires
        0 <= i <= s.len(),
        forall|j: int| i <= j < s.len() ==> !text::text_le(#[trigger] s[j].0, x.0),
        i == 0 || text::text_le(s[i - 1].0, x.0),
    ensures
        sort_insert(s, x) == s.take(i).push(x) + s.skip(i),
    decreases s.len() - i,
{
    if s.len() == 0 {
        assert(s.take(i).push(x) + s.skip(i) =~= seq![x]);
    } else if i == s.len() {
        assert(s.take(i) =~= s);
        assert(s.take(i).push(x) + s.skip(i) =~= s.push(x));
    } else {
        let d = s.drop_last();
        assert(!text::text_le(s.last().0, x.0));
        assert forall|j: int| i <= j < d.len() implies !text::text_le(#[trigger] d[j].0, x.0) by {
            assert(d[j] == s[j]);
        }
        if i > 0 {
            assert(d[i - 1] == s[i - 1]);
        }
        lemma_sort_insert_at(d, x, i);
        assert(d.take(i).push(x) + d.skip(i) + seq![s.last()] =~= s.take(i).push(x) + s.skip(i));
        assert(sort_insert(s, x) == sort_insert(d, x).push(s.last()));
        assert((d.take(i).push(x) + d.skip(i)).push(s.last()) =~= d.take(i).push(x) + d.skip(i) + seq![s.last()]);
    }
}

/// The views of keyed items.
pub open spec fn keyed_view<X>(v: Seq<(String, X)>) -> Seq<(Seq<char>, X)> {
    Seq::new(v.len(), |i: int| (v[i].0@, v[i].1))
}

pub fn insert_by_key<X>(v: &mut Vec<(String, X)>, x: (String, X))
    ensures
        keyed_view(final(v)@) == sort_insert(keyed_view(old(v)@), (x.0@, x.1)),
        final(v)@.len() == old(v)@.len() + 1,
{
    let ghost s = keyed_view(v@);
    let ghost xv = (x.0@, x.1);
    let mut i: usize = v.len();
    while i > 0 && !str_le(v[i - 1].0.as_str(), x.0.as_str())
        invariant
            i <= v@.len(),
            s == keyed_view(v@),
            xv == (x.0@, x.1),
            forall|j: int| i <= j < s.len() ==> !text::text_le(#[trigger] s[j].0, xv.0),
        decreases i,
    {
        i = i - 1;
    }
    proof {
        lemma_sort_insert_at(s, xv, i as int);
    }
    v.insert(i, x);
    assert(keyed_view(v@) =~= s.take(i as int).push(xv) + s.skip(i as int));
}

pub proof fn lemma_sort_len<X>(s: Seq<(Seq<char>, X)>)
    ensures
        sort_by_key(s).len() == s.len(),
    decreases s.len(),
{
    if s.len() > 0 {
        lemma_sort_len(s.drop_last());
        lemma_insert_len(sort_by_key(s.drop_last()), s.last());
    }
}

pub proof fn lemma_insert_len<X>(s: Seq<(Seq<char>, X)>, x: (Seq<char>, X))
    ensures
        sort_insert(s, x).len() == s.len() + 1,
    decreases s.len(),
{
    if s.len() > 0 {
        lemma_insert_len(s.drop_last(), x);
    }
}

/// `v` ordered by key; items of equal key keep their order.
pub fn sort_pairs_by_key<X>(v: Vec<(String, X)>) -> (r: Vec<(String, X)>)
    ensures
        keyed_view(r@) == sort_by_key(keyed_view(v@)),
{
    let mut out: Vec<(String, X)> = Vec::new();
    let mut rest = v;
    let ghost orig = keyed_view(rest@);
    let ghost n = rest@.len();
    let total = rest.len();
    assert(keyed_view(out@) =~= sort_by_key(orig.take(0)));
    assert(keyed_view(rest@) =~= orig.skip(0));
    let mut i: usize = 0;
    while rest.len() > 0
        invariant
            orig.len() == n,
            n == total,
            i + rest@.len() == n,
            keyed_view(out@) == sort_by_key(orig.take(i as int)),
            keyed_view(rest@) == orig.skip(i as int),
        decreases rest@.len(),
    {
        let ghost before = rest@;
        let x = rest.remove(0);
        assert(keyed_view(before)[0] == orig[i as int]);
        assert(orig.take(i + 1).drop_last() =~= orig.take(i as int));
        insert_by_key(&mut out, x);
        assert forall|k: int| 0 <= k < rest@.len() implies keyed_view(rest@)[k] == orig.skip(i + 1)[k] by {
            assert(rest@[k] == before[k + 1]);
            assert(keyed_view(before)[k + 1] == orig.skip(i as int)[k + 1]);
        }
        assert(keyed_view(rest@) =~= orig.skip(i + 1));
        i = i + 1;
    }
    assert(orig.take(n as int) =~= orig);
    out
}

/// Lexicographic order on texts is total.
pub proof fn lemma_text_le_total(a: Seq<char>, b: Seq<char>)
    ensures
        text::text_le(a, b) || text::text_le(b, a),
    decreases a.len(),
{
    if a.len() > 0 && b.len() > 0 && a[0] == b[0] {
        lemma_text_le_total(a.drop_first(), b.drop_first());
    }
}

/// Lexicographic order on texts is transitive.
pub proof fn lemma_text_le_trans(a: Seq<char>, b: Seq<char>, c: Seq<char>)
    requires
        text::text_le(a, b),
        text::text_le(b, c),
    ensures
        text::text_le(a, c),
    decreases a.len(),
{
    if a.len() > 0 && b.len() > 0 && c.len() > 0 && a[0] == b[0] && b[0] == c[0] {
        lemma_text_le_trans(a.drop_first(), b.drop_first(), c.drop_first());
    }
}

/// Whether the keys of `s` never decrease.
pub open spec fn keys_ascending<X>(s: Seq<(Seq<char>, X)>) -> bool {
    forall|i: int, j: int| 0 <= i < j < s.len() ==> text::text_le(#[trigger] s[i].0, #[trigger] s[j].0)
}

proof fn lemma_insert_keeps_order<X>(s: Seq<(Seq<char>, X)>, x: (Seq<char>, X))
    requires
        keys_ascending(s),
    ensures
        keys_ascending(sort_insert(s, x)),
        sort_insert(s, x).to_multiset() == s.to_multiset().insert(x),
        forall|k: int| 0 <= k < sort_insert(s, x).len() ==> (#[trigger] sort_insert(s, x)[k] == x
            || s.contains(sort_insert(s, x)[k])),
    decreases s.len(),
{
    broadcast use vstd::seq_lib::group_to_multiset_ensures;
    if s.len() == 0 {
        assert(sort_insert(s, x) == seq![x]);
        assert(seq![x] =~= Seq::<(Seq<char>, X)>::empty().push(x));
    } else if text::text_le(s.last().0, x.0) {
        let t = s.push(x);
        assert forall|i: int, j: int| 0 <= i < j < t.len() implies text::text_le(#[trigger] t[i].0, #[trigger] t[j].0) by {
            if j == t.len() - 1 && i < s.len() - 1 {
                lemma_text_le_trans(s[i].0, s.last().0, x.0);
            }
        }
        assert forall|k: int| 0 <= k < t.len() implies (#[trigger] t[k] == x || s.contains(t[k])) by {
            if k < s.len() {
                assert(t[k] == s[k]);
            }
        }
    } else {
        let d = s.drop_last();
        assert forall|i: int, j: int| 0 <= i < j < d.len() implies text::text_le(#[trigger] d[i].0, #[trigger] d[j].0) by {
            assert(d[i] == s[i] && d[j] == s[j]);
        }
        lemma_insert_keeps_order(d, x);
        let u = sort_insert(d, x);
        let t = u.push(s.last());
        lemma_text_le_total(s.last().0, x.0);
        assert forall|i: int, j: int| 0 <= i < j < t.len() implies text::text_le(#[trigger] t[i].0, #[trigger] t[j].0) by {
            if j == t.len() - 1 {
                assert(t[i] == u[i]);
                if u[i] == x {
                } else {
                    assert(d.contains(u[i]));
                    let w = choose|w: int| 0 <= w < d.len() && d[w] == u[i];
                    assert(s[w] == d[w]);
                    assert(text::text_le(s[w].0, s[s.len() - 1].0));
                }
            } else {
                assert(t[i] == u[i] && t[j] == u[j]);
            }
        }
        assert forall|k: int| 0 <= k < t.len() implies (#[trigger] t[k] == x || s.contains(t[k])) by {
            if k < u.len() {
                assert(t[k] == u[k]);
                if u[k] != x {
                    assert(d.contains(u[k]));
                    let w = choose|w: int| 0 <= w < d.len() && d[w] == u[k];
                    assert(s[w] == d[w]);
                }
            } else {
                assert(t[k] == s[s.len() - 1]);
            }
        }
        assert(s =~= d.push(s.last()));
        assert(t.to_multiset() == u.to_multiset().insert(s.last()));
        assert(s.to_multiset() == d.to_multiset().insert(s.last()));
        assert(t.to_multiset() =~= s.to_multiset().insert(x));
    }
}

/// Ordering by key gives the items in ascending order of their keys, each
/// item kept as often as it occurs.
pub proof fn law_sort_by_key<X>(s: Seq<(Seq<char>, X)>)
    ensures
        keys_ascending(sort_by_key(s)),
        sort_by_key(s).to_multiset() == s.to_multiset(),
    decreases s.len(),
{
    broadcast use vstd::seq_lib::group_to_multiset_ensures;
    if s.len() > 0 {
        law_sort_by_key(s.drop_last());
        lemma_insert_keeps_order(sort_by_key(s.drop_last()), s.last());
        assert(s =~= s.drop_last().push(s.last()));
        assert(s.to_multiset() == s.drop_last().to_multiset().insert(s.last()));
    }
}

/// Whether the keys of `s` are all different.
pub open spec fn keys_distinct<X>(s: Seq<(Seq<char>, X)>) -> bool {
    forall|i: int, j: int| 0 <= i < s.len() && 0 <= j < s.len() && i != j ==> #[trigger] s[i].0 != #[trigger] s[j].0
}

/// Lexicographic order on texts is antisymmetric.
pub proof fn lemma_text_le_antisym(a: Seq<char>, b: Seq<char>)
    requires
        text::text_le(a, b),
        text::text_le(b, a),
    ensures
        a == b,
    decreases a.len(),
{
    if a.len() > 0 && b.len() > 0 {
        if a[0] == b[0] {
            lemma_text_le_antisym(a.drop_first(), b.drop_first());
            assert(a.drop_first().len() == b.drop_first().len());
            assert(a.len() == b.len());
            assert forall|i: int| 0 <= i < a.len() implies a[i] == b[i] by {
                if i > 0 {
                    assert(a[i] == a.drop_first()[i - 1]);
                    assert(b[i] == b.drop_first()[i - 1]);
                }
            }
            assert(a =~= b);
        }
    } else {
        assert(a =~= b);
    }
}

proof fn lemma_keys_distinct_transfer<X>(s: Seq<(Seq<char>, X)>, t: Seq<(Seq<char>, X)>)
    requires
        keys_distinct(s),
        t.to_multiset() == s.to_multiset(),
    ensures
        keys_distinct(t),
{
    broadcast use vstd::seq_lib::group_to_multiset_ensures;
    assert(s.no_duplicates()) by {
        assert forall|i: int, j: int| 0 <= i < s.len() && 0 <= j < s.len() && i != j implies s[i] != s[j] by {
            assert(s[i].0 != s[j].0);
        }
    }
    s.lemma_multiset_has_no_duplicates();
    t.lemma_multiset_has_no_duplicates_conv();
    assert forall|i: int, j: int| 0 <= i < t.len() && 0 <= j < t.len() && i != j implies #[trigger] t[i].0 != #[trigger] t[j].0 by {
        assert(t[i] != t[j]);
        assert(t.contains(t[i]));
        assert(t.contains(t[j]));
        assert(s.to_multiset().contains(t[i]));
        assert(s.to_multiset().contains(t[j]));
        let a = choose|a: int| 0 <= a < s.len() && s[a] == t[i];
        let b = choose|b: int| 0 <= b < s.len() && s[b] == t[j];
        assert(a != b);
        assert(s[a].0 != s[b].0);
    }
}

proof fn lemma_drop_last_multiset<A>(s: Seq<A>)
    requires
        s.len() > 0,
    ensures
        s.drop_last().to_multiset() == s.to_multiset().remove(s.last()),
        s.to_multiset() == s.drop_last().to_multiset().insert(s.last()),
{
    broadcast use vstd::seq_lib::group_to_multiset_ensures;
    assert(s.remove(s.len() - 1) =~= s.drop_last());
    assert(s =~= s.drop_last().push(s.last()));
}

proof fn lemma_sorted_unique<X>(t1: Seq<(Seq<char>, X)>, t2: Seq<(Seq<char>, X)>)
    requires
        keys_ascending(t1),
        keys_ascending(t2),
        keys_distinct(t1),
        keys_distinct(t2),
        t1.to_multiset() == t2.to_multiset(),
    ensures
        t1 == t2,
    decreases t1.len(),
{
    broadcast use vstd::seq_lib::group_to_multiset_ensures;
    assert(t1.len() == t1.to_multiset().len());
    assert(t2.len() == t2.to_multiset().len());
    if t1.len() == 0 {
        assert(t1 =~= t2);
    } else {
        let n = t1.len();
        let x = t1.last();
        let y = t2.last();
        if x != y {
            assert(t1.contains(x));
            assert(t2.to_multiset().contains(x));
            let p = choose|p: int| 0 <= p < n && t2[p] == x;
            assert(p != n - 1);
            assert(text::text_le(t2[p].0, t2[n - 1].0));
            assert(t2.contains(y));
            assert(t1.to_multiset().contains(y));
            let q = choose|q: int| 0 <= q < n && t1[q] == y;
            assert(q != n - 1);
            assert(text::text_le(t1[q].0, t1[n - 1].0));
            lemma_text_le_antisym(x.0, y.0);
            assert(t1[q].0 == t1[n - 1].0);
            assert(false);
        }
        lemma_drop_last_multiset(t1);
        lemma_drop_last_multiset(t2);
        let d1 = t1.drop_last();
        let d2 = t2.drop_last();
        assert forall|i: int, j: int| 0 <= i < j < d1.len() implies text::text_le(#[trigger] d1[i].0, #[trigger] d1[j].0) by {
            assert(d1[i] == t1[i] && d1[j] == t1[j]);
        }
        assert forall|i: int, j: int| 0 <= i < j < d2.len() implies text::text_le(#[trigger] d2[i].0, #[trigger] d2[j].0) by {
            assert(d2[i] == t2[i] && d2[j] == t2[j]);
        }
        assert forall|i: int, j: int| 0 <= i < d1.len() && 0 <= j < d1.len() && i != j implies #[trigger] d1[i].0 != #[trigger] d1[j].0 by {
            assert(d1[i] == t1[i] && d1[j] == t1[j]);
        }
        assert forall|i: int, j: int| 0 <= i < d2.len() && 0 <= j < d2.len() && i != j implies #[trigger] d2[i].0 != #[trigger] d2[j].0 by {
            assert(d2[i] == t2[i] && d2[j] == t2[j]);
        }
        lemma_sorted_unique(d1, d2);
        assert(t1 =~= d1.push(x));
        assert(t2 =~= d2.push(y));
    }
}

/// Ordering by key does not depend on the order in which the items come,
/// where their keys are all different: two lists that hold the same items
/// come out the same.
pub proof fn law_sort_order_independent<X>(s1: Seq<(Seq<char>, X)>, s2: Seq<(Seq<char>, X)>)
    requires
        keys_distinct(s1),
        s1.to_multiset() == s2.to_multiset(),
    ensures
        sort_by_key(s1) == sort_by_key(s2),
{
    law_sort_by_key(s1);
    law_sort_by_key(s2);
    lemma_keys_distinct_transfer(s1, sort_by_key(s1));
    lemma_keys_distinct_transfer(s1, sort_by_key(s2));
    lemma_sorted_unique(sort_by_key(s1), sort_by_key(s2));
}

/// Of each run of neighbours with equal keys, the last item only.
pub open spec fn last_of_runs<X>(s: Seq<(Seq<char>, X)>) -> Seq<(Seq<char>, X)>
    decreases s.len(),
{
    if s.len() <= 1 {
        s
    } else if s[0].0 == s[1].0 {
        last_of_runs(s.drop_first())
    } else {
        seq![s[0]] + last_of_runs(s.drop_first())
    }
}

/// The entries of a map made from keyed items: in the order of their keys,
/// each key once, with the item that came last among those of that key.
pub open spec fn map_entries<X>(s: Seq<(Seq<char>, X)>) -> Seq<(Seq<char>, X)> {
    last_of_runs(sort_by_key(s))
}

/// Keeps, of each run of neighbours with equal keys, the last item.
fn keep_last_of_runs<X>(v: Vec<(String, X)>) -> (r: Vec<(String, X)>)
    ensures
        keyed_view(r@) == last_of_runs(keyed_view(v@)),
{
    let ghost sv = keyed_view(v@);
    let ghost n = v@.len();
    let total: usize = v.len();
    let mut rest = v;
    let mut out: Vec<(String, X)> = Vec::new();
    let mut i: usize = 0;
    assert(sv.skip(0) =~= sv);
    assert(keyed_view(out@) + last_of_runs(sv.skip(0)) =~= last_of_runs(sv));
    while rest.len() > 0
        invariant
            i + rest@.len() == n,
            n == total,
            sv.len() == n,
            keyed_view(rest@) == sv.skip(i as int),
            keyed_view(out@) + last_of_runs(sv.skip(i as int)) == last_of_runs(sv),
        decreases rest@.len(),
    {
        let ghost t = sv.skip(i as int);
        let x = rest.remove(0);
        assert(t[0] == (x.0@, x.1));
        assert(t.drop_first() =~= sv.skip(i + 1));
        assert(keyed_view(rest@) =~= sv.skip(i + 1));
        let last = rest.len() == 0;
        let same = if last {
            false
        } else {
            assert(t[1] == (rest@[0].0@, rest@[0].1));
            crate::text::str_eq(x.0.as_str(), rest[0].0.as_str())
        };
        if same {
            assert(last_of_runs(t) == last_of_runs(sv.skip(i + 1)));
        } else {
            let ghost before = keyed_view(out@);
            let ghost xv = (x.0@, x.1);
            out.push(x);
            assert(keyed_view(out@) =~= before.push(xv));
            proof {
                if t.len() == 1 {
                    assert(last_of_runs(t) == t);
                    assert(t =~= seq![xv]);
                    assert(sv.skip(i + 1).len() == 0);
                    assert(last_of_runs(sv.skip(i + 1)) =~= Seq::<(Seq<char>, X)>::empty());
                } else {
                    assert(last_of_runs(t) == seq![xv] + last_of_runs(sv.skip(i + 1)));
                }
            }
            assert(before.push(xv) + last_of_runs(sv.skip(i + 1)) =~= before + (seq![xv] + last_of_runs(sv.skip(i + 1))));
        }
        i = i + 1;
    }
    assert(sv.skip(i as int) =~= Seq::<(Seq<char>, X)>::empty());
    assert(keyed_view(out@) + Seq::<(Seq<char>, X)>::empty() =~= keyed_view(out@));
    out
}

/// The entries of a map made from keyed items: in the order of their keys,
/// each key once, with the item that came last among those of that key.
pub fn map_entries_of<X>(v: Vec<(String, X)>) -> (r: Vec<(String, X)>)
    ensures
        keyed_view(r@) == map_entries(keyed_view(v@)),
{
    keep_last_of_runs(sort_pairs_by_key(v))
}

} // verus!
