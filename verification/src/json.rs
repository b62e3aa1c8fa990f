//! The JSON objects that stored rows hold: counts by key, and named text
//! values. Each key occurs once, in key order, with its last value; the
//! keys and text values are written as JSON strings by `serde_json`.
use vstd::prelude::*;

use crate::order::{keyed_view, map_entries, map_entries_of};
use crate::text::{i64_to_decimal, int_decimal};

verus! {

broadcast use vstd::string::group_string_axioms;

/// How `serde_json` writes a character inside a JSON string: a quote and
/// a backslash behind a backslash, the control characters with a short
/// escape as such (`\b`, `\t`, `\n`, `\f`, `\r`), the other control
/// characters below U+0020 as `\u00` and two lowercase hexadecimal digits,
/// and every other character as it is.
pub open spec fn json_char(c: char) -> Seq<char> {
    if c == '"' {
        seq!['\\', '"']
    } else if c == '\\' {
        seq!['\\', '\\']
    } else if c == '\u{8}' {
        seq!['\\', 'b']
    } else if c == '\t' {
        seq!['\\', 't']
    } else if c == '\n' {
        seq!['\\', 'n']
    } else if c == '\u{c}' {
        seq!['\\', 'f']
    } else if c == '\r' {
        seq!['\\', 'r']
    } else if (c as u32) < 0x20 {
        seq!['\\', 'u', '0', '0', crate::api::hex_digit((c as u32 / 16) as u8), crate::api::hex_digit((c as u32 % 16) as u8)]
    } else {
        seq![c]
    }
}

/// The characters of a text as `serde_json` writes them inside a string.
pub open spec fn json_escaped(s: Seq<char>) -> Seq<char>
    decreases s.len(),
{
    if s.len() == 0 {
        Seq::empty()
    } else {
        json_escaped(s.drop_last()) + json_char(s.last())
    }
}

/// The JSON string that `serde_json::to_string` writes for a text: the
/// text in quotes, with the characters that JSON escapes escaped.
pub open spec fn json_string(s: Seq<char>) -> Seq<char> {
    seq!['"'] + json_escaped(s) + seq!['"']
}

/// `serde_json::to_string` of a text, which cannot fail for a string: the
/// text in quotes, each character written as its string serializer
/// (`format_escaped_str`) writes it.
#[verifier::external_body]
fn json_string_of(s: &str) -> (r: String)
    ensures
        r@ == json_string(s@),
{
    serde_json::to_string(s).unwrap_or_default()
}

/// Members joined with commas.
pub open spec fn joined(ms: Seq<Seq<char>>) -> Seq<char>
    decreases ms.len(),
{
    if ms.len() == 0 {
        Seq::empty()
    } else if ms.len() == 1 {
        ms[0]
    } else {
        joined(ms.drop_last()) + ","@ + ms.last()
    }
}

/// A JSON object with the given members, written compactly.
pub open spec fn object_text(ms: Seq<Seq<char>>) -> Seq<char> {
    "{"@ + joined(ms) + "}"@
}

/// The member for a counted key.
pub open spec fn count_member(e: (Seq<char>, i64)) -> Seq<char> {
    json_string(e.0) + ":"@ + int_decimal(e.1 as int)
}

/// The member for a named text value.
pub open spec fn text_member(e: (Seq<char>, Seq<char>)) -> Seq<char> {
    json_string(e.0) + ":"@ + json_string(e.1)
}

/// The JSON object of counts by key: each key once, in key order, with its
/// last count.
pub open spec fn json_counts(pairs: Seq<(Seq<char>, i64)>) -> Seq<char> {
    let es = map_entries(pairs);
    object_text(Seq::new(es.len(), |i: int| count_member(es[i])))
}

/// The names of pairs, each with its position.
pub open spec fn indexed_names(pairs: Seq<(Seq<char>, Seq<char>)>) -> Seq<(Seq<char>, usize)> {
    Seq::new(pairs.len(), |i: int| (pairs[i].0, i as usize))
}

/// The JSON object of named text values, as UTF-8 bytes: each name once,
/// in name order, with the value of its last pair.
pub open spec fn json_object(pairs: Seq<(Seq<char>, Seq<char>)>) -> Seq<u8> {
    let es = map_entries(indexed_names(pairs));
    vstd::utf8::encode_utf8(
        object_text(Seq::new(es.len(), |k: int| text_member((es[k].0, pairs[es[k].1 as int].1)))),
    )
}

/// Writes members as a JSON object.
fn write_object(ms: &Vec<String>) -> (r: String)
    ensures
        r@ == object_text(ms@.map_values(|m: String| m@)),
{
    let ghost mv = ms@.map_values(|m: String| m@);
    let mut out = String::from_str("{");
    let mut i: usize = 0;
    proof {
        reveal_strlit("{");
        reveal_strlit(",");
        reveal_strlit("}");
        assert(mv.take(0) =~= Seq::<Seq<char>>::empty());
    }
    while i < ms.len()
        invariant
            i <= ms@.len(),
            mv == ms@.map_values(|m: String| m@),
            out@ == "{"@ + joined(mv.take(i as int)),
        decreases ms@.len() - i,
    {
        assert(mv.take(i + 1).drop_last() =~= mv.take(i as int));
        assert(mv.take(i + 1).last() == ms@[i as int]@);
        if i > 0 {
            out.append(",");
        } else {
            assert(mv.take(0) =~= Seq::<Seq<char>>::empty());
            assert(mv.take(1).len() == 1);
        }
        out.append(ms[i].as_str());
        proof {
            if i > 0 {
                assert(out@ =~= "{"@ + (joined(mv.take(i as int)) + ","@ + mv[i as int]));
            } else {
                assert(out@ =~= "{"@ + mv.take(1)[0]);
            }
        }
        i = i + 1;
    }
    assert(mv.take(i as int) =~= mv);
    out.append("}");
    out
}

/// Copies of keyed counts.
fn clone_counts(v: &Vec<(String, i64)>) -> (r: Vec<(String, i64)>)
    ensures
        keyed_view(r@) == keyed_view(v@),
{
    let mut out: Vec<(String, i64)> = Vec::new();
    let mut i: usize = 0;
    while i < v.len()
        invariant
            i <= v@.len(),
            keyed_view(out@) == keyed_view(v@).take(i as int),
        decreases v@.len() - i,
    {
        let ghost before = keyed_view(out@);
        out.push((v[i].0.clone(), v[i].1));
        assert(keyed_view(out@) =~= before.push((v@[i as int].0@, v@[i as int].1)));
        assert(keyed_view(v@).take(i + 1) =~= keyed_view(v@).take(i as int).push(keyed_view(v@)[i as int]));
        i = i + 1;
    }
    assert(keyed_view(v@).take(i as int) =~= keyed_view(v@));
    out
}

/// Writes counts by key as a JSON object.
pub fn counts_json(counts: &Vec<(String, i64)>) -> (r: String)
    ensures
        r@ == json_counts(crate::rollup::counts_view(counts@)),
{
    assert(crate::rollup::counts_view(counts@) =~= keyed_view(counts@));
    let es = map_entries_of(clone_counts(counts));
    let ghost ev = keyed_view(es@);
    let mut ms: Vec<String> = Vec::new();
    let mut i: usize = 0;
    while i < es.len()
        invariant
            i <= es@.len(),
            ev == keyed_view(es@),
            ms@.map_values(|m: String| m@) == Seq::new(ev.len(), |k: int| count_member(ev[k])).take(i as int),
        decreases es@.len() - i,
    {
        let mut m = json_string_of(es[i].0.as_str());
        m.append(":");
        let d = i64_to_decimal(es[i].1);
        m.append(d.as_str());
        let ghost before = ms@.map_values(|m: String| m@);
        proof {
            reveal_strlit(":");
        }
        assert(m@ == count_member(ev[i as int]));
        ms.push(m);
        assert(ms@.map_values(|m: String| m@) =~= before.push(count_member(ev[i as int])));
        assert(Seq::new(ev.len(), |k: int| count_member(ev[k])).take(i + 1) =~= Seq::new(
            ev.len(),
            |k: int| count_member(ev[k]),
        ).take(i as int).push(count_member(ev[i as int])));
        i = i + 1;
    }
    assert(Seq::new(ev.len(), |k: int| count_member(ev[k])).take(i as int) =~= Seq::new(
        ev.len(),
        |k: int| count_member(ev[k]),
    ));
    write_object(&ms)
}

/// Every entry of a map made from keyed items is one of the items.
proof fn lemma_map_entries_from<X>(s: Seq<(Seq<char>, X)>)
    ensures
        forall|k: int| 0 <= k < map_entries(s).len() ==> s.contains(#[trigger] map_entries(s)[k]),
{
    crate::order::law_sort_by_key(s);
    let t = crate::order::sort_by_key(s);
    lemma_runs_from(t);
    assert forall|k: int| 0 <= k < map_entries(s).len() implies s.contains(#[trigger] map_entries(s)[k]) by {
        broadcast use vstd::seq_lib::group_to_multiset_ensures;
        assert(t.contains(map_entries(s)[k]));
        assert(t.to_multiset().contains(map_entries(s)[k]));
    }
}

proof fn lemma_runs_from<X>(t: Seq<(Seq<char>, X)>)
    ensures
        forall|k: int| 0 <= k < crate::order::last_of_runs(t).len() ==> t.contains(#[trigger] crate::order::last_of_runs(t)[k]),
    decreases t.len(),
{
    if t.len() > 1 {
        let d = t.drop_first();
        lemma_runs_from(d);
        assert forall|k: int| 0 <= k < crate::order::last_of_runs(t).len() implies t.contains(
            #[trigger] crate::order::last_of_runs(t)[k],
        ) by {
            let r = crate::order::last_of_runs(t);
            if t[0].0 == t[1].0 {
                assert(r == crate::order::last_of_runs(d));
                assert(d.contains(crate::order::last_of_runs(d)[k]));
                let j = choose|j: int| 0 <= j < d.len() && d[j] == r[k];
                assert(t[j + 1] == r[k]);
            } else if k == 0 {
                assert(t[0] == r[k]);
            } else {
                assert(r == seq![t[0]] + crate::order::last_of_runs(d));
                assert(r[k] == crate::order::last_of_runs(d)[k - 1]);
                assert(d.contains(crate::order::last_of_runs(d)[k - 1]));
                let j = choose|j: int| 0 <= j < d.len() && d[j] == r[k];
                assert(t[j + 1] == r[k]);
            }
        }
    }
}

/// Writes named text values as a JSON object, as UTF-8 bytes.
pub fn json_object_bytes(pairs: &Vec<(String, String)>) -> (r: Vec<u8>)
    ensures
        r@ == json_object(crate::probe::pairs_view(pairs@)),
{
    let ghost pv = crate::probe::pairs_view(pairs@);
    let mut named: Vec<(String, usize)> = Vec::new();
    let mut i: usize = 0;
    while i < pairs.len()
        invariant
            i <= pairs@.len(),
            pv == crate::probe::pairs_view(pairs@),
            keyed_view(named@) == indexed_names(pv).take(i as int),
        decreases pairs@.len() - i,
    {
        let ghost before = keyed_view(named@);
        named.push((pairs[i].0.clone(), i));
        assert(keyed_view(named@) =~= before.push((pv[i as int].0, i)));
        assert(indexed_names(pv).take(i + 1) =~= indexed_names(pv).take(i as int).push((pv[i as int].0, i)));
        i = i + 1;
    }
    assert(indexed_names(pv).take(i as int) =~= indexed_names(pv));
    let es = map_entries_of(named);
    let ghost ev = keyed_view(es@);
    proof {
        lemma_map_entries_from(indexed_names(pv));
    }
    let ghost want = Seq::new(ev.len(), |k: int| text_member((ev[k].0, pv[ev[k].1 as int].1)));
    let mut ms: Vec<String> = Vec::new();
    let mut k: usize = 0;
    while k < es.len()
        invariant
            k <= es@.len(),
            ev == keyed_view(es@),
            ev == map_entries(indexed_names(pv)),
            pv == crate::probe::pairs_view(pairs@),
            forall|q: int| 0 <= q < ev.len() ==> indexed_names(pv).contains(#[trigger] ev[q]),
            want == Seq::new(ev.len(), |k: int| text_member((ev[k].0, pv[ev[k].1 as int].1))),
            ms@.map_values(|m: String| m@) == want.take(k as int),
        decreases es@.len() - k,
    {
        let idx = es[k].1;
        proof {
            assert(indexed_names(pv).contains(ev[k as int]));
            let j = choose|j: int| 0 <= j < indexed_names(pv).len() && indexed_names(pv)[j] == ev[k as int];
            assert(indexed_names(pv)[j].1 == j as usize);
        }
        assert(idx < pairs@.len());
        let mut m = json_string_of(es[k].0.as_str());
        m.append(":");
        let v = json_string_of(pairs[idx].1.as_str());
        m.append(v.as_str());
        proof {
            reveal_strlit(":");
        }
        let ghost before = ms@.map_values(|m: String| m@);
        assert(m@ == want[k as int]);
        ms.push(m);
        assert(ms@.map_values(|m: String| m@) =~= before.push(want[k as int]));
        assert(want.take(k + 1) =~= want.take(k as int).push(want[k as int]));
        k = k + 1;
    }
    assert(want.take(k as int) =~= want);
    let text = write_object(&ms);
    vstd::slice::slice_to_vec(text.as_str().as_bytes())
}

} // verus!
