//! The checks of the API's list queries: page sizes, cursors, time bounds
//! and the state filter of the alert list, turned into the filters that
//! the storage queries take.
use vstd::prelude::*;

use crate::api::{
    bad_request, decode_cursor, decode_numeric_cursor, spec_decode_cursor, spec_decode_numeric_cursor,
    validate_limit, ApiError,
};
use crate::probe::{opt_view, strings_view};
use crate::series::{millis_in_range, millis_representable};
use crate::text::{chars_of, substring, trim, trim_bounds};

verus! {

broadcast use vstd::string::group_string_axioms;

/// The alert list asked for: by state (a comma-separated list), rule,
/// target and check, a page size and a cursor.
#[derive(Debug, Clone)]
pub struct AlertsQuery {
    pub state: Option<String>,
    pub rule_id: Option<String>,
    pub target_id: Option<String>,
    pub check_id: Option<String>,
    pub limit: Option<i64>,
    pub cursor: Option<String>,
}

/// The alert events asked for: by rule, target and check, from and to
/// times in milliseconds, a page size and a cursor.
#[derive(Debug, Clone)]
pub struct AlertEventsQuery {
    pub rule_id: Option<String>,
    pub target_id: Option<String>,
    pub check_id: Option<String>,
    pub from_ms: Option<i64>,
    pub to_ms: Option<i64>,
    pub limit: Option<i64>,
    pub cursor: Option<String>,
}

/// The recent rounds asked for: a page size and a cursor.
#[derive(Debug, Clone)]
pub struct RoundsQuery {
    pub limit: Option<i64>,
    pub cursor: Option<String>,
}

/// `s` split at each `c`: the texts between them, empty ones included.
pub open spec fn split_on(s: Seq<char>, c: char) -> Seq<Seq<char>>
    decreases s.len(),
{
    if s.len() == 0 {
        seq![Seq::empty()]
    } else {
        let p = split_on(s.drop_last(), c);
        if s.last() == c {
            p.push(Seq::empty())
        } else {
            p.update(p.len() - 1, p.last().push(s.last()))
        }
    }
}

proof fn lemma_split_nonempty(s: Seq<char>, c: char)
    ensures
        split_on(s, c).len() >= 1,
    decreases s.len(),
{
    if s.len() > 0 {
        lemma_split_nonempty(s.drop_last(), c);
    }
}

/// The texts without surrounding whitespace, those that are left empty
/// dropped.
pub open spec fn nonempty_trimmed(ps: Seq<Seq<char>>) -> Seq<Seq<char>>
    decreases ps.len(),
{
    if ps.len() == 0 {
        ps
    } else if trim(ps.last()).len() > 0 {
        nonempty_trimmed(ps.drop_last()).push(trim(ps.last()))
    } else {
        nonempty_trimmed(ps.drop_last())
    }
}

/// The states named by a state filter: its comma-separated values without
/// surrounding whitespace, empty ones dropped.
pub open spec fn filter_states(s: Seq<char>) -> Seq<Seq<char>> {
    nonempty_trimmed(split_on(s, ','))
}

/// A new string holding `s` without surrounding whitespace.
fn trimmed(s: &str) -> (r: String)
    ensures
        r@ == trim(s@),
{
    let cs = chars_of(s);
    let (a, b) = trim_bounds(cs.as_slice());
    substring(s, a, b)
}

/// The states named by a state filter.
pub fn split_states(s: &str) -> (r: Vec<String>)
    ensures
        strings_view(r@) == filter_states(s@),
{
    let cs = chars_of(s);
    let n = cs.len();
    let mut done: Vec<String> = Vec::new();
    let ghost mut pieces: Seq<Seq<char>> = Seq::empty();
    let mut start: usize = 0;
    let mut i: usize = 0;
    assert(s@.take(0) =~= Seq::<char>::empty());
    assert(split_on(s@.take(0), ',') =~= pieces.push(s@.subrange(0, 0)));
    while i < n
        invariant
            start <= i <= n,
            n == cs@.len(),
            cs@ == s@,
            split_on(s@.take(i as int), ',') == pieces.push(s@.subrange(start as int, i as int)),
            strings_view(done@) == nonempty_trimmed(pieces),
        decreases n - i,
    {
        assert(s@.take(i + 1).drop_last() =~= s@.take(i as int));
        assert(s@.take(i + 1).last() == s@[i as int]);
        if cs[i] == ',' {
            let piece = substring(s, start, i);
            let t = trimmed(piece.as_str());
            let ghost old_pieces = pieces;
            proof {
                pieces = pieces.push(s@.subrange(start as int, i as int));
                assert(pieces.drop_last() =~= old_pieces);
            }
            if t.unicode_len() > 0 {
                let ghost before = strings_view(done@);
                done.push(t);
                assert(strings_view(done@) =~= before.push(trim(pieces.last())));
            }
            start = i + 1;
            assert(s@.subrange(start as int, start as int) =~= Seq::<char>::empty());
            assert(split_on(s@.take(i + 1), ',') =~= pieces.push(s@.subrange(start as int, i + 1)));
        } else {
            proof {
                lemma_split_nonempty(s@.take(i as int), ',');
                let p = split_on(s@.take(i as int), ',');
                assert(s@.subrange(start as int, i as int).push(s@[i as int]) =~= s@.subrange(start as int, i + 1));
                assert(p.update(p.len() - 1, p.last().push(s@[i as int])) =~= pieces.push(
                    s@.subrange(start as int, i + 1),
                ));
            }
        }
        i = i + 1;
    }
    assert(s@.take(n as int) =~= s@);
    let piece = substring(s, start, n);
    let t = trimmed(piece.as_str());
    let ghost all = pieces.push(s@.subrange(start as int, n as int));
    assert(all.drop_last() =~= pieces);
    if t.unicode_len() > 0 {
        let ghost before = strings_view(done@);
        done.push(t);
        assert(strings_view(done@) =~= before.push(trim(all.last())));
    }
    done
}

/// The filter of the alert list: the page size, the numeric cursor, the
/// states to keep (all when absent), and the rule, target and check.
#[derive(Debug, Clone)]
pub struct AlertsFilter {
    pub limit: i64,
    pub cursor: Option<i64>,
    pub states: Option<Vec<String>>,
    pub rule_id: Option<String>,
    pub target_id: Option<String>,
    pub check_id: Option<String>,
}

/// The error for an alert list query, if it has one: a page size from 1 to
/// 200 (100 when absent), a numeric cursor, and a state filter that names
/// at least one state.
pub open spec fn alerts_query_error(q: AlertsQuery) -> Option<Seq<char>> {
    let limit = match q.limit {
        Some(v) => v,
        None => 100,
    };
    if !(1 <= limit <= 200) {
        Some("limit must be between 1 and 200"@)
    } else if spec_decode_numeric_cursor(opt_view(q.cursor)) is Err {
        Some("invalid cursor"@)
    } else if q.state is Some && filter_states(q.state->0@).len() == 0 {
        Some("state must contain at least one value"@)
    } else {
        None
    }
}

/// The filter that an alert list query asks for, or the bad request that
/// answers it.
pub fn alerts_filter(q: &AlertsQuery) -> (r: Result<AlertsFilter, ApiError>)
    ensures
        match alerts_query_error(*q) {
            Some(m) => r matches Err(e) && e.code@ == "bad_request"@ && e.message@ == m,
            None => r matches Ok(f) && {
                &&& f.limit == (match q.limit { Some(v) => v, None => 100i64 })
                &&& Ok::<Option<i64>, ()>(f.cursor) == spec_decode_numeric_cursor(opt_view(q.cursor))
                &&& match f.states {
                    Some(v) => q.state is Some && strings_view(v@) == filter_states(q.state->0@),
                    None => q.state is None,
                }
                &&& opt_view(f.rule_id) == opt_view(q.rule_id)
                &&& opt_view(f.target_id) == opt_view(q.target_id)
                &&& opt_view(f.check_id) == opt_view(q.check_id)
            },
        },
{
    let limit = match validate_limit(q.limit, 100) {
        Ok(l) => l,
        Err(e) => return Err(e),
    };
    let cursor = match &q.cursor {
        Some(c) => decode_numeric_cursor(Some(c.as_str())),
        None => decode_numeric_cursor(None),
    };
    let cursor = match cursor {
        Ok(c) => c,
        Err(e) => return Err(e),
    };
    let states = match &q.state {
        None => None,
        Some(s) => {
            let v = split_states(s.as_str());
            if v.len() == 0 {
                return Err(bad_request("state must contain at least one value"));
            }
            Some(v)
        },
    };
    Ok(AlertsFilter {
        limit,
        cursor,
        states,
        rule_id: q.rule_id.clone(),
        target_id: q.target_id.clone(),
        check_id: q.check_id.clone(),
    })
}

/// The filter of the alert events: the page size, the numeric cursor, the
/// time bounds in milliseconds, and the rule, target and check.
#[derive(Debug, Clone)]
pub struct AlertEventsFilter {
    pub limit: i64,
    pub cursor: Option<i64>,
    pub from_ms: Option<i64>,
    pub to_ms: Option<i64>,
    pub rule_id: Option<String>,
    pub target_id: Option<String>,
    pub check_id: Option<String>,
}

/// The error for an alert events query, if it has one: a page size from 1
/// to 200 (100 when absent), a numeric cursor, and time bounds that can be
/// represented.
pub open spec fn alert_events_query_error(q: AlertEventsQuery) -> Option<Seq<char>> {
    let limit = match q.limit {
        Some(v) => v,
        None => 100,
    };
    if !(1 <= limit <= 200) {
        Some("limit must be between 1 and 200"@)
    } else if spec_decode_numeric_cursor(opt_view(q.cursor)) is Err {
        Some("invalid cursor"@)
    } else if q.from_ms is Some && !millis_representable(q.from_ms->0) {
        Some("invalid 'from_ms' parameter"@)
    } else if q.to_ms is Some && !millis_representable(q.to_ms->0) {
        Some("invalid 'to_ms' parameter"@)
    } else {
        None
    }
}

/// The filter that an alert events query asks for, or the bad request that
/// answers it.
pub fn alert_events_filter(q: &AlertEventsQuery) -> (r: Result<AlertEventsFilter, ApiError>)
    ensures
        match alert_events_query_error(*q) {
            Some(m) => r matches Err(e) && e.code@ == "bad_request"@ && e.message@ == m,
            None => r matches Ok(f) && {
                &&& f.limit == (match q.limit { Some(v) => v, None => 100i64 })
                &&& Ok::<Option<i64>, ()>(f.cursor) == spec_decode_numeric_cursor(opt_view(q.cursor))
                &&& f.from_ms == q.from_ms
                &&& f.to_ms == q.to_ms
                &&& opt_view(f.rule_id) == opt_view(q.rule_id)
                &&& opt_view(f.target_id) == opt_view(q.target_id)
                &&& opt_view(f.check_id) == opt_view(q.check_id)
            },
        },
{
    let limit = match validate_limit(q.limit, 100) {
        Ok(l) => l,
        Err(e) => return Err(e),
    };
    let cursor = match &q.cursor {
        Some(c) => decode_numeric_cursor(Some(c.as_str())),
        None => decode_numeric_cursor(None),
    };
    let cursor = match cursor {
        Ok(c) => c,
        Err(e) => return Err(e),
    };
    if let Some(f) = q.from_ms {
        if !millis_in_range(f) {
            return Err(bad_request("invalid 'from_ms' parameter"));
        }
    }
    if let Some(t) = q.to_ms {
        if !millis_in_range(t) {
            return Err(bad_request("invalid 'to_ms' parameter"));
        }
    }
    Ok(AlertEventsFilter {
        limit,
        cursor,
        from_ms: q.from_ms,
        to_ms: q.to_ms,
        rule_id: q.rule_id.clone(),
        target_id: q.target_id.clone(),
        check_id: q.check_id.clone(),
    })
}

/// The page size (50 when absent) and the decoded cursor of a rounds
/// query, or the bad request that answers it.
pub fn rounds_query(q: &RoundsQuery) -> (r: Result<(i64, Option<String>), ApiError>)
    ensures
        ({
            let limit = match q.limit {
                Some(v) => v,
                None => 50,
            };
            let bad_cursor = q.cursor is Some && spec_decode_cursor(q.cursor->0@) is None;
            &&& r is Ok <==> 1 <= limit <= 200 && !bad_cursor
            &&& r matches Err(e) ==> e.code@ == "bad_request"@ && e.message@ == (if !(1 <= limit <= 200) {
                "limit must be between 1 and 200"@
            } else {
                "invalid cursor"@
            })
            &&& r matches Ok((l, c)) ==> l == limit && match c {
                Some(t) => q.cursor is Some && spec_decode_cursor(q.cursor->0@) == Some(t@),
                None => q.cursor is None,
            }
        }),
{
    let limit = match validate_limit(q.limit, 50) {
        Ok(l) => l,
        Err(e) => return Err(e),
    };
    match &q.cursor {
        None => Ok((limit, None)),
        Some(c) => match decode_cursor(c.as_str()) {
            Ok(t) => Ok((limit, Some(t))),
            Err(e) => Err(e),
        },
    }
}

} // verus!
