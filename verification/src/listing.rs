//! The target and group listings of the API: target summaries in the order
//! of their identifiers, groups in the order of their paths, pages of at
//! most a given size after a cursor, and the targets of one group.
use vstd::prelude::*;

use crate::api::{decode_cursor, hex_encode, hex_text, not_found, spec_decode_cursor, validate_limit, ApiError};
use crate::canonical::unkeyed;
use crate::order::{lemma_sort_insert_at, sort_by_key, sort_insert};
use crate::summary::{
    find_group, find_group_index, group_positions, group_targets, groups_view, summaries, summaries_view, summarize_targets, TargetSummary,
    TargetSummaryView, TargetWithState,
};
use crate::text::{chars_of, str_eq, str_le, substring, text_le};

verus! {

broadcast use vstd::string::group_string_axioms;

/// The page asked for: at most `limit` entries (100 when absent), after the
/// entry whose key `cursor` encodes, if given.
#[derive(Debug, Clone)]
pub struct PageQuery {
    pub limit: Option<i64>,
    pub cursor: Option<String>,
}

/// A group and its targets.
#[derive(Debug, Clone)]
pub struct GroupResponse {
    pub group_path: String,
    pub targets: Vec<TargetSummary>,
}

/// The abstract content of a `GroupResponse`.
pub ghost struct GroupResponseView {
    pub group_path: Seq<char>,
    pub targets: Seq<TargetSummaryView>,
}

impl View for GroupResponse {
    type V = GroupResponseView;

    open spec fn view(&self) -> GroupResponseView {
        GroupResponseView { group_path: self.group_path@, targets: summaries_view(self.targets@) }
    }
}

/// A page of the target list, the groups of its targets, and the cursor of
/// the next page if there is one.
#[derive(Debug, Clone)]
pub struct TargetsResponse {
    pub targets: Vec<TargetSummary>,
    pub groups: Vec<GroupResponse>,
    pub next_cursor: Option<String>,
}

/// A page of the group list and the cursor of the next page if there is
/// one.
#[derive(Debug, Clone)]
pub struct GroupsResponse {
    pub groups: Vec<GroupResponse>,
    pub next_cursor: Option<String>,
}

/// The views of a list of groups.
pub open spec fn group_list_view(v: Seq<GroupResponse>) -> Seq<GroupResponseView> {
    Seq::new(v.len(), |i: int| v[i]@)
}

/// Summaries in the order of their target identifiers.
pub open spec fn by_target_id(ss: Seq<TargetSummaryView>) -> Seq<TargetSummaryView> {
    unkeyed(sort_by_key(keyed_by_id(ss)))
}

/// Groups in the order of their paths.
pub open spec fn by_group_path(gs: Seq<GroupResponseView>) -> Seq<GroupResponseView> {
    unkeyed(sort_by_key(keyed_by_path(gs)))
}

/// The summaries whose target identifier comes after `c`.
pub open spec fn targets_after(ss: Seq<TargetSummaryView>, c: Seq<char>) -> Seq<TargetSummaryView>
    decreases ss.len(),
{
    if ss.len() == 0 {
        ss
    } else if !text_le(ss.last().target_id, c) {
        targets_after(ss.drop_last(), c).push(ss.last())
    } else {
        targets_after(ss.drop_last(), c)
    }
}

/// The groups whose path comes after `c`.
pub open spec fn groups_after(gs: Seq<GroupResponseView>, c: Seq<char>) -> Seq<GroupResponseView>
    decreases gs.len(),
{
    if gs.len() == 0 {
        gs
    } else if !text_le(gs.last().group_path, c) {
        groups_after(gs.drop_last(), c).push(gs.last())
    } else {
        groups_after(gs.drop_last(), c)
    }
}

/// The target identifiers of a list of summaries.
pub open spec fn target_ids(ss: Seq<TargetSummaryView>) -> Seq<Seq<char>> {
    Seq::new(ss.len(), |i: int| ss[i].target_id)
}

/// The summaries of `ss` at the positions `pos`, in order, that have one of
/// the identifiers `ids`.
pub open spec fn picked(ss: Seq<TargetSummaryView>, pos: Seq<usize>, ids: Seq<Seq<char>>) -> Seq<TargetSummaryView>
    decreases pos.len(),
{
    if pos.len() == 0 {
        Seq::empty()
    } else {
        let rest = picked(ss, pos.drop_last(), ids);
        let s = ss[pos.last() as int];
        if ids.contains(s.target_id) {
            rest.push(s)
        } else {
            rest
        }
    }
}

/// The summaries of `ss` at the positions `pos`, in order.
pub open spec fn all_at(ss: Seq<TargetSummaryView>, pos: Seq<usize>) -> Seq<TargetSummaryView> {
    Seq::new(pos.len(), |k: int| ss[pos[k] as int])
}

/// The groups of the summaries `ss` in the order of their first summary,
/// each with all its summaries.
pub open spec fn groups_of(ss: Seq<TargetSummaryView>) -> Seq<GroupResponseView> {
    let gp = group_positions(ss);
    Seq::new(gp.len(), |i: int| GroupResponseView { group_path: gp[i].0, targets: all_at(ss, gp[i].1) })
}

/// The groups of the summaries `ss` in the order of their first summary,
/// each with those of its summaries that have one of the identifiers `ids`.
pub open spec fn groups_with(ss: Seq<TargetSummaryView>, ids: Seq<Seq<char>>) -> Seq<GroupResponseView> {
    let gp = group_positions(ss);
    Seq::new(gp.len(), |i: int| GroupResponseView { group_path: gp[i].0, targets: picked(ss, gp[i].1, ids) })
}

/// The groups that have targets.
pub open spec fn nonempty_groups(gs: Seq<GroupResponseView>) -> Seq<GroupResponseView>
    decreases gs.len(),
{
    if gs.len() == 0 {
        gs
    } else if gs.last().targets.len() > 0 {
        nonempty_groups(gs.drop_last()).push(gs.last())
    } else {
        nonempty_groups(gs.drop_last())
    }
}

/// A copy of a summary.
pub fn clone_summary(s: &TargetSummary) -> (r: TargetSummary)
    ensures
        r@ == s@,
{
    TargetSummary {
        target_id: s.target_id.clone(),
        name: s.name.clone(),
        group_path: s.group_path.clone(),
        state: s.state.clone(),
        checks_count: s.checks_count,
    }
}

/// The summaries keyed by target identifier.
pub open spec fn keyed_by_id(ss: Seq<TargetSummaryView>) -> Seq<(Seq<char>, TargetSummaryView)> {
    Seq::new(ss.len(), |i: int| (ss[i].target_id, ss[i]))
}

/// The groups keyed by path.
pub open spec fn keyed_by_path(gs: Seq<GroupResponseView>) -> Seq<(Seq<char>, GroupResponseView)> {
    Seq::new(gs.len(), |i: int| (gs[i].group_path, gs[i]))
}

proof fn lemma_sort_step<X>(k: Seq<(Seq<char>, X)>, i: int)
    requires
        0 <= i < k.len(),
    ensures
        sort_by_key(k.take(i + 1)) == sort_insert(sort_by_key(k.take(i)), k[i]),
{
    assert(k.take(i + 1).drop_last() =~= k.take(i));
    assert(k.take(i + 1).last() == k[i]);
}

proof fn lemma_unkeyed_ids(ss: Seq<TargetSummaryView>)
    ensures
        unkeyed(keyed_by_id(ss)) == ss,
{
    assert(unkeyed(keyed_by_id(ss)) =~= ss);
}

proof fn lemma_unkeyed_paths(gs: Seq<GroupResponseView>)
    ensures
        unkeyed(keyed_by_path(gs)) == gs,
{
    assert(unkeyed(keyed_by_path(gs)) =~= gs);
}

/// The summaries in the order of their target identifiers.
pub fn sort_summaries(v: Vec<TargetSummary>) -> (r: Vec<TargetSummary>)
    ensures
        summaries_view(r@) == by_target_id(summaries_view(v@)),
{
    let ghost k = keyed_by_id(summaries_view(v@));
    let ghost n = v@.len();
    let mut rest = v;
    let total: usize = rest.len();
    let mut out: Vec<TargetSummary> = Vec::new();
    let mut i: usize = 0;
    assert(k.take(0) =~= Seq::<(Seq<char>, TargetSummaryView)>::empty());
    assert(keyed_by_id(summaries_view(out@)) =~= sort_by_key(k.take(0)));
    while rest.len() > 0
        invariant
            i + rest@.len() == n,
            n == total,
            k.len() == n,
            keyed_by_id(summaries_view(out@)) == sort_by_key(k.take(i as int)),
            forall|j: int| 0 <= j < rest@.len() ==> (k[i + j].0, k[i + j].1) == (rest@[j].target_id@, rest@[j]@),
        decreases rest@.len(),
    {
        let ghost before = rest@;
        let x = rest.remove(0);
        assert(k[i as int] == (x.target_id@, x@));
        let ghost s = keyed_by_id(summaries_view(out@));
        let ghost xv = (x.target_id@, x@);
        let mut p: usize = out.len();
        while p > 0 && !str_le(out[p - 1].target_id.as_str(), x.target_id.as_str())
            invariant
                p <= out@.len(),
                s == keyed_by_id(summaries_view(out@)),
                xv == (x.target_id@, x@),
                forall|j: int| p <= j < s.len() ==> !text_le(#[trigger] s[j].0, xv.0),
            decreases p,
        {
            p = p - 1;
        }
        proof {
            lemma_sort_insert_at(s, xv, p as int);
            lemma_sort_step(k, i as int);
        }
        out.insert(p, x);
        assert(keyed_by_id(summaries_view(out@)) =~= s.take(p as int).push(xv) + s.skip(p as int));
        assert forall|j: int| 0 <= j < rest@.len() implies (k[i + 1 + j].0, k[i + 1 + j].1) == (
        rest@[j].target_id@, rest@[j]@) by {
            assert(rest@[j] == before[j + 1]);
        }
        i = i + 1;
    }
    assert(k.take(i as int) =~= k);
    proof {
        lemma_unkeyed_ids(summaries_view(out@));
    }
    out
}

/// The groups in the order of their paths.
pub fn sort_groups(v: Vec<GroupResponse>) -> (r: Vec<GroupResponse>)
    ensures
        group_list_view(r@) == by_group_path(group_list_view(v@)),
{
    let ghost k = keyed_by_path(group_list_view(v@));
    let ghost n = v@.len();
    let mut rest = v;
    let total: usize = rest.len();
    let mut out: Vec<GroupResponse> = Vec::new();
    let mut i: usize = 0;
    assert(k.take(0) =~= Seq::<(Seq<char>, GroupResponseView)>::empty());
    assert(keyed_by_path(group_list_view(out@)) =~= sort_by_key(k.take(0)));
    while rest.len() > 0
        invariant
            i + rest@.len() == n,
            n == total,
            k.len() == n,
            keyed_by_path(group_list_view(out@)) == sort_by_key(k.take(i as int)),
            forall|j: int| 0 <= j < rest@.len() ==> (k[i + j].0, k[i + j].1) == (rest@[j].group_path@, rest@[j]@),
        decreases rest@.len(),
    {
        let ghost before = rest@;
        let x = rest.remove(0);
        assert(k[i as int] == (x.group_path@, x@));
        let ghost s = keyed_by_path(group_list_view(out@));
        let ghost xv = (x.group_path@, x@);
        let mut p: usize = out.len();
        while p > 0 && !str_le(out[p - 1].group_path.as_str(), x.group_path.as_str())
            invariant
                p <= out@.len(),
                s == keyed_by_path(group_list_view(out@)),
                xv == (x.group_path@, x@),
                forall|j: int| p <= j < s.len() ==> !text_le(#[trigger] s[j].0, xv.0),
            decreases p,
        {
            p = p - 1;
        }
        proof {
            lemma_sort_insert_at(s, xv, p as int);
            lemma_sort_step(k, i as int);
        }
        out.insert(p, x);
        assert(keyed_by_path(group_list_view(out@)) =~= s.take(p as int).push(xv) + s.skip(p as int));
        assert forall|j: int| 0 <= j < rest@.len() implies (k[i + 1 + j].0, k[i + 1 + j].1) == (
        rest@[j].group_path@, rest@[j]@) by {
            assert(rest@[j] == before[j + 1]);
        }
        i = i + 1;
    }
    assert(k.take(i as int) =~= k);
    proof {
        lemma_unkeyed_paths(group_list_view(out@));
    }
    out
}

/// Copies of the summaries.
fn clone_summaries(v: &Vec<TargetSummary>) -> (r: Vec<TargetSummary>)
    ensures
        summaries_view(r@) == summaries_view(v@),
{
    let mut out: Vec<TargetSummary> = Vec::new();
    let mut i: usize = 0;
    while i < v.len()
        invariant
            i <= v@.len(),
            summaries_view(out@) == summaries_view(v@).take(i as int),
        decreases v@.len() - i,
    {
        let ghost before = summaries_view(out@);
        let c = clone_summary(&v[i]);
        out.push(c);
        assert(summaries_view(out@) =~= before.push(c@));
        assert(summaries_view(v@).take(i + 1) =~= summaries_view(v@).take(i as int).push(v@[i as int]@));
        i = i + 1;
    }
    assert(summaries_view(v@).take(i as int) =~= summaries_view(v@));
    out
}

/// A copy of a group.
fn clone_group(g: &GroupResponse) -> (r: GroupResponse)
    ensures
        r@ == g@,
{
    GroupResponse { group_path: g.group_path.clone(), targets: clone_summaries(&g.targets) }
}

/// The summaries whose target identifier comes after `c`, in order.
fn summaries_after(v: &Vec<TargetSummary>, c: &str) -> (r: Vec<TargetSummary>)
    ensures
        summaries_view(r@) == targets_after(summaries_view(v@), c@),
{
    let ghost sv = summaries_view(v@);
    let mut out: Vec<TargetSummary> = Vec::new();
    let mut i: usize = 0;
    assert(sv.take(0) =~= Seq::<TargetSummaryView>::empty());
    while i < v.len()
        invariant
            i <= v@.len(),
            sv == summaries_view(v@),
            summaries_view(out@) == targets_after(sv.take(i as int), c@),
        decreases v@.len() - i,
    {
        assert(sv.take(i + 1).drop_last() =~= sv.take(i as int));
        assert(sv.take(i + 1).last() == v@[i as int]@);
        if !str_le(v[i].target_id.as_str(), c) {
            let ghost before = summaries_view(out@);
            out.push(clone_summary(&v[i]));
            assert(summaries_view(out@) =~= before.push(v@[i as int]@));
        }
        i = i + 1;
    }
    assert(sv.take(i as int) =~= sv);
    out
}

/// The groups whose path comes after `c`, in order.
fn groups_after_cursor(v: &Vec<GroupResponse>, c: &str) -> (r: Vec<GroupResponse>)
    ensures
        group_list_view(r@) == groups_after(group_list_view(v@), c@),
{
    let ghost gv = group_list_view(v@);
    let mut out: Vec<GroupResponse> = Vec::new();
    let mut i: usize = 0;
    assert(gv.take(0) =~= Seq::<GroupResponseView>::empty());
    while i < v.len()
        invariant
            i <= v@.len(),
            gv == group_list_view(v@),
            group_list_view(out@) == groups_after(gv.take(i as int), c@),
        decreases v@.len() - i,
    {
        assert(gv.take(i + 1).drop_last() =~= gv.take(i as int));
        assert(gv.take(i + 1).last() == v@[i as int]@);
        if !str_le(v[i].group_path.as_str(), c) {
            let ghost before = group_list_view(out@);
            out.push(clone_group(&v[i]));
            assert(group_list_view(out@) =~= before.push(v@[i as int]@));
        }
        i = i + 1;
    }
    assert(gv.take(i as int) =~= gv);
    out
}

/// Whether one of the summaries has the target identifier `id`.
fn has_target(page: &Vec<TargetSummary>, id: &str) -> (r: bool)
    ensures
        r == target_ids(summaries_view(page@)).contains(id@),
{
    let ghost ids = target_ids(summaries_view(page@));
    let mut i: usize = 0;
    while i < page.len()
        invariant
            i <= page@.len(),
            ids == target_ids(summaries_view(page@)),
            forall|j: int| 0 <= j < i ==> ids[j] != id@,
        decreases page@.len() - i,
    {
        if str_eq(page[i].target_id.as_str(), id) {
            assert(ids[i as int] == id@);
            return true;
        }
        i = i + 1;
    }
    false
}

proof fn lemma_find_group_range(gs: Seq<(Seq<char>, Seq<usize>)>, g: Seq<char>)
    ensures
        crate::summary::find_group(gs, g) matches Some(j) ==> 0 <= j < gs.len() && gs[j].0 == g,
    decreases gs.len(),
{
    if gs.len() > 0 && gs.last().0 != g {
        lemma_find_group_range(gs.drop_last(), g);
    }
}

/// Every position in the groups of `ss` is a position of `ss`.
proof fn lemma_positions_in_range(ss: Seq<TargetSummaryView>)
    ensures
        forall|k: int, j: int|
            0 <= k < group_positions(ss).len() && 0 <= j < group_positions(ss)[k].1.len()
                ==> #[trigger] group_positions(ss)[k].1[j] < ss.len(),
    decreases ss.len(),
{
    if ss.len() > 0 {
        let d = ss.drop_last();
        lemma_positions_in_range(d);
        let gs = group_positions(d);
        lemma_find_group_range(gs, ss.last().group_path);
    }
}

/// The summaries at the positions `pos`, in order, that have an
/// identifier of `page`.
fn picked_targets(all: &Vec<TargetSummary>, pos: &Vec<usize>, page: &Vec<TargetSummary>) -> (r: Vec<TargetSummary>)
    requires
        forall|j: int| 0 <= j < pos@.len() ==> #[trigger] pos@[j] < all@.len(),
    ensures
        summaries_view(r@) == picked(summaries_view(all@), pos@, target_ids(summaries_view(page@))),
{
    let ghost sv = summaries_view(all@);
    let ghost ids = target_ids(summaries_view(page@));
    let mut out: Vec<TargetSummary> = Vec::new();
    let mut j: usize = 0;
    assert(pos@.take(0) =~= Seq::<usize>::empty());
    while j < pos.len()
        invariant
            j <= pos@.len(),
            sv == summaries_view(all@),
            ids == target_ids(summaries_view(page@)),
            forall|q: int| 0 <= q < pos@.len() ==> #[trigger] pos@[q] < all@.len(),
            summaries_view(out@) == picked(sv, pos@.take(j as int), ids),
        decreases pos@.len() - j,
    {
        assert(pos@.take(j + 1).drop_last() =~= pos@.take(j as int));
        assert(pos@.take(j + 1).last() == pos@[j as int]);
        let p = pos[j];
        assert(p < all@.len());
        if has_target(page, all[p].target_id.as_str()) {
            let ghost before = summaries_view(out@);
            out.push(clone_summary(&all[p]));
            assert(summaries_view(out@) =~= before.push(sv[p as int]));
        }
        j = j + 1;
    }
    assert(pos@.take(j as int) =~= pos@);
    out
}

/// The summaries at the positions `pos`, in order.
fn targets_at(all: &Vec<TargetSummary>, pos: &Vec<usize>) -> (r: Vec<TargetSummary>)
    requires
        forall|j: int| 0 <= j < pos@.len() ==> #[trigger] pos@[j] < all@.len(),
    ensures
        summaries_view(r@) == all_at(summaries_view(all@), pos@),
{
    let ghost sv = summaries_view(all@);
    let mut out: Vec<TargetSummary> = Vec::new();
    let mut j: usize = 0;
    while j < pos.len()
        invariant
            j <= pos@.len(),
            sv == summaries_view(all@),
            forall|q: int| 0 <= q < pos@.len() ==> #[trigger] pos@[q] < all@.len(),
            summaries_view(out@) == all_at(sv, pos@).take(j as int),
        decreases pos@.len() - j,
    {
        let p = pos[j];
        assert(p < all@.len());
        let ghost before = summaries_view(out@);
        let c = clone_summary(&all[p]);
        out.push(c);
        assert(summaries_view(out@) =~= before.push(c@));
        assert(all_at(sv, pos@).take(j + 1) =~= all_at(sv, pos@).take(j as int).push(sv[p as int]));
        j = j + 1;
    }
    assert(all_at(sv, pos@).take(j as int) =~= all_at(sv, pos@));
    out
}

/// The page size a query asks for: its limit, else 100.
pub open spec fn page_limit(q: PageQuery) -> i64 {
    match q.limit {
        Some(v) => v,
        None => 100,
    }
}

/// The text a query's cursor encodes, if it has a cursor.
pub open spec fn cursor_text(q: PageQuery) -> Option<Seq<char>> {
    match q.cursor {
        Some(c) => spec_decode_cursor(c@),
        None => None,
    }
}

/// Whether a query is answered: its limit is from 1 to 200 and its cursor,
/// if any, is the hexadecimal form of a UTF-8 text.
pub open spec fn query_ok(q: PageQuery) -> bool {
    1 <= page_limit(q) <= 200 && !(q.cursor is Some && cursor_text(q) is None)
}

/// The message of the error that answers a query that is not answered.
pub open spec fn query_error(q: PageQuery) -> Seq<char> {
    if !(1 <= page_limit(q) <= 200) {
        "limit must be between 1 and 200"@
    } else {
        "invalid cursor"@
    }
}

/// At most `limit` entries of `s`, from its start.
pub open spec fn first_entries<X>(s: Seq<X>, limit: i64) -> Seq<X> {
    if s.len() > limit {
        s.take(limit as int)
    } else {
        s
    }
}

/// The targets a query lists before paging: the summaries of the rows in
/// the order of their identifiers, after the cursor's text if it has one.
pub open spec fn listed_targets(rows: Seq<TargetWithState>, q: PageQuery) -> Seq<TargetSummaryView> {
    let sorted = by_target_id(summaries(rows, rows.len() as int));
    match cursor_text(q) {
        Some(t) => targets_after(sorted, t),
        None => sorted,
    }
}

/// The groups a query lists before paging: the groups of the summaries of
/// the rows, each with all its targets, in the order of their paths, after
/// the cursor's text if it has one.
pub open spec fn listed_groups(rows: Seq<TargetWithState>, q: PageQuery) -> Seq<GroupResponseView> {
    let sorted = by_group_path(groups_of(summaries(rows, rows.len() as int)));
    match cursor_text(q) {
        Some(t) => groups_after(sorted, t),
        None => sorted,
    }
}

/// The cursor of the page after one that ends with the key `k`, if more
/// entries follow.
pub open spec fn next_cursor_of(more: bool, k: Seq<char>) -> Option<Seq<char>> {
    if more {
        Some(hex_text(vstd::utf8::encode_utf8(k)))
    } else {
        None
    }
}

/// A page of the target list: at most the query's limit of targets in the
/// order of their identifiers after the cursor, the groups of those
/// targets in the order of their paths (each with those of its targets
/// that are on the page, and only groups that have some), and the cursor
/// of the next page when more targets follow: the hexadecimal form of the
/// last identifier on the page. A bad limit or cursor is a bad request.
pub fn targets_page(rows: &[TargetWithState], query: &PageQuery) -> (r: Result<TargetsResponse, ApiError>)
    ensures
        r is Ok <==> query_ok(*query),
        r matches Err(e) ==> e.code@ == "bad_request"@ && e.message@ == query_error(*query),
        r matches Ok(resp) ==> {
            let listed = listed_targets(rows@, *query);
            let page = first_entries(listed, page_limit(*query));
            &&& summaries_view(resp.targets@) == page
            &&& crate::probe::opt_view(resp.next_cursor) == next_cursor_of(listed.len() > page_limit(*query), page.last().target_id)
            &&& group_list_view(resp.groups@) == by_group_path(
                nonempty_groups(groups_with(summaries(rows@, rows@.len() as int), target_ids(page))),
            )
        },
{
    let limit = match validate_limit(query.limit, 100) {
        Ok(l) => l,
        Err(e) => return Err(e),
    };
    let cursor: Option<String> = match &query.cursor {
        None => None,
        Some(c) => match decode_cursor(c.as_str()) {
            Ok(t) => Some(t),
            Err(e) => return Err(e),
        },
    };
    let all = summarize_targets(rows);
    let ghost sv = summaries(rows@, rows@.len() as int);
    let groups = group_targets(&all);
    let sorted = sort_summaries(clone_summaries(&all));
    let mut listed = match &cursor {
        Some(t) => summaries_after(&sorted, t.as_str()),
        None => sorted,
    };
    let ghost lv = summaries_view(listed@);
    assert(lv == listed_targets(rows@, *query));
    let lim = limit as usize;
    let more = listed.len() > lim;
    listed.truncate(lim);
    assert(summaries_view(listed@) =~= first_entries(lv, limit));
    let next_cursor = if more {
        let last = &listed[listed.len() - 1];
        Some(hex_encode(last.target_id.as_str().as_bytes()))
    } else {
        None
    };
    let ghost ids = target_ids(summaries_view(listed@));
    let ghost gw = groups_with(sv, ids);
    proof {
        lemma_positions_in_range(sv);
    }
    let mut chosen: Vec<GroupResponse> = Vec::new();
    let mut k: usize = 0;
    assert(gw.take(0) =~= Seq::<GroupResponseView>::empty());
    while k < groups.len()
        invariant
            k <= groups@.len(),
            sv == summaries_view(all@),
            groups_view(groups@) == group_positions(sv),
            ids == target_ids(summaries_view(listed@)),
            gw == groups_with(sv, ids),
            forall|a: int, b: int|
                0 <= a < group_positions(sv).len() && 0 <= b < group_positions(sv)[a].1.len()
                    ==> #[trigger] group_positions(sv)[a].1[b] < sv.len(),
            group_list_view(chosen@) == nonempty_groups(gw.take(k as int)),
        decreases groups@.len() - k,
    {
        assert(groups_view(groups@)[k as int] == (groups@[k as int].0@, groups@[k as int].1@));
        assert forall|j: int| 0 <= j < groups@[k as int].1@.len() implies #[trigger] groups@[k as int].1@[j] < all@.len() by {
            assert(group_positions(sv)[k as int].1[j] < sv.len());
        }
        let ts = picked_targets(&all, &groups[k].1, &listed);
        assert(gw.take(k + 1).drop_last() =~= gw.take(k as int));
        assert(gw.take(k + 1).last() == gw[k as int]);
        if ts.len() > 0 {
            let ghost before = group_list_view(chosen@);
            let g = GroupResponse { group_path: groups[k].0.clone(), targets: ts };
            chosen.push(g);
            assert(group_list_view(chosen@) =~= before.push(g@));
        }
        k = k + 1;
    }
    assert(gw.take(k as int) =~= gw);
    let ordered = sort_groups(chosen);
    Ok(TargetsResponse { targets: listed, groups: ordered, next_cursor })
}

/// The groups of the summaries, each with all its summaries, in the order
/// of their first summary.
fn all_groups(all: &Vec<TargetSummary>) -> (r: Vec<GroupResponse>)
    ensures
        group_list_view(r@) == groups_of(summaries_view(all@)),
{
    let ghost sv = summaries_view(all@);
    let groups = group_targets(all);
    proof {
        lemma_positions_in_range(sv);
    }
    let ghost go = groups_of(sv);
    let mut out: Vec<GroupResponse> = Vec::new();
    let mut k: usize = 0;
    while k < groups.len()
        invariant
            k <= groups@.len(),
            sv == summaries_view(all@),
            go == groups_of(sv),
            groups_view(groups@) == group_positions(sv),
            forall|a: int, b: int|
                0 <= a < group_positions(sv).len() && 0 <= b < group_positions(sv)[a].1.len()
                    ==> #[trigger] group_positions(sv)[a].1[b] < sv.len(),
            group_list_view(out@) == go.take(k as int),
        decreases groups@.len() - k,
    {
        assert(groups_view(groups@)[k as int] == (groups@[k as int].0@, groups@[k as int].1@));
        assert forall|j: int| 0 <= j < groups@[k as int].1@.len() implies #[trigger] groups@[k as int].1@[j] < all@.len() by {
            assert(group_positions(sv)[k as int].1[j] < sv.len());
        }
        let ts = targets_at(all, &groups[k].1);
        let g = GroupResponse { group_path: groups[k].0.clone(), targets: ts };
        let ghost before = group_list_view(out@);
        out.push(g);
        assert(group_list_view(out@) =~= before.push(g@));
        assert(go.take(k + 1) =~= go.take(k as int).push(go[k as int]));
        k = k + 1;
    }
    assert(go.take(k as int) =~= go);
    out
}

/// A page of the group list: at most the query's limit of groups in the
/// order of their paths after the cursor, each with all its targets, and
/// the cursor of the next page when more groups follow: the hexadecimal
/// form of the last path on the page. A bad limit or cursor is a bad
/// request.
pub fn groups_page(rows: &[TargetWithState], query: &PageQuery) -> (r: Result<GroupsResponse, ApiError>)
    ensures
        r is Ok <==> query_ok(*query),
        r matches Err(e) ==> e.code@ == "bad_request"@ && e.message@ == query_error(*query),
        r matches Ok(resp) ==> {
            let listed = listed_groups(rows@, *query);
            let page = first_entries(listed, page_limit(*query));
            &&& group_list_view(resp.groups@) == page
            &&& crate::probe::opt_view(resp.next_cursor) == next_cursor_of(listed.len() > page_limit(*query), page.last().group_path)
        },
{
    let limit = match validate_limit(query.limit, 100) {
        Ok(l) => l,
        Err(e) => return Err(e),
    };
    let cursor: Option<String> = match &query.cursor {
        None => None,
        Some(c) => match decode_cursor(c.as_str()) {
            Ok(t) => Some(t),
            Err(e) => return Err(e),
        },
    };
    let all = summarize_targets(rows);
    let sorted = sort_groups(all_groups(&all));
    let mut listed = match &cursor {
        Some(t) => groups_after_cursor(&sorted, t.as_str()),
        None => sorted,
    };
    let ghost lv = group_list_view(listed@);
    assert(lv == listed_groups(rows@, *query));
    let lim = limit as usize;
    let more = listed.len() > lim;
    listed.truncate(lim);
    assert(group_list_view(listed@) =~= first_entries(lv, limit));
    let next_cursor = if more {
        let last = &listed[listed.len() - 1];
        Some(hex_encode(last.group_path.as_str().as_bytes()))
    } else {
        None
    };
    Ok(GroupsResponse { groups: listed, next_cursor })
}

/// `s` without the slashes at its start.
pub open spec fn drop_leading_slashes(s: Seq<char>) -> Seq<char>
    decreases s.len(),
{
    if s.len() > 0 && s[0] == '/' {
        drop_leading_slashes(s.drop_first())
    } else {
        s
    }
}

/// `s` without the slashes at its end.
pub open spec fn drop_trailing_slashes(s: Seq<char>) -> Seq<char>
    decreases s.len(),
{
    if s.len() > 0 && s.last() == '/' {
        drop_trailing_slashes(s.drop_last())
    } else {
        s
    }
}

/// `s` without the slashes at its start and at its end.
pub open spec fn trim_slashes(s: Seq<char>) -> Seq<char> {
    drop_trailing_slashes(drop_leading_slashes(s))
}

/// A new string holding `s` without the slashes at its start and end.
pub fn trim_slashes_of(s: &str) -> (r: String)
    ensures
        r@ == trim_slashes(s@),
{
    let cs = chars_of(s);
    let n = cs.len();
    let mut i: usize = 0;
    assert(s@.subrange(0, n as int) =~= s@);
    while i < n && cs[i] == '/'
        invariant
            i <= n,
            n == cs@.len(),
            cs@ == s@,
            drop_leading_slashes(s@) == drop_leading_slashes(s@.subrange(i as int, n as int)),
        decreases n - i,
    {
        assert(s@.subrange(i as int, n as int).drop_first() =~= s@.subrange(i + 1, n as int));
        i = i + 1;
    }
    let mut j: usize = n;
    assert(s@.subrange(i as int, j as int) =~= s@.subrange(i as int, n as int));
    while j > i && cs[j - 1] == '/'
        invariant
            i <= j <= n,
            n == cs@.len(),
            cs@ == s@,
            drop_leading_slashes(s@) == drop_leading_slashes(s@.subrange(i as int, n as int)),
            i == n || s@[i as int] != '/',
            drop_trailing_slashes(s@.subrange(i as int, n as int)) == drop_trailing_slashes(s@.subrange(i as int, j as int)),
        decreases j - i,
    {
        assert(s@.subrange(i as int, j as int).drop_last() =~= s@.subrange(i as int, j - 1));
        j = j - 1;
    }
    assert(drop_leading_slashes(s@.subrange(i as int, n as int)) == s@.subrange(i as int, n as int));
    substring(s, i, j)
}

/// The group at `path`, with slashes at its start and end ignored, and all
/// its targets; not found if no target is in it.
pub fn group_at(rows: &[TargetWithState], path: &str) -> (r: Result<GroupResponse, ApiError>)
    ensures
        ({
            let sv = summaries(rows@, rows@.len() as int);
            let p = trim_slashes(path@);
            match find_group(group_positions(sv), p) {
                Some(k) => r matches Ok(g) && g@ == GroupResponseView { group_path: p, targets: all_at(sv, group_positions(sv)[k].1) },
                None => r matches Err(e) && e.code@ == "group_not_found"@ && e.message@ == "The requested group does not exist"@,
            }
        }),
{
    let decoded = trim_slashes_of(path);
    let all = summarize_targets(rows);
    let ghost sv = summaries_view(all@);
    let groups = group_targets(&all);
    proof {
        lemma_positions_in_range(sv);
    }
    match find_group_index(&groups, decoded.as_str()) {
        Some(k) => {
            assert(groups_view(groups@)[k as int] == (groups@[k as int].0@, groups@[k as int].1@));
            assert forall|j: int| 0 <= j < groups@[k as int].1@.len() implies #[trigger] groups@[k as int].1@[j] < all@.len() by {
                assert(group_positions(sv)[k as int].1[j] < sv.len());
            }
            let ts = targets_at(&all, &groups[k].1);
            Ok(GroupResponse { group_path: decoded, targets: ts })
        },
        None => Err(not_found("group_not_found", "The requested group does not exist")),
    }
}

/// The state of a target so far combined with the state of one more of
/// its checks: down if either is, else degraded if either is, else no data
/// if either is, else healthy.
pub open spec fn combine_state(acc: Seq<char>, s: Seq<char>) -> Seq<char> {
    if acc == "down"@ || s == "down"@ {
        "down"@
    } else if acc == "degraded"@ || s == "degraded"@ {
        "degraded"@
    } else if acc == "no_data"@ || s == "no_data"@ {
        "no_data"@
    } else {
        "healthy"@
    }
}

/// The state of a target from the states of its checks, combined in order
/// starting from healthy.
pub open spec fn spec_overall_state(states: Seq<Seq<char>>) -> Seq<char>
    decreases states.len(),
{
    if states.len() == 0 {
        "healthy"@
    } else {
        combine_state(spec_overall_state(states.drop_last()), states.last())
    }
}

/// The state of a target from the states of its checks.
pub fn overall_state(states: &[String]) -> (r: String)
    ensures
        r@ == spec_overall_state(states@.map_values(|s: String| s@)),
{
    let ghost sv = states@.map_values(|s: String| s@);
    let mut acc = String::from_str("healthy");
    let mut i: usize = 0;
    proof {
        reveal_strlit("healthy");
        assert(sv.take(0) =~= Seq::<Seq<char>>::empty());
    }
    while i < states.len()
        invariant
            i <= states@.len(),
            sv == states@.map_values(|s: String| s@),
            acc@ == spec_overall_state(sv.take(i as int)),
        decreases states@.len() - i,
    {
        assert(sv.take(i + 1).drop_last() =~= sv.take(i as int));
        assert(sv.take(i + 1).last() == states@[i as int]@);
        let a = acc.as_str();
        let s = states[i].as_str();
        let next = if str_eq(a, "down") || str_eq(s, "down") {
            "down"
        } else if str_eq(a, "degraded") || str_eq(s, "degraded") {
            "degraded"
        } else if str_eq(a, "no_data") || str_eq(s, "no_data") {
            "no_data"
        } else {
            "healthy"
        };
        acc = String::from_str(next);
        i = i + 1;
    }
    assert(sv.take(i as int) =~= sv);
    acc
}

/// The state of a target depends only on which of the states down,
/// degraded and no data its checks have, not on their order: down if one
/// is down, else degraded if one is, else no data if one has none, else
/// healthy.
pub proof fn law_overall_state_by_presence(states: Seq<Seq<char>>)
    ensures
        spec_overall_state(states) == (if states.contains("down"@) {
            "down"@
        } else if states.contains("degraded"@) {
            "degraded"@
        } else if states.contains("no_data"@) {
            "no_data"@
        } else {
            "healthy"@
        }),
    decreases states.len(),
{
    reveal_strlit("down");
    reveal_strlit("degraded");
    reveal_strlit("no_data");
    reveal_strlit("healthy");
    if states.len() > 0 {
        let d = states.drop_last();
        law_overall_state_by_presence(d);
        assert forall|x: Seq<char>| states.contains(x) <==> (d.contains(x) || states.last() == x) by {
            if states.contains(x) {
                let i = choose|i: int| 0 <= i < states.len() && states[i] == x;
                if i < d.len() {
                    assert(d[i] == x);
                }
            }
            if d.contains(x) {
                let i = choose|i: int| 0 <= i < d.len() && d[i] == x;
                assert(states[i] == x);
            }
            if states.last() == x {
                assert(states[states.len() - 1] == x);
            }
        }
    }
}

} // verus!
