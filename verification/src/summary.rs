//! The per-target summary of the target list: each target once, with its
//! number of checks and the worst state among them, and the targets of
//! each group.
use vstd::prelude::*;

use crate::api::{spec_state_rank, state_rank};
use crate::text::str_eq;

verus! {

broadcast use vstd::string::group_string_axioms;

/// A stored check of a target with the target's details and the check's
/// current state, if it has one.
#[derive(Debug, Clone)]
pub struct TargetWithState {
    pub target_id: String,
    pub name: String,
    pub group_path: String,
    pub state: Option<String>,
}

/// A target in the target list.
#[derive(Debug, Clone)]
pub struct TargetSummary {
    pub target_id: String,
    pub name: String,
    pub group_path: String,
    pub state: String,
    pub checks_count: usize,
}

/// The abstract content of a `TargetSummary`.
pub ghost struct TargetSummaryView {
    pub target_id: Seq<char>,
    pub name: Seq<char>,
    pub group_path: Seq<char>,
    pub state: Seq<char>,
    pub checks_count: nat,
}

impl View for TargetSummary {
    type V = TargetSummaryView;

    open spec fn view(&self) -> TargetSummaryView {
        TargetSummaryView {
            target_id: self.target_id@,
            name: self.name@,
            group_path: self.group_path@,
            state: self.state@,
            checks_count: self.checks_count as nat,
        }
    }
}

/// The state a row stands for: its check's state, no data when it has
/// none.
pub open spec fn row_state(r: TargetWithState) -> Seq<char> {
    match r.state {
        Some(s) => s@,
        None => "no_data"@,
    }
}

/// The number of rows of the target `t`.
pub open spec fn target_count(rows: Seq<TargetWithState>, t: Seq<char>) -> nat
    decreases rows.len(),
{
    if rows.len() == 0 {
        0
    } else {
        target_count(rows.drop_last(), t) + if rows.last().target_id@ == t {
            1nat
        } else {
            0nat
        }
    }
}

/// The worst state among the rows of the target `t`: the first one, each
/// later one taking its place when it ranks strictly higher.
pub open spec fn worst_state(rows: Seq<TargetWithState>, t: Seq<char>) -> Option<Seq<char>>
    decreases rows.len(),
{
    if rows.len() == 0 {
        None
    } else if rows.last().target_id@ == t {
        let c = row_state(rows.last());
        match worst_state(rows.drop_last(), t) {
            Some(cur) => if spec_state_rank(c) > spec_state_rank(cur) {
                Some(c)
            } else {
                Some(cur)
            },
            None => Some(c),
        }
    } else {
        worst_state(rows.drop_last(), t)
    }
}

/// Whether an earlier row has the same target as row `i`.
pub open spec fn seen_before(rows: Seq<TargetWithState>, i: int) -> bool {
    exists|j: int| 0 <= j < i && rows[j].target_id@ == rows[i].target_id@
}

/// The summary of the target of row `i`: its id, name and group (the
/// group `default` when it has none) from that row, its worst state and
/// its number of checks over all rows.
pub open spec fn summary_of(rows: Seq<TargetWithState>, i: int) -> TargetSummaryView {
    let t = rows[i].target_id@;
    TargetSummaryView {
        target_id: t,
        name: rows[i].name@,
        group_path: if rows[i].group_path@.len() == 0 {
            "default"@
        } else {
            rows[i].group_path@
        },
        state: match worst_state(rows, t) {
            Some(s) => s,
            None => "no_data"@,
        },
        checks_count: target_count(rows, t),
    }
}

/// The summaries of the targets of the first `n` rows, each target once,
/// in the order of its first row.
pub open spec fn summaries(rows: Seq<TargetWithState>, n: int) -> Seq<TargetSummaryView>
    decreases n,
{
    if n <= 0 {
        Seq::empty()
    } else if seen_before(rows, n - 1) {
        summaries(rows, n - 1)
    } else {
        summaries(rows, n - 1).push(summary_of(rows, n - 1))
    }
}

/// The views of a list of summaries.
pub open spec fn summaries_view(v: Seq<TargetSummary>) -> Seq<TargetSummaryView> {
    Seq::new(v.len(), |i: int| v[i]@)
}

fn row_state_text(r: &TargetWithState) -> (s: &str)
    ensures
        s@ == row_state(*r),
{
    match &r.state {
        Some(s) => s.as_str(),
        None => "no_data",
    }
}

/// The number of checks and the worst state of the target `t`.
fn target_totals(rows: &[TargetWithState], t: &str) -> (r: (usize, Option<String>))
    ensures
        r.0 == target_count(rows@, t@),
        match r.1 {
            Some(s) => worst_state(rows@, t@) == Some(s@),
            None => worst_state(rows@, t@) is None,
        },
{
    let mut count: usize = 0;
    let mut worst: Option<String> = None;
    let mut i: usize = 0;
    while i < rows.len()
        invariant
            i <= rows@.len(),
            count == target_count(rows@.take(i as int), t@),
            count <= i,
            match worst {
                Some(s) => worst_state(rows@.take(i as int), t@) == Some(s@),
                None => worst_state(rows@.take(i as int), t@) is None,
            },
        decreases rows@.len() - i,
    {
        assert(rows@.take(i + 1).drop_last() =~= rows@.take(i as int));
        assert(rows@.take(i + 1).last() == rows@[i as int]);
        if str_eq(rows[i].target_id.as_str(), t) {
            count = count + 1;
            let c = row_state_text(&rows[i]);
            worst = match worst {
                Some(cur) => if state_rank(c) > state_rank(cur.as_str()) {
                    Some(String::from_str(c))
                } else {
                    Some(cur)
                },
                None => Some(String::from_str(c)),
            };
        }
        i = i + 1;
    }
    assert(rows@.take(i as int) =~= rows@);
    (count, worst)
}

fn seen_earlier(rows: &[TargetWithState], i: usize) -> (r: bool)
    requires
        i < rows@.len(),
    ensures
        r == seen_before(rows@, i as int),
{
    let mut j: usize = 0;
    while j < i
        invariant
            j <= i < rows@.len(),
            forall|k: int| 0 <= k < j ==> rows@[k].target_id@ != rows@[i as int].target_id@,
        decreases i - j,
    {
        if str_eq(rows[j].target_id.as_str(), rows[i].target_id.as_str()) {
            return true;
        }
        j = j + 1;
    }
    false
}

proof fn lemma_worst_some(rows: Seq<TargetWithState>, i: int)
    requires
        0 <= i < rows.len(),
    ensures
        worst_state(rows, rows[i].target_id@) is Some,
    decreases rows.len(),
{
    if i < rows.len() - 1 {
        lemma_worst_some(rows.drop_last(), i);
    }
}

/// Each target of the rows once, in the order of its first row, with its
/// number of checks and its worst state.
pub fn summarize_targets(rows: &[TargetWithState]) -> (r: Vec<TargetSummary>)
    ensures
        summaries_view(r@) == summaries(rows@, rows@.len() as int),
{
    let mut out: Vec<TargetSummary> = Vec::new();
    let mut i: usize = 0;
    while i < rows.len()
        invariant
            i <= rows@.len(),
            summaries_view(out@) == summaries(rows@, i as int),
        decreases rows@.len() - i,
    {
        if !seen_earlier(rows, i) {
            let row = &rows[i];
            let (count, worst) = target_totals(rows, row.target_id.as_str());
            proof {
                lemma_worst_some(rows@, i as int);
            }
            let state = match worst {
                Some(s) => s,
                None => String::from_str("no_data"),
            };
            let group_path = if row.group_path.as_str().unicode_len() == 0 {
                String::from_str("default")
            } else {
                row.group_path.clone()
            };
            let s = TargetSummary {
                target_id: row.target_id.clone(),
                name: row.name.clone(),
                group_path,
                state,
                checks_count: count,
            };
            let ghost before = out@;
            out.push(s);
            assert(summaries_view(out@) =~= summaries_view(before).push(s@));
        }
        i = i + 1;
    }
    out
}

/// The position of the group `g` in a list of groups, searching from the
/// end.
pub open spec fn find_group(gs: Seq<(Seq<char>, Seq<usize>)>, g: Seq<char>) -> Option<int>
    decreases gs.len(),
{
    if gs.len() == 0 {
        None
    } else if gs.last().0 == g {
        Some(gs.len() - 1)
    } else {
        find_group(gs.drop_last(), g)
    }
}

/// The groups of the summaries `ss` in the order of their first summary,
/// each with the positions of its summaries in order.
pub open spec fn group_positions(ss: Seq<TargetSummaryView>) -> Seq<(Seq<char>, Seq<usize>)>
    decreases ss.len(),
{
    if ss.len() == 0 {
        Seq::empty()
    } else {
        let gs = group_positions(ss.drop_last());
        let g = ss.last().group_path;
        let i = (ss.len() - 1) as usize;
        match find_group(gs, g) {
            Some(j) => gs.update(j, (g, gs[j].1.push(i))),
            None => gs.push((g, seq![i])),
        }
    }
}

/// The views of a list of groups.
pub open spec fn groups_view(v: Seq<(String, Vec<usize>)>) -> Seq<(Seq<char>, Seq<usize>)> {
    Seq::new(v.len(), |i: int| (v[i].0@, v[i].1@))
}

pub(crate) fn find_group_index(groups: &Vec<(String, Vec<usize>)>, g: &str) -> (r: Option<usize>)
    ensures
        match r {
            Some(j) => j < groups@.len() && find_group(groups_view(groups@), g@) == Some(j as int)
                && groups@[j as int].0@ == g@,
            None => find_group(groups_view(groups@), g@) is None,
        },
{
    let ghost gs = groups_view(groups@);
    let mut j: usize = groups.len();
    assert(gs.take(j as int) =~= gs);
    while j > 0
        invariant
            j <= groups@.len(),
            gs == groups_view(groups@),
            find_group(gs, g@) == find_group(gs.take(j as int), g@),
        decreases j,
    {
        assert(gs.take(j as int).last() == gs[j - 1]);
        if str_eq(groups[j - 1].0.as_str(), g) {
            return Some(j - 1);
        }
        assert(gs.take(j as int).drop_last() =~= gs.take(j - 1));
        j = j - 1;
    }
    assert(gs.take(0) =~= Seq::<(Seq<char>, Seq<usize>)>::empty());
    None
}

/// The groups of the summaries, each with the positions of its summaries.
pub fn group_targets(summaries: &Vec<TargetSummary>) -> (r: Vec<(String, Vec<usize>)>)
    ensures
        groups_view(r@) == group_positions(summaries_view(summaries@)),
{
    let ghost sv = summaries_view(summaries@);
    let mut groups: Vec<(String, Vec<usize>)> = Vec::new();
    let mut i: usize = 0;
    while i < summaries.len()
        invariant
            i <= summaries@.len(),
            sv == summaries_view(summaries@),
            groups_view(groups@) == group_positions(sv.take(i as int)),
        decreases summaries@.len() - i,
    {
        let ghost gs = groups_view(groups@);
        assert(sv.take(i + 1).drop_last() =~= sv.take(i as int));
        assert(sv.take(i + 1).last() == summaries@[i as int]@);
        let g = summaries[i].group_path.as_str();
        let pos = find_group_index(&groups, g);
        if let Some(j) = pos {
            let ghost old_g = groups@;
            let taken = groups.remove(j);
            assert(taken == old_g[j as int]);
            let (name, mut list) = taken;
            assert(old_g[j as int].0@ == g@);
            assert(gs[j as int] == (old_g[j as int].0@, old_g[j as int].1@));
            assert(name@ == g@);
            assert(list@ == gs[j as int].1);
            list.push(i);
            let entry = (name, list);
            let ghost e = entry;
            groups.insert(j, entry);
            assert(groups@ =~= old_g.update(j as int, e));
            assert(groups_view(groups@) =~= gs.update(j as int, (g@, gs[j as int].1.push(i))));
        } else {
            let mut one: Vec<usize> = Vec::new();
            one.push(i);
            assert(one@ =~= seq![i]);
            groups.push((String::from_str(g), one));
            assert(groups_view(groups@) =~= gs.push((g@, seq![i])));
        }
        i = i + 1;
    }
    assert(sv.take(i as int) =~= sv);
    groups
}

} // verus!
