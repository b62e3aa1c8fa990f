//! The planning of rollups: which bucket of a resolution each stored round
//! falls in, and the rounds of each bucket in the order of the buckets.
use vstd::prelude::*;

use crate::api::{parse_timestamp_millis, rfc3339_millis};
use crate::rows::RoundRow;

verus! {

/// The start, in seconds, of the bucket of `resolution` seconds that holds
/// the second `ts`: `ts` rounded toward zero to a multiple of `resolution`.
pub open spec fn spec_bucket_start(ts: int, resolution: int) -> int {
    if ts >= 0 {
        (ts / resolution) * resolution
    } else {
        -(((-ts) / resolution) * resolution)
    }
}

/// The start of the bucket of `resolution` seconds that holds the second
/// `ts`.
pub fn bucket_start(ts: i64, resolution: i64) -> (r: i64)
    requires
        resolution > 0,
    ensures
        r == spec_bucket_start(ts as int, resolution as int),
{
    let res = resolution as u64;
    if ts >= 0 {
        let a = ts as u64;
        let q = a / res;
        assert(q * res <= a) by (nonlinear_arith)
            requires
                res > 0,
                q == a / res,
        ;
        let m = q * res;
        m as i64
    } else {
        let a: u64 = ((-(ts + 1)) as u64) + 1;
        assert(a == -ts);
        let q = a / res;
        assert(q * res <= a) by (nonlinear_arith)
            requires
                res > 0,
                q == a / res,
        ;
        let m = q * res;
        (0i128 - (m as i128)) as i64
    }
}

/// The whole seconds since the epoch of a number of milliseconds, rounded
/// down.
pub fn seconds_of_millis(ms: i64) -> (r: i64)
    ensures
        r == ms as int / 1000,
{
    if ms >= 0 {
        ms / 1000
    } else {
        let a: u64 = (-(ms + 1)) as u64;
        let q = (a / 1000) as i64;
        assert(ms as int / 1000 == -(a as int / 1000) - 1) by (nonlinear_arith)
            requires
                a == -(ms + 1),
                ms < 0,
        {
            let q0 = a as int / 1000;
            let r0 = a as int % 1000;
            assert(a as int == 1000 * q0 + r0);
            assert(ms as int == 1000 * (-q0 - 1) + (999 - r0));
        }
        -q - 1
    }
}

/// The bucket of `resolution` seconds that a round falls in: that of the
/// second of its scheduled time, if that time reads as RFC 3339.
pub open spec fn round_bucket(r: RoundRow, resolution: int) -> Option<int> {
    match rfc3339_millis(r.scheduled_at@) {
        Some(ms) => Some(spec_bucket_start(ms as int / 1000, resolution)),
        None => None,
    }
}

/// The positions among the first `n` rounds of those that fall in the
/// bucket `b`, in order.
pub open spec fn bucket_positions(rounds: Seq<RoundRow>, resolution: int, b: int, n: int) -> Seq<usize>
    decreases n,
{
    if n <= 0 {
        Seq::empty()
    } else if round_bucket(rounds[n - 1], resolution) == Some(b) {
        bucket_positions(rounds, resolution, b, n - 1).push((n - 1) as usize)
    } else {
        bucket_positions(rounds, resolution, b, n - 1)
    }
}

/// Whether `plan` lists the buckets of the first `n` rounds: each bucket
/// that one of them falls in once, in ascending order, with the positions
/// of its rounds.
pub open spec fn is_bucket_plan(rounds: Seq<RoundRow>, resolution: int, n: int, plan: Seq<(i64, Seq<usize>)>) -> bool {
    &&& forall|k: int, l: int| 0 <= k < l < plan.len() ==> #[trigger] plan[k].0 < #[trigger] plan[l].0
    &&& forall|k: int|
        0 <= k < plan.len() ==> (#[trigger] plan[k]).1 == bucket_positions(rounds, resolution, plan[k].0 as int, n)
            && plan[k].1.len() > 0
    &&& forall|i: int|
        0 <= i < n && round_bucket(#[trigger] rounds[i], resolution) is Some ==> exists|k: int|
            0 <= k < plan.len() && plan[k].0 == round_bucket(rounds[i], resolution)->0
}

/// The view of a plan.
pub open spec fn plan_view(v: Seq<(i64, Vec<usize>)>) -> Seq<(i64, Seq<usize>)> {
    Seq::new(v.len(), |k: int| (v[k].0, v[k].1@))
}

proof fn lemma_positions_found(rounds: Seq<RoundRow>, resolution: int, b: int, n: int)
    requires
        bucket_positions(rounds, resolution, b, n).len() > 0,
    ensures
        exists|j: int| 0 <= j < n && round_bucket(#[trigger] rounds[j], resolution) == Some(b),
    decreases n,
{
    if n > 0 && round_bucket(rounds[n - 1], resolution) != Some(b) {
        lemma_positions_found(rounds, resolution, b, n - 1);
    }
}

/// The bucket of a round, if its scheduled time reads.
fn bucket_of(r: &RoundRow, resolution: i64) -> (b: Option<i64>)
    requires
        resolution > 0,
    ensures
        match b {
            Some(x) => round_bucket(*r, resolution as int) == Some(x as int),
            None => round_bucket(*r, resolution as int) is None,
        },
{
    match parse_timestamp_millis(r.scheduled_at.as_str()) {
        Some(ms) => Some(bucket_start(seconds_of_millis(ms), resolution)),
        None => None,
    }
}

/// The buckets of `resolution` seconds that the rounds fall in, in
/// ascending order, each with the positions of its rounds in order;
/// rounds whose scheduled time does not read fall in none.
pub fn plan_buckets(rounds: &[RoundRow], resolution: i64) -> (r: Vec<(i64, Vec<usize>)>)
    requires
        resolution > 0,
    ensures
        is_bucket_plan(rounds@, resolution as int, rounds@.len() as int, plan_view(r@)),
{
    let ghost res = resolution as int;
    let mut plan: Vec<(i64, Vec<usize>)> = Vec::new();
    let mut i: usize = 0;
    while i < rounds.len()
        invariant
            i <= rounds@.len(),
            res == resolution as int,
            resolution > 0,
            is_bucket_plan(rounds@, res, i as int, plan_view(plan@)),
        decreases rounds@.len() - i,
    {
        let ghost pv = plan_view(plan@);
        match bucket_of(&rounds[i], resolution) {
            None => {
                assert forall|k: int| 0 <= k < pv.len() implies (#[trigger] pv[k]).1 == bucket_positions(
                    rounds@,
                    res,
                    pv[k].0 as int,
                    i + 1,
                ) by {}
            },
            Some(b) => {
                let mut p: usize = 0;
                while p < plan.len() && plan[p].0 < b
                    invariant
                        p <= plan@.len(),
                        pv == plan_view(plan@),
                        forall|k: int| 0 <= k < p ==> (#[trigger] pv[k]).0 < b,
                    decreases plan@.len() - p,
                {
                    p = p + 1;
                }
                if p < plan.len() && plan[p].0 == b {
                    let ghost old_plan = plan@;
                    let (key, mut list) = plan.remove(p);
                    list.push(i);
                    plan.insert(p, (key, list));
                    let ghost nv = plan_view(plan@);
                    assert(nv =~= pv.update(p as int, (b, pv[p as int].1.push(i))));
                    assert forall|k: int| 0 <= k < nv.len() implies (#[trigger] nv[k]).1 == bucket_positions(
                        rounds@,
                        res,
                        nv[k].0 as int,
                        i + 1,
                    ) && nv[k].1.len() > 0 by {
                        if k != p {
                            assert(nv[k] == pv[k]);
                            assert(pv[k].0 != b);
                        }
                    }
                    assert forall|j: int| 0 <= j < i + 1 && round_bucket(#[trigger] rounds@[j], res) is Some implies exists|k: int|
                        0 <= k < nv.len() && nv[k].0 == round_bucket(rounds@[j], res)->0 by {
                        if j < i {
                            let k = choose|k: int| 0 <= k < pv.len() && pv[k].0 == round_bucket(rounds@[j], res)->0;
                            assert(nv[k].0 == pv[k].0);
                        } else {
                            assert(nv[p as int].0 == b);
                        }
                    }
                } else {
                    proof {
                        if bucket_positions(rounds@, res, b as int, i as int).len() > 0 {
                            lemma_positions_found(rounds@, res, b as int, i as int);
                            let j = choose|j: int| 0 <= j < i && round_bucket(#[trigger] rounds@[j], res) == Some(b as int);
                            let k = choose|k: int| 0 <= k < pv.len() && pv[k].0 == round_bucket(rounds@[j], res)->0;
                            if k < p {
                            } else if k == p {
                            } else {
                                assert(pv[p as int].0 < pv[k].0);
                            }
                            assert(false);
                        }
                    }
                    let mut one: Vec<usize> = Vec::new();
                    one.push(i);
                    assert(one@ =~= seq![i]);
                    plan.insert(p, (b, one));
                    let ghost nv = plan_view(plan@);
                    assert(nv =~= pv.insert(p as int, (b, seq![i])));
                    assert(bucket_positions(rounds@, res, b as int, i + 1) =~= seq![i]);
                    assert forall|k: int, l: int| 0 <= k < l < nv.len() implies #[trigger] nv[k].0 < #[trigger] nv[l].0 by {
                        if k < p && l == p {
                        } else if k == p && l > p {
                            assert(nv[l] == pv[l - 1]);
                            if l - 1 > p {
                                assert(pv[p as int].0 < pv[l - 1].0);
                            }
                        } else if k < p && l > p {
                            assert(nv[l] == pv[l - 1]);
                        } else if k > p {
                            assert(nv[k] == pv[k - 1] && nv[l] == pv[l - 1]);
                        }
                    }
                    assert forall|k: int| 0 <= k < nv.len() implies (#[trigger] nv[k]).1 == bucket_positions(
                        rounds@,
                        res,
                        nv[k].0 as int,
                        i + 1,
                    ) && nv[k].1.len() > 0 by {
                        if k < p {
                            assert(nv[k] == pv[k]);
                        } else if k > p {
                            assert(nv[k] == pv[k - 1]);
                            if k - 1 > p {
                                assert(pv[p as int].0 < pv[k - 1].0);
                            }
                        }
                    }
                    assert forall|j: int| 0 <= j < i + 1 && round_bucket(#[trigger] rounds@[j], res) is Some implies exists|k: int|
                        0 <= k < nv.len() && nv[k].0 == round_bucket(rounds@[j], res)->0 by {
                        if j < i {
                            let k = choose|k: int| 0 <= k < pv.len() && pv[k].0 == round_bucket(rounds@[j], res)->0;
                            if k < p {
                                assert(nv[k].0 == pv[k].0);
                            } else {
                                assert(nv[k + 1].0 == pv[k].0);
                            }
                        } else {
                            assert(nv[p as int].0 == b);
                        }
                    }
                }
            },
        }
        i = i + 1;
    }
    plan
}

} // verus!
