//! What probes exchange with the scheduler: the resolved check, the round
//! context, sample results and errors, and the plain form of an I/O error
//! that the classification of failures reads.
use std::time::Duration;
use vstd::prelude::*;

use crate::ids::{CheckId, ObserverId, ProfileId, TargetId};
use crate::kinds::{ProbeKind, SampleOutcome};
use crate::text::str_eq;

verus! {

/// Why a probe could not run a round.
#[derive(Debug, Clone)]
pub enum ProbeExecutionError {
    Timeout(String),
    Network(String),
    Dns(String),
    Tls(String),
    Protocol(String),
    Permission(String),
    Cancelled,
    Internal(String),
}

/// The message of a probe error.
pub open spec fn probe_error_message(e: ProbeExecutionError) -> Seq<char> {
    match e {
        ProbeExecutionError::Timeout(m) => "timeout after "@ + m@,
        ProbeExecutionError::Network(m) => "network error: "@ + m@,
        ProbeExecutionError::Dns(m) => "dns error: "@ + m@,
        ProbeExecutionError::Tls(m) => "tls error: "@ + m@,
        ProbeExecutionError::Protocol(m) => "protocol error: "@ + m@,
        ProbeExecutionError::Permission(m) => "permission denied: "@ + m@,
        ProbeExecutionError::Cancelled => "cancelled"@,
        ProbeExecutionError::Internal(m) => "internal error: "@ + m@,
    }
}

impl ProbeExecutionError {
    /// The error's message.
    pub fn to_string(&self) -> (r: String)
        ensures
            r@ == probe_error_message(*self),
    {
        match self {
            ProbeExecutionError::Timeout(m) => crate::text::concat("timeout after ", m.as_str()),
            ProbeExecutionError::Network(m) => crate::text::concat("network error: ", m.as_str()),
            ProbeExecutionError::Dns(m) => crate::text::concat("dns error: ", m.as_str()),
            ProbeExecutionError::Tls(m) => crate::text::concat("tls error: ", m.as_str()),
            ProbeExecutionError::Protocol(m) => crate::text::concat("protocol error: ", m.as_str()),
            ProbeExecutionError::Permission(m) => crate::text::concat("permission denied: ", m.as_str()),
            ProbeExecutionError::Cancelled => String::from_str("cancelled"),
            ProbeExecutionError::Internal(m) => crate::text::concat("internal error: ", m.as_str()),
        }
    }
}

/// The observer and timing of one round.
#[derive(Debug, Clone)]
pub struct RoundContext {
    pub observer_id: ObserverId,
    pub scheduled_at: Duration,
    pub deadline: Duration,
}

/// A check as a probe runs it. `params` holds named settings as pairs,
/// each name at most once.
#[derive(Debug, Clone)]
pub struct ResolvedCheck {
    pub check_id: CheckId,
    pub target_id: TargetId,
    pub profile_id: ProfileId,
    pub address: String,
    pub probe_kind: ProbeKind,
    pub timeout: Duration,
    pub sample_count: u32,
    pub params: Vec<(String, String)>,
}

/// The result of one sample. `metadata` holds named values as pairs, each
/// name at most once.
#[derive(Debug, Clone)]
pub struct SampleResult {
    pub outcome: SampleOutcome,
    pub latency: Option<Duration>,
    pub detail: Option<String>,
    pub metadata: Option<Vec<(String, String)>>,
}

/// The results of one round of a check.
#[derive(Debug, Clone)]
pub struct ProbeRound {
    pub check_id: CheckId,
    pub results: Vec<SampleResult>,
}

/// The kinds of I/O error that the classification of failures tells apart.
#[derive(Debug, Clone, Copy, PartialEq, Eq, Structural)]
pub enum IoErrorKind {
    PermissionDenied,
    NetworkUnreachable,
    ConnectionRefused,
    ConnectionReset,
    TimedOut,
    Other,
}

/// An I/O error as plain values: its kind and its message.
#[derive(Debug, Clone)]
pub struct IoErrorInfo {
    pub kind: IoErrorKind,
    pub message: String,
}

/// The views of a list of name/value pairs.
pub open spec fn pairs_view(v: Seq<(String, String)>) -> Seq<(Seq<char>, Seq<char>)> {
    Seq::new(v.len(), |i: int| (v[i].0@, v[i].1@))
}

/// The view of an optional string.
pub open spec fn opt_view(o: Option<String>) -> Option<Seq<char>> {
    match o {
        Some(s) => Some(s@),
        None => None,
    }
}

/// The views of a list of strings.
pub open spec fn strings_view(v: Seq<String>) -> Seq<Seq<char>> {
    Seq::new(v.len(), |i: int| v[i]@)
}

/// A copy of a list of name/value pairs.
pub fn clone_pairs(v: &Vec<(String, String)>) -> (r: Vec<(String, String)>)
    ensures
        pairs_view(r@) == pairs_view(v@),
{
    let mut r: Vec<(String, String)> = Vec::new();
    let mut i: usize = 0;
    while i < v.len()
        invariant
            i <= v@.len(),
            r@.len() == i,
            pairs_view(r@) == pairs_view(v@).take(i as int),
        decreases v@.len() - i,
    {
        let p = (v[i].0.clone(), v[i].1.clone());
        let ghost old_r = r@;
        r.push(p);
        assert(r@[i as int].0@ == v@[i as int].0@);
        assert(r@[i as int].1@ == v@[i as int].1@);
        assert forall|k: int| 0 <= k < i + 1 implies pairs_view(r@)[k] == pairs_view(v@)[k] by {
            if k < i {
                assert(pairs_view(old_r)[k] == pairs_view(v@).take(i as int)[k]);
            }
        }
        assert(pairs_view(r@) =~= pairs_view(v@).take(i + 1));
        i = i + 1;
    }
    assert(pairs_view(v@).take(i as int) =~= pairs_view(v@));
    r
}

/// A copy of a list of strings.
pub fn clone_strings(v: &Vec<String>) -> (r: Vec<String>)
    ensures
        strings_view(r@) == strings_view(v@),
{
    let mut r: Vec<String> = Vec::new();
    let mut i: usize = 0;
    while i < v.len()
        invariant
            i <= v@.len(),
            r@.len() == i,
            strings_view(r@) == strings_view(v@).take(i as int),
        decreases v@.len() - i,
    {
        let ghost old_r = r@;
        r.push(v[i].clone());
        assert forall|k: int| 0 <= k < i + 1 implies strings_view(r@)[k] == strings_view(v@)[k] by {
            if k < i {
                assert(strings_view(old_r)[k] == strings_view(v@).take(i as int)[k]);
            }
        }
        assert(strings_view(r@) =~= strings_view(v@).take(i + 1));
        i = i + 1;
    }
    assert(strings_view(v@).take(i as int) =~= strings_view(v@));
    r
}

/// A copy of an optional string.
pub fn clone_opt(o: &Option<String>) -> (r: Option<String>)
    ensures
        opt_view(r) == opt_view(*o),
{
    match o {
        Some(s) => Some(s.clone()),
        None => None,
    }
}

/// The value of the first pair named `k`.
pub open spec fn lookup(ps: Seq<(Seq<char>, Seq<char>)>, k: Seq<char>) -> Option<Seq<char>>
    decreases ps.len(),
{
    if ps.len() == 0 {
        None
    } else if ps[0].0 == k {
        Some(ps[0].1)
    } else {
        lookup(ps.drop_first(), k)
    }
}

/// The value of the first pair named `key`.
pub fn param_get(params: &Vec<(String, String)>, key: &str) -> (r: Option<String>)
    ensures
        opt_view(r) == lookup(pairs_view(params@), key@),
{
    let ghost ps = pairs_view(params@);
    let mut i: usize = 0;
    assert(ps.skip(0) =~= ps);
    while i < params.len()
        invariant
            i <= params@.len(),
            ps == pairs_view(params@),
            lookup(ps, key@) == lookup(ps.skip(i as int), key@),
        decreases params@.len() - i,
    {
        assert(ps.skip(i as int)[0] == ps[i as int]);
        assert(ps.skip(i as int).drop_first() =~= ps.skip(i + 1));
        if str_eq(params[i].0.as_str(), key) {
            return Some(params[i].1.clone());
        }
        i = i + 1;
    }
    assert(ps.skip(i as int).len() == 0);
    None
}

/// A probe of one kind of check.
pub trait Probe {
    /// The kind of check the probe runs.
    spec fn spec_kind(&self) -> ProbeKind;

    /// The kind of check the probe runs.
    fn kind(&self) -> (r: ProbeKind)
        ensures
            r == self.spec_kind(),
    ;
}

} // verus!
