//! The server's own outcomes: the errors that stop it, and the status that
//! a configuration reload leaves behind.
use vstd::prelude::*;

use crate::api::{bad_request, ApiError};
use crate::probe::opt_view;
use crate::text::{concat, concat3};

verus! {

broadcast use vstd::string::group_string_axioms;

/// Why the server stopped: metrics, binding its address, serving, or its
/// storage failed.
#[derive(Debug, Clone)]
pub enum ServerError {
    Metrics(String),
    Bind(String),
    Serve(String),
    Storage(String),
}

/// The text of a server error.
pub open spec fn server_error_text(e: ServerError) -> Seq<char> {
    match e {
        ServerError::Metrics(m) => "metrics: "@ + m@,
        ServerError::Bind(m) => "bind: "@ + m@,
        ServerError::Serve(m) => "serve: "@ + m@,
        ServerError::Storage(m) => "storage: "@ + m@,
    }
}

impl ServerError {
    /// The error as text: what failed and its message.
    pub fn to_string(&self) -> (r: String)
        ensures
            r@ == server_error_text(*self),
    {
        match self {
            ServerError::Metrics(m) => concat("metrics: ", m.as_str()),
            ServerError::Bind(m) => concat("bind: ", m.as_str()),
            ServerError::Serve(m) => concat("serve: ", m.as_str()),
            ServerError::Storage(m) => concat("storage: ", m.as_str()),
        }
    }
}

/// The outcome of the last configuration reload: the generation of the new
/// configuration (empty when it was never computed), `success` or
/// `failure`, the error if it failed, and when it ended.
#[derive(Debug, Clone)]
pub struct ReloadStatus {
    pub generation: String,
    pub result: String,
    pub error: Option<String>,
    pub timestamp_ms: i64,
}

/// How a configuration reload ended: the file could not be read or parsed,
/// the configuration could not be resolved, its notifiers could not be
/// built, the database could not be reconciled with it, the alerts of
/// removed rules could not be resolved, or it took effect. The
/// generation is that of the new configuration.
#[derive(Debug, Clone)]
pub enum ReloadOutcome {
    LoadFailed(String),
    ResolveFailed(String),
    NotifiersFailed { generation: String },
    ReconcileFailed { generation: String, error: String },
    AlertsFailed,
    Applied { generation: String },
}

/// The status a reload that ended with `o` at `timestamp_ms` leaves, if
/// any, as (generation, result, error, time).
pub open spec fn spec_reload_status(o: ReloadOutcome, timestamp_ms: i64) -> Option<(Seq<char>, Seq<char>, Option<Seq<char>>, i64)> {
    match o {
        ReloadOutcome::LoadFailed(e) => Some((Seq::empty(), "failure"@, Some(e@), timestamp_ms)),
        ReloadOutcome::ResolveFailed(e) => Some((Seq::empty(), "failure"@, Some(e@), timestamp_ms)),
        ReloadOutcome::NotifiersFailed { generation } => Some(
            (generation@, "failure"@, Some("notifier initialization failed"@), timestamp_ms),
        ),
        ReloadOutcome::ReconcileFailed { generation, error } => Some((generation@, "failure"@, Some(error@), timestamp_ms)),
        ReloadOutcome::AlertsFailed => None,
        ReloadOutcome::Applied { generation } => Some((generation@, "success"@, None, timestamp_ms)),
    }
}

/// The view of a reload status.
pub open spec fn reload_status_view(s: ReloadStatus) -> (Seq<char>, Seq<char>, Option<Seq<char>>, i64) {
    (s.generation@, s.result@, crate::probe::opt_view(s.error), s.timestamp_ms)
}

/// The status that a reload which ended with `outcome` at `timestamp_ms`
/// leaves: a failure with its error, or a success, each with the new
/// generation where it was computed; none when the alerts of removed rules
/// could not be resolved, which leaves the previous status.
pub fn reload_status(outcome: ReloadOutcome, timestamp_ms: i64) -> (r: Option<ReloadStatus>)
    ensures
        match r {
            Some(s) => spec_reload_status(outcome, timestamp_ms) == Some(reload_status_view(s)),
            None => spec_reload_status(outcome, timestamp_ms) is None,
        },
{
    match outcome {
        ReloadOutcome::LoadFailed(e) => Some(ReloadStatus {
            generation: String::new(),
            result: String::from_str("failure"),
            error: Some(e),
            timestamp_ms,
        }),
        ReloadOutcome::ResolveFailed(e) => Some(ReloadStatus {
            generation: String::new(),
            result: String::from_str("failure"),
            error: Some(e),
            timestamp_ms,
        }),
        ReloadOutcome::NotifiersFailed { generation } => Some(ReloadStatus {
            generation,
            result: String::from_str("failure"),
            error: Some(String::from_str("notifier initialization failed")),
            timestamp_ms,
        }),
        ReloadOutcome::ReconcileFailed { generation, error } => Some(ReloadStatus {
            generation,
            result: String::from_str("failure"),
            error: Some(error),
            timestamp_ms,
        }),
        ReloadOutcome::AlertsFailed => None,
        ReloadOutcome::Applied { generation } => Some(ReloadStatus {
            generation,
            result: String::from_str("success"),
            error: None,
            timestamp_ms,
        }),
    }
}

/// The configuration that is active after a reload that ended with
/// `outcome`: the new one where the reload took effect, and otherwise the
/// one that was active before.
pub fn active_after_reload<T>(active: T, candidate: T, outcome: &ReloadOutcome) -> (r: T)
    ensures
        r == (if *outcome is Applied {
            candidate
        } else {
            active
        }),
{
    match outcome {
        ReloadOutcome::Applied { .. } => candidate,
        _ => active,
    }
}

/// A reload reports success exactly when it took effect; every other
/// reload leaves the active configuration in place and reports a failure
/// with its error, except one whose removed alerts could not be resolved,
/// which reports nothing.
pub proof fn law_failed_reload_keeps_active(outcome: ReloadOutcome, timestamp_ms: i64)
    ensures
        (spec_reload_status(outcome, timestamp_ms) matches Some(s) && s.1 == "success"@) <==> outcome is Applied,
        !(outcome is Applied) ==> (spec_reload_status(outcome, timestamp_ms) is None || (spec_reload_status(
            outcome,
            timestamp_ms,
        ) matches Some(s) && s.1 == "failure"@ && s.2 is Some)),
{
    reveal_strlit("success");
    reveal_strlit("failure");
    assert("success"@[0] != "failure"@[0]);
}

/// The answer to a readiness probe: whether the runtime tasks run, whether
/// the probes the checks need are available, whether the disk has room,
/// and what the database answered to a trivial query (none if it failed).
pub open spec fn spec_readiness(runtime_ready: bool, probe_ready: bool, disk_ready: bool, db_answer: Option<i64>) -> (u16, Seq<char>) {
    if !runtime_ready {
        (503, "runtime task unavailable"@)
    } else if !probe_ready {
        (503, "probe capability unavailable"@)
    } else if !disk_ready {
        (503, "disk pressure"@)
    } else if db_answer == Some(1i64) {
        (200, "ok"@)
    } else {
        (503, "not ready"@)
    }
}

/// The status code and text that answer a readiness probe.
pub fn readiness(runtime_ready: bool, probe_ready: bool, disk_ready: bool, db_answer: Option<i64>) -> (r: (u16, &'static str))
    ensures
        (r.0, r.1@) == spec_readiness(runtime_ready, probe_ready, disk_ready, db_answer),
{
    if !runtime_ready {
        (503, "runtime task unavailable")
    } else if !probe_ready {
        (503, "probe capability unavailable")
    } else if !disk_ready {
        (503, "disk pressure")
    } else if db_answer == Some(1i64) {
        (200, "ok")
    } else {
        (503, "not ready")
    }
}

/// A stored alert state: its internal id, rule, check, observer and state.
pub type AlertStateRow = (i64, String, i64, i64, String);

/// Whether an alert state row with internal id `id` is among `rows`.
pub open spec fn row_listed(rows: Seq<AlertStateRow>, id: i64) -> bool {
    exists|k: int| 0 <= k < rows.len() && rows[k].0 == id
}

/// The alert states to resolve when the configuration changes: the open
/// states of inactive or removed checks, then, in order, the open states
/// whose rule is no longer configured, each internal id once.
pub open spec fn removed_alerts(
    of_inactive_checks: Seq<AlertStateRow>,
    open_states: Seq<AlertStateRow>,
    rules: Seq<Seq<char>>,
) -> Seq<AlertStateRow>
    decreases open_states.len(),
{
    if open_states.len() == 0 {
        of_inactive_checks
    } else {
        let before = removed_alerts(of_inactive_checks, open_states.drop_last(), rules);
        let row = open_states.last();
        if !rules.contains(row.1@) && !row_listed(before, row.0) {
            before.push(row)
        } else {
            before
        }
    }
}

/// Whether one of the rules is `id`.
fn rule_configured(rules: &Vec<String>, id: &str) -> (r: bool)
    ensures
        r == rules@.map_values(|x: String| x@).contains(id@),
{
    let ghost rv = rules@.map_values(|x: String| x@);
    let mut i: usize = 0;
    while i < rules.len()
        invariant
            i <= rules@.len(),
            rv == rules@.map_values(|x: String| x@),
            forall|j: int| 0 <= j < i ==> rv[j] != id@,
        decreases rules@.len() - i,
    {
        if crate::text::str_eq(rules[i].as_str(), id) {
            assert(rv[i as int] == id@);
            return true;
        }
        i = i + 1;
    }
    false
}

/// Whether one of the rows has the internal id `id`.
fn has_row(rows: &Vec<AlertStateRow>, id: i64) -> (r: bool)
    ensures
        r == row_listed(rows@, id),
{
    let mut i: usize = 0;
    while i < rows.len()
        invariant
            i <= rows@.len(),
            forall|j: int| 0 <= j < i ==> rows@[j].0 != id,
        decreases rows@.len() - i,
    {
        if rows[i].0 == id {
            return true;
        }
        i = i + 1;
    }
    false
}

/// The alert states to resolve when the configuration changes, given the
/// open states of inactive or removed checks, all open states, and the
/// configured rules.
pub fn removed_alert_states(
    of_inactive_checks: Vec<AlertStateRow>,
    open_states: Vec<AlertStateRow>,
    rules: &Vec<String>,
) -> (r: Vec<AlertStateRow>)
    ensures
        r@ == removed_alerts(of_inactive_checks@, open_states@, rules@.map_values(|x: String| x@)),
{
    let ghost rv = rules@.map_values(|x: String| x@);
    let ghost orig = open_states@;
    let mut out = of_inactive_checks;
    let mut rest = open_states;
    let total: usize = rest.len();
    let mut i: usize = 0;
    assert(orig.take(0) =~= Seq::<AlertStateRow>::empty());
    while rest.len() > 0
        invariant
            i + rest@.len() == orig.len(),
            orig.len() == total,
            rv == rules@.map_values(|x: String| x@),
            forall|j: int| 0 <= j < rest@.len() ==> #[trigger] rest@[j] == orig[i + j],
            out@ == removed_alerts(of_inactive_checks@, orig.take(i as int), rv),
        decreases rest@.len(),
    {
        let ghost before = rest@;
        let row = rest.remove(0);
        assert(row == orig[i as int]);
        assert(orig.take(i + 1).drop_last() =~= orig.take(i as int));
        assert(orig.take(i + 1).last() == orig[i as int]);
        if !rule_configured(rules, row.1.as_str()) && !has_row(&out, row.0) {
            out.push(row);
        }
        assert forall|j: int| 0 <= j < rest@.len() implies #[trigger] rest@[j] == orig[i + 1 + j] by {
            assert(rest@[j] == before[j + 1]);
        }
        i = i + 1;
    }
    assert(orig.take(i as int) =~= orig);
    out
}

/// The origin of the server's own pages: `http://`, its bind address, a
/// colon and its port.
pub open spec fn local_origin(bind: Seq<char>, port: u16) -> Seq<char> {
    "http://"@ + bind + ":"@ + crate::text::decimal(port as nat)
}

/// The error for a request to reload the configuration, if any: its
/// content type must start with `application/json`, and its origin, if
/// given, must be the server's public URL or its own pages' origin.
pub open spec fn reload_request_error(
    content_type: Option<Seq<char>>,
    origin: Option<Seq<char>>,
    server: crate::config::ServerConfig,
) -> Option<Seq<char>> {
    let ct = match content_type {
        Some(c) => c,
        None => Seq::empty(),
    };
    if !crate::text::starts_with(ct, "application/json"@) {
        Some("Content-Type must be application/json"@)
    } else {
        match origin {
            Some(o) => if opt_view(server.public_url) != Some(o) && o != local_origin(server.bind@, server.port) {
                Some("cross-origin reload is not permitted"@)
            } else {
                None
            },
            None => None,
        }
    }
}

/// Checks a request to reload the configuration, given its content type
/// and origin headers where they are readable text.
pub fn check_reload_request(
    content_type: Option<&str>,
    origin: Option<&str>,
    server: &crate::config::ServerConfig,
) -> (r: Result<(), ApiError>)
    ensures
        match reload_request_error(
            match content_type { Some(c) => Some(c@), None => None },
            match origin { Some(o) => Some(o@), None => None },
            *server,
        ) {
            Some(m) => r matches Err(e) && e.code@ == "bad_request"@ && e.message@ == m,
            None => r is Ok,
        },
{
    let ct = match content_type {
        Some(c) => c,
        None => "",
    };
    proof {
        reveal_strlit("");
        assert(""@ =~= Seq::<char>::empty());
    }
    assert(ct@ == (match content_type {
        Some(c) => c@,
        None => Seq::<char>::empty(),
    }));
    if !crate::text::str_starts_with(ct, "application/json") {
        return Err(bad_request("Content-Type must be application/json"));
    }
    if let Some(o) = origin {
        let mut local = concat3("http://", server.bind.as_str(), ":");
        let port = crate::text::u64_to_decimal(server.port as u64);
        local.append(port.as_str());
        let public_matches = match &server.public_url {
            Some(u) => crate::text::str_eq(u.as_str(), o),
            None => false,
        };
        assert(local@ == local_origin(server.bind@, server.port));
        if !public_matches && !crate::text::str_eq(o, local.as_str()) {
            assert(opt_view(server.public_url) != Some(o@));
            return Err(bad_request("cross-origin reload is not permitted"));
        }
    }
    Ok(())
}

} // verus!
