//! What a worker hands a probe for a scheduled check, and how the end of a
//! round becomes the result that is written.
use std::time::Duration;
use vstd::prelude::*;

use crate::config::{ResolvedCheckDef, ResolvedProbeParams};
use crate::kinds::{RoundExecutionStatus, SampleOutcome};
use crate::probe::{pairs_view, probe_error_message, ProbeExecutionError, ResolvedCheck, SampleResult};
use crate::text;
use crate::text::u64_to_decimal;
use crate::writer::spec_execution_status;

verus! {

broadcast use vstd::string::group_string_axioms;

/// The number of samples a probe takes in one round of a check: the ICMP
/// count, one for the other kinds.
pub open spec fn spec_sample_count(p: ResolvedProbeParams) -> u32 {
    match p {
        ResolvedProbeParams::Icmp(i) => i.count,
        _ => 1,
    }
}

/// The named settings a probe reads for a check: host and port for TCP;
/// the name, and the record type and server when set, for DNS; none for
/// the other kinds.
pub open spec fn spec_check_params(p: ResolvedProbeParams) -> Seq<(Seq<char>, Seq<char>)> {
    match p {
        ResolvedProbeParams::Tcp(t) => seq![("host"@, t.host@), ("port"@, text::decimal(t.port as nat))],
        ResolvedProbeParams::Dns(d) => seq![("name"@, d.domain@)] + match d.record_type {
            Some(rt) => seq![("record_type"@, rt@)],
            None => Seq::empty(),
        } + match d.resolver {
            Some(s) => seq![("server"@, s@)],
            None => Seq::empty(),
        },
        _ => Seq::empty(),
    }
}

fn port_text(port: u16) -> (r: String)
    ensures
        r@ == text::decimal(port as nat),
{
    u64_to_decimal(port as u64)
}

/// The check as a probe runs it.
pub fn resolved_check_for(check: &ResolvedCheckDef) -> (r: ResolvedCheck)
    ensures
        r.check_id@ == check.check_id@,
        r.target_id@ == check.target_id@,
        r.profile_id@ == check.profile_id@,
        r.address@ == check.target_address@,
        r.probe_kind == check.probe_kind,
        r.timeout == check.timeout,
        r.sample_count == spec_sample_count(check.probe_params),
        pairs_view(r.params@) == spec_check_params(check.probe_params),
{
    let sample_count = match &check.probe_params {
        ResolvedProbeParams::Icmp(p) => p.count,
        _ => 1,
    };
    let mut params: Vec<(String, String)> = Vec::new();
    match &check.probe_params {
        ResolvedProbeParams::Tcp(p) => {
            params.push((String::from_str("host"), p.host.clone()));
            params.push((String::from_str("port"), port_text(p.port)));
        },
        ResolvedProbeParams::Dns(p) => {
            params.push((String::from_str("name"), p.domain.clone()));
            if let Some(rt) = &p.record_type {
                params.push((String::from_str("record_type"), rt.clone()));
            }
            if let Some(srv) = &p.resolver {
                params.push((String::from_str("server"), srv.clone()));
            }
        },
        _ => {},
    }
    assert(pairs_view(params@) =~= spec_check_params(check.probe_params));
    ResolvedCheck {
        check_id: check.check_id.clone(),
        target_id: check.target_id.clone(),
        profile_id: check.profile_id.clone(),
        address: check.target_address.clone(),
        probe_kind: check.probe_kind,
        timeout: check.timeout,
        sample_count,
        params,
    }
}

/// How a round ended: no probe is registered for the check's kind; the
/// probe failed with an error after `elapsed`; the probe ran past the
/// check's timeout; or the probe finished with its sample results.
#[derive(Debug, Clone)]
pub enum RoundEnd {
    NoProbe,
    Failed { error: ProbeExecutionError, elapsed: Duration },
    TimedOut,
    Finished(Vec<SampleResult>),
}

/// What is written of a round: its execution status, why it stopped, its
/// sample results and the configured number of samples.
#[derive(Debug, Clone)]
pub struct RoundOutcome {
    pub execution_status: RoundExecutionStatus,
    pub stop_reason: Option<String>,
    pub sample_results: Vec<SampleResult>,
    pub configured_samples: u32,
}

/// The outcome of a round of a check with the given timeout: without a
/// probe, an internal error with no samples; after a probe error, an
/// internal error with one internal-error sample that took `elapsed`; after
/// the timeout, a complete round with one timed-out sample that took the
/// timeout; otherwise the probe's samples, partial when some got a
/// response and others did not.
pub fn finish_round(end: RoundEnd, timeout: Duration) -> (r: RoundOutcome)
    ensures
        r.configured_samples == 1,
        match end {
            RoundEnd::NoProbe => {
                &&& r.execution_status == RoundExecutionStatus::InternalError
                &&& r.stop_reason matches Some(s) && s@ == "no_probe_registered"@
                &&& r.sample_results@.len() == 0
            },
            RoundEnd::Failed { error, elapsed } => {
                &&& r.execution_status == RoundExecutionStatus::InternalError
                &&& r.stop_reason matches Some(s) && s@ == probe_error_message(error)
                &&& r.sample_results@.len() == 1
                &&& r.sample_results@[0].outcome == SampleOutcome::InternalError
                &&& r.sample_results@[0].latency == Some(elapsed)
                &&& r.sample_results@[0].detail is None
                &&& r.sample_results@[0].metadata is None
            },
            RoundEnd::TimedOut => {
                &&& r.execution_status == RoundExecutionStatus::Complete
                &&& r.stop_reason matches Some(s) && s@ == "timeout"@
                &&& r.sample_results@.len() == 1
                &&& r.sample_results@[0].outcome == SampleOutcome::Timeout
                &&& r.sample_results@[0].latency == Some(timeout)
                &&& r.sample_results@[0].detail is None
                &&& r.sample_results@[0].metadata is None
            },
            RoundEnd::Finished(results) => {
                &&& r.execution_status == spec_execution_status(results@)
                &&& r.stop_reason is None
                &&& r.sample_results == results
            },
        },
{
    match end {
        RoundEnd::NoProbe => RoundOutcome {
            execution_status: RoundExecutionStatus::InternalError,
            stop_reason: Some(String::from_str("no_probe_registered")),
            sample_results: Vec::new(),
            configured_samples: 1,
        },
        RoundEnd::Failed { error, elapsed } => {
            let sample = SampleResult {
                outcome: SampleOutcome::InternalError,
                latency: Some(elapsed),
                detail: None,
                metadata: None,
            };
            RoundOutcome {
                execution_status: RoundExecutionStatus::InternalError,
                stop_reason: Some(error.to_string()),
                sample_results: vec![sample],
                configured_samples: 1,
            }
        },
        RoundEnd::TimedOut => {
            let sample = SampleResult {
                outcome: SampleOutcome::Timeout,
                latency: Some(timeout),
                detail: None,
                metadata: None,
            };
            RoundOutcome {
                execution_status: RoundExecutionStatus::Complete,
                stop_reason: Some(String::from_str("timeout")),
                sample_results: vec![sample],
                configured_samples: 1,
            }
        },
        RoundEnd::Finished(results) => {
            let execution_status = crate::writer::classify_execution_status(results.as_slice());
            RoundOutcome { execution_status, stop_reason: None, sample_results: results, configured_samples: 1 }
        },
    }
}

} // verus!
