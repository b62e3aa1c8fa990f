//! Resolving the enabled checks of a configuration: each check finds its
//! profile by identifier and is resolved under it.
use vstd::prelude::*;

use crate::config::{
    check_path, params_outcome, path_of_check, profile_id, resolve_check_settings,
    spec_check_timing, verr, CheckConfig, ConfigError, ConfigErrorView, KemuriConfig,
    ProbeProfileConfig, ResolvedProbeParams, TargetConfig,
};
use crate::config::{spec_validate, NumericChecks};
use crate::ids::ProfileId;
use crate::scheduler::{enabled_checks, schedulable_checks};
use crate::text::{concat, str_eq};

verus! {

broadcast use vstd::string::group_string_axioms;

/// The position of the first profile with identifier `id`, if any.
pub open spec fn profile_index(ps: Seq<ProbeProfileConfig>, id: Seq<char>) -> Option<int> {
    if exists|i: int| 0 <= i < ps.len() && profile_id(ps[i]) == id {
        Some(
            choose|i: int|
                0 <= i < ps.len() && profile_id(ps[i]) == id && forall|j: int|
                    0 <= j < i ==> profile_id(#[trigger] ps[j]) != id,
        )
    } else {
        None
    }
}

/// The first profile with identifier `id`, if any.
pub fn find_profile(ps: &Vec<ProbeProfileConfig>, id: &ProfileId) -> (r: Option<usize>)
    ensures
        match r {
            Some(i) => {
                &&& i < ps@.len()
                &&& profile_id(ps@[i as int]) == id@
                &&& forall|j: int| 0 <= j < i ==> profile_id(#[trigger] ps@[j]) != id@
            },
            None => forall|j: int| 0 <= j < ps@.len() ==> profile_id(#[trigger] ps@[j]) != id@,
        },
        opt_index(r) == profile_index(ps@, id@),
{
    let mut i: usize = 0;
    while i < ps.len()
        invariant
            i <= ps@.len(),
            forall|j: int| 0 <= j < i ==> profile_id(#[trigger] ps@[j]) != id@,
        decreases ps@.len() - i,
    {
        if str_eq(ps[i].id().as_str(), id.as_str()) {
            proof {
                let w = i as int;
                assert(0 <= w < ps@.len() && profile_id(ps@[w]) == id@ && forall|j: int|
                    0 <= j < w ==> profile_id(#[trigger] ps@[j]) != id@);
                let c = choose|k: int|
                    0 <= k < ps@.len() && profile_id(ps@[k]) == id@ && forall|j: int|
                        0 <= j < k ==> profile_id(#[trigger] ps@[j]) != id@;
                if c < w {
                    assert(profile_id(ps@[c]) != id@);
                } else if c > w {
                    assert(profile_id(ps@[w]) != id@);
                }
            }
            return Some(i);
        }
        i = i + 1;
    }
    None
}

/// A position as an integer.
pub open spec fn opt_index(r: Option<usize>) -> Option<int> {
    match r {
        Some(i) => Some(i as int),
        None => None,
    }
}

/// The error of a check whose profile is unknown.
pub open spec fn unknown_profile(t: TargetConfig, c: CheckConfig) -> ConfigErrorView {
    verr(check_path(t.id@, c.id@) + ".profile"@, "references unknown profile: "@ + c.profile@)
}

/// A resolution without the position of the profile.
pub open spec fn without_index(
    r: Result<(usize, u64, u64, ResolvedProbeParams), ConfigError>,
) -> Result<(u64, u64, ResolvedProbeParams), ConfigError> {
    match r {
        Ok((_, i, t, v)) => Ok((i, t, v)),
        Err(e) => Err(e),
    }
}

/// What resolving a check of `target` under `profile` gives: the error of
/// its timing, or of its settings, or its interval and timeout in
/// milliseconds and its settings.
pub open spec fn settings_outcome(
    profile: ProbeProfileConfig,
    target: TargetConfig,
    check: CheckConfig,
    body: Result<Option<String>, ConfigError>,
    r: Result<(u64, u64, ResolvedProbeParams), ConfigError>,
) -> bool {
    match spec_check_timing(profile, target.id@, check) {
        Err(w) => r matches Err(e) && e@ == w,
        Ok((i, t)) => exists|q: Result<ResolvedProbeParams, ConfigError>|
            #[trigger] params_outcome(profile, check, check_path(target.id@, check.id@), body, q)
                && match q {
                Err(e) => r matches Err(f) && f@ == e@,
                Ok(v) => r matches Ok((ri, rt, rv)) && ri == i && rt == t && rv == v,
            },
    }
}

/// What resolving check `c` of target `t` gives, where `body` is the
/// outcome of reading its body secret: the error of a profile that is not
/// among the configuration's profiles, at the check's `profile` path; else
/// the position of the first profile with the check's profile id and what
/// resolving the check under it gives.
pub open spec fn check_outcome(
    config: KemuriConfig,
    t: int,
    c: int,
    body: Result<Option<String>, ConfigError>,
    r: Result<(usize, u64, u64, ResolvedProbeParams), ConfigError>,
) -> bool {
    let target = config.targets@[t];
    let check = target.checks@[c];
    match profile_index(config.profiles@, check.profile@) {
        None => r matches Err(e) && e@ == unknown_profile(target, check),
        Some(p) => {
            &&& settings_outcome(config.profiles@[p], target, check, body, without_index(r))
            &&& (r matches Ok(x) ==> x.0 == p)
        },
    }
}

/// Resolves check `c` of target `t`: the position of its profile, its
/// interval and timeout in milliseconds and its settings, where `body` is
/// the outcome of reading its body secret. A check whose profile is not
/// among the configuration's profiles is refused at its `profile` path.
pub fn resolve_check_at(
    config: &KemuriConfig,
    t: usize,
    c: usize,
    body: Result<Option<String>, ConfigError>,
) -> (r: Result<(usize, u64, u64, ResolvedProbeParams), ConfigError>)
    requires
        t < config.targets@.len(),
        c < config.targets@[t as int].checks@.len(),
    ensures
        check_outcome(*config, t as int, c as int, body, r),
{
    let target = &config.targets[t];
    let check = &target.checks[c];
    match find_profile(&config.profiles, &check.profile) {
        None => {
            let path = concat(path_of_check(&target.id, &check.id).as_str(), ".profile");
            let message = concat("references unknown profile: ", check.profile.as_str());
            Err(ConfigError::Validation { path, message })
        },
        Some(p) => {
            let s = resolve_check_settings(&config.profiles[p], target, check, body);
            match s {
                Err(e) => Err(e),
                Ok((i, tm, v)) => Ok((p, i, tm, v)),
            }
        },
    }
}

/// A resolved check: its target's and its own position in the
/// configuration, the position of its profile, its interval and timeout in
/// milliseconds, and its checked settings.
#[derive(Debug, Clone)]
pub struct ResolvedCheckParts {
    pub target: usize,
    pub check: usize,
    pub profile: usize,
    pub interval_ms: u64,
    pub timeout_ms: u64,
    pub params: ResolvedProbeParams,
}

/// A resolved check as the outcome of resolving it.
pub open spec fn parts_outcome(x: ResolvedCheckParts) -> Result<(usize, u64, u64, ResolvedProbeParams), ConfigError> {
    Ok((x.profile, x.interval_ms, x.timeout_ms, x.params))
}

/// Whether check `c` of target `t` resolves, given what was read for its
/// body secret.
pub open spec fn check_resolves(config: KemuriConfig, t: int, c: int, body: Result<Option<String>, ConfigError>) -> bool {
    exists|x: (usize, u64, u64, ResolvedProbeParams)|
        #[trigger] check_outcome(config, t, c, body, Ok::<(usize, u64, u64, ResolvedProbeParams), ConfigError>(x))
}

impl KemuriConfig {
    /// Validates the configuration, given the outcomes of its numeric
    /// checks, and resolves its scheduled checks in configuration order,
    /// where `bodies` holds, for each of them in that order, the outcome of
    /// reading its body secret. The first error is returned: that of the
    /// validation, or of the first check that does not resolve. The
    /// checks of source addresses and root certificates, and the
    /// generation and revision ids, which hash the serialised configuration
    /// and settings, are left to the caller.
    #[verifier::rlimit(40)]
    pub fn resolve(&self, numbers: &NumericChecks, bodies: Vec<Result<Option<String>, ConfigError>>) -> (r: Result<
        Vec<ResolvedCheckParts>,
        ConfigError,
    >)
        requires
            bodies@.len() == enabled_checks(self.targets@).len(),
        ensures
            match spec_validate(*self, *numbers) {
                Err(v) => r matches Err(e) && e@ == v,
                Ok(_) => {
                    let pos = enabled_checks(self.targets@);
                    match r {
                        Ok(v) => {
                            &&& v@.len() == pos.len()
                            &&& forall|k: int|
                                0 <= k < pos.len() ==> {
                                    &&& (#[trigger] v@[k]).target == pos[k].0
                                    &&& v@[k].check == pos[k].1
                                    &&& check_outcome(*self, pos[k].0 as int, pos[k].1 as int, bodies@[k], parts_outcome(v@[k]))
                                }
                        },
                        Err(e) => exists|k: int|
                            0 <= k < pos.len() && #[trigger] check_outcome(
                                *self,
                                pos[k].0 as int,
                                pos[k].1 as int,
                                bodies@[k],
                                Err::<(usize, u64, u64, ResolvedProbeParams), ConfigError>(e),
                            ) && forall|j: int|
                                0 <= j < k ==> check_resolves(*self, pos[j].0 as int, pos[j].1 as int, #[trigger] bodies@[j]),
                    }
                },
            },
    {
        match self.validate(numbers) {
            Err(e) => return Err(e),
            Ok(()) => {},
        }
        let pos = schedulable_checks(&self.targets);
        let ghost b0 = bodies@;
        let mut rest = bodies;
        let mut out: Vec<ResolvedCheckParts> = Vec::new();
        let mut k: usize = 0;
        while k < pos.len()
            invariant
                k <= pos@.len(),
                spec_validate(*self, *numbers) is Ok,
                b0 == bodies@,
                pos@ == enabled_checks(self.targets@),
                b0.len() == pos@.len(),
                forall|i: int|
                    0 <= i < pos@.len() ==> {
                        let (a, b) = #[trigger] pos@[i];
                        &&& a < self.targets@.len()
                        &&& b < self.targets@[a as int].checks@.len()
                    },
                rest@.len() + k == b0.len(),
                forall|j: int| 0 <= j < rest@.len() ==> #[trigger] rest@[j] == b0[k + j],
                out@.len() == k,
                forall|j: int|
                    0 <= j < k ==> {
                        &&& (#[trigger] out@[j]).target == pos@[j].0
                        &&& out@[j].check == pos@[j].1
                        &&& check_outcome(*self, pos@[j].0 as int, pos@[j].1 as int, b0[j], parts_outcome(out@[j]))
                    },
            decreases pos@.len() - k,
        {
            let (t, c) = pos[k];
            let ghost before = rest@;
            let body = rest.remove(0);
            assert(before[0] == b0[k as int]);
            assert forall|j: int| 0 <= j < rest@.len() implies #[trigger] rest@[j] == b0[k + 1 + j] by {
                assert(rest@[j] == before[j + 1]);
            }
            match resolve_check_at(self, t, c, body) {
                Err(e) => {
                    proof {
                        assert forall|j: int| 0 <= j < k implies check_resolves(
                            *self,
                            pos@[j].0 as int,
                            pos@[j].1 as int,
                            #[trigger] b0[j],
                        ) by {
                            let x = (out@[j].profile, out@[j].interval_ms, out@[j].timeout_ms, out@[j].params);
                            assert(parts_outcome(out@[j]) == Ok::<(usize, u64, u64, ResolvedProbeParams), ConfigError>(x));
                            assert(check_outcome(*self, pos@[j].0 as int, pos@[j].1 as int, b0[j], Ok::<(usize, u64, u64, ResolvedProbeParams), ConfigError>(x)));
                        }
                    }
                    return Err(e);
                },
                Ok((p, interval_ms, timeout_ms, params)) => {
                    out.push(ResolvedCheckParts { target: t, check: c, profile: p, interval_ms, timeout_ms, params });
                },
            }
            k = k + 1;
        }
        Ok(out)
    }
}

/// What a check's source address reads as: none given, not an IP
/// address, or an IPv4 or IPv6 address.
#[derive(Debug, Clone, Copy, PartialEq, Eq, Structural)]
pub enum SourceAddress {
    Absent,
    NotAnIp,
    Ipv4,
    Ipv6,
}

/// The outcome of checking a source address against an address family at
/// `path`: it must be an IP address, and of the family where the family is
/// `ipv4` or `ipv6`.
pub open spec fn source_address_outcome(family: Seq<char>, source: SourceAddress, path: Seq<char>) -> Result<
    (),
    ConfigErrorView,
> {
    match source {
        SourceAddress::NotAnIp => Err(verr(path + ".source_address"@, "must be an IP address"@)),
        SourceAddress::Ipv4 if family == "ipv6"@ => Err(
            verr(path + ".source_address"@, "source address is incompatible with address_family"@),
        ),
        SourceAddress::Ipv6 if family == "ipv4"@ => Err(
            verr(path + ".source_address"@, "source address is incompatible with address_family"@),
        ),
        _ => Ok(()),
    }
}

/// Checks a source address, as its parse found it, against the address
/// family of the check at `path`.
pub fn check_source_address(family: &str, source: SourceAddress, path: &str) -> (r: Result<(), ConfigError>)
    ensures
        match (r, source_address_outcome(family@, source, path@)) {
            (Ok(()), Ok(())) => true,
            (Err(e), Err(v)) => e@ == v,
            _ => false,
        },
{
    let incompatible = match source {
        SourceAddress::Absent => false,
        SourceAddress::NotAnIp => {
            return Err(ConfigError::Validation {
                path: concat(path, ".source_address"),
                message: String::from_str("must be an IP address"),
            });
        },
        SourceAddress::Ipv4 => str_eq(family, "ipv6"),
        SourceAddress::Ipv6 => str_eq(family, "ipv4"),
    };
    if incompatible {
        Err(ConfigError::Validation {
            path: concat(path, ".source_address"),
            message: String::from_str("source address is incompatible with address_family"),
        })
    } else {
        Ok(())
    }
}

} // verus!
