//! The decisions of the notification worker: what to write for an outbox
//! entry after a delivery attempt, and the parts of a notification that
//! follow from the stored event, check and target.
use std::time::Duration;
use vstd::prelude::*;

use crate::config::{SecretRead, SecretRef};
use crate::alerts::{compute_backoff, spec_backoff_secs, MAX_RETRY_ATTEMPTS};
use crate::duration::duration_nanos;
use crate::http::{json_string_map, read_json_string_map};
use crate::ids::{CheckId, RuleId, TargetId, is_valid_id};
use crate::kinds::{AlertEventKind, ProbeKind, probe_kind_of_name};
use crate::probe::pairs_view;
use crate::text::{chars_of, str_eq};

verus! {

broadcast use vstd::string::group_string_axioms;

/// What became of one delivery attempt of an outbox entry: delivered; the
/// notifier is not configured; the payload could not be built, or the
/// notifier failed to send it, with the error's message.
#[derive(Debug, Clone)]
pub enum DeliveryOutcome {
    Delivered,
    NotifierMissing,
    PayloadFailed(String),
    SendFailed(String),
}

/// What to write for an outbox entry: delivered; failed for good with an
/// error; or to be tried again after `delay`, with the error.
#[derive(Debug, Clone)]
pub enum OutboxAction {
    MarkDelivered,
    MarkFailed(String),
    MarkRetry { delay: Duration, error: String },
}

/// The error message that an outcome reports, if it is a failure.
pub open spec fn outcome_error(o: DeliveryOutcome) -> Option<Seq<char>> {
    match o {
        DeliveryOutcome::Delivered => None,
        DeliveryOutcome::NotifierMissing => Some("notifier not configured"@),
        DeliveryOutcome::PayloadFailed(m) => Some(m@),
        DeliveryOutcome::SendFailed(m) => Some(m@),
    }
}

/// What to write for an outbox entry that has been attempted
/// `attempt_count` times before, after the attempt ended with `outcome`: a
/// delivery is marked delivered; a failure is marked failed for good when
/// it was the last allowed attempt, and otherwise retried after the backoff
/// for `attempt_count`, whatever its random jitter.
pub fn outbox_action(attempt_count: i64, outcome: DeliveryOutcome) -> (r: OutboxAction)
    requires
        0 <= attempt_count < i64::MAX,
    ensures
        match outcome_error(outcome) {
            None => r is MarkDelivered,
            Some(m) => if attempt_count + 1 >= 10 {
                r matches OutboxAction::MarkFailed(e) && e@ == m
            } else {
                r matches OutboxAction::MarkRetry { delay, error } && error@ == m && exists|x: u64|
                    duration_nanos(delay) == #[trigger] spec_backoff_secs(attempt_count as nat, x)
                        * 1_000_000_000
            },
        },
{
    let error = match outcome {
        DeliveryOutcome::Delivered => {
            return OutboxAction::MarkDelivered;
        },
        DeliveryOutcome::NotifierMissing => String::from_str("notifier not configured"),
        DeliveryOutcome::PayloadFailed(m) => m,
        DeliveryOutcome::SendFailed(m) => m,
    };
    if attempt_count + 1 >= MAX_RETRY_ATTEMPTS {
        OutboxAction::MarkFailed(error)
    } else {
        let delay = compute_backoff(attempt_count);
        OutboxAction::MarkRetry { delay, error }
    }
}

/// The kind of a stored event type: `firing`, and resolved for anything
/// else.
pub fn event_kind_of(event_type: &str) -> (r: AlertEventKind)
    ensures
        r == (if event_type@ == "firing"@ {
            AlertEventKind::Firing
        } else {
            AlertEventKind::Resolved
        }),
{
    if str_eq(event_type, "firing") {
        AlertEventKind::Firing
    } else {
        AlertEventKind::Resolved
    }
}

/// `s` without the slashes at its end.
pub open spec fn strip_trailing_slashes(s: Seq<char>) -> Seq<char>
    decreases s.len(),
{
    if s.len() > 0 && s.last() == '/' {
        strip_trailing_slashes(s.drop_last())
    } else {
        s
    }
}

/// The link to a check in the web interface under `public_url`, if the
/// monitor has one.
pub fn notification_url(public_url: Option<&str>, target_id: &str, check_id: &str) -> (r: Option<String>)
    ensures
        match public_url {
            Some(base) => r matches Some(u) && u@ == strip_trailing_slashes(base@) + "/targets/"@
                + target_id@ + "/checks/"@ + check_id@,
            None => r is None,
        },
{
    match public_url {
        None => None,
        Some(base) => {
            let cs = chars_of(base);
            let mut n: usize = cs.len();
            assert(cs@.take(n as int) =~= base@);
            while n > 0 && cs[n - 1] == '/'
                invariant
                    n <= cs@.len(),
                    cs@ == base@,
                    strip_trailing_slashes(cs@.take(n as int)) == strip_trailing_slashes(base@),
                decreases n,
            {
                assert(cs@.take(n as int).drop_last() =~= cs@.take(n - 1));
                n = n - 1;
            }
            let mut u = base.substring_char(0, n).to_owned();
            assert(u@ =~= cs@.take(n as int));
            u.append("/targets/");
            u.append(target_id);
            u.append("/checks/");
            u.append(check_id);
            Some(u)
        },
    }
}

/// `unknown` is a valid identifier.
proof fn lemma_unknown_is_valid()
    ensures
        is_valid_id("unknown"@),
{
    reveal_strlit("unknown");
    vstd::utf8::is_ascii_chars_encode_utf8("unknown"@);
}

/// The rule of a stored event, or the rule `unknown` when its id is not
/// valid.
pub fn rule_id_or_unknown(s: &str) -> (r: RuleId)
    ensures
        r@ == (if is_valid_id(s@) {
            s@
        } else {
            "unknown"@
        }),
{
    match RuleId::new(s) {
        Ok(id) => id,
        Err(_) => {
            proof {
                lemma_unknown_is_valid();
            }
            RuleId::new("unknown").unwrap()
        },
    }
}

/// The target of a stored event, or the target `unknown` when its id is
/// not valid.
pub fn target_id_or_unknown(s: &str) -> (r: TargetId)
    ensures
        r@ == (if is_valid_id(s@) {
            s@
        } else {
            "unknown"@
        }),
{
    match TargetId::new(s) {
        Ok(id) => id,
        Err(_) => {
            proof {
                lemma_unknown_is_valid();
            }
            TargetId::new("unknown").unwrap()
        },
    }
}

/// The check of a stored event, or the check `unknown` when its id is not
/// valid.
pub fn check_id_or_unknown(s: &str) -> (r: CheckId)
    ensures
        r@ == (if is_valid_id(s@) {
            s@
        } else {
            "unknown"@
        }),
{
    match CheckId::new(s) {
        Ok(id) => id,
        Err(_) => {
            proof {
                lemma_unknown_is_valid();
            }
            CheckId::new("unknown").unwrap()
        },
    }
}

/// The probe kind of a stored check, ICMP when its name is not known.
pub fn probe_kind_or_icmp(s: &str) -> (r: ProbeKind)
    ensures
        r == (match probe_kind_of_name(s@) {
            Some(k) => k,
            None => ProbeKind::Icmp,
        }),
{
    match ProbeKind::parse(s) {
        Ok(k) => k,
        Err(_) => ProbeKind::Icmp,
    }
}

/// The labels of a stored target, read from their JSON object; none when
/// it does not read.
pub fn labels_from_json(labels: &str) -> (r: Vec<(String, String)>)
    ensures
        pairs_view(r@) == (match json_string_map(labels@) {
            Ok(p) => p,
            Err(_) => Seq::empty(),
        }),
{
    match read_json_string_map(labels) {
        Ok(v) => v,
        Err(_) => {
            let v: Vec<(String, String)> = Vec::new();
            assert(pairs_view(v@) =~= Seq::empty());
            v
        },
    }
}

/// Why a notification could not be sent: the delivery failed, or the
/// notifier is misconfigured.
#[derive(Debug, Clone)]
pub enum NotificationError {
    Delivery(String),
    Config(String),
}

/// The text of a notification error.
pub open spec fn notification_error_text(e: NotificationError) -> Seq<char> {
    match e {
        NotificationError::Delivery(m) => "delivery failed: "@ + m@,
        NotificationError::Config(m) => "configuration error: "@ + m@,
    }
}

impl NotificationError {
    /// The error as text: `delivery failed: ` or `configuration error: `
    /// and its message.
    pub fn to_string(&self) -> (r: String)
        ensures
            r@ == notification_error_text(*self),
    {
        match self {
            NotificationError::Delivery(m) => crate::text::concat("delivery failed: ", m.as_str()),
            NotificationError::Config(m) => crate::text::concat("configuration error: ", m.as_str()),
        }
    }
}

/// The value of a notifier's secret given what was read for it: a
/// literal's text; the environment variable's value, or a configuration
/// error naming the variable where it is not set; the file's text without
/// surrounding whitespace, or a configuration error naming the file and
/// the read's message. A read of the wrong kind counts as an unset
/// variable or a failed read with an empty message.
pub open spec fn spec_notifier_secret(secret: SecretRef, read: SecretRead) -> Result<Seq<char>, Seq<char>> {
    match secret {
        SecretRef::Literal(v) => Ok(v@),
        SecretRef::FromEnv { from_env } => match read {
            SecretRead::Env(Some(v)) => Ok(v@),
            _ => Err("environment variable not found: "@ + from_env@),
        },
        SecretRef::FromFile { from_file } => match read {
            SecretRead::File(Ok(t)) => Ok(crate::text::trim(t@)),
            SecretRead::File(Err(m)) => Err("failed to read secret from "@ + from_file@ + ": "@ + m@),
            _ => Err("failed to read secret from "@ + from_file@ + ": "@),
        },
    }
}

/// The value of a notifier's secret given what was read for it; a failure
/// is a configuration error.
pub fn resolve_secret(secret: &SecretRef, read: SecretRead) -> (r: Result<String, NotificationError>)
    ensures
        match (r, spec_notifier_secret(*secret, read)) {
            (Ok(v), Ok(w)) => v@ == w,
            (Err(NotificationError::Config(m)), Err(w)) => m@ == w,
            _ => false,
        },
{
    match secret {
        SecretRef::Literal(v) => Ok(v.clone()),
        SecretRef::FromEnv { from_env } => match read {
            SecretRead::Env(Some(v)) => Ok(v),
            _ => Err(NotificationError::Config(crate::text::concat("environment variable not found: ", from_env.as_str()))),
        },
        SecretRef::FromFile { from_file } => {
            let mut m = crate::text::concat3("failed to read secret from ", from_file.as_str(), ": ");
            match read {
                SecretRead::File(Ok(t)) => {
                    let cs = chars_of(t.as_str());
                    let (a, b) = crate::text::trim_bounds(cs.as_slice());
                    Ok(crate::text::substring(t.as_str(), a, b))
                },
                SecretRead::File(Err(e)) => {
                    m.append(e.as_str());
                    Err(NotificationError::Config(m))
                },
                _ => Err(NotificationError::Config(m)),
            }
        },
    }
}

/// Why the payload of a notification could not be built: a row it is
/// built from is missing, or reading one failed.
#[derive(Debug, Clone)]
pub struct BuildPayloadError(pub String);

impl BuildPayloadError {
    /// The error's message.
    pub fn to_string(&self) -> (r: String)
        ensures
            r@ == self.0@,
    {
        self.0.clone()
    }
}

/// The message of the first missing row a payload is built from, in the
/// order they are read: the alert event, its check, the check's target.
pub open spec fn missing_row_message(event_found: bool, check_found: bool, target_found: bool) -> Seq<char> {
    if !event_found {
        "event not found"@
    } else if !check_found {
        "check not found"@
    } else {
        "target not found"@
    }
}

/// Whether the rows a payload is built from were all found; otherwise the
/// error that names the first missing one.
pub fn payload_rows_found(event_found: bool, check_found: bool, target_found: bool) -> (r: Result<(), BuildPayloadError>)
    ensures
        match r {
            Ok(()) => event_found && check_found && target_found,
            Err(e) => !(event_found && check_found && target_found) && e.0@ == missing_row_message(
                event_found,
                check_found,
                target_found,
            ),
        },
{
    if !event_found {
        Err(BuildPayloadError(String::from_str("event not found")))
    } else if !check_found {
        Err(BuildPayloadError(String::from_str("check not found")))
    } else if !target_found {
        Err(BuildPayloadError(String::from_str("target not found")))
    } else {
        Ok(())
    }
}

} // verus!
