//! The events that the monitor announces to its subscribers: a type and
//! named values.
use vstd::prelude::*;

use crate::probe::pairs_view;

verus! {

/// An announced event: its type, and its data as name/value pairs.
#[derive(Debug, Clone)]
pub struct SystemEvent {
    pub event_type: String,
    pub data: Vec<(String, String)>,
}

fn pair(name: &str, value: &str) -> (r: (String, String))
    ensures
        r.0@ == name@,
        r.1@ == value@,
{
    (String::from_str(name), String::from_str(value))
}

impl SystemEvent {
    /// A round of a check finished.
    pub fn round_completed(target_id: &str, check_id: &str) -> (r: Self)
        ensures
            r.event_type@ == "round.completed"@,
            pairs_view(r.data@) == seq![("target_id"@, target_id@), ("check_id"@, check_id@)],
    {
        let data = vec![pair("target_id", target_id), pair("check_id", check_id)];
        assert(pairs_view(data@) =~= seq![("target_id"@, target_id@), ("check_id"@, check_id@)]);
        SystemEvent { event_type: String::from_str("round.completed"), data }
    }

    /// A check moved from `old_state` to `new_state`.
    pub fn check_state_changed(target_id: &str, check_id: &str, old_state: &str, new_state: &str) -> (r:
        Self)
        ensures
            r.event_type@ == "check.state_changed"@,
            pairs_view(r.data@) == seq![
                ("target_id"@, target_id@),
                ("check_id"@, check_id@),
                ("old_state"@, old_state@),
                ("new_state"@, new_state@),
            ],
    {
        let data = vec![
            pair("target_id", target_id),
            pair("check_id", check_id),
            pair("old_state", old_state),
            pair("new_state", new_state),
        ];
        assert(pairs_view(data@) =~= seq![
            ("target_id"@, target_id@),
            ("check_id"@, check_id@),
            ("old_state"@, old_state@),
            ("new_state"@, new_state@),
        ]);
        SystemEvent { event_type: String::from_str("check.state_changed"), data }
    }

    /// An alert started firing.
    pub fn alert_firing(rule_id: &str, target_id: &str, check_id: &str) -> (r: Self)
        ensures
            r.event_type@ == "alert.firing"@,
            pairs_view(r.data@) == seq![("rule_id"@, rule_id@), ("target_id"@, target_id@), ("check_id"@, check_id@)],
    {
        let data = vec![pair("rule_id", rule_id), pair("target_id", target_id), pair("check_id", check_id)];
        assert(pairs_view(data@) =~= seq![("rule_id"@, rule_id@), ("target_id"@, target_id@), ("check_id"@, check_id@)]);
        SystemEvent { event_type: String::from_str("alert.firing"), data }
    }

    /// An alert was resolved.
    pub fn alert_resolved(rule_id: &str, target_id: &str, check_id: &str) -> (r: Self)
        ensures
            r.event_type@ == "alert.resolved"@,
            pairs_view(r.data@) == seq![("rule_id"@, rule_id@), ("target_id"@, target_id@), ("check_id"@, check_id@)],
    {
        let data = vec![pair("rule_id", rule_id), pair("target_id", target_id), pair("check_id", check_id)];
        assert(pairs_view(data@) =~= seq![("rule_id"@, rule_id@), ("target_id"@, target_id@), ("check_id"@, check_id@)]);
        SystemEvent { event_type: String::from_str("alert.resolved"), data }
    }

    /// The configuration was reloaded, with the given generation and
    /// result.
    pub fn config_reloaded(generation: &str, result: &str) -> (r: Self)
        ensures
            r.event_type@ == "config.reloaded"@,
            pairs_view(r.data@) == seq![("generation"@, generation@), ("result"@, result@)],
    {
        let data = vec![pair("generation", generation), pair("result", result)];
        assert(pairs_view(data@) =~= seq![("generation"@, generation@), ("result"@, result@)]);
        SystemEvent { event_type: String::from_str("config.reloaded"), data }
    }

    /// The monitor's status changed.
    pub fn system_status_changed(status: &str) -> (r: Self)
        ensures
            r.event_type@ == "system.status_changed"@,
            pairs_view(r.data@) == seq![("status"@, status@)],
    {
        let data = vec![pair("status", status)];
        assert(pairs_view(data@) =~= seq![("status"@, status@)]);
        SystemEvent { event_type: String::from_str("system.status_changed"), data }
    }
}

} // verus!
