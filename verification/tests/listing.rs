use kemuri::listing::{group_at, groups_page, overall_state, targets_page, trim_slashes_of, PageQuery};
use kemuri::summary::TargetWithState;

fn row(target: &str, group: &str, state: Option<&str>) -> TargetWithState {
    TargetWithState {
        target_id: target.to_string(),
        name: target.to_uppercase(),
        group_path: group.to_string(),
        state: state.map(|s| s.to_string()),
    }
}

fn rows() -> Vec<TargetWithState> {
    vec![
        row("web", "edge", Some("healthy")),
        row("db", "infra", Some("down")),
        row("cache", "infra", None),
        row("api", "edge", Some("degraded")),
        row("web", "edge", Some("degraded")),
        row("dns", "", Some("healthy")),
    ]
}

fn query(limit: Option<i64>, cursor: Option<&str>) -> PageQuery {
    PageQuery { limit, cursor: cursor.map(|c| c.to_string()) }
}

#[test]
fn targets_are_listed_by_identifier_in_pages() {
    let page = targets_page(&rows(), &query(Some(2), None)).unwrap();
    let ids: Vec<&str> = page.targets.iter().map(|t| t.target_id.as_str()).collect();
    assert_eq!(ids, vec!["api", "cache"]);
    assert_eq!(page.next_cursor.as_deref(), Some("6361636865"));
    let groups: Vec<(&str, usize)> = page.groups.iter().map(|g| (g.group_path.as_str(), g.targets.len())).collect();
    assert_eq!(groups, vec![("edge", 1), ("infra", 1)]);

    let next = targets_page(&rows(), &query(Some(2), page.next_cursor.as_deref())).unwrap();
    let ids: Vec<&str> = next.targets.iter().map(|t| t.target_id.as_str()).collect();
    assert_eq!(ids, vec!["db", "dns"]);
    assert_eq!(next.next_cursor.as_deref(), Some("646e73"));

    let last = targets_page(&rows(), &query(None, next.next_cursor.as_deref())).unwrap();
    assert_eq!(last.targets.len(), 1);
    assert_eq!(last.targets[0].target_id, "web");
    assert_eq!(last.targets[0].state, "degraded");
    assert_eq!(last.targets[0].checks_count, 2);
    assert_eq!(last.next_cursor, None);
    assert_eq!(last.groups.len(), 1);
    assert_eq!(last.groups[0].group_path, "edge");
}

#[test]
fn bad_pages_are_bad_requests() {
    let e = targets_page(&rows(), &query(Some(0), None)).unwrap_err();
    assert_eq!(e.code, "bad_request");
    assert_eq!(e.message, "limit must be between 1 and 200");
    let e = groups_page(&rows(), &query(Some(201), Some("zz"))).unwrap_err();
    assert_eq!(e.message, "limit must be between 1 and 200");
    let e = groups_page(&rows(), &query(None, Some("zz"))).unwrap_err();
    assert_eq!(e.message, "invalid cursor");
    assert_eq!(e.request_id.len(), 36);
}

#[test]
fn groups_are_listed_by_path_in_pages() {
    let page = groups_page(&rows(), &query(Some(2), None)).unwrap();
    let paths: Vec<&str> = page.groups.iter().map(|g| g.group_path.as_str()).collect();
    assert_eq!(paths, vec!["default", "edge"]);
    let edge: Vec<&str> = page.groups[1].targets.iter().map(|t| t.target_id.as_str()).collect();
    assert_eq!(edge, vec!["web", "api"]);
    assert_eq!(page.next_cursor.as_deref(), Some("65646765"));
    let rest = groups_page(&rows(), &query(Some(2), page.next_cursor.as_deref())).unwrap();
    assert_eq!(rest.groups.len(), 1);
    assert_eq!(rest.groups[0].group_path, "infra");
    assert_eq!(rest.next_cursor, None);
}

#[test]
fn one_group_by_its_path() {
    let g = group_at(&rows(), "/infra/").unwrap();
    assert_eq!(g.group_path, "infra");
    let ids: Vec<&str> = g.targets.iter().map(|t| t.target_id.as_str()).collect();
    assert_eq!(ids, vec!["db", "cache"]);
    let e = group_at(&rows(), "nowhere").unwrap_err();
    assert_eq!(e.code, "group_not_found");
    assert_eq!(e.message, "The requested group does not exist");
    assert_eq!(trim_slashes_of("//a/b//"), "a/b");
    assert_eq!(trim_slashes_of("///"), "");
}

fn states(v: &[&str]) -> Vec<String> {
    v.iter().map(|s| s.to_string()).collect()
}

#[test]
fn target_state_is_its_worst_check_state() {
    assert_eq!(overall_state(&states(&[])), "healthy");
    assert_eq!(overall_state(&states(&["healthy", "no_data"])), "no_data");
    assert_eq!(overall_state(&states(&["degraded", "no_data", "healthy"])), "degraded");
    assert_eq!(overall_state(&states(&["no_data", "down", "degraded"])), "down");
    assert_eq!(overall_state(&states(&["down", "no_data", "degraded"])), "down");
    assert_eq!(overall_state(&states(&["unknown", "firing"])), "healthy");
}
