use jira::config::{board_source, origin_board, require_arg, BoardSource, Error};
use jira::dates::{date_cell, parse_date};
use jira::listing::{is_listed, issue_row, summary_width, truncate_summary};
use jira::partition::partition;
use jira::query::{issues_query, report_query, sprint_state};
use jira::report::{decimal_string, format_days, report_row, time_tracking_update};
use jira::rollup::{render_field, Column};
use jira::table::{sort_by_id, IdRow};
use jira::users::{aggregate_field, day_tenths, TimeField, User, Users};
use jira::{Issue, IssueTimeTracking};

fn tracking(est: Option<u64>, text: Option<&str>) -> IssueTimeTracking {
    IssueTimeTracking {
        original_estimate: text.map(|t| t.to_string()),
        remaining_estimate: None,
        time_spent: None,
        original_estimate_seconds: est,
        remaining_estimate_seconds: None,
        time_spent_seconds: None,
    }
}

fn issue(key: &str, parent: Option<&str>, subtask: bool, assignee: Option<&str>, est: Option<u64>) -> Issue {
    Issue {
        key: key.to_string(),
        parent_key: parent.map(|p| p.to_string()),
        is_subtask: subtask,
        issue_type_name: Some(if subtask { "Sub-Task" } else { "Story" }.to_string()),
        status_name: Some("Open".to_string()),
        assignee_name: assignee.map(|a| a.to_string()),
        summary: Some(format!("summary of {}", key)),
        time_tracking: Some(tracking(est, None)),
    }
}

fn keys(v: &[Issue]) -> Vec<String> {
    v.iter().map(|i| i.key.clone()).collect()
}

#[test]
fn end_to_end_alice_bob() {
    let input = vec![
        issue("KEY-1", None, false, Some("Alice"), Some(3600)),
        issue("KEY-2", Some("KEY-1"), true, Some("Bob"), Some(7200)),
    ];
    let (top, map) = partition(input, &None, &None);
    assert_eq!(keys(&top), vec!["KEY-1".to_string()]);
    let g = map.get(&"KEY-1".to_string()).unwrap();
    assert_eq!(keys(g), vec!["KEY-2".to_string()]);
    let mut users = Users::new();
    let sum = aggregate_field(&map, &top[0], &mut users, TimeField::Estimate);
    assert_eq!(sum, 7200);
    let (name, bob) = users.next().unwrap();
    assert_eq!(name, "Bob");
    assert_eq!(bob.assignments(), 1);
    assert_eq!(bob.estimate, 7200);
    assert!(users.next().is_none());
}

#[test]
fn orphan_subtask_is_dropped() {
    let input = vec![
        issue("A-1", None, false, None, None),
        issue("A-2", None, true, None, None),
    ];
    let (top, map) = partition(input, &None, &None);
    assert_eq!(keys(&top), vec!["A-1".to_string()]);
    assert!(map.groups.is_empty());
}

#[test]
fn partition_keeps_input_order_and_filters_subtasks_only() {
    let input = vec![
        issue("P-1", None, false, Some("Zed"), None),
        issue("P-3", Some("P-1"), true, Some("Ann"), None),
        issue("P-2", Some("P-1"), true, None, None),
        issue("P-4", Some("P-1"), true, Some("Ann"), None),
        issue("Q-1", None, false, Some("Ann"), None),
    ];
    let (top, map) = partition(input, &Some("Ann".to_string()), &None);
    assert_eq!(keys(&top), vec!["P-1".to_string(), "Q-1".to_string()]);
    let g = map.get(&"P-1".to_string()).unwrap();
    assert_eq!(keys(g), vec!["P-3".to_string(), "P-4".to_string()]);
}

#[test]
fn partition_issue_key_filter() {
    let input = vec![
        issue("P-2", Some("P-1"), true, None, None),
        issue("P-3", Some("P-9"), true, None, None),
        issue("P-4", Some("P-8"), true, None, None),
    ];
    let (_, map) = partition(input, &None, &Some("P-3".to_string()));
    assert!(map.get(&"P-1".to_string()).is_none());
    assert_eq!(keys(map.get(&"P-9".to_string()).unwrap()), vec!["P-3".to_string()]);
    assert!(map.get(&"P-8".to_string()).is_none());
}

#[test]
fn render_field_without_subtasks_is_own_value() {
    let (top, map) = partition(vec![issue("K-1", None, false, None, None)], &None, &None);
    assert_eq!(render_field(&map, &top[0], Column::Assignee), "Unassigned");
    assert_eq!(render_field(&map, &top[0], Column::Status), "Open");
    assert_eq!(render_field(&map, &top[0], Column::TimeSpent), "n/a");
}

#[test]
fn render_field_joins_subtask_values() {
    let mut s2 = issue("K-3", Some("K-1"), true, None, None);
    s2.time_tracking = Some(tracking(Some(60), Some("1m")));
    let input = vec![
        issue("K-1", None, false, Some("Zoe"), None),
        issue("K-2", Some("K-1"), true, Some("Ann"), None),
        s2,
    ];
    let (top, map) = partition(input, &None, &None);
    assert_eq!(render_field(&map, &top[0], Column::Assignee), "Ann\nUnassigned");
    assert_eq!(render_field(&map, &top[0], Column::OriginalEstimate), "n/a\n1m");
}

#[test]
fn record_seconds_absent_and_present() {
    let mut users = Users::new();
    assert_eq!(users.original_estimate_seconds("Ann".to_string(), None), None);
    assert!(users.entries.is_empty());
    assert_eq!(users.original_estimate_seconds("Ann".to_string(), Some(30)), Some(30));
    assert_eq!(users.original_estimate_seconds("Ann".to_string(), Some(12)), Some(12));
    assert_eq!(users.remaining_estimate_seconds("Ann".to_string(), Some(5)), Some(5));
    assert_eq!(users.time_spent_seconds("Ann".to_string(), Some(7)), Some(7));
    assert_eq!(users.remaining_estimate_seconds("Ann".to_string(), None), None);
    let (_, ann) = users.next().unwrap();
    assert_eq!(ann, User { issues: 2, estimate: 42, remaining: 5, actual: 7 });
}

#[test]
fn users_drain_in_key_order() {
    let mut users = Users::new();
    for name in ["Zoe", "Ann", "Unassigned", "Bob"] {
        users.time_spent_seconds(name.to_string(), Some(1));
    }
    let mut names = Vec::new();
    while let Some((n, _)) = users.next() {
        names.push(n);
    }
    assert_eq!(names, vec!["Ann", "Bob", "Unassigned", "Zoe"]);
}

#[test]
fn one_workday_is_one_day() {
    let mut u = User::new();
    u.estimate = 28800;
    assert_eq!(u.original_estimate_days(), 10);
    assert_eq!(format_days(u.original_estimate_days()), "1.0d");
    assert_eq!(day_tenths(43200), 15);
    assert_eq!(day_tenths(1439), 0);
    assert_eq!(day_tenths(1440), 1);
    assert_eq!(format_days(day_tenths(0)), "0.0d");
}

#[test]
fn truncation_without_width_passes_through() {
    let long = "x".repeat(500);
    assert_eq!(truncate_summary(None, 40, long.clone()), long);
}

#[test]
fn truncation_to_ten_characters() {
    // 25 * 40 / 100 == 10
    assert_eq!(truncate_summary(Some(25), 40, "abcdefghijklm".to_string()), "abcdefghij...");
    assert_eq!(truncate_summary(Some(25), 40, "abcdefghij".to_string()), "abcdefghij");
    assert_eq!(truncate_summary(Some(25), 40, "abc".to_string()), "abc");
    assert_eq!(truncate_summary(Some(25), 40, "äöüßéèêëïî!".to_string()), "äöüßéèêëïî...");
}

#[test]
fn width_basis_follows_terminal() {
    assert_eq!(summary_width(None), None);
    assert_eq!(summary_width(Some(100)), Some(80));
    assert_eq!(summary_width(Some(200)), Some(92));
}

#[test]
fn listing_filter_matches_issue_or_subtask() {
    let input = vec![
        issue("L-1", None, false, Some("Ann"), None),
        issue("L-2", None, false, Some("Bob"), None),
        issue("L-3", Some("L-2"), true, Some("Ann"), None),
        issue("L-4", None, false, None, None),
    ];
    let (top, map) = partition(input, &None, &None);
    let ann = Some("Ann".to_string());
    let shown: Vec<bool> = top.iter().map(|i| is_listed(&map, i, &ann, &None)).collect();
    assert_eq!(shown, vec![true, true, false]);
    let un = Some("Unassigned".to_string());
    assert!(is_listed(&map, &top[2], &un, &None));
    let key = Some("L-3".to_string());
    let shown: Vec<bool> = top.iter().map(|i| is_listed(&map, i, &None, &key)).collect();
    assert_eq!(shown, vec![false, true, false]);
}

#[test]
fn issue_row_cells() {
    let input = vec![
        issue("R-1", None, false, Some("Ann"), None),
        issue("R-2", Some("R-1"), true, Some("Bob"), None),
        issue("R-3", None, false, None, None),
    ];
    let (top, map) = partition(input, &None, &None);
    let row = issue_row(&map, &top[0], None);
    assert_eq!(row, vec!["R-1", "Story", "summary of R-1", "R-2: summary of R-2", "Open", "Bob", "n/a", "n/a", "n/a"]);
    let row = issue_row(&map, &top[1], Some(10));
    assert_eq!(row, vec!["R-3", "Story", "summ...", "-", "Open", "Unassigned", "n/a", "n/a", "n/a"]);
}

#[test]
fn report_rows() {
    let u = User { issues: 12, estimate: 28800 * 3 / 2, remaining: 2880, actual: 0 };
    assert_eq!(report_row(&"Ann".to_string(), &u, true), vec!["Ann", "12", "1.5d"]);
    assert_eq!(report_row(&"Ann".to_string(), &u, false), vec!["Ann", "12", "1.5d", "0.1d", "0.0d"]);
    assert_eq!(decimal_string(1234567890), "1234567890");
    let t = time_tracking_update(7260, 59);
    assert_eq!((t.original_estimate, t.remaining_estimate), (121, 0));
}

#[test]
fn search_strings() {
    assert_eq!(sprint_state(true, false, false), "");
    assert_eq!(sprint_state(false, true, false), "active");
    assert_eq!(sprint_state(false, false, true), "future");
    assert_eq!(sprint_state(false, false, false), "active,future");
    assert_eq!(issues_query(false, false, false, &None), "status!=Done ORDER BY issuekey");
    assert_eq!(
        issues_query(false, false, true, &Some("7".to_string())),
        "status!=Done AND issuetype!=Sub-Task AND sprint=7 ORDER BY issuekey"
    );
    assert_eq!(issues_query(true, false, false, &None), " ORDER BY issuekey");
    assert_eq!(report_query(true, &Some("3".to_string())), "status!=Done AND sprint=3 ORDER BY assignee");
    assert_eq!(report_query(false, &None), " ORDER BY assignee");
}

#[test]
fn sprint_dates() {
    assert_eq!(parse_date(None), "n/a");
    assert_eq!(parse_date(Some("not a date".to_string())), "n/a");
    assert_eq!(parse_date(Some("2021-03-04T05:06:07.000+02:00".to_string())), "2021-03-04 05:06");
    assert_eq!(date_cell(None), "n/a");
}

#[test]
fn configuration_errors() {
    assert_eq!(require_arg("user", Some("me".to_string())).unwrap(), "me");
    let e = require_arg("token", None).unwrap_err();
    assert_eq!(e.message(), "missing required argument `token`");
    assert!(matches!(board_source(Some("4".to_string()), None), Ok(BoardSource::Board(b)) if b == "4"));
    assert!(matches!(board_source(None, Some("9".to_string())), Ok(BoardSource::SprintOrigin(s)) if s == "9"));
    assert!(matches!(board_source(None, None), Err(Error::Config(n)) if n == "sprint"));
    assert_eq!(origin_board(Some(17)).unwrap(), "17");
    assert!(matches!(origin_board(None), Err(Error::Config(n)) if n == "board"));
}

#[test]
fn rows_sorted_by_id() {
    let rows = |ids: &[u64]| -> Vec<IdRow> {
        ids.iter().map(|&id| IdRow { id, cells: vec![id.to_string()] }).collect()
    };
    let up: Vec<u64> = sort_by_id(rows(&[5, 1, 9, 3, 3]), false).iter().map(|r| r.id).collect();
    assert_eq!(up, vec![1, 3, 3, 5, 9]);
    let down: Vec<String> =
        sort_by_id(rows(&[5, 1, 9, 3]), true).into_iter().map(|r| r.cells[0].clone()).collect();
    assert_eq!(down, vec!["9", "5", "3", "1"]);
    assert!(sort_by_id(Vec::new(), true).is_empty());
}
