//! Search strings sent to the tracking service.
use crate::rollup::{join_with, joined};
use vstd::prelude::*;

verus! {

/// The sprint state filter for the sprint listing flags.
pub open spec fn state_filter(all: bool, active: bool, future: bool) -> Seq<char> {
    if all && !active && !future {
        ""@
    } else if !all && active && !future {
        "active"@
    } else if !all && !active && future {
        "future"@
    } else {
        "active,future"@
    }
}

/// The sprint state filter: every state for `all` alone, only active or only
/// future sprints for that flag alone, else active and future ones.
pub fn sprint_state(all: bool, active: bool, future: bool) -> (r: &'static str)
    ensures
        r@ == state_filter(all, active, future),
{
    if all && !active && !future {
        ""
    } else if !all && active && !future {
        "active"
    } else if !all && !active && future {
        "future"
    } else {
        "active,future"
    }
}

/// `filters`, then the sprint clause where a sprint is given.
pub open spec fn with_sprint(filters: Seq<Seq<char>>, sprint: Option<String>) -> Seq<Seq<char>> {
    match sprint {
        Some(id) => filters.push("sprint="@ + id@),
        None => filters,
    }
}

/// The filter clauses of the issue listing.
pub open spec fn issue_filters(
    by_key: bool,
    all: bool,
    no_subtasks: bool,
    sprint: Option<String>,
) -> Seq<Seq<char>> {
    let base = if !by_key && !all && !no_subtasks {
        seq!["status!=Done"@]
    } else if !by_key && all && no_subtasks {
        seq!["issuetype!=Sub-Task"@]
    } else if !by_key && !all && no_subtasks {
        seq!["status!=Done"@, "issuetype!=Sub-Task"@]
    } else {
        Seq::empty()
    };
    with_sprint(base, sprint)
}

/// The filter clauses of the assignee report.
pub open spec fn report_filters(planning: bool, sprint: Option<String>) -> Seq<Seq<char>> {
    let base = if planning {
        seq!["status!=Done"@]
    } else {
        Seq::empty()
    };
    with_sprint(base, sprint)
}

fn push_sprint(filters: &mut Vec<String>, sprint: &Option<String>)
    ensures
        final(filters)@.map_values(|s: String| s@) == with_sprint(
            old(filters)@.map_values(|s: String| s@),
            *sprint,
        ),
{
    if let Some(id) = sprint {
        let clause = String::from_str("sprint=").concat(id.as_str());
        filters.push(clause);
        proof {
            assert(final(filters)@.map_values(|s: String| s@) =~= old(filters)@.map_values(
                |s: String| s@,
            ).push("sprint="@ + id@));
        }
    }
}

fn joined_query(filters: &Vec<String>, order: &str) -> (r: String)
    ensures
        r@ == joined(filters@.map_values(|s: String| s@), " AND "@) + " ORDER BY "@ + order@,
{
    join_with(filters, " AND ").concat(" ORDER BY ").concat(order)
}

/// The search string of the issue listing: the filter clauses joined with
/// " AND ", ordered by issue key. `by_key` tells whether one issue is asked
/// for.
pub fn issues_query(by_key: bool, all: bool, no_subtasks: bool, sprint: &Option<String>) -> (r:
    String)
    ensures
        r@ == joined(issue_filters(by_key, all, no_subtasks, *sprint), " AND "@)
            + " ORDER BY issuekey"@,
{
    let mut filters: Vec<String> = Vec::new();
    if !by_key && !all && !no_subtasks {
        filters.push(String::from_str("status!=Done"));
    } else if !by_key && all && no_subtasks {
        filters.push(String::from_str("issuetype!=Sub-Task"));
    } else if !by_key && !all && no_subtasks {
        filters.push(String::from_str("status!=Done"));
        filters.push(String::from_str("issuetype!=Sub-Task"));
    }
    proof {
        let base = if !by_key && !all && !no_subtasks {
            seq!["status!=Done"@]
        } else if !by_key && all && no_subtasks {
            seq!["issuetype!=Sub-Task"@]
        } else if !by_key && !all && no_subtasks {
            seq!["status!=Done"@, "issuetype!=Sub-Task"@]
        } else {
            Seq::empty()
        };
        assert(filters@.map_values(|s: String| s@) =~= base);
    }
    push_sprint(&mut filters, sprint);
    let r = joined_query(&filters, "issuekey");
    proof {
        reveal_strlit(" ORDER BY ");
        reveal_strlit("issuekey");
        reveal_strlit(" ORDER BY issuekey");
        assert(" ORDER BY "@ + "issuekey"@ =~= " ORDER BY issuekey"@);
    }
    r
}

/// The search string of the assignee report, ordered by assignee.
pub fn report_query(planning: bool, sprint: &Option<String>) -> (r: String)
    ensures
        r@ == joined(report_filters(planning, *sprint), " AND "@) + " ORDER BY assignee"@,
{
    let mut filters: Vec<String> = Vec::new();
    if planning {
        filters.push(String::from_str("status!=Done"));
    }
    proof {
        let base = if planning {
            seq!["status!=Done"@]
        } else {
            Seq::empty()
        };
        assert(filters@.map_values(|s: String| s@) =~= base);
    }
    push_sprint(&mut filters, sprint);
    let r = joined_query(&filters, "assignee");
    proof {
        reveal_strlit(" ORDER BY ");
        reveal_strlit("assignee");
        reveal_strlit(" ORDER BY assignee");
        assert(" ORDER BY "@ + "assignee"@ =~= " ORDER BY assignee"@);
    }
    r
}

} // verus!
