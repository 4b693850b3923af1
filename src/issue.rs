//! The issue record that the rest of the library reads.
use vstd::prelude::*;

verus! {

/// Time-tracking data of one issue: the provider's display strings and the
/// same quantities in seconds. Every field is independently optional.
pub struct IssueTimeTracking {
    pub original_estimate: Option<String>,
    pub remaining_estimate: Option<String>,
    pub time_spent: Option<String>,
    pub original_estimate_seconds: Option<u64>,
    pub remaining_estimate_seconds: Option<u64>,
    pub time_spent_seconds: Option<u64>,
}

/// One issue as fetched from the tracking service.
pub struct Issue {
    pub key: String,
    /// Key of the parent issue; present for subtasks only.
    pub parent_key: Option<String>,
    /// Whether the issue's type is a subtask type.
    pub is_subtask: bool,
    pub issue_type_name: Option<String>,
    pub status_name: Option<String>,
    pub assignee_name: Option<String>,
    pub summary: Option<String>,
    pub time_tracking: Option<IssueTimeTracking>,
}

/// The assignee label of an issue without assignee.
pub open spec fn unassigned_label() -> Seq<char> {
    "Unassigned"@
}

/// The assignee an issue is grouped and filtered under.
pub open spec fn effective_assignee(i: Issue) -> Seq<char> {
    match i.assignee_name {
        Some(a) => a@,
        None => unassigned_label(),
    }
}

/// The parent key of an issue, empty where it has none.
pub open spec fn parent_of(i: Issue) -> Seq<char> {
    match i.parent_key {
        Some(p) => p@,
        None => Seq::empty(),
    }
}

/// Returns the assignee an issue is grouped and filtered under.
pub fn assignee_label(issue: &Issue) -> (r: String)
    ensures
        r@ == effective_assignee(*issue),
{
    match &issue.assignee_name {
        Some(a) => a.clone(),
        None => String::from_str("Unassigned"),
    }
}

/// Whether the issue's effective assignee is `name`.
pub fn assigned_to(issue: &Issue, name: &String) -> (r: bool)
    ensures
        r == (effective_assignee(*issue) == name@),
{
    match &issue.assignee_name {
        Some(a) => *a == *name,
        None => {
            let u = String::from_str("Unassigned");
            u == *name
        },
    }
}

} // verus!
