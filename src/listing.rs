//! The issue listing: which top-level issues are shown and their table rows.
use crate::issue::{assigned_to, effective_assignee, Issue};
use crate::partition::SubtaskMap;
use crate::rollup::{copy_or, join_lines, join_with_newlines, render_field, rendered, text_or, Column};
use vstd::prelude::*;

verus! {

/// Share of the width basis, in percent, given to a top-level summary.
pub const SUMMARY_PERCENT: u64 = 40;

/// Share of the width basis, in percent, given to a subtask's key and summary.
pub const SUBTASK_PERCENT: u64 = 60;

/// Terminals narrower than this get the fixed basis `NARROW_BASIS`.
pub const WIDE_TERMINAL: usize = 188;

pub const NARROW_BASIS: u64 = 80;

/// Columns a wide terminal keeps for the cells other than the summaries.
pub const RESERVED_COLUMNS: usize = 108;

/// The width basis for summaries on a terminal `term_width` columns wide.
pub open spec fn width_basis(term_width: Option<usize>) -> Option<u64> {
    match term_width {
        None => None,
        Some(w) => if w < WIDE_TERMINAL {
            Some(NARROW_BASIS)
        } else {
            Some((w - RESERVED_COLUMNS) as u64)
        },
    }
}

/// Returns the width basis for summaries: none where the terminal width is
/// unknown, 80 below 188 columns, else the width less 108.
pub fn summary_width(term_width: Option<usize>) -> (r: Option<u64>)
    ensures
        r == width_basis(term_width),
{
    match term_width {
        None => None,
        Some(w) => if w < WIDE_TERMINAL {
            Some(NARROW_BASIS)
        } else {
            Some((w - RESERVED_COLUMNS) as u64)
        },
    }
}

/// `s` cut to `percent` percent of `width` characters, with "..." appended
/// where characters were cut; unchanged where `width` is absent.
pub open spec fn truncated(width: Option<u64>, percent: u64, s: Seq<char>) -> Seq<char> {
    match width {
        None => s,
        Some(w) => {
            let n = (w * percent) / 100;
            if s.len() > n {
                s.take(n) + "..."@
            } else {
                s
            }
        },
    }
}

/// Truncates `input` to `percent` percent of `width` characters (rounded
/// down), appending "..." where anything was cut.
pub fn truncate_summary(width: Option<u64>, percent: u64, input: String) -> (r: String)
    ensures
        r@ == truncated(width, percent, input@),
{
    match width {
        None => input,
        Some(w) => {
            proof {
                assert((w as int) * (percent as int) <= (u64::MAX as int) * (u64::MAX as int))
                    by (nonlinear_arith)
                    requires
                        w <= u64::MAX,
                        percent <= u64::MAX,
                ;
            }
            let n: u128 = (w as u128) * (percent as u128) / 100;
            let len = input.as_str().unicode_len();
            if (len as u128) > n {
                let head = String::from_str(input.as_str().substring_char(0, n as usize));
                head.concat("...")
            } else {
                input
            }
        },
    }
}

/// Whether the listing shows `issue`, given the optional assignee and
/// issue-key filters: each filter set must match the issue itself or one of
/// its subtasks.
pub open spec fn listed(
    subtasks: SubtaskMap,
    issue: Issue,
    assignee: Option<String>,
    issue_key: Option<String>,
) -> bool {
    let g = subtasks.group(issue.key@);
    &&& (assignee matches Some(a) ==> effective_assignee(issue) == a@ || exists|j: int|
        0 <= j < g.len() && effective_assignee(#[trigger] g[j]) == a@)
    &&& (issue_key matches Some(k) ==> issue.key@ == k@ || exists|j: int|
        0 <= j < g.len() && (#[trigger] g[j]).key@ == k@)
}

/// Decides whether the listing shows the top-level issue `issue`.
pub fn is_listed(
    subtasks: &SubtaskMap,
    issue: &Issue,
    assignee: &Option<String>,
    issue_key: &Option<String>,
) -> (r: bool)
    requires
        subtasks.wf(),
    ensures
        r == listed(*subtasks, *issue, *assignee, *issue_key),
{
    let group = subtasks.get(&issue.key);
    let ghost g = subtasks.group(issue.key@);
    let a_ok = match assignee {
        None => true,
        Some(a) => {
            if assigned_to(issue, a) {
                true
            } else {
                match group {
                    None => false,
                    Some(v) => {
                        let mut found = false;
                        let mut j: usize = 0;
                        while j < v.len()
                            invariant
                                j <= v@.len(),
                                v@ == g,
                                found == exists|t: int|
                                    0 <= t < j && effective_assignee(#[trigger] g[t]) == a@,
                            decreases v@.len() - j,
                        {
                            if assigned_to(&v[j], a) {
                                found = true;
                            }
                            j = j + 1;
                        }
                        found
                    },
                }
            }
        },
    };
    let k_ok = match issue_key {
        None => true,
        Some(k) => {
            if issue.key == *k {
                true
            } else {
                match group {
                    None => false,
                    Some(v) => {
                        let mut found = false;
                        let mut j: usize = 0;
                        while j < v.len()
                            invariant
                                j <= v@.len(),
                                v@ == g,
                                found == exists|t: int| 0 <= t < j && (#[trigger] g[t]).key@ == k@,
                            decreases v@.len() - j,
                        {
                            if v[j].key == *k {
                                found = true;
                            }
                            j = j + 1;
                        }
                        found
                    },
                }
            }
        },
    };
    a_ok && k_ok
}

/// The line shown for subtask `s` in its parent's "Sub-Tasks" cell.
pub open spec fn subtask_line(width: Option<u64>, s: Issue) -> Seq<char> {
    truncated(width, SUBTASK_PERCENT, s.key@ + ": "@ + text_or(s.summary, "n/a"@))
}

/// The "Sub-Tasks" cell: one line per subtask, or "-" where there is none.
pub open spec fn subtask_cell(subtasks: SubtaskMap, issue: Issue, width: Option<u64>) -> Seq<char> {
    let g = subtasks.group(issue.key@);
    if g.len() == 0 {
        "-"@
    } else {
        join_lines(g.map_values(|s: Issue| subtask_line(width, s)))
    }
}

/// The cells of the listing row of `issue`: key, type, summary, subtasks,
/// status, assignee, estimated, remaining and time spent.
pub open spec fn row_of(subtasks: SubtaskMap, issue: Issue, width: Option<u64>) -> Seq<Seq<char>> {
    seq![
        issue.key@,
        text_or(issue.issue_type_name, "Unknown"@),
        truncated(width, SUMMARY_PERCENT, text_or(issue.summary, "n/a"@)),
        subtask_cell(subtasks, issue, width),
        rendered(subtasks, issue, Column::Status),
        rendered(subtasks, issue, Column::Assignee),
        rendered(subtasks, issue, Column::OriginalEstimate),
        rendered(subtasks, issue, Column::RemainingEstimate),
        rendered(subtasks, issue, Column::TimeSpent),
    ]
}

fn subtask_line_of(width: Option<u64>, s: &Issue) -> (r: String)
    ensures
        r@ == subtask_line(width, *s),
{
    let head = s.key.clone().concat(": ");
    let summary = copy_or(&s.summary, "n/a");
    truncate_summary(width, SUBTASK_PERCENT, head.concat(summary.as_str()))
}

/// The "Sub-Tasks" cell of the listing row of `issue`.
pub fn subtasks_cell(subtasks: &SubtaskMap, issue: &Issue, width: Option<u64>) -> (r: String)
    requires
        subtasks.wf(),
    ensures
        r@ == subtask_cell(*subtasks, *issue, width),
{
    match subtasks.get(&issue.key) {
        None => String::from_str("-"),
        Some(group) => {
            let mut lines: Vec<String> = Vec::new();
            let mut i: usize = 0;
            while i < group.len()
                invariant
                    i <= group@.len(),
                    lines@.len() == i,
                    forall|j: int|
                        0 <= j < i ==> #[trigger] lines@[j]@ == subtask_line(width, group@[j]),
                decreases group@.len() - i,
            {
                lines.push(subtask_line_of(width, &group[i]));
                i = i + 1;
            }
            proof {
                assert(lines@.map_values(|s: String| s@) =~= group@.map_values(
                    |s: Issue| subtask_line(width, s),
                ));
            }
            join_with_newlines(&lines)
        },
    }
}

/// The cells of the listing row of the top-level issue `issue`, summaries
/// truncated against the width basis `width`.
pub fn issue_row(subtasks: &SubtaskMap, issue: &Issue, width: Option<u64>) -> (r: Vec<String>)
    requires
        subtasks.wf(),
    ensures
        r@.map_values(|s: String| s@) == row_of(*subtasks, *issue, width),
{
    let mut row: Vec<String> = Vec::new();
    row.push(issue.key.clone());
    row.push(copy_or(&issue.issue_type_name, "Unknown"));
    row.push(
        truncate_summary(width, SUMMARY_PERCENT, copy_or(&issue.summary, "n/a")),
    );
    row.push(subtasks_cell(subtasks, issue, width));
    row.push(render_field(subtasks, issue, Column::Status));
    row.push(render_field(subtasks, issue, Column::Assignee));
    row.push(render_field(subtasks, issue, Column::OriginalEstimate));
    row.push(render_field(subtasks, issue, Column::RemainingEstimate));
    row.push(render_field(subtasks, issue, Column::TimeSpent));
    proof {
        assert(row@.map_values(|s: String| s@) =~= row_of(*subtasks, *issue, width));
    }
    row
}

} // verus!
