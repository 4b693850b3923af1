//! Per-column display strings of an issue and its subtasks.
use crate::issue::{assignee_label, effective_assignee, Issue};
use crate::partition::SubtaskMap;
use vstd::prelude::*;

verus! {

/// A column whose cell is rolled up over an issue's subtasks.
#[derive(Clone, Copy, Debug, PartialEq, Eq)]
pub enum Column {
    Status,
    Assignee,
    OriginalEstimate,
    RemainingEstimate,
    TimeSpent,
}

/// The text shown where a column's value is absent.
pub open spec fn sentinel(c: Column) -> Seq<char> {
    match c {
        Column::Assignee => "Unassigned"@,
        _ => "n/a"@,
    }
}

/// `o`'s text, or `fallback` where it is absent.
pub open spec fn text_or(o: Option<String>, fallback: Seq<char>) -> Seq<char> {
    match o {
        Some(s) => s@,
        None => fallback,
    }
}

/// The text of column `c` for issue `i` alone.
pub open spec fn column_text(c: Column, i: Issue) -> Seq<char> {
    match c {
        Column::Status => text_or(i.status_name, sentinel(c)),
        Column::Assignee => effective_assignee(i),
        Column::OriginalEstimate => match i.time_tracking {
            Some(t) => text_or(t.original_estimate, sentinel(c)),
            None => sentinel(c),
        },
        Column::RemainingEstimate => match i.time_tracking {
            Some(t) => text_or(t.remaining_estimate, sentinel(c)),
            None => sentinel(c),
        },
        Column::TimeSpent => match i.time_tracking {
            Some(t) => text_or(t.time_spent, sentinel(c)),
            None => sentinel(c),
        },
    }
}

/// The parts with `sep` between each two.
pub open spec fn joined(parts: Seq<Seq<char>>, sep: Seq<char>) -> Seq<char>
    decreases parts.len(),
{
    if parts.len() == 0 {
        Seq::empty()
    } else if parts.len() == 1 {
        parts[0]
    } else {
        joined(parts.drop_last(), sep) + sep + parts.last()
    }
}

/// The parts joined with a newline between each two.
pub open spec fn join_lines(parts: Seq<Seq<char>>) -> Seq<char> {
    joined(parts, "\n"@)
}

/// The column's text for each issue of `issues`, in order.
pub open spec fn column_texts(c: Column, issues: Seq<Issue>) -> Seq<Seq<char>> {
    issues.map_values(|s: Issue| column_text(c, s))
}

/// The cell of column `c` for `issue`: its own text where it has no
/// subtasks, else its subtasks' texts one per line.
pub open spec fn rendered(subtasks: SubtaskMap, issue: Issue, c: Column) -> Seq<char> {
    let g = subtasks.group(issue.key@);
    if g.len() == 0 {
        column_text(c, issue)
    } else {
        join_lines(column_texts(c, g))
    }
}

pub(crate) fn copy_or(o: &Option<String>, fallback: &str) -> (r: String)
    ensures
        r@ == text_or(*o, fallback@),
{
    match o {
        Some(s) => s.clone(),
        None => String::from_str(fallback),
    }
}

/// The text of column `c` for `issue` alone.
pub fn column_value(c: Column, issue: &Issue) -> (r: String)
    ensures
        r@ == column_text(c, *issue),
{
    match c {
        Column::Status => copy_or(&issue.status_name, "n/a"),
        Column::Assignee => assignee_label(issue),
        Column::OriginalEstimate => match &issue.time_tracking {
            Some(t) => copy_or(&t.original_estimate, "n/a"),
            None => String::from_str("n/a"),
        },
        Column::RemainingEstimate => match &issue.time_tracking {
            Some(t) => copy_or(&t.remaining_estimate, "n/a"),
            None => String::from_str("n/a"),
        },
        Column::TimeSpent => match &issue.time_tracking {
            Some(t) => copy_or(&t.time_spent, "n/a"),
            None => String::from_str("n/a"),
        },
    }
}

/// Joins the strings with `sep` between each two.
pub fn join_with(parts: &Vec<String>, sep: &str) -> (r: String)
    ensures
        r@ == joined(parts@.map_values(|s: String| s@), sep@),
{
    let ghost views = parts@.map_values(|s: String| s@);
    if parts.len() == 0 {
        return String::new();
    }
    let mut out = parts[0].clone();
    let mut i: usize = 1;
    proof {
        assert(views.take(1) =~= seq![views[0]]);
    }
    while i < parts.len()
        invariant
            1 <= i <= parts@.len(),
            views == parts@.map_values(|s: String| s@),
            out@ == joined(views.take(i as int), sep@),
        decreases parts@.len() - i,
    {
        out.append(sep);
        out.append(parts[i].as_str());
        proof {
            assert(views.take(i + 1).drop_last() =~= views.take(i as int));
        }
        i = i + 1;
    }
    proof {
        assert(views.take(i as int) =~= views);
    }
    out
}

/// Joins the strings with a newline between each two.
pub fn join_with_newlines(parts: &Vec<String>) -> (r: String)
    ensures
        r@ == join_lines(parts@.map_values(|s: String| s@)),
{
    join_with(parts, "\n")
}

/// The cell of column `c` for `issue`: the column's text of the issue where
/// it has no subtasks, else that of each subtask, newline-joined in group
/// order.
pub fn render_field(subtasks: &SubtaskMap, issue: &Issue, c: Column) -> (r: String)
    requires
        subtasks.wf(),
    ensures
        r@ == rendered(*subtasks, *issue, c),
        subtasks.group(issue.key@).len() == 0 ==> r@ == column_text(c, *issue),
        subtasks.group(issue.key@).len() > 0 ==> r@ == join_lines(
            column_texts(c, subtasks.group(issue.key@)),
        ),
{
    match subtasks.get(&issue.key) {
        None => column_value(c, issue),
        Some(group) => {
            let mut texts: Vec<String> = Vec::new();
            let mut i: usize = 0;
            while i < group.len()
                invariant
                    i <= group@.len(),
                    texts@.len() == i,
                    forall|j: int| 0 <= j < i ==> #[trigger] texts@[j]@ == column_text(c, group@[j]),
                decreases group@.len() - i,
            {
                let t = column_value(c, &group[i]);
                texts.push(t);
                i = i + 1;
            }
            proof {
                assert(texts@.map_values(|s: String| s@) =~= column_texts(c, group@));
            }
            join_with_newlines(&texts)
        },
    }
}

} // verus!
