//! Properties that relate the library's functions, stated over the same
//! spec functions as their contracts.
use crate::issue::Issue;
use crate::listing::truncated;
use crate::issue::parent_of;
use crate::partition::{subtask_kept, subtasks_under, top_level_of};
use crate::users::{record_view, zero_user, TimeField, User};
use vstd::prelude::*;

verus! {

broadcast use vstd::seq_lib::group_filter_ensures;

/// A subtask without a parent key appears neither among the top-level
/// issues nor in any subtask group, whatever the filters.
pub proof fn lemma_orphan_subtask_dropped(
    issues: Seq<Issue>,
    assignee: Option<String>,
    issue_key: Option<String>,
    i: int,
)
    requires
        0 <= i < issues.len(),
        issues[i].is_subtask,
        issues[i].parent_key is None,
    ensures
        !top_level_of(issues).contains(issues[i]),
        forall|k: Seq<char>| !(#[trigger] subtasks_under(issues, assignee, issue_key, k)).contains(
            issues[i],
        ),
{
    let x = issues[i];
    let p = |t: Issue| !t.is_subtask;
    if top_level_of(issues).contains(x) {
        let j = choose|j: int| 0 <= j < top_level_of(issues).len() && top_level_of(issues)[j] == x;
        assert(p(top_level_of(issues)[j]));
    }
    assert forall|k: Seq<char>|
        !(#[trigger] subtasks_under(issues, assignee, issue_key, k)).contains(x) by {
        let q = |t: Issue|
            subtask_kept(t, assignee, issue_key) && parent_of(t)
                == k;
        let g = subtasks_under(issues, assignee, issue_key, k);
        if g.contains(x) {
            let j = choose|j: int| 0 <= j < g.len() && g[j] == x;
            assert(q(g[j]));
        }
    }
}

proof fn lemma_filter_keeps_order(s: Seq<Issue>, p: spec_fn(Issue) -> bool, i: int, j: int)
    requires
        0 <= i < j < s.len(),
        p(s[i]),
        p(s[j]),
    ensures
        exists|a: int, b: int|
            0 <= a < b < s.filter(p).len() && s.filter(p)[a] == s[i] && s.filter(p)[b] == s[j],
    decreases s.len(),
{
    reveal_with_fuel(Seq::filter, 1);
    let d = s.drop_last();
    if j == s.len() - 1 {
        assert(d[i] == s[i]);
        assert(d.filter(p).contains(s[i]));
        let a = choose|a: int| 0 <= a < d.filter(p).len() && d.filter(p)[a] == s[i];
        let b = d.filter(p).len() as int;
        assert(s.filter(p)[a] == s[i] && s.filter(p)[b] == s[j]);
    } else {
        assert(d[i] == s[i] && d[j] == s[j]);
        lemma_filter_keeps_order(d, p, i, j);
        let (a, b) = choose|a: int, b: int|
            0 <= a < b < d.filter(p).len() && d.filter(p)[a] == s[i] && d.filter(p)[b] == s[j];
        assert(s.filter(p)[a] == s[i] && s.filter(p)[b] == s[j]);
    }
}

/// Two subtasks filed under the same parent keep their input order in that
/// parent's group.
pub proof fn lemma_group_keeps_input_order(
    issues: Seq<Issue>,
    assignee: Option<String>,
    issue_key: Option<String>,
    key: Seq<char>,
    i: int,
    j: int,
)
    requires
        0 <= i < j < issues.len(),
        subtask_kept(issues[i], assignee, issue_key),
        subtask_kept(issues[j], assignee, issue_key),
        parent_of(issues[i]) == key,
        parent_of(issues[j]) == key,
    ensures
        ({
            let g = subtasks_under(issues, assignee, issue_key, key);
            exists|a: int, b: int| 0 <= a < b < g.len() && g[a] == issues[i] && g[b] == issues[j]
        }),
{
    let p = |t: Issue| subtask_kept(t, assignee, issue_key) && parent_of(t) == key;
    lemma_filter_keeps_order(issues, p, i, j);
    assert(subtasks_under(issues, assignee, issue_key, key) == issues.filter(p));
}

/// Recording an absent value leaves every total and count as it was.
pub proof fn lemma_record_absent_unchanged(m: Map<Seq<char>, User>, a: Seq<char>, f: TimeField)
    ensures
        record_view(m, a, f, None) == m,
{
}

/// Recording an estimate of `v` seconds counts exactly one more assignment
/// and adds exactly `v` to the estimate total of that assignee, below the
/// saturation bounds.
pub proof fn lemma_record_estimate(m: Map<Seq<char>, User>, a: Seq<char>, v: u64)
    requires
        ({
            let u = if m.contains_key(a) {
                m[a]
            } else {
                zero_user()
            };
            u.issues < u32::MAX && u.estimate + v <= u128::MAX
        }),
    ensures
        ({
            let u = if m.contains_key(a) {
                m[a]
            } else {
                zero_user()
            };
            let n = record_view(m, a, TimeField::Estimate, Some(v));
            &&& n.contains_key(a)
            &&& n[a].issues == u.issues + 1
            &&& n[a].estimate == u.estimate + v
            &&& n[a].remaining == u.remaining
            &&& n[a].actual == u.actual
            &&& forall|k: Seq<char>| k != a ==> n.contains_key(k) == m.contains_key(k) && (
            #[trigger] m.contains_key(k) ==> n[k] == m[k])
        }),
{
}

/// Without a width basis a summary is kept whole; with one, a summary longer
/// than the cut is its first characters plus a three-character ellipsis,
/// and one no longer than the cut is kept whole.
pub proof fn lemma_truncation_shape(width: Option<u64>, percent: u64, s: Seq<char>)
    ensures
        width is None ==> truncated(width, percent, s) == s,
        width matches Some(w) ==> ({
            let n = (w * percent) / 100;
            &&& s.len() > n ==> truncated(width, percent, s).len() == n + 3
                && truncated(width, percent, s).take(n as int) == s.take(n as int)
            &&& s.len() <= n ==> truncated(width, percent, s) == s
        }),
{
    if let Some(w) = width {
        let n = (w * percent) / 100;
        if s.len() > n {
            reveal_strlit("...");
            let t = truncated(width, percent, s);
            assert(t.take(n as int) =~= s.take(n as int));
        }
    }
}

} // verus!
