//! Splitting a flat issue list into top-level issues and subtask groups.
use crate::issue::{assigned_to, effective_assignee, parent_of, Issue};
use vstd::seq_lib::*;
use vstd::prelude::*;

verus! {

/// The subtasks of one parent issue, in input order.
pub struct SubtaskGroup {
    pub parent_key: String,
    pub subtasks: Vec<Issue>,
}

/// Mapping from parent key to its ordered subtasks.
pub struct SubtaskMap {
    pub groups: Vec<SubtaskGroup>,
}

impl SubtaskMap {
    /// Keys are unique, groups are non-empty and every member is a subtask
    /// of the group's key.
    pub open spec fn wf(self) -> bool {
        &&& forall|i: int, j: int|
            0 <= i < j < self.groups@.len() ==> self.groups@[i].parent_key@
                != self.groups@[j].parent_key@
        &&& forall|i: int|
            0 <= i < self.groups@.len() ==> (#[trigger] self.groups@[i]).subtasks@.len() > 0
        &&& forall|i: int, j: int|
            0 <= i < self.groups@.len() && 0 <= j < self.groups@[i].subtasks@.len() ==> {
                let s = #[trigger] self.groups@[i].subtasks@[j];
                s.is_subtask && s.parent_key is Some && parent_of(s)
                    == self.groups@[i].parent_key@
            }
    }

    pub open spec fn has_group(self, key: Seq<char>) -> bool {
        exists|i: int| 0 <= i < self.groups@.len() && #[trigger] self.groups@[i].parent_key@ == key
    }

    /// The subtasks recorded under `key`, empty where there are none.
    pub open spec fn group(self, key: Seq<char>) -> Seq<Issue> {
        if self.has_group(key) {
            let i = choose|i: int|
                0 <= i < self.groups@.len() && #[trigger] self.groups@[i].parent_key@ == key;
            self.groups@[i].subtasks@
        } else {
            Seq::empty()
        }
    }

    pub proof fn lemma_group_at(self, i: int)
        requires
            self.wf(),
            0 <= i < self.groups@.len(),
        ensures
            self.has_group(self.groups@[i].parent_key@),
            self.group(self.groups@[i].parent_key@) == self.groups@[i].subtasks@,
    {
        let key = self.groups@[i].parent_key@;
        assert(self.has_group(key));
        let j = choose|j: int| 0 <= j < self.groups@.len() && #[trigger] self.groups@[j].parent_key@ == key;
        if j < i {
            assert(self.groups@[j].parent_key@ != self.groups@[i].parent_key@);
        } else if i < j {
            assert(self.groups@[i].parent_key@ != self.groups@[j].parent_key@);
        }
    }

    /// Appends `issue` to the group of `key`, creating the group if needed.
    fn push_subtask(&mut self, key: String, issue: Issue)
        requires
            old(self).wf(),
            issue.is_subtask,
            issue.parent_key is Some,
            parent_of(issue) == key@,
        ensures
            final(self).wf(),
            forall|k: Seq<char>|
                #[trigger] final(self).group(k) == if k == key@ {
                    old(self).group(k).push(issue)
                } else {
                    old(self).group(k)
                },
    {
        let ghost pre = *self;
        match self.find(&key) {
            Some(idx) => {
                let mut g = self.groups.remove(idx);
                g.subtasks.push(issue);
                self.groups.insert(idx, g);
                proof {
                    assert(self.groups@ =~= pre.groups@.update(idx as int, g));
                    pre.lemma_group_at(idx as int);
                    assert(self.wf());
                    assert forall|k: Seq<char>|
                        #[trigger] self.group(k) == if k == key@ {
                            pre.group(k).push(issue)
                        } else {
                            pre.group(k)
                        } by {
                        if self.has_group(k) {
                            let j = choose|j: int|
                                0 <= j < self.groups@.len() && #[trigger] self.groups@[j].parent_key@
                                    == k;
                            self.lemma_group_at(j);
                            pre.lemma_group_at(j);
                        } else if pre.has_group(k) {
                            let j = choose|j: int|
                                0 <= j < pre.groups@.len() && #[trigger] pre.groups@[j].parent_key@
                                    == k;
                            assert(self.groups@[j].parent_key@ == k);
                        }
                    }
                }
            },
            None => {
                let ghost gk = key@;
                let g = SubtaskGroup { parent_key: key, subtasks: vec![issue] };
                self.groups.push(g);
                proof {
                    assert(self.groups@ =~= pre.groups@.push(g));
                    assert(g.subtasks@ =~= seq![issue]);
                    assert(self.wf());
                    assert forall|k: Seq<char>|
                        #[trigger] self.group(k) == if k == gk {
                            pre.group(k).push(issue)
                        } else {
                            pre.group(k)
                        } by {
                        if self.has_group(k) {
                            let j = choose|j: int|
                                0 <= j < self.groups@.len() && #[trigger] self.groups@[j].parent_key@
                                    == k;
                            self.lemma_group_at(j);
                            if j < pre.groups@.len() {
                                assert(self.groups@[j] == pre.groups@[j]);
                                assert(pre.groups@[j].parent_key@ == k);
                                assert(k != gk);
                                pre.lemma_group_at(j);
                            } else {
                                assert(!pre.has_group(k));
                                assert(pre.group(k).push(issue) =~= g.subtasks@);
                            }
                        } else {
                            assert(self.groups@[self.groups@.len() - 1].parent_key@ == gk);
                            assert(k != gk);
                            if pre.has_group(k) {
                                let j = choose|j: int|
                                    0 <= j < pre.groups@.len()
                                        && #[trigger] pre.groups@[j].parent_key@ == k;
                                assert(self.groups@[j].parent_key@ == k);
                            }
                        }
                    }
                }
            },
        }
    }

    /// An empty mapping.
    pub fn new() -> (r: SubtaskMap)
        ensures
            r.wf(),
            forall|k: Seq<char>| #[trigger] r.group(k).len() == 0,
    {
        SubtaskMap { groups: Vec::new() }
    }

    /// Index of the group stored under `key`, if any.
    fn find(&self, key: &String) -> (r: Option<usize>)
        requires
            self.wf(),
        ensures
            r is None ==> !self.has_group(key@),
            r matches Some(i) ==> i < self.groups@.len() && self.groups@[i as int].parent_key@
                == key@,
    {
        let mut i: usize = 0;
        while i < self.groups.len()
            invariant
                i <= self.groups@.len(),
                forall|j: int| 0 <= j < i ==> #[trigger] self.groups@[j].parent_key@ != key@,
            decreases self.groups@.len() - i,
        {
            if self.groups[i].parent_key == *key {
                return Some(i);
            }
            i = i + 1;
        }
        None
    }

    /// The subtasks of the issue with key `key`; `None` where it has none.
    pub fn get(&self, key: &String) -> (r: Option<&Vec<Issue>>)
        requires
            self.wf(),
        ensures
            r is None <==> self.group(key@).len() == 0,
            r matches Some(v) ==> v@ == self.group(key@),
    {
        match self.find(key) {
            Some(i) => {
                proof {
                    self.lemma_group_at(i as int);
                }
                Some(&self.groups[i].subtasks)
            },
            None => None,
        }
    }
}

/// Whether the partitioner files subtask `i` under its parent, given the
/// optional assignee and issue-key filters.
pub open spec fn subtask_kept(i: Issue, assignee: Option<String>, issue_key: Option<String>) -> bool {
    &&& i.is_subtask
    &&& i.parent_key is Some
    &&& (assignee matches Some(a) ==> effective_assignee(i) == a@)
    &&& (issue_key matches Some(k) ==> i.key@ == k@ || parent_of(i) == k@)
}

/// The issues that are not subtasks, in input order.
pub open spec fn top_level_of(issues: Seq<Issue>) -> Seq<Issue> {
    issues.filter(|i: Issue| !i.is_subtask)
}

/// The kept subtasks whose parent is `key`, in input order.
pub open spec fn subtasks_under(
    issues: Seq<Issue>,
    assignee: Option<String>,
    issue_key: Option<String>,
    key: Seq<char>,
) -> Seq<Issue> {
    issues.filter(|i: Issue| subtask_kept(i, assignee, issue_key) && parent_of(i) == key)
}

proof fn lemma_filter_push(s: Seq<Issue>, x: Issue, p: spec_fn(Issue) -> bool)
    ensures
        s.push(x).filter(p) == if p(x) {
            s.filter(p).push(x)
        } else {
            s.filter(p)
        },
{
    reveal_with_fuel(Seq::filter, 1);
    assert(s.push(x).drop_last() =~= s);
}

/// Splits `issues` into the top-level issues and the subtasks grouped by
/// parent key. Top-level issues are never filtered here; subtasks without a
/// parent key, or rejected by a filter, are dropped.
pub fn partition(issues: Vec<Issue>, assignee: &Option<String>, issue_key: &Option<String>) -> (r: (
    Vec<Issue>,
    SubtaskMap,
))
    ensures
        r.0@ == top_level_of(issues@),
        r.1.wf(),
        forall|k: Seq<char>| #[trigger]
            r.1.group(k) == subtasks_under(issues@, *assignee, *issue_key, k),
{
    let ghost all = issues@;
    let total = issues.len();
    let mut rest = issues;
    let mut tasks: Vec<Issue> = Vec::new();
    let mut map = SubtaskMap::new();
    let mut n: usize = 0;
    proof {
        assert(all.take(0) =~= Seq::<Issue>::empty());
        reveal_with_fuel(Seq::filter, 1);
        assert forall|k: Seq<char>| #[trigger]
            map.group(k) == subtasks_under(all.take(0), *assignee, *issue_key, k) by {
            assert(map.group(k) =~= Seq::<Issue>::empty());
        }
    }
    while rest.len() > 0
        invariant
            n <= all.len(),
            n + rest@.len() == all.len(),
            all.len() == total,
            rest@ == all.skip(n as int),
            tasks@ == top_level_of(all.take(n as int)),
            map.wf(),
            forall|k: Seq<char>| #[trigger]
                map.group(k) == subtasks_under(all.take(n as int), *assignee, *issue_key, k),
        decreases rest@.len(),
    {
        let issue = rest.remove(0);
        let ghost prev = all.take(n as int);
        let ghost x = issue;
        proof {
            assert(all.take(n + 1) =~= prev.push(x));
            assert(rest@ =~= all.skip(n + 1));
            lemma_filter_push(prev, x, |i: Issue| !i.is_subtask);
        }
        let ghost map0 = map;
        if !issue.is_subtask {
            tasks.push(issue);
        } else {
            let keep = match &issue.parent_key {
                None => false,
                Some(p) => {
                    let a_ok = match assignee {
                        Some(a) => assigned_to(&issue, a),
                        None => true,
                    };
                    let k_ok = match issue_key {
                        Some(k) => issue.key == *k || *p == *k,
                        None => true,
                    };
                    a_ok && k_ok
                },
            };
            if keep {
                let p = match &issue.parent_key {
                    Some(p) => p.clone(),
                    None => String::new(),
                };
                map.push_subtask(p, issue);
            }
        }
        proof {
            assert forall|k: Seq<char>| #[trigger]
                map.group(k) == subtasks_under(prev.push(x), *assignee, *issue_key, k) by {
                lemma_filter_push(
                    prev,
                    x,
                    |i: Issue| subtask_kept(i, *assignee, *issue_key) && parent_of(i) == k,
                );
                assert(map0.group(k) == subtasks_under(prev, *assignee, *issue_key, k));
            }
        }
        n = n + 1;
    }
    proof {
        assert(all.take(n as int) =~= all);
    }
    (tasks, map)
}

} // verus!
