//! Per-assignee accumulation of assignment counts and time totals.
use crate::issue::{assignee_label, effective_assignee, Issue};
use crate::order::{key_less, lemma_lex_total, lemma_lex_transitive, lex_lt};
use crate::partition::SubtaskMap;
use vstd::prelude::*;

verus! {

/// Seconds in one workday of eight hours.
pub const WORKDAY_SECONDS: u128 = 28800;

/// `x + y`, capped at `max`.
pub open spec fn capped_sum(x: int, y: int, max: int) -> int {
    if x + y > max {
        max
    } else {
        x + y
    }
}

/// `seconds` in tenths of a workday, rounded to the nearest tenth (halves up).
pub open spec fn tenths_of_day(seconds: u128) -> int {
    (seconds / WORKDAY_SECONDS) as int * 10 + ((seconds % WORKDAY_SECONDS) as int * 10 + 14400)
        / 28800
}

/// The totals of one assignee. Totals saturate at the largest value of their
/// type, a bound no real report reaches.
#[derive(Clone, Copy, Debug, PartialEq, Eq)]
pub struct User {
    /// Number of recorded original estimates.
    pub issues: u32,
    /// Sum of the recorded original estimates, in seconds.
    pub estimate: u128,
    /// Sum of the recorded remaining estimates, in seconds.
    pub remaining: u128,
    /// Sum of the recorded time spent, in seconds.
    pub actual: u128,
}

/// The quantity a time-tracking value is recorded as.
#[derive(Clone, Copy, Debug, PartialEq, Eq)]
pub enum TimeField {
    Estimate,
    Remaining,
    Spent,
}

/// The totals of an assignee before anything is recorded.
pub open spec fn zero_user() -> User {
    User { issues: 0, estimate: 0, remaining: 0, actual: 0 }
}

/// `u` after recording `v` seconds as `f`.
pub open spec fn recorded(u: User, f: TimeField, v: u64) -> User {
    match f {
        TimeField::Estimate => User {
            issues: capped_sum(u.issues as int, 1, u32::MAX as int) as u32,
            estimate: capped_sum(u.estimate as int, v as int, u128::MAX as int) as u128,
            ..u
        },
        TimeField::Remaining => User {
            remaining: capped_sum(u.remaining as int, v as int, u128::MAX as int) as u128,
            ..u
        },
        TimeField::Spent => User {
            actual: capped_sum(u.actual as int, v as int, u128::MAX as int) as u128,
            ..u
        },
    }
}

impl User {
    pub fn new() -> (r: User)
        ensures
            r == zero_user(),
    {
        User { issues: 0, estimate: 0, remaining: 0, actual: 0 }
    }

    /// Number of recorded original estimates.
    pub fn assignments(&self) -> (r: u32)
        ensures
            r == self.issues,
    {
        self.issues
    }

    /// Original estimate in tenths of a workday, rounded to the nearest tenth.
    pub fn original_estimate_days(&self) -> (r: u128)
        ensures
            r == tenths_of_day(self.estimate),
    {
        day_tenths(self.estimate)
    }

    /// Remaining estimate in tenths of a workday, rounded to the nearest tenth.
    pub fn remaining_estimate_days(&self) -> (r: u128)
        ensures
            r == tenths_of_day(self.remaining),
    {
        day_tenths(self.remaining)
    }

    /// Time spent in tenths of a workday, rounded to the nearest tenth.
    pub fn time_spent_days(&self) -> (r: u128)
        ensures
            r == tenths_of_day(self.actual),
    {
        day_tenths(self.actual)
    }

    fn record(&mut self, f: TimeField, v: u64)
        ensures
            *final(self) == recorded(*old(self), f, v),
    {
        match f {
            TimeField::Estimate => {
                self.issues = self.issues.saturating_add(1);
                self.estimate = self.estimate.saturating_add(v as u128);
            },
            TimeField::Remaining => {
                self.remaining = self.remaining.saturating_add(v as u128);
            },
            TimeField::Spent => {
                self.actual = self.actual.saturating_add(v as u128);
            },
        }
    }
}

/// Converts seconds to tenths of a workday, rounded to the nearest tenth.
pub fn day_tenths(seconds: u128) -> (r: u128)
    ensures
        r == tenths_of_day(seconds),
{
    let whole = seconds / WORKDAY_SECONDS;
    let rest = seconds % WORKDAY_SECONDS;
    whole * 10 + (rest * 10 + 14400) / 28800
}

/// Totals per assignee, each assignee once.
pub struct Users {
    pub entries: Vec<(String, User)>,
}

impl Users {
    /// No assignee is listed twice.
    pub open spec fn wf(self) -> bool {
        forall|i: int, j: int|
            0 <= i < j < self.entries@.len() ==> self.entries@[i].0@ != self.entries@[j].0@
    }

    pub open spec fn has(self, k: Seq<char>) -> bool {
        exists|i: int| 0 <= i < self.entries@.len() && #[trigger] self.entries@[i].0@ == k
    }

    /// The totals of `k`; zero where nothing was recorded for `k`.
    pub open spec fn user(self, k: Seq<char>) -> User {
        if self.has(k) {
            let i = choose|i: int| 0 <= i < self.entries@.len() && #[trigger] self.entries@[i].0@ == k;
            self.entries@[i].1
        } else {
            zero_user()
        }
    }

    /// The totals by assignee.
    pub open spec fn totals(self) -> Map<Seq<char>, User> {
        Map::new(|k: Seq<char>| self.has(k), |k: Seq<char>| self.user(k))
    }

    pub proof fn lemma_user_at(self, i: int)
        requires
            self.wf(),
            0 <= i < self.entries@.len(),
        ensures
            self.has(self.entries@[i].0@),
            self.user(self.entries@[i].0@) == self.entries@[i].1,
    {
        let key = self.entries@[i].0@;
        assert(self.has(key));
        let j = choose|j: int| 0 <= j < self.entries@.len() && #[trigger] self.entries@[j].0@ == key;
        if j < i {
            assert(self.entries@[j].0@ != self.entries@[i].0@);
        } else if i < j {
            assert(self.entries@[i].0@ != self.entries@[j].0@);
        }
    }

    pub fn new() -> (r: Users)
        ensures
            r.wf(),
            r.totals() == Map::<Seq<char>, User>::empty(),
    {
        let r = Users { entries: Vec::new() };
        proof {
            assert(r.totals() =~= Map::<Seq<char>, User>::empty());
        }
        r
    }

    fn find(&self, key: &String) -> (r: Option<usize>)
        ensures
            r is None ==> !self.has(key@),
            r matches Some(i) ==> i < self.entries@.len() && self.entries@[i as int].0@ == key@,
    {
        let mut i: usize = 0;
        while i < self.entries.len()
            invariant
                i <= self.entries@.len(),
                forall|j: int| 0 <= j < i ==> #[trigger] self.entries@[j].0@ != key@,
            decreases self.entries@.len() - i,
        {
            if self.entries[i].0 == *key {
                return Some(i);
            }
            i = i + 1;
        }
        None
    }

    /// Records `value` seconds as `field` for `assignee` and hands `value`
    /// back. Nothing changes where `value` is absent; a recorded estimate
    /// also counts one assignment.
    pub fn record_seconds(&mut self, assignee: String, field: TimeField, value: Option<u64>) -> (r:
        Option<u64>)
        requires
            old(self).wf(),
        ensures
            r == value,
            final(self).wf(),
            value is None ==> *final(self) == *old(self),
            final(self).totals() == record_view(old(self).totals(), assignee@, field, value),
    {
        let ghost pre = *self;
        let ghost a = assignee@;
        if let Some(v) = value {
            match self.find(&assignee) {
                Some(i) => {
                    let mut u = self.entries[i].1;
                    u.record(field, v);
                    let (k, _) = self.entries.remove(i);
                    self.entries.insert(i, (k, u));
                    proof {
                        assert(self.entries@ =~= pre.entries@.update(i as int, (k, u)));
                        pre.lemma_user_at(i as int);
                        assert(self.wf());
                        assert(self.totals() =~= record_view(pre.totals(), a, field, value)) by {
                            assert forall|q: Seq<char>|
                                self.has(q) == (pre.has(q) || q == a) && (self.has(q) ==> self.user(q)
                                    == if q == a {
                                    recorded(pre.user(q), field, v)
                                } else {
                                    pre.user(q)
                                }) by {
                                if self.has(q) {
                                    let j = choose|j: int|
                                        0 <= j < self.entries@.len() && #[trigger] self.entries@[j].0@
                                            == q;
                                    self.lemma_user_at(j);
                                    pre.lemma_user_at(j);
                                } else if pre.has(q) {
                                    let j = choose|j: int|
                                        0 <= j < pre.entries@.len() && #[trigger] pre.entries@[j].0@
                                            == q;
                                    assert(self.entries@[j].0@ == q);
                                }
                            }
                        }
                    }
                },
                None => {
                    let mut u = User::new();
                    u.record(field, v);
                    self.entries.push((assignee, u));
                    proof {
                        let n = pre.entries@.len() as int;
                        assert(self.entries@ =~= pre.entries@.push((assignee, u)));
                        assert(self.wf());
                        assert(self.totals() =~= record_view(pre.totals(), a, field, value)) by {
                            assert forall|q: Seq<char>|
                                self.has(q) == (pre.has(q) || q == a) && (self.has(q) ==> self.user(q)
                                    == if q == a {
                                    recorded(pre.user(q), field, v)
                                } else {
                                    pre.user(q)
                                }) by {
                                assert(self.entries@[n].0@ == a);
                                if self.has(q) {
                                    let j = choose|j: int|
                                        0 <= j < self.entries@.len() && #[trigger] self.entries@[j].0@
                                            == q;
                                    self.lemma_user_at(j);
                                    if j < n {
                                        pre.lemma_user_at(j);
                                    }
                                } else if pre.has(q) {
                                    let j = choose|j: int|
                                        0 <= j < pre.entries@.len() && #[trigger] pre.entries@[j].0@
                                            == q;
                                    assert(self.entries@[j].0@ == q);
                                }
                            }
                        }
                    }
                },
            }
        }
        value
    }
}

impl Users {
    /// Records an original estimate for `assignee`; see `record_seconds`.
    pub fn original_estimate_seconds(&mut self, assignee: String, estimate: Option<u64>) -> (r:
        Option<u64>)
        requires
            old(self).wf(),
        ensures
            r == estimate,
            final(self).wf(),
            final(self).totals() == record_view(
                old(self).totals(),
                assignee@,
                TimeField::Estimate,
                estimate,
            ),
    {
        self.record_seconds(assignee, TimeField::Estimate, estimate)
    }

    /// Records a remaining estimate for `assignee`; see `record_seconds`.
    pub fn remaining_estimate_seconds(&mut self, assignee: String, remaining: Option<u64>) -> (r:
        Option<u64>)
        requires
            old(self).wf(),
        ensures
            r == remaining,
            final(self).wf(),
            final(self).totals() == record_view(
                old(self).totals(),
                assignee@,
                TimeField::Remaining,
                remaining,
            ),
    {
        self.record_seconds(assignee, TimeField::Remaining, remaining)
    }

    /// Records time spent for `assignee`; see `record_seconds`.
    pub fn time_spent_seconds(&mut self, assignee: String, actual: Option<u64>) -> (r: Option<u64>)
        requires
            old(self).wf(),
        ensures
            r == actual,
            final(self).wf(),
            final(self).totals() == record_view(
                old(self).totals(),
                assignee@,
                TimeField::Spent,
                actual,
            ),
    {
        self.record_seconds(assignee, TimeField::Spent, actual)
    }

    /// Removes and returns the assignee that sorts first, with its totals;
    /// `None` once every assignee has been handed out.
    pub fn next(&mut self) -> (r: Option<(String, User)>)
        requires
            old(self).wf(),
        ensures
            final(self).wf(),
            r is None <==> old(self).totals().dom() == Set::<Seq<char>>::empty(),
            r is None ==> final(self).totals() == old(self).totals(),
            r matches Some(e) ==> {
                &&& old(self).totals().contains_key(e.0@)
                &&& old(self).totals()[e.0@] == e.1
                &&& forall|k: Seq<char>|
                    #[trigger] old(self).totals().contains_key(k) && k != e.0@ ==> lex_lt(e.0@, k)
                &&& final(self).totals() == old(self).totals().remove(e.0@)
            },
    {
        let ghost pre = *self;
        if self.entries.len() == 0 {
            proof {
                assert(pre.totals().dom() =~= Set::<Seq<char>>::empty());
            }
            return None;
        }
        let mut m: usize = 0;
        let mut i: usize = 1;
        while i < self.entries.len()
            invariant
                *self == pre,
                self.wf(),
                0 <= m < i <= self.entries@.len(),
                forall|j: int|
                    0 <= j < i && j != m ==> lex_lt(
                        self.entries@[m as int].0@,
                        #[trigger] self.entries@[j].0@,
                    ),
            decreases self.entries@.len() - i,
        {
            if key_less(&self.entries[i].0, &self.entries[m].0) {
                proof {
                    assert forall|j: int|
                        0 <= j < i + 1 && j != i implies lex_lt(
                        self.entries@[i as int].0@,
                        #[trigger] self.entries@[j].0@,
                    ) by {
                        if j != m {
                            lemma_lex_transitive(
                                self.entries@[i as int].0@,
                                self.entries@[m as int].0@,
                                self.entries@[j].0@,
                            );
                        }
                    }
                }
                m = i;
            } else {
                proof {
                    lemma_lex_total(self.entries@[m as int].0@, self.entries@[i as int].0@);
                }
            }
            i = i + 1;
        }
        let e = self.entries.remove(m);
        proof {
            pre.lemma_user_at(m as int);
            assert(self.entries@ =~= pre.entries@.remove(m as int));
            assert(self.wf());
            assert forall|k: Seq<char>|
                #[trigger] pre.totals().contains_key(k) && k != e.0@ implies lex_lt(e.0@, k) by {
                let j = choose|j: int| 0 <= j < pre.entries@.len() && #[trigger] pre.entries@[j].0@ == k;
            }
            assert forall|q: Seq<char>|
                self.has(q) == (pre.has(q) && q != e.0@) && (self.has(q) ==> self.user(q)
                    == pre.user(q)) by {
                if self.has(q) {
                    let j = choose|j: int|
                        0 <= j < self.entries@.len() && #[trigger] self.entries@[j].0@ == q;
                    self.lemma_user_at(j);
                    if j < m {
                        pre.lemma_user_at(j);
                        assert(pre.entries@[j].0@ != pre.entries@[m as int].0@);
                    } else {
                        pre.lemma_user_at(j + 1);
                        assert(pre.entries@[m as int].0@ != pre.entries@[j + 1].0@);
                    }
                } else if pre.has(q) && q != e.0@ {
                    let j = choose|j: int| 0 <= j < pre.entries@.len() && #[trigger] pre.entries@[j].0@ == q;
                    if j < m {
                        assert(self.entries@[j].0@ == q);
                    } else {
                        assert(j != m);
                        assert(self.entries@[j - 1].0@ == q);
                    }
                }
            }
            assert(self.totals() =~= pre.totals().remove(e.0@));
        }
        Some(e)
    }
}

/// `m` after recording `value` seconds as `f` for assignee `a`.
pub open spec fn record_view(m: Map<Seq<char>, User>, a: Seq<char>, f: TimeField, value: Option<u64>) -> Map<
    Seq<char>,
    User,
> {
    match value {
        None => m,
        Some(v) => m.insert(
            a,
            recorded(
                if m.contains_key(a) {
                    m[a]
                } else {
                    zero_user()
                },
                f,
                v,
            ),
        ),
    }
}

/// The seconds recorded as `f` in issue `i`, where present.
pub open spec fn seconds_of(f: TimeField, i: Issue) -> Option<u64> {
    match i.time_tracking {
        None => None,
        Some(t) => match f {
            TimeField::Estimate => t.original_estimate_seconds,
            TimeField::Remaining => t.remaining_estimate_seconds,
            TimeField::Spent => t.time_spent_seconds,
        },
    }
}

/// The issues whose values count for `issue`: its subtasks where it has
/// any, else the issue itself.
pub open spec fn contributors(subtasks: SubtaskMap, issue: Issue) -> Seq<Issue> {
    let g = subtasks.group(issue.key@);
    if g.len() == 0 {
        seq![issue]
    } else {
        g
    }
}

/// Sum of the values recorded as `f` in `items`, absent values counting 0.
pub open spec fn seconds_sum(items: Seq<Issue>, f: TimeField) -> int
    decreases items.len(),
{
    if items.len() == 0 {
        0
    } else {
        seconds_sum(items.drop_last(), f) + match seconds_of(f, items.last()) {
            Some(v) => v as int,
            None => 0,
        }
    }
}

/// `m` after recording, in order, each item's value for `f` under the item's
/// effective assignee.
pub open spec fn record_all(m: Map<Seq<char>, User>, items: Seq<Issue>, f: TimeField) -> Map<
    Seq<char>,
    User,
>
    decreases items.len(),
{
    if items.len() == 0 {
        m
    } else {
        record_view(
            record_all(m, items.drop_last(), f),
            effective_assignee(items.last()),
            f,
            seconds_of(f, items.last()),
        )
    }
}

/// The seconds recorded as `f` in `issue`, where present.
pub fn field_seconds(f: TimeField, issue: &Issue) -> (r: Option<u64>)
    ensures
        r == seconds_of(f, *issue),
{
    match &issue.time_tracking {
        None => None,
        Some(t) => match f {
            TimeField::Estimate => t.original_estimate_seconds,
            TimeField::Remaining => t.remaining_estimate_seconds,
            TimeField::Spent => t.time_spent_seconds,
        },
    }
}

/// Records the `field` value of each subtask of `issue` (or of `issue`
/// itself where it has none) under that issue's effective assignee, and
/// returns the sum of those values, absent ones counting 0.
pub fn aggregate_field(subtasks: &SubtaskMap, issue: &Issue, users: &mut Users, field: TimeField) -> (r:
    u128)
    requires
        subtasks.wf(),
        old(users).wf(),
    ensures
        final(users).wf(),
        r == seconds_sum(contributors(*subtasks, *issue), field),
        final(users).totals() == record_all(
            old(users).totals(),
            contributors(*subtasks, *issue),
            field,
        ),
{
    match subtasks.get(&issue.key) {
        None => {
            let ghost m0 = users.totals();
            let v = users.record_seconds(assignee_label(issue), field, field_seconds(field, issue));
            proof {
                let items = seq![*issue];
                assert(items.drop_last() =~= Seq::<Issue>::empty());
                assert(record_all(m0, items.drop_last(), field) == m0);
                assert(items.last() == *issue);
                assert(seconds_sum(items.drop_last(), field) == 0);
            }
            match v {
                Some(x) => x as u128,
                None => 0,
            }
        },
        Some(group) => {
            let ghost m0 = users.totals();
            let mut sum: u128 = 0;
            let mut i: usize = 0;
            proof {
                assert(group@.take(0) =~= Seq::<Issue>::empty());
            }
            while i < group.len()
                invariant
                    i <= group@.len(),
                    users.wf(),
                    sum as int == seconds_sum(group@.take(i as int), field),
                    sum as int <= i as int * (u64::MAX as int),
                    users.totals() == record_all(m0, group@.take(i as int), field),
                decreases group@.len() - i,
            {
                let s = &group[i];
                let v = users.record_seconds(assignee_label(s), field, field_seconds(field, s));
                proof {
                    assert(group@.take(i + 1).drop_last() =~= group@.take(i as int));
                    assert((i as int + 1) * (u64::MAX as int) == i as int * (u64::MAX as int) + (
                    u64::MAX as int)) by (nonlinear_arith);
                    assert((i as int + 1) * (u64::MAX as int) <= (usize::MAX as int) * (
                    u64::MAX as int) + (u64::MAX as int)) by (nonlinear_arith)
                        requires
                            i < usize::MAX,
                    ;
                }
                match v {
                    Some(x) => {
                        sum = sum + x as u128;
                    },
                    None => {},
                }
                i = i + 1;
            }
            proof {
                assert(group@.take(i as int) =~= group@);
            }
            sum
        },
    }
}

} // verus!
