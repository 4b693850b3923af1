//! Rows of the board and sprint listings, ordered by id.
use vstd::prelude::*;

verus! {

broadcast use vstd::seq_lib::group_to_multiset_ensures;

/// One listing row and the id it is ordered by.
pub struct IdRow {
    pub id: u64,
    pub cells: Vec<String>,
}

/// Whether `a` may stand before `b`: ascending, or descending where asked.
pub open spec fn id_ordered(a: u64, b: u64, descending: bool) -> bool {
    if descending {
        a >= b
    } else {
        a <= b
    }
}

/// Whether the rows stand in id order.
pub open spec fn ids_sorted(rows: Seq<IdRow>, descending: bool) -> bool {
    forall|i: int, j: int|
        0 <= i < j < rows.len() ==> id_ordered(rows[i].id, rows[j].id, descending)
}

/// The same rows ordered by id, ascending or, where `descending`, descending.
pub fn sort_by_id(rows: Vec<IdRow>, descending: bool) -> (r: Vec<IdRow>)
    ensures
        r@.to_multiset() == rows@.to_multiset(),
        ids_sorted(r@, descending),
{
    let ghost all = rows@;
    let mut rest = rows;
    let mut out: Vec<IdRow> = Vec::new();
    let total = rest.len();
    proof {
        assert(all.skip(0) =~= all);
        assert(all.take(0) =~= Seq::<IdRow>::empty());
    }
    let mut n: usize = 0;
    while rest.len() > 0
        invariant
            n + rest@.len() == all.len(),
            all.len() == total,
            rest@ == all.skip(n as int),
            out@.to_multiset() == all.take(n as int).to_multiset(),
            ids_sorted(out@, descending),
        decreases rest@.len(),
    {
        let x = rest.remove(0);
        proof {
            assert(rest@ =~= all.skip(n + 1));
            assert(all.take(n + 1) =~= all.take(n as int).push(x));
        }
        let mut p: usize = 0;
        while p < out.len() && id_ordered_exec(out[p].id, x.id, descending)
            invariant
                p <= out@.len(),
                forall|i: int| 0 <= i < p ==> id_ordered(#[trigger] out@[i].id, x.id, descending),
            decreases out@.len() - p,
        {
            p = p + 1;
        }
        let ghost before = out@;
        out.insert(p, x);
        proof {
            vstd::seq_lib::to_multiset_insert(before, p as int, x);
            assert(out@ == before.insert(p as int, x));
            assert forall|i: int, j: int|
                0 <= i < j < out@.len() implies id_ordered(out@[i].id, out@[j].id, descending) by {
                if j == p {
                } else if i == p {
                    assert(!id_ordered(before[p as int].id, x.id, descending));
                    assert(id_ordered(before[p as int].id, before[j - 1].id, descending) || p
                        == j - 1);
                } else if i < p && j > p {
                    assert(id_ordered(before[i].id, before[j - 1].id, descending));
                } else if i > p {
                    assert(id_ordered(before[i - 1].id, before[j - 1].id, descending));
                }
            }
        }
        n = n + 1;
    }
    proof {
        assert(all.take(n as int) =~= all);
    }
    out
}

fn id_ordered_exec(a: u64, b: u64, descending: bool) -> (r: bool)
    ensures
        r == id_ordered(a, b, descending),
{
    if descending {
        a >= b
    } else {
        a <= b
    }
}

} // verus!
