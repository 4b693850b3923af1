//! Rows of the per-assignee report and the estimate update it can send.
use crate::users::{tenths_of_day, User};
use vstd::prelude::*;

verus! {

/// The decimal digits, in order of value.
pub open spec fn digit_chars() -> Seq<char> {
    seq!['0', '1', '2', '3', '4', '5', '6', '7', '8', '9']
}

/// Decimal notation of `n`, without leading zeros.
pub open spec fn decimal(n: nat) -> Seq<char>
    decreases n,
{
    if n < 10 {
        seq![digit_chars()[n as int]]
    } else {
        decimal(n / 10).push(digit_chars()[(n % 10) as int])
    }
}

/// A day count given in tenths, shown with one decimal and a trailing "d".
pub open spec fn days_text(tenths: nat) -> Seq<char> {
    decimal(tenths / 10) + "."@ + seq![digit_chars()[(tenths % 10) as int]] + "d"@
}

fn digit_str(d: u128) -> (r: &'static str)
    requires
        d < 10,
    ensures
        r@ == seq![digit_chars()[d as int]],
{
    if d == 0 {
        proof { reveal_strlit("0"); }
        "0"
    } else if d == 1 {
        proof { reveal_strlit("1"); }
        "1"
    } else if d == 2 {
        proof { reveal_strlit("2"); }
        "2"
    } else if d == 3 {
        proof { reveal_strlit("3"); }
        "3"
    } else if d == 4 {
        proof { reveal_strlit("4"); }
        "4"
    } else if d == 5 {
        proof { reveal_strlit("5"); }
        "5"
    } else if d == 6 {
        proof { reveal_strlit("6"); }
        "6"
    } else if d == 7 {
        proof { reveal_strlit("7"); }
        "7"
    } else if d == 8 {
        proof { reveal_strlit("8"); }
        "8"
    } else {
        proof { reveal_strlit("9"); }
        "9"
    }
}

/// Decimal notation of `n`.
pub fn decimal_string(n: u128) -> (r: String)
    ensures
        r@ == decimal(n as nat),
    decreases n,
{
    if n < 10 {
        String::from_str(digit_str(n))
    } else {
        let mut s = decimal_string(n / 10);
        s.append(digit_str(n % 10));
        s
    }
}

/// A day count given in tenths, shown as in "1.5d".
pub fn format_days(tenths: u128) -> (r: String)
    ensures
        r@ == days_text(tenths as nat),
{
    let mut s = decimal_string(tenths / 10);
    s.append(".");
    s.append(digit_str(tenths % 10));
    s.append("d");
    s
}

/// The report cells of assignee `name`: name, assignments and estimate, and
/// outside planning also remaining estimate and time spent.
pub open spec fn report_cells(name: Seq<char>, u: User, planning: bool) -> Seq<Seq<char>> {
    let head = seq![
        name,
        decimal(u.issues as nat),
        days_text(tenths_of_day(u.estimate) as nat),
    ];
    if planning {
        head
    } else {
        head + seq![
            days_text(tenths_of_day(u.remaining) as nat),
            days_text(tenths_of_day(u.actual) as nat),
        ]
    }
}

/// The report row of assignee `name` with totals `user`.
pub fn report_row(name: &String, user: &User, planning: bool) -> (r: Vec<String>)
    ensures
        r@.map_values(|s: String| s@) == report_cells(name@, *user, planning),
{
    let mut row: Vec<String> = Vec::new();
    row.push(name.clone());
    row.push(decimal_string(user.assignments() as u128));
    row.push(format_days(user.original_estimate_days()));
    if !planning {
        row.push(format_days(user.remaining_estimate_days()));
        row.push(format_days(user.time_spent_days()));
    }
    proof {
        assert(row@.map_values(|s: String| s@) =~= report_cells(name@, *user, planning));
    }
    row
}

/// Original and remaining estimate of one issue, in whole minutes, as sent
/// back to the tracking service.
#[derive(Clone, Copy, Debug, PartialEq, Eq)]
pub struct TimeTracking {
    pub original_estimate: u128,
    pub remaining_estimate: u128,
}

/// The update for estimate and remaining sums given in seconds: each in
/// whole minutes, rounded down.
pub fn time_tracking_update(estimate: u128, remaining: u128) -> (r: TimeTracking)
    ensures
        r.original_estimate == estimate / 60,
        r.remaining_estimate == remaining / 60,
{
    TimeTracking { original_estimate: estimate / 60, remaining_estimate: remaining / 60 }
}

} // verus!
