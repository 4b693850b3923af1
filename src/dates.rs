//! Sprint dates as shown in the sprint listing.
use vstd::prelude::*;

verus! {

/// The date and time of an RFC 3339 timestamp as "YYYY-MM-DD HH:MM", in the
/// timestamp's own offset; `None` where it is not valid RFC 3339.
pub uninterp spec fn rfc3339_minutes(s: Seq<char>) -> Option<Seq<char>>;

/// Relies on chrono's `DateTime::parse_from_rfc3339` and on its `%F %R`
/// formatting: the result depends on the text alone, as the parsed value
/// keeps the timestamp's fixed offset.
#[verifier::external_body]
fn reformat_rfc3339(s: &str) -> (r: Option<String>)
    ensures
        r matches Some(t) ==> rfc3339_minutes(s@) == Some(t@),
        r is None ==> rfc3339_minutes(s@) is None,
{
    chrono::DateTime::parse_from_rfc3339(s).ok().map(|dt| format!("{}", dt.format("%F %R")))
}

/// The date cell for an already reformatted date: the date, or "n/a".
pub fn date_cell(reformatted: Option<String>) -> (r: String)
    ensures
        r@ == match reformatted {
            Some(t) => t@,
            None => "n/a"@,
        },
{
    match reformatted {
        Some(t) => t,
        None => String::from_str("n/a"),
    }
}

/// The sprint listing's cell for a start or end date: "n/a" where the date
/// is absent or not valid RFC 3339.
pub fn parse_date(date: Option<String>) -> (r: String)
    ensures
        r@ == match date {
            Some(d) => match rfc3339_minutes(d@) {
                Some(t) => t,
                None => "n/a"@,
            },
            None => "n/a"@,
        },
{
    match date {
        None => String::from_str("n/a"),
        Some(d) => date_cell(reformat_rfc3339(d.as_str())),
    }
}

} // verus!
