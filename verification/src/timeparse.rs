use vstd::prelude::*;

use chrono::NaiveDateTime;

verus! {

/// The UNIX timestamp denoted by a UTC wall-clock string of the form
/// "YYYY-MM-DD HH:MM", or `None` where the string is not a well-formed
/// datetime of that form. A function of the characters alone.
pub uninterp spec fn utc_datetime_timestamp(s: Seq<char>) -> Option<i64>;

/// Relies on chrono's NaiveDateTime::parse_from_str with the fixed format
/// "%Y-%m-%d %H:%M" and DateTime::<Utc>::timestamp: parsing depends on the
/// characters of `s` alone, succeeds exactly on well-formed datetimes of
/// that form, and yields the denoted UTC instant's timestamp.
#[verifier::external_body]
pub(crate) fn parse_utc_datetime(s: &str) -> (r: Option<i64>)
    ensures
        r == utc_datetime_timestamp(s@),
{
    match NaiveDateTime::parse_from_str(s, "%Y-%m-%d %H:%M") {
        Ok(dt) => Some(dt.and_utc().timestamp()),
        Err(_) => None,
    }
}

} // verus!
