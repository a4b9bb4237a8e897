//! Wall-clock readings, taken on trust: what they return depends on the
//! machine's clock, so their contracts promise nothing about the values.

use vstd::prelude::*;

verus! {

/// Relies on `chrono::Utc::now` and `DateTime::timestamp`: the current UTC
/// time in whole seconds since the epoch.  The clock decides the value, so
/// nothing is promised of it.
#[verifier::external_body]
pub fn now_timestamp() -> i64 {
    chrono::Utc::now().timestamp()
}

/// Relies on `chrono::NaiveDate::parse_from_str` (tried with the date
/// layouts `%Y-%m-%d`, `%B %Y` and `%m/%d/%Y`) and on
/// `NaiveDateTime::and_utc().timestamp()`: the midnight UTC timestamp of
/// the date written in `s`, when one of the layouts matches.
#[verifier::external_body]
pub fn parse_date_timestamp(s: &str) -> Option<i64> {
    let parsed = chrono::NaiveDate::parse_from_str(s, "%Y-%m-%d")
        .or_else(|_| chrono::NaiveDate::parse_from_str(s, "%B %Y"))
        .or_else(|_| chrono::NaiveDate::parse_from_str(s, "%m/%d/%Y"))
        .ok()?;
    Some(parsed.and_hms_opt(0, 0, 0)?.and_utc().timestamp())
}

} // verus!
