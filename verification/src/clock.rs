//! Instants through chrono: the current time, the two timestamp formats feed
//! entries carry, and the range of second counts chrono can represent.
//! Every instant is held as whole seconds since the Unix epoch, UTC.

use vstd::prelude::*;

verus! {

/// The instant chrono reads from a relaxed RFC 3339 date-time text, rounded
/// down to whole seconds; absent when the text does not parse.
pub uninterp spec fn instant_of(s: Seq<char>) -> Option<int>;

/// The midnight instant chrono reads from an eight-digit `YYYYMMDD` text;
/// absent when the text does not parse as such a date.
pub uninterp spec fn upload_date_instant_of(s: Seq<char>) -> Option<int>;

/// Whether chrono accepts a second count as a representable instant.
pub uninterp spec fn representable_instant(secs: i64) -> bool;

/// Relies on chrono's `Utc::now`: the current time, of which nothing is
/// promised; no two calls need agree.
#[verifier::external_body]
pub fn now_unix() -> i64 {
    chrono::Utc::now().timestamp()
}

/// Relies on chrono's `FromStr` for `DateTime<Utc>`: parses a relaxed
/// RFC 3339 date-time, a function of the text alone.
#[verifier::external_body]
pub fn parse_instant(s: &str) -> (r: Option<i64>)
    ensures
        r is Some <==> instant_of(s@) is Some,
        r matches Some(t) ==> instant_of(s@) == Some(t as int),
{
    match s.parse::<chrono::DateTime<chrono::Utc>>() {
        Ok(dt) => Some(dt.timestamp()),
        Err(_) => None,
    }
}

/// Relies on chrono's `NaiveDate::parse_from_str` with the `%Y%m%d` format,
/// taken to midnight UTC (`and_hms_opt`, `and_utc`) and to Unix seconds
/// (`timestamp`): a function of the text alone.
#[verifier::external_body]
pub fn parse_upload_date(s: &str) -> (r: Option<i64>)
    ensures
        r is Some <==> upload_date_instant_of(s@) is Some,
        r matches Some(t) ==> upload_date_instant_of(s@) == Some(t as int),
{
    match chrono::NaiveDate::parse_from_str(s, "%Y%m%d") {
        Ok(date) => match date.and_hms_opt(0, 0, 0) {
            Some(dt) => Some(dt.and_utc().timestamp()),
            None => None,
        },
        Err(_) => None,
    }
}

/// Relies on chrono's `DateTime::from_timestamp`: whether the second count
/// lies in chrono's representable range, a function of the count alone.
#[verifier::external_body]
pub fn instant_in_range(secs: i64) -> (r: bool)
    ensures
        r == representable_instant(secs),
{
    chrono::DateTime::from_timestamp(secs, 0).is_some()
}

} // verus!
