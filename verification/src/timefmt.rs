//! Timestamp rendering and parsing, through chrono.

use vstd::prelude::*;

verus! {

/// What chrono renders for an in-range UTC timestamp under
/// `"%Y-%m-%d %H:%M:%S"`: a function of the seconds alone.
pub uninterp spec fn datetime_display_of(secs: int) -> Seq<char>;

/// What chrono's RFC 3339 parser yields for a string: the UNIX timestamp
/// of the instant, or nothing when the string is not a valid RFC 3339
/// date-time; a function of the string alone.
pub uninterp spec fn rfc3339_parse_of(s: Seq<char>) -> Option<i64>;

/// The last UNIX second of year 9999, the bound up to which this crate
/// formats timestamps.
pub const MAX_FORMAT_SECS: i64 = 253402300799;

/// Relies on chrono's `DateTime::from_timestamp`, `Some` for every
/// in-range number of seconds, and on its `format("%Y-%m-%d %H:%M:%S")`,
/// whose rendering depends on the seconds alone.
#[verifier::external_body]
pub(crate) fn format_timestamp(secs: i64) -> (r: String)
    requires
        0 <= secs <= MAX_FORMAT_SECS,
    ensures
        r@ == datetime_display_of(secs as int),
{
    match chrono::DateTime::<chrono::Utc>::from_timestamp(secs, 0) {
        Some(dt) => dt.format("%Y-%m-%d %H:%M:%S").to_string(),
        None => String::new(),
    }
}

/// Relies on chrono's `DateTime::parse_from_rfc3339` and `timestamp`:
/// both depend on the characters of the string alone.
#[verifier::external_body]
pub(crate) fn parse_rfc3339(s: &str) -> (r: Option<i64>)
    ensures
        r == rfc3339_parse_of(s@),
{
    match chrono::DateTime::parse_from_rfc3339(s) {
        Ok(dt) => Some(dt.timestamp()),
        Err(_) => None,
    }
}

/// Relies on chrono's `From<SystemTime>` for `DateTime<Utc>`, total even
/// for a clock reading before the epoch, and on `to_rfc3339`: nothing is
/// assumed of the clock; an RFC 3339 rendering is never empty.
#[verifier::external_body]
pub(crate) fn now_rfc3339() -> (r: String)
    ensures
        r@.len() > 0,
{
    chrono::DateTime::<chrono::Utc>::from(std::time::SystemTime::now()).to_rfc3339()
}

} // verus!
