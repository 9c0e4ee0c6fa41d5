//! The clock, the calendar and the identifier generator.
//!
//! What depends on the machine and the moment has a contract that promises
//! nothing: every caller is verified for whatever value comes back. What
//! depends on its arguments alone is given a name, and the contract says
//! that the call returns what the name stands for.

use vstd::prelude::*;

verus! {

/// A reading of the monotonic clock.
#[verifier::external_type_specification]
#[verifier::external_body]
pub struct ExInstant(std::time::Instant);

/// The seconds since the Unix epoch of the time that an RFC 3339 text
/// denotes; `None` where the text is no RFC 3339 date and time.
pub uninterp spec fn rfc3339_seconds(text: Seq<char>) -> Option<i64>;

/// The calendar date in UTC, as year, month and day with hyphens between,
/// of the time that lies `seconds` after the Unix epoch; `None` where the
/// time is out of the calendar's range.
pub uninterp spec fn utc_date_text(seconds: i64) -> Option<Seq<char>>;

/// The current time in whole seconds since the Unix epoch, read with
/// `chrono::Utc::now` and `DateTime::timestamp`.
#[verifier::external_body]
pub(crate) fn now_timestamp() -> (r: i64) {
    chrono::Utc::now().timestamp()
}

/// The current time as RFC 3339 text: `chrono::Utc::now` and
/// `DateTime::to_rfc3339`.
#[verifier::external_body]
pub(crate) fn now_rfc3339() -> (r: String) {
    chrono::Utc::now().to_rfc3339()
}

/// A new random identifier: `uuid::Uuid::new_v4`, written in its hyphenated form.
#[verifier::external_body]
pub(crate) fn fresh_id() -> (r: String) {
    uuid::Uuid::new_v4().to_string()
}

/// Reads an RFC 3339 date and time with `chrono::DateTime::parse_from_rfc3339`
/// and gives its `timestamp`. The result depends on the text alone.
#[verifier::external_body]
pub(crate) fn parse_rfc3339(text: &str) -> (r: Option<i64>)
    ensures
        r == rfc3339_seconds(text@),
{
    match chrono::DateTime::parse_from_rfc3339(text) {
        Ok(moment) => Some(moment.timestamp()),
        Err(_) => None,
    }
}

/// Writes the UTC calendar date of a time: `chrono::DateTime::from_timestamp`
/// and `format` with year, month and day. The result depends on the number
/// alone.
#[verifier::external_body]
pub(crate) fn utc_date(seconds: i64) -> (r: Option<String>)
    ensures
        r.deep_view() == utc_date_text(seconds),
{
    match chrono::DateTime::from_timestamp(seconds, 0) {
        Some(moment) => Some(moment.format("%Y-%m-%d").to_string()),
        None => None,
    }
}

/// A reading of the monotonic clock: `std::time::Instant::now`.
#[verifier::external_body]
pub(crate) fn instant_now() -> (r: std::time::Instant) {
    std::time::Instant::now()
}

/// The nanoseconds that have passed since `origin`: `Instant::elapsed` and
/// `Duration::as_nanos`.
#[verifier::external_body]
pub(crate) fn nanos_since(origin: &std::time::Instant) -> (r: u128) {
    origin.elapsed().as_nanos()
}

} // verus!
