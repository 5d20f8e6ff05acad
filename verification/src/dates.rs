//! Date-times read through chrono.
use vstd::prelude::*;

verus! {

/// The UNIX timestamp (seconds) of an RFC 3339 date-time such as
/// "2025-06-01T12:00:00Z", as chrono reads it; `None` when chrono rejects the text.
pub uninterp spec fn rfc3339_timestamp(text: Seq<char>) -> Option<i64>;

/// `chrono::DateTime::parse_from_rfc3339(text)`, read as its UNIX timestamp
/// (`DateTime::timestamp`).
///
/// The result is a function of the text alone, named `rfc3339_timestamp`. chrono
/// reads exactly four digits of year and an offset within ±23:59, so an accepted
/// date-time lies between year 0 and year 10000: within ±300_000_000_000 seconds.
#[verifier::external_body]
pub(crate) fn parse_rfc3339(text: &str) -> (r: Option<i64>)
    ensures
        r == rfc3339_timestamp(text@),
        r matches Some(t) ==> -300_000_000_000 <= t <= 300_000_000_000,
{
    match chrono::DateTime::parse_from_rfc3339(text) {
        Ok(dt) => Some(dt.timestamp()),
        Err(_) => None,
    }
}

} // verus!
