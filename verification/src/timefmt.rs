//! Timestamp text: RFC 3339 rendering and parsing of microsecond instants,
//! done by chrono behind trusted contracts.

use vstd::prelude::*;

verus! {

/// The RFC 3339 text of an instant given as microseconds since the epoch.
pub uninterp spec fn rfc3339_of_micros(us: i64) -> Seq<char>;

/// What an RFC 3339 text parses to, in microseconds since the epoch.
pub uninterp spec fn rfc3339_parse_micros(s: Seq<char>) -> Option<i64>;

/// A microsecond timestamp safely inside chrono's documented range: any
/// instant before the year 2100.
pub open spec fn micros_in_range(us: i64) -> bool {
    0 <= us < 4_102_444_800_000_000i64
}

/// Relies on chrono's `DateTime::from_timestamp_micros` and `to_rfc3339`:
/// the text is a function of the microseconds alone, and an instant within
/// the documented range always renders.
#[verifier::external_body]
pub fn micros_to_rfc3339(us: i64) -> (r: Option<String>)
    ensures
        (r matches Option::Some(s) ==> s@ == rfc3339_of_micros(us)),
        micros_in_range(us) ==> r is Some,
{
    match chrono::DateTime::from_timestamp_micros(us) {
        Option::Some(dt) => Option::Some(dt.to_rfc3339()),
        Option::None => Option::None,
    }
}

/// Relies on chrono's `DateTime::parse_from_rfc3339` and
/// `timestamp_micros`: the parse result is a function of the text alone.
#[verifier::external_body]
pub fn parse_rfc3339_micros(s: &str) -> (r: Option<i64>)
    ensures
        r == rfc3339_parse_micros(s@),
{
    match chrono::DateTime::parse_from_rfc3339(s) {
        Result::Ok(dt) => Option::Some(dt.timestamp_micros()),
        Result::Err(_) => Option::None,
    }
}

} // verus!
