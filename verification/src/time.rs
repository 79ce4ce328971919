//! Instants in the engine are plain epoch seconds (`i64`). What only a
//! calendar library can compute — rendering an instant as display text, or reading
//! an RFC 3339 timestamp back into seconds — is delegated to chrono behind
//! trusted wrappers whose results are named, never restated.

use vstd::prelude::*;

verus! {

/// The text chrono renders for the instant `secs`, e.g.
/// `2024-01-01 00:00:00 UTC`; a function of `secs` alone.
pub uninterp spec fn ts_display_of(secs: i64) -> Seq<char>;

/// The epoch seconds chrono reads from an RFC 3339 timestamp, or `None`
/// where the text does not parse; a function of the text alone.
pub uninterp spec fn rfc3339_secs_of(s: Seq<char>) -> Option<i64>;

/// Relies on chrono: the `Display` form of a UTC `DateTime` built with
/// `DateTime::from_timestamp` depends on the seconds alone.
#[verifier::external_body]
pub(crate) fn timestamp_display(secs: i64) -> (r: String)
    ensures
        r@ == ts_display_of(secs),
{
    match chrono::DateTime::<chrono::Utc>::from_timestamp(secs, 0) {
        Some(dt) => format!("{}", dt),
        None => String::new(),
    }
}

/// Relies on chrono: `DateTime::parse_from_rfc3339` accepts exactly the
/// RFC 3339 timestamps, and `timestamp` gives their epoch seconds; both
/// depend on the text alone.
#[verifier::external_body]
pub(crate) fn parse_rfc3339_secs(s: &str) -> (r: Option<i64>)
    ensures
        r == rfc3339_secs_of(s@),
{
    chrono::DateTime::parse_from_rfc3339(s).ok().map(|dt| dt.timestamp())
}

} // verus!
