//! Timestamps: the service reports creation, update and deletion
//! instants as RFC 3339 text; this module normalizes them to one
//! unambiguous point-in-time representation.

use vstd::prelude::*;

verus! {

/// What the calendar library yields for an RFC 3339 text: the
/// instant as milliseconds since the Unix epoch, normalized to UTC,
/// or nothing when the text is not a valid RFC 3339 date-time. The
/// outcome depends on the text alone.
pub uninterp spec fn rfc3339_millis(s: Seq<char>) -> Option<i64>;

/// An unambiguous point in time: milliseconds since the Unix epoch,
/// in UTC.
#[derive(Clone, Copy, Debug, PartialEq, Eq, Hash, Structural)]
pub struct Timestamp {
    pub epoch_millis: i64,
}

/// Relies on chrono's `DateTime::parse_from_rfc3339` and
/// `timestamp_millis`: parses an RFC 3339 date-time, keeping the
/// instant it denotes as UTC epoch milliseconds.
#[verifier::external_body]
pub fn parse_rfc3339(s: &str) -> (r: Option<Timestamp>)
    ensures
        match r {
            Option::Some(t) => rfc3339_millis(s@) == Option::Some(t.epoch_millis),
            Option::None => rfc3339_millis(s@) is None,
        },
{
    match chrono::DateTime::parse_from_rfc3339(s) {
        Ok(dt) => Option::Some(Timestamp { epoch_millis: dt.timestamp_millis() }),
        Err(_) => Option::None,
    }
}

} // verus!
