//! The instant of a run as text, by way of `chrono`.

use vstd::prelude::*;

verus! {

/// What `%Y-%m-%d-%H-%M-%S` prints for the instant that lies `secs` seconds
/// and `nanos` nanoseconds after the Unix epoch, in UTC; `None` where chrono
/// has no such instant.
pub uninterp spec fn stamp_text(secs: i64, nanos: u32) -> Option<Seq<char>>;

/// What RFC 3339 prints for the same instant; `None` where chrono has no such
/// instant.
pub uninterp spec fn rfc3339_text(secs: i64, nanos: u32) -> Option<Seq<char>>;

/// `DateTime::format` with the pattern of directory names, on the instant
/// that `DateTime::from_timestamp` makes of the two numbers: a function of
/// the numbers alone, named and not spelled out.
#[verifier::external_body]
pub(crate) fn format_stamp(secs: i64, nanos: u32) -> (r: Option<String>)
    ensures
        match r {
            Some(s) => stamp_text(secs, nanos) == Some(s@),
            None => stamp_text(secs, nanos) is None,
        },
{
    match chrono::DateTime::from_timestamp(secs, nanos) {
        Some(instant) => Some(instant.format("%Y-%m-%d-%H-%M-%S").to_string()),
        None => None,
    }
}

/// `DateTime::to_rfc3339` on the instant that `DateTime::from_timestamp`
/// makes of the two numbers: a function of the numbers alone, named and not
/// spelled out.
#[verifier::external_body]
pub(crate) fn format_rfc3339(secs: i64, nanos: u32) -> (r: Option<String>)
    ensures
        match r {
            Some(s) => rfc3339_text(secs, nanos) == Some(s@),
            None => rfc3339_text(secs, nanos) is None,
        },
{
    match chrono::DateTime::from_timestamp(secs, nanos) {
        Some(instant) => Some(instant.to_rfc3339()),
        None => None,
    }
}

} // verus!
