//! Timestamps of token lists.

use chrono::DateTime;
use vstd::prelude::*;
use crate::text::owned;

verus! {

/// How a timestamp is written.
pub const ISO_FORMAT: &'static str = "%Y-%m-%dT%H:%M:%S%.3fZ";

/// The seconds since 1970 that `DateTime::parse_from_rfc3339` reads in a text, where the text
/// is a date and time of RFC 3339.
pub uninterp spec fn rfc3339_seconds(s: Seq<char>) -> Option<i64>;

/// `DateTime::parse_from_rfc3339` of `chrono`, and of what it reads `timestamp`: the seconds
/// since 1970. The result is a function of the text alone.
#[verifier::external_body]
pub(crate) fn parse_timestamp(s: &str) -> (r: Option<i64>)
    ensures
        r == rfc3339_seconds(s@),
{
    DateTime::parse_from_rfc3339(s).ok().map(|t| t.timestamp())
}

/// The time so many seconds since 1970 as `DateTime::format` writes it; none where the time
/// is out of the range of `DateTime::from_timestamp`.
pub uninterp spec fn formatted_time(seconds: i64, format: Seq<char>) -> Option<Seq<char>>;

/// `DateTime::from_timestamp` of `chrono`, and `format` of the time that it gives. The result
/// is a function of the seconds and of the format alone. Writing a time in a format that
/// `chrono` does not know panics, so only the one format is admitted.
#[verifier::external_body]
fn format_time(seconds: i64, format: &str) -> (r: Option<String>)
    requires
        format@ == ISO_FORMAT@,
    ensures
        r.deep_view() == formatted_time(seconds, format@),
{
    DateTime::from_timestamp(seconds, 0).map(|t| t.format(format).to_string())
}

/// A time so many seconds since 1970; the beginning of 1970 where it cannot be written.
pub open spec fn iso_time(seconds: i64) -> Seq<char> {
    written_time(formatted_time(seconds, ISO_FORMAT@))
}

/// What stands for a time that could be written or not.
pub open spec fn written_time(formatted: Option<Seq<char>>) -> Seq<char> {
    match formatted {
        Some(s) => s,
        None => "1970-01-01T00:00:00.000Z"@,
    }
}

/// A time that could be written, or the beginning of 1970.
pub fn time_or_epoch(formatted: Option<String>) -> (r: String)
    ensures
        r@ == written_time(formatted.deep_view()),
{
    match formatted {
        Some(s) => s,
        None => owned("1970-01-01T00:00:00.000Z"),
    }
}

/// Writes a time.
pub fn timestamp_to_iso(epoch_secs: i64) -> (r: String)
    ensures
        r@ == iso_time(epoch_secs),
{
    time_or_epoch(format_time(epoch_secs, ISO_FORMAT))
}

/// The seconds that a text stands for, where there is a text and it is a time.
pub open spec fn seconds_of(timestamp: Option<Seq<char>>) -> Option<i64> {
    match timestamp {
        Some(s) => rfc3339_seconds(s),
        None => None,
    }
}

/// The later of two times, where there are such; otherwise the beginning of 1970.
pub open spec fn later_of(a: Option<i64>, b: Option<i64>) -> i64 {
    match (a, b) {
        (Some(x), Some(y)) => if x < y {
            y
        } else {
            x
        },
        (Some(x), None) => x,
        (None, Some(y)) => y,
        (None, None) => 0,
    }
}

/// Picks the later of two times.
pub fn later_time(a: Option<i64>, b: Option<i64>) -> (r: i64)
    ensures
        r == later_of(a, b),
{
    match (a, b) {
        (Some(x), Some(y)) => if x < y {
            y
        } else {
            x
        },
        (Some(x), None) => x,
        (None, Some(y)) => y,
        (None, None) => 0,
    }
}

fn read_timestamp(timestamp: &Option<String>) -> (r: Option<i64>)
    ensures
        r == seconds_of(timestamp.deep_view()),
{
    match timestamp {
        Some(s) => parse_timestamp(s.as_str()),
        None => None,
    }
}

/// The later of the two times that timestamps stand for.
pub fn last_timestamp(a: &Option<String>, b: &Option<String>) -> (r: i64)
    ensures
        r == later_of(seconds_of(a.deep_view()), seconds_of(b.deep_view())),
{
    later_time(read_timestamp(a), read_timestamp(b))
}

} // verus!
