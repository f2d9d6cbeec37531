//! Dates as text, read and written by `chrono`.
//!
//! Inside the pipeline an instant is a number of seconds since the Unix
//! epoch. Text comes in once, as the start of the period, and goes out in
//! every row.

use vstd::prelude::*;

verus! {

/// `chrono`'s error for a text that it cannot read. Nothing is known of what
/// is inside.
#[verifier::external_type_specification]
#[verifier::external_body]
pub struct ExParseError(chrono::format::ParseError);

/// The instant that `chrono` reads out of `text` as a date and time with an
/// offset, in seconds since the Unix epoch; nothing where it rejects the text.
pub uninterp spec fn utc_seconds_of(text: Seq<char>) -> Option<i64>;

/// What `chrono` writes for the instant `seconds` after the Unix epoch, as an
/// RFC 3339 date and time in UTC; nothing where it cannot hold the instant.
pub uninterp spec fn rfc3339_utc(seconds: i64) -> Option<Seq<char>>;

/// The text of an optional string.
pub open spec fn text_view(text: Option<String>) -> Option<Seq<char>> {
    match text {
        Some(t) => Some(t@),
        None => None,
    }
}

/// Calls `chrono`'s `FromStr` for `DateTime<Utc>` and takes the `timestamp`
/// of what it gives. Trusted: the call succeeds on the texts, and gives the
/// seconds, that [`utc_seconds_of`] stands for.
#[verifier::external_body]
fn read_utc_seconds(text: &str) -> (read: Result<i64, chrono::format::ParseError>)
    ensures
        match read {
            Ok(seconds) => utc_seconds_of(text@) == Some(seconds),
            Err(_) => utc_seconds_of(text@) is None,
        },
{
    match text.parse::<chrono::DateTime<chrono::Utc>>() {
        Ok(instant) => Ok(instant.timestamp()),
        Err(error) => Err(error),
    }
}

/// Calls `chrono`'s `DateTime::from_timestamp` with no nanoseconds and, where
/// that gives an instant, `to_rfc3339` on it. Trusted: the text is the one
/// that [`rfc3339_utc`] stands for, and there is none where there is no
/// instant.
#[verifier::external_body]
fn write_rfc3339_utc(seconds: i64) -> (text: Option<String>)
    ensures
        text_view(text) == rfc3339_utc(seconds),
{
    match chrono::DateTime::<chrono::Utc>::from_timestamp(seconds, 0) {
        Some(instant) => Some(instant.to_rfc3339()),
        None => None,
    }
}

/// Why the start of the period could not be read.
#[derive(Clone, Copy, Debug, PartialEq, Eq)]
pub enum StartError {
    /// The text is no date and time with an offset.
    Malformed,
}

/// What a text gives as the start of the period: the instant that it names,
/// or an error where it names none.
pub open spec fn start_of(text: Seq<char>) -> Result<i64, StartError> {
    match utc_seconds_of(text) {
        Some(seconds) => Ok(seconds),
        None => Err(StartError::Malformed),
    }
}

/// Reads the start of the period, a date and time with an offset such as
/// `2020-07-02T19:30:00Z`, as seconds since the Unix epoch.
pub fn parse_start(text: &str) -> (start: Result<i64, StartError>)
    ensures
        start == start_of(text@),
{
    match read_utc_seconds(text) {
        Ok(seconds) => Ok(seconds),
        Err(_) => Err(StartError::Malformed),
    }
}

/// The date of a quote as it stands in a row: nothing for a timestamp beyond
/// what a signed count of seconds holds, else what [`rfc3339_utc`] gives.
pub open spec fn date_text_of(timestamp: u64) -> Option<Seq<char>> {
    if timestamp <= i64::MAX {
        rfc3339_utc(timestamp as i64)
    } else {
        None
    }
}

/// Writes the timestamp of a quote as an RFC 3339 date and time in UTC, such
/// as `2020-07-02T19:30:00+00:00`. There is no text for a timestamp that is
/// out of the calendar's range.
pub fn date_text(timestamp: u64) -> (text: Option<String>)
    ensures
        text_view(text) == date_text_of(timestamp),
{
    if timestamp > i64::MAX as u64 {
        None
    } else {
        write_rfc3339_utc(timestamp as i64)
    }
}

} // verus!
