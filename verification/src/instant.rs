//! Instants in time: microseconds since the Unix epoch, and their RFC 3339 text.

use vstd::prelude::*;

verus! {

/// The instant that an RFC 3339 text denotes, in microseconds since the Unix epoch
/// (fractions of a microsecond dropped), or `None` where the text is not RFC 3339.
pub uninterp spec fn rfc3339_micros(text: Seq<char>) -> Option<i64>;

/// The RFC 3339 text of an instant given in microseconds since the Unix epoch, or `None`
/// where the instant lies outside the years that the calendar can hold.
pub uninterp spec fn rfc3339_text(micros: i64) -> Option<Seq<char>>;

/// Parses RFC 3339 text with `chrono::DateTime::parse_from_rfc3339` and reads the result
/// with `timestamp_micros`. Trusted: the result is the named value of the text.
#[verifier::external_body]
pub(crate) fn parse_rfc3339(text: &str) -> (r: Option<i64>)
    ensures
        r == rfc3339_micros(text@),
{
    match chrono::DateTime::parse_from_rfc3339(text) {
        Ok(at) => Some(at.timestamp_micros()),
        Err(_) => None,
    }
}

/// Builds a UTC instant with `chrono::DateTime::from_timestamp_micros` and writes it with
/// `to_rfc3339`. Trusted: the result is the named text of the instant.
#[verifier::external_body]
pub(crate) fn format_rfc3339(micros: i64) -> (r: Option<String>)
    ensures
        match r {
            Some(s) => rfc3339_text(micros) == Some(s@),
            None => rfc3339_text(micros).is_none(),
        },
{
    match chrono::DateTime::from_timestamp_micros(micros) {
        Some(at) => Some(at.to_rfc3339()),
        None => None,
    }
}

/// The instant to use where a piece of text may or may not hold one: the instant that the
/// text denotes, else `fallback`.
pub open spec fn instant_or(parsed: Option<i64>, fallback: i64) -> i64 {
    match parsed {
        Some(t) => t,
        None => fallback,
    }
}

/// Reads an RFC 3339 instant from `text`, falling back to `fallback` where it holds none.
pub fn instant_from_text(text: &str, fallback: i64) -> (r: i64)
    ensures
        r == instant_or(rfc3339_micros(text@), fallback),
{
    match parse_rfc3339(text) {
        Some(t) => t,
        None => fallback,
    }
}

/// The whole seconds since the epoch of an instant given in microseconds, rounded towards
/// the past.
pub open spec fn whole_seconds(micros: i64) -> int {
    if micros >= 0 {
        micros as int / 1_000_000
    } else {
        -((-(micros as int) + 999_999) / 1_000_000)
    }
}

/// The whole seconds since the epoch of an instant given in microseconds.
pub fn seconds_of(micros: i64) -> (r: i64)
    ensures
        r == whole_seconds(micros),
{
    if micros >= 0 {
        micros / 1_000_000
    } else {
        let past: i128 = -(micros as i128);
        let seconds: i128 = (past + 999_999) / 1_000_000;
        (-seconds) as i64
    }
}

/// Reads the clock with `chrono::Utc::now` and takes its `timestamp_micros`. Trusted, with
/// nothing promised of the instant that comes back.
#[verifier::external_body]
fn read_clock() -> i64 {
    chrono::Utc::now().timestamp_micros()
}

/// The present instant, in microseconds since the Unix epoch. Nothing is known of it
/// before it is read: every operation that takes an instant is stated for all of them.
pub fn current_instant() -> i64 {
    read_clock()
}

/// Writes an instant as RFC 3339 text, `None` where the calendar cannot hold it.
pub fn instant_to_text(micros: i64) -> (r: Option<String>)
    ensures
        match r {
            Some(s) => rfc3339_text(micros) == Some(s@),
            None => rfc3339_text(micros).is_none(),
        },
{
    format_rfc3339(micros)
}

} // verus!
