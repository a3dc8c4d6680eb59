//! The clock and the calendar, by way of `chrono`.
//!
//! Nothing here is proved: each function hands one question to `chrono` and
//! states what the library relies on in the answer.

use vstd::prelude::*;
use crate::text::opt_text;

verus! {

/// What `chrono` gives for the instant `seconds` seconds before the one that
/// `timestamp` denotes, written in RFC 3339, with `Z` for an offset of zero
/// where `zulu` is set and `+00:00` where it is not: `None` where
/// `timestamp` is not an RFC 3339 date and time, or where the earlier
/// instant is out of `chrono`'s range.
pub uninterp spec fn rfc3339_before(timestamp: Seq<char>, seconds: int, zulu: bool) -> Option<
    Seq<char>,
>;

/// Parses `timestamp` with `chrono::DateTime::parse_from_rfc3339`, moves it
/// back by `chrono::TimeDelta::try_seconds(seconds)` with
/// `checked_sub_signed`, and writes the result with `to_rfc3339_opts`, in
/// the shortest form that keeps the fraction. Trusted: the outcome depends
/// on the three arguments alone, which is all that the name
/// [`rfc3339_before`] claims. It asks for a step of a day at most: a year
/// that RFC 3339 can write, moved by so little, is one that `chrono` can
/// hold and write.
#[verifier::external_body]
pub(crate) fn seconds_before(timestamp: &str, seconds: i64, zulu: bool) -> (earlier: Option<String>)
    requires
        0 <= seconds <= 86_400,
    ensures
        opt_text(earlier) == rfc3339_before(timestamp@, seconds as int, zulu),
{
    let parsed = chrono::DateTime::parse_from_rfc3339(timestamp).ok()?;
    let delta = chrono::TimeDelta::try_seconds(seconds)?;
    let moved = parsed.checked_sub_signed(delta)?;
    Some(moved.to_rfc3339_opts(chrono::SecondsFormat::AutoSi, zulu))
}

/// Reads the clock with `chrono::Utc::now` and returns the nanoseconds since
/// the Unix epoch that `timestamp_nanos_opt` gives: `None` where they do not
/// fit in an `i64`. Trusted, with nothing claimed of the value. `chrono`
/// stops the program where the system clock stands before the epoch or
/// beyond the years that it can hold.
#[verifier::external_body]
pub(crate) fn now_nanos() -> (nanos: Option<i64>) {
    chrono::Utc::now().timestamp_nanos_opt()
}

/// Reads the clock with `chrono::Utc::now` and writes it with `to_rfc3339`.
/// Trusted, with nothing claimed of the value. `chrono` stops the program
/// where the system clock stands before the epoch or beyond the years that
/// it can hold.
#[verifier::external_body]
pub fn get_current_timestamp() -> (now: String) {
    chrono::Utc::now().to_rfc3339()
}

} // verus!
