//! The wall clock and calendar spans, both taken from `chrono`.
//!
//! Everything in this file is trusted: the contracts say what `chrono`
//! documents, and Verus does not look at the bodies.

use chrono::{DateTime, Local, TimeDelta};
use vstd::prelude::*;

verus! {

/// The largest number of days or weeks that the span functions accept. It is
/// far inside the range in which `chrono::TimeDelta` can be built.
pub const MAX_SPAN: i64 = 1_000_000;

/// The current time as a Unix timestamp in seconds: `chrono::Local::now()`
/// read with `DateTime::timestamp`.
///
/// Nothing is claimed of the value: two calls may give any two numbers.
/// `chrono` panics if the system clock stands before the Unix epoch.
#[verifier::external_body]
pub(crate) fn current_timestamp() -> (now: i64) {
    Local::now().timestamp()
}

/// The length of `days` days in seconds: `chrono::TimeDelta::days(days)`
/// read with `TimeDelta::num_seconds`.
///
/// `chrono` defines a day as 24 * 60 * 60 seconds and panics only when the
/// span leaves the range of `TimeDelta`, which `MAX_SPAN` rules out.
#[verifier::external_body]
pub(crate) fn days_in_seconds(days: i64) -> (secs: i64)
    requires
        -MAX_SPAN <= days <= MAX_SPAN,
    ensures
        secs == days * 86_400,
{
    TimeDelta::days(days).num_seconds()
}

/// The length of `weeks` weeks in seconds: `chrono::TimeDelta::weeks(weeks)`
/// read with `TimeDelta::num_seconds`.
///
/// `chrono` defines a week as 7 * 24 * 60 * 60 seconds and panics only when
/// the span leaves the range of `TimeDelta`, which `MAX_SPAN` rules out.
#[verifier::external_body]
pub(crate) fn weeks_in_seconds(weeks: i64) -> (secs: i64)
    requires
        -MAX_SPAN <= weeks <= MAX_SPAN,
    ensures
        secs == weeks * 604_800,
{
    TimeDelta::weeks(weeks).num_seconds()
}

/// The calendar text of a Unix timestamp in UTC, in the form of
/// `Sun Sep  9 01:46:40 2001`, as `chrono` writes it for the format `%c`;
/// `None` for a timestamp outside the range of dates that `chrono` can hold.
pub uninterp spec fn calendar_text(seconds: int) -> Option<Seq<char>>;

/// Writes a Unix timestamp as calendar text: `chrono::DateTime::from_timestamp`,
/// then `naive_local` and `format` with `%c`.
///
/// The text is a function of the timestamp alone: the date is taken in UTC,
/// and `chrono` is built without locales. `from_timestamp` answers `None`
/// for a timestamp outside its range, and so does this function.
#[verifier::external_body]
pub(crate) fn timestamp_text(seconds: i64) -> (text: Option<String>)
    ensures
        match text {
            Some(written) => calendar_text(seconds as int) == Some(written@),
            None => calendar_text(seconds as int) is None,
        },
{
    match DateTime::from_timestamp(seconds, 0) {
        Some(at) => Some(at.naive_local().format("%c").to_string()),
        None => None,
    }
}

} // verus!
