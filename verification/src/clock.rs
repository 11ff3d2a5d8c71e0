//! Dates and times, read and converted by `chrono` and `chrono-tz`.
//!
//! An instant is a number of seconds since the Unix epoch with nanoseconds, or,
//! for the present, a number of nanoseconds since the epoch.
use crate::text::is_line;
use chrono::{Datelike, TimeZone, Timelike};
use vstd::prelude::*;
use vstd::string::*;

verus! {

/// `chrono::Utc::now`, in nanoseconds since the Unix epoch. What it returns is
/// left to the clock.
#[verifier::external_body]
pub(crate) fn now_nanos() -> (r: i64)
{
    chrono::Utc::now().timestamp_nanos_opt().unwrap_or(i64::MAX)
}

/// The nanoseconds in a second.
pub const NANOS_PER_SECOND: i128 = 1_000_000_000;

/// The whole seconds in a number of nanoseconds, toward zero.
pub open spec fn whole_seconds(nanos: int) -> int {
    if nanos >= 0 {
        nanos / NANOS_PER_SECOND as int
    } else {
        -((-nanos) / NANOS_PER_SECOND as int)
    }
}

/// The seconds from the instant that an RFC 3339 text denotes to `now`, in whole
/// seconds toward zero. `None` where the text denotes no instant.
pub uninterp spec fn elapsed_seconds(text: Seq<char>, now: i64) -> Option<i64>;

/// `chrono::DateTime::parse_from_rfc3339`, then `signed_duration_since` from the
/// instant of `now` nanoseconds, then `num_seconds`: depends on the text and on
/// `now` alone. It is the difference of the two instants, unless the text denotes a
/// leap second, of which no more is stated.
#[verifier::external_body]
pub(crate) fn seconds_since(text: &str, now: i64) -> (r: Option<i64>)
    ensures
        r == elapsed_seconds(text@, now),
        match rfc3339_time(text@) {
            Some((secs, nanos)) => r is Some && (nanos < NANOS_PER_SECOND ==> r == Some(
                whole_seconds(now - (secs * NANOS_PER_SECOND + nanos)) as i64,
            )),
            None => r is None,
        },
{
    match chrono::DateTime::parse_from_rfc3339(text) {
        Ok(t) => Some(
            chrono::DateTime::from_timestamp_nanos(now).signed_duration_since(t).num_seconds(),
        ),
        Err(_) => None,
    }
}

/// The instant that an RFC 3339 text denotes.
pub uninterp spec fn rfc3339_time(text: Seq<char>) -> Option<(i64, u32)>;

/// `chrono::DateTime::parse_from_rfc3339`, as seconds and nanoseconds: depends
/// on the text alone.
#[verifier::external_body]
pub(crate) fn read_rfc3339(text: &str) -> (r: Option<(i64, u32)>)
    ensures
        r == rfc3339_time(text@),
{
    match chrono::DateTime::parse_from_rfc3339(text) {
        Ok(t) => Some((t.timestamp(), t.timestamp_subsec_nanos())),
        Err(_) => None,
    }
}

/// The instant at which the clocks of Moscow first show what `text` denotes in
/// the given format.
pub uninterp spec fn moscow_time(text: Seq<char>, format: Seq<char>) -> Option<(i64, u32)>;

/// `chrono::NaiveDateTime::parse_from_str`, then `from_local_datetime` of the
/// zone Europe/Moscow of `chrono-tz` and `earliest`: depends on the text and the
/// format alone.
#[verifier::external_body]
pub(crate) fn read_moscow_time(text: &str, format: &str) -> (r: Option<(i64, u32)>)
    ensures
        r == moscow_time(text@, format@),
{
    match chrono::NaiveDateTime::parse_from_str(text, format) {
        Ok(naive) => match chrono_tz::Europe::Moscow.from_local_datetime(&naive).earliest() {
            Some(t) => Some((t.timestamp(), t.timestamp_subsec_nanos())),
            None => None,
        },
        Err(_) => None,
    }
}

/// The time of day that `text` denotes as hours and minutes, in seconds since
/// midnight.
pub uninterp spec fn time_of_day(text: Seq<char>) -> Option<u32>;

/// `chrono::NaiveTime::parse_from_str` with the format `%H:%M`: depends on the
/// text alone.
#[verifier::external_body]
pub(crate) fn read_time_of_day(text: &str) -> (r: Option<u32>)
    ensures
        r == time_of_day(text@),
{
    match chrono::NaiveTime::parse_from_str(text, "%H:%M") {
        Ok(t) => Some(t.num_seconds_from_midnight()),
        Err(_) => None,
    }
}

/// The day in Moscow at an instant, counted from the first of January of the
/// year 1.
pub uninterp spec fn moscow_day(now: i64) -> i32;

/// `chrono::DateTime::with_timezone` to Europe/Moscow, then `date_naive` and
/// `num_days_from_ce`: depends on the instant alone.
#[verifier::external_body]
pub(crate) fn read_moscow_day(now: i64) -> (r: i32)
    ensures
        r == moscow_day(now),
{
    chrono::DateTime::from_timestamp_nanos(now)
        .with_timezone(&chrono_tz::Europe::Moscow)
        .date_naive()
        .num_days_from_ce()
}

/// The instant at which the clocks of Moscow first show a time of day on a day.
pub uninterp spec fn moscow_instant(day: i32, seconds: u32) -> Option<i64>;

/// `from_local_datetime` of the zone Europe/Moscow of `chrono-tz` and `earliest`,
/// on the date of `NaiveDate::from_num_days_from_ce_opt` and the time of
/// `NaiveTime::from_num_seconds_from_midnight_opt`: depends on the two numbers
/// alone.
#[verifier::external_body]
pub(crate) fn read_moscow_instant(day: i32, seconds: u32) -> (r: Option<i64>)
    ensures
        r == moscow_instant(day, seconds),
{
    let date = chrono::NaiveDate::from_num_days_from_ce_opt(day)?;
    let time = chrono::NaiveTime::from_num_seconds_from_midnight_opt(seconds, 0)?;
    let zone = chrono_tz::Europe::Moscow;
    let local = zone.from_local_datetime(&date.and_time(time));
    Some(local.earliest()?.timestamp())
}

/// An instant in UTC to the second, as `2026-04-22T09:00:00Z`.
pub uninterp spec fn utc_text(now: i64) -> Seq<char>;

/// `chrono::DateTime::format` with `%Y-%m-%dT%H:%M:%SZ`, on the instant of `now`
/// nanoseconds in UTC: depends on the instant alone, and holds no line ending.
#[verifier::external_body]
pub(crate) fn show_utc(now: i64) -> (r: String)
    ensures
        r@ == utc_text(now),
        is_line(r@),
{
    chrono::DateTime::from_timestamp_nanos(now).format("%Y-%m-%dT%H:%M:%SZ").to_string()
}

/// An instant in UTC to the second, as `2026-04-22T09:00:00`. `None` where the
/// calendar does not hold it.
pub uninterp spec fn second_text(secs: i64, nanos: u32) -> Option<Seq<char>>;

/// `chrono::DateTime::from_timestamp`, then `format` with `%Y-%m-%dT%H:%M:%S`:
/// depends on the instant alone.
#[verifier::external_body]
pub(crate) fn show_second(secs: i64, nanos: u32) -> (r: Option<String>)
    ensures
        crate::text::opt_text(r) == second_text(secs, nanos),
{
    let time = chrono::DateTime::from_timestamp(secs, nanos)?;
    Some(time.format("%Y-%m-%dT%H:%M:%S").to_string())
}

/// The complaint of `cron::Schedule::from_str` about an expression that it does
/// not accept.
pub uninterp spec fn cron_error(expression: Seq<char>) -> Option<Seq<char>>;

/// `cron::Schedule::from_str`: its complaint about the expression, where it does
/// not accept it. The complaint depends on the expression alone.
#[verifier::external_body]
pub(crate) fn check_cron(expression: &str) -> (r: Option<String>)
    ensures
        crate::text::opt_text(r) == cron_error(expression@),
{
    match expression.parse::<cron::Schedule>() {
        Ok(_) => None,
        Err(e) => Some(e.to_string()),
    }
}

/// The second since the Unix epoch at which a cron expression, read in UTC, fires
/// first after the instant of `now` nanoseconds. `None` where the expression is
/// not accepted, or where it never fires again.
pub uninterp spec fn next_firing(expression: Seq<char>, now: i64) -> Option<i64>;

/// `cron::Schedule::after` in UTC, then the first instant that the iterator
/// gives: depends on the expression and on `now` alone.
#[verifier::external_body]
pub(crate) fn read_next_firing(expression: &str, now: i64) -> (r: Option<i64>)
    ensures
        r == next_firing(expression@, now),
{
    let schedule = expression.parse::<cron::Schedule>().ok()?;
    let after = chrono::DateTime::from_timestamp_nanos(now);
    let next = schedule.after(&after).next()?;
    Some(next.timestamp())
}

} // verus!
