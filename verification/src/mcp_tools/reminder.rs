//! Reminders: when they fire.
use super::reply::{reply_text, require, required, text_reply};
use crate::clock::{
    moscow_day, moscow_instant, moscow_time, now_nanos, read_moscow_day, read_moscow_instant,
    read_moscow_time, read_rfc3339, read_time_of_day, rfc3339_time, time_of_day,
};
use crate::json::{Json, JsonModel};
use crate::text::{cat3, cat5, strip_prefix, strip_prefix_spec, trim, trim_spec};
use vstd::prelude::*;
use vstd::string::*;

verus! {

/// When a reminder fires.
#[derive(Debug, PartialEq)]
pub enum ReminderTime {
    /// At a time.
    At(String),
    /// After a duration.
    In(String),
    /// After a number of minutes.
    DelayMinutes(Json),
}

/// A reminder to create.
#[derive(Debug, PartialEq)]
pub struct ReminderRequest {
    pub target: String,
    pub message: String,
    pub time: ReminderTime,
}

/// Whether a value is a number.
pub open spec fn is_number(v: JsonModel) -> bool {
    v is Number || v is Float
}

/// Whether `t` is the time that the arguments name: at a time, else after a
/// duration, else after a number of minutes.
pub open spec fn names_time(args: JsonModel, t: ReminderTime) -> bool {
    match (args.text_field("at"@), args.text_field("in"@)) {
        (Some(at), _) => t matches ReminderTime::At(s) && s@ == at,
        (None, Some(duration)) => t matches ReminderTime::In(s) && s@ == duration,
        (None, None) => t matches ReminderTime::DelayMinutes(n) && is_number(n@)
            && args.get("delay_minutes"@) == Some(n@),
    }
}

/// Whether the arguments name a time.
pub open spec fn has_time(args: JsonModel) -> bool {
    ||| args.text_field("at"@) is Some
    ||| args.text_field("in"@) is Some
    ||| is_number(args.at("delay_minutes"@))
}

/// The reminder that the arguments describe.
pub fn call_create_reminder(args: &Json) -> (r: Result<ReminderRequest, String>)
    ensures
        match (required(args@, "target"@), required(args@, "message"@)) {
            (Err(e), _) => r matches Err(m) && m@ == e,
            (_, Err(e)) => r matches Err(m) && m@ == e,
            (Ok(target), Ok(message)) => if has_time(args@) {
                r matches Ok(q) && q.target@ == target && q.message@ == message && names_time(
                    args@,
                    q.time,
                )
            } else {
                r matches Err(m) && m@
                    == "create_reminder requires one of: 'at', 'in', or 'delay_minutes'"@
            },
        },
{
    let target = match require(args, "target") {
        Ok(t) => t,
        Err(e) => {
            return Err(e);
        },
    };
    let message = match require(args, "message") {
        Ok(t) => t,
        Err(e) => {
            return Err(e);
        },
    };
    let time = match (args.text_field("at"), args.text_field("in"), args.get("delay_minutes")) {
        (Some(at), _, _) => ReminderTime::At(String::from_str(at)),
        (None, Some(d), _) => ReminderTime::In(String::from_str(d)),
        (None, None, Some(v)) => {
            let number: bool = match v {
                Json::Number(_) => true,
                Json::Float(_) => true,
                _ => false,
            };
            if !number {
                return Err(
                    String::from_str(
                        "create_reminder requires one of: 'at', 'in', or 'delay_minutes'",
                    ),
                );
            }
            ReminderTime::DelayMinutes(v.copy())
        },
        (None, None, None) => {
            return Err(
                String::from_str(
                    "create_reminder requires one of: 'at', 'in', or 'delay_minutes'",
                ),
            );
        },
    };
    Ok(
        ReminderRequest {
            target: String::from_str(target),
            message: String::from_str(message),
            time,
        },
    )
}

/// The reply that a reminder was created. `minutes` is the delay in whole
/// minutes.
pub fn reminder_created(target: &str, fire_at: &str, minutes: &str) -> (r: Json)
    ensures
        r@ == text_reply(
            "Reminder scheduled: target="@ + target@ + " at="@ + fire_at@ + " (in "@ + minutes@
                + " minutes)"@,
        ),
{
    let mut t = cat5("Reminder scheduled: target=", target, " at=", fire_at, " (in ");
    t.append(minutes);
    t.append(" minutes)");
    reply_text(&t)
}

// ─── Times ──────────────────────────────────────────────────────────────────

/// What a text may denote as a time, in the ways in which it can be read.
#[derive(Debug, Clone, Copy, PartialEq, Eq)]
pub struct TimeReadings {
    /// As RFC 3339.
    pub rfc3339: Option<(i64, u32)>,
    /// As date and time in Moscow, in three notations.
    pub minutes: Option<(i64, u32)>,
    pub minutes_t: Option<(i64, u32)>,
    pub seconds: Option<(i64, u32)>,
    /// As a time of day after the word `tomorrow`: the instant.
    pub tomorrow: Option<i64>,
    /// As a time of day: the instants of today and tomorrow.
    pub today_at: Option<i64>,
    pub tomorrow_at: Option<i64>,
}

/// The instant that the readings of a text give at `now`: the first one in their
/// order. A time of day is taken for today where it is ahead, else for tomorrow.
pub open spec fn chosen_time(t: TimeReadings, now: i64) -> Option<(i64, u32)> {
    if t.rfc3339 is Some {
        t.rfc3339
    } else if t.minutes is Some {
        t.minutes
    } else if t.minutes_t is Some {
        t.minutes_t
    } else if t.seconds is Some {
        t.seconds
    } else if t.tomorrow is Some {
        Some((t.tomorrow->0, 0u32))
    } else if t.today_at matches Some(at) && at * 1_000_000_000 > now {
        Some((t.today_at->0, 0u32))
    } else if t.tomorrow_at is Some {
        Some((t.tomorrow_at->0, 0u32))
    } else {
        None
    }
}

/// The instant that the readings of a text give at `now`.
pub fn choose_time(t: &TimeReadings, now: i64) -> (r: Option<(i64, u32)>)
    ensures
        r == chosen_time(*t, now),
{
    if t.rfc3339.is_some() {
        return t.rfc3339;
    }
    if t.minutes.is_some() {
        return t.minutes;
    }
    if t.minutes_t.is_some() {
        return t.minutes_t;
    }
    if t.seconds.is_some() {
        return t.seconds;
    }
    match t.tomorrow {
        Some(at) => {
            return Some((at, 0));
        },
        None => {},
    }
    match t.today_at {
        Some(at) => {
            if at as i128 * 1_000_000_000 > now as i128 {
                return Some((at, 0));
            }
        },
        None => {},
    }
    match t.tomorrow_at {
        Some(at) => Some((at, 0)),
        None => None,
    }
}

/// The instant of a time of day, so many days after today in Moscow.
pub open spec fn at_day(time: Option<u32>, now: i64, ahead: int) -> Option<i64> {
    match time {
        Some(secs) => if moscow_day(now) + ahead <= i32::MAX {
            moscow_instant((moscow_day(now) + ahead) as i32, secs)
        } else {
            None
        },
        None => None,
    }
}

/// The time of day after the word `tomorrow`.
pub open spec fn tomorrow_time(s: Seq<char>) -> Option<u32> {
    match strip_prefix_spec(s, "tomorrow"@) {
        Some(rest) => time_of_day(trim_spec(rest)),
        None => None,
    }
}

/// The readings of a text at `now`.
pub open spec fn readings_of(s: Seq<char>, now: i64) -> TimeReadings {
    TimeReadings {
        rfc3339: rfc3339_time(s),
        minutes: moscow_time(s, "%Y-%m-%d %H:%M"@),
        minutes_t: moscow_time(s, "%Y-%m-%dT%H:%M"@),
        seconds: moscow_time(s, "%Y-%m-%d %H:%M:%S"@),
        tomorrow: at_day(tomorrow_time(s), now, 1),
        today_at: at_day(time_of_day(s), now, 0),
        tomorrow_at: at_day(time_of_day(s), now, 1),
    }
}

/// The complaint about a text that denotes no time.
pub open spec fn bad_time(s: Seq<char>) -> Seq<char> {
    "cannot parse time '"@ + s
        + "'. Supported: ISO 8601 (2026-04-22T09:00:00Z), datetime (2026-04-22 09:00), time (09:00), 'tomorrow 09:00', or duration with 'in' param (30m, 1h, 2h30m)"@
}

/// Whether `r` is the instant that a text denotes at `now`, or the complaint about it.
pub open spec fn tells_time(s: Seq<char>, now: i64, r: Result<(i64, u32), String>) -> bool {
    match chosen_time(readings_of(trim_spec(s), now), now) {
        Some(t) => r == Ok::<(i64, u32), String>(t),
        None => r matches Err(e) && e@ == bad_time(trim_spec(s)),
    }
}

fn instant_on(time: Option<u32>, day: i32, now: i64, tomorrow: bool) -> (r: Option<i64>)
    requires
        day == moscow_day(now),
    ensures
        r == at_day(
            time,
            now,
            if tomorrow {
                1
            } else {
                0
            },
        ),
{
    match time {
        Some(secs) => {
            if !tomorrow {
                read_moscow_instant(day, secs)
            } else if day < i32::MAX {
                read_moscow_instant(day + 1, secs)
            } else {
                None
            }
        },
        None => None,
    }
}

/// The instant that a text denotes at `now`: an RFC 3339 timestamp, a date and
/// time or a time of day in Moscow, or `tomorrow` and a time of day.
pub fn parse_at_time_from(s: &str, now: i64) -> (r: Result<(i64, u32), String>)
    ensures
        tells_time(s@, now, r),
{
    let t = trim(s);
    let day: i32 = read_moscow_day(now);
    let time = read_time_of_day(t);
    let after_word = match strip_prefix(t, "tomorrow") {
        Some(rest) => read_time_of_day(trim(rest)),
        None => None,
    };
    let readings = TimeReadings {
        rfc3339: read_rfc3339(t),
        minutes: read_moscow_time(t, "%Y-%m-%d %H:%M"),
        minutes_t: read_moscow_time(t, "%Y-%m-%dT%H:%M"),
        seconds: read_moscow_time(t, "%Y-%m-%d %H:%M:%S"),
        tomorrow: instant_on(after_word, day, now, true),
        today_at: instant_on(time, day, now, false),
        tomorrow_at: instant_on(time, day, now, true),
    };
    match choose_time(&readings, now) {
        Some(at) => Ok(at),
        None => Err(
            cat3(
                "cannot parse time '",
                t,
                "'. Supported: ISO 8601 (2026-04-22T09:00:00Z), datetime (2026-04-22 09:00), time (09:00), 'tomorrow 09:00', or duration with 'in' param (30m, 1h, 2h30m)",
            ),
        ),
    }
}

/// The instant that a text denotes now.
pub fn parse_at_time(s: &str) -> (r: Result<(i64, u32), String>)
    ensures
        exists|now: i64| #[trigger] tells_time(s@, now, r),
{
    let now: i64 = now_nanos();
    let r = parse_at_time_from(s, now);
    assert(tells_time(s@, now, r));
    r
}

/// A time of day that is over today is taken for tomorrow.
pub proof fn past_time_of_day_moves_to_tomorrow(t: TimeReadings, now: i64)
    requires
        t.rfc3339 is None && t.minutes is None && t.minutes_t is None && t.seconds is None
            && t.tomorrow is None,
        t.today_at matches Some(at) ==> at * 1_000_000_000 <= now,
        t.tomorrow_at is Some,
    ensures
        chosen_time(t, now) == Some((t.tomorrow_at->0, 0u32)),
{
}

// ─── What a text denotes ────────────────────────────────────────────────────

/// Whether a text is a full date and time: with a zone, or in Moscow.
pub open spec fn is_dated(s: Seq<char>) -> bool {
    ||| rfc3339_time(s) is Some
    ||| moscow_time(s, "%Y-%m-%d %H:%M"@) is Some
    ||| moscow_time(s, "%Y-%m-%dT%H:%M"@) is Some
    ||| moscow_time(s, "%Y-%m-%d %H:%M:%S"@) is Some
}

/// A timestamp with a zone denotes its instant, whatever the time is now, and white space
/// around it makes no difference.
pub proof fn timestamp_is_its_instant(s: Seq<char>, now: i64, r: Result<(i64, u32), String>)
    requires
        tells_time(s, now, r),
        rfc3339_time(trim_spec(s)) is Some,
    ensures
        r matches Ok(t) && Some(t) == rfc3339_time(trim_spec(s)),
{
}

/// A date and time without a zone is one of Moscow, whatever the time is now.
pub proof fn date_and_time_is_that_of_moscow(
    s: Seq<char>,
    now: i64,
    r: Result<(i64, u32), String>,
)
    requires
        tells_time(s, now, r),
        rfc3339_time(trim_spec(s)) is None,
        is_dated(trim_spec(s)),
    ensures
        r matches Ok(t) && (Some(t) == moscow_time(trim_spec(s), "%Y-%m-%d %H:%M"@) || Some(t)
            == moscow_time(trim_spec(s), "%Y-%m-%dT%H:%M"@) || Some(t) == moscow_time(
            trim_spec(s),
            "%Y-%m-%d %H:%M:%S"@,
        )),
        moscow_time(trim_spec(s), "%Y-%m-%d %H:%M"@) is Some ==> (r matches Ok(t)
            && Some(t) == moscow_time(trim_spec(s), "%Y-%m-%d %H:%M"@)),
{
}

/// `tomorrow` and a time of day denote that time of day in Moscow on the day after the day
/// of Moscow now.
pub proof fn tomorrow_is_the_next_day(
    s: Seq<char>,
    gap: Seq<char>,
    time: Seq<char>,
    now: i64,
    r: Result<(i64, u32), String>,
)
    requires
        tells_time(s, now, r),
        trim_spec(s) == "tomorrow"@ + gap + time,
        trim_spec(gap + time) == time,
        !is_dated(trim_spec(s)),
        time_of_day(time) is Some,
        moscow_day(now) < i32::MAX,
        moscow_instant((moscow_day(now) + 1) as i32, time_of_day(time)->0) is Some,
    ensures
        r == Ok::<(i64, u32), String>(
            (moscow_instant((moscow_day(now) + 1) as i32, time_of_day(time)->0)->0, 0u32),
        ),
{
    let t = trim_spec(s);
    reveal_strlit("tomorrow");
    assert(t.take(8) =~= "tomorrow"@);
    assert(t.skip(8) =~= gap + time);
}

/// A time of day denotes that time in Moscow: today where it is still ahead, and else on
/// the next day.
pub proof fn time_of_day_is_the_next_such_time(
    s: Seq<char>,
    now: i64,
    r: Result<(i64, u32), String>,
)
    requires
        tells_time(s, now, r),
        !is_dated(trim_spec(s)),
        !(trim_spec(s).len() >= 8 && trim_spec(s).take(8) == "tomorrow"@),
        time_of_day(trim_spec(s)) is Some,
        moscow_day(now) < i32::MAX,
        moscow_instant(moscow_day(now), time_of_day(trim_spec(s))->0) is Some,
        moscow_instant((moscow_day(now) + 1) as i32, time_of_day(trim_spec(s))->0) is Some,
    ensures
        ({
            let secs = time_of_day(trim_spec(s))->0;
            let today = moscow_instant(moscow_day(now), secs)->0;
            let next = moscow_instant((moscow_day(now) + 1) as i32, secs)->0;
            r == Ok::<(i64, u32), String>(
                if today * 1_000_000_000 > now {
                    (today, 0u32)
                } else {
                    (next, 0u32)
                },
            )
        }),
{
    reveal_strlit("tomorrow");
}

/// A time of day that is over today denotes the same instant as with the word `tomorrow`
/// before it.
pub proof fn passed_time_of_day_is_that_of_tomorrow(
    plain: Seq<char>,
    worded: Seq<char>,
    now: i64,
    a: Result<(i64, u32), String>,
    b: Result<(i64, u32), String>,
)
    requires
        tells_time(plain, now, a),
        tells_time(worded, now, b),
        trim_spec(worded) == "tomorrow"@ + " "@ + trim_spec(plain),
        trim_spec(" "@ + trim_spec(plain)) == trim_spec(plain),
        !is_dated(trim_spec(plain)) && !is_dated(trim_spec(worded)),
        !(trim_spec(plain).len() >= 8 && trim_spec(plain).take(8) == "tomorrow"@),
        time_of_day(trim_spec(plain)) is Some,
        moscow_day(now) < i32::MAX,
        moscow_instant(moscow_day(now), time_of_day(trim_spec(plain))->0) matches Some(at) && at
            * 1_000_000_000 <= now,
        moscow_instant((moscow_day(now) + 1) as i32, time_of_day(trim_spec(plain))->0) is Some,
    ensures
        a == b,
{
    tomorrow_is_the_next_day(worded, " "@, trim_spec(plain), now, b);
    time_of_day_is_the_next_such_time(plain, now, a);
}

/// A text that is read in no way is refused, and the complaint holds it.
pub proof fn other_texts_are_refused(s: Seq<char>, now: i64, r: Result<(i64, u32), String>)
    requires
        tells_time(s, now, r),
        !is_dated(trim_spec(s)),
        time_of_day(trim_spec(s)) is None,
        !(trim_spec(s).len() >= 8 && trim_spec(s).take(8) == "tomorrow"@),
    ensures
        r matches Err(e) && exists|i: int|
            0 <= i && i + trim_spec(s).len() <= e@.len() && #[trigger] e@.subrange(
                i,
                i + trim_spec(s).len(),
            ) == trim_spec(s),
{
    reveal_strlit("tomorrow");
    reveal_strlit("cannot parse time '");
    let t = trim_spec(s);
    let n = "cannot parse time '"@.len() as int;
    assert(bad_time(t).subrange(n, n + t.len()) =~= t);
}

} // verus!
