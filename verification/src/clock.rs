//! Points in time.

use crate::calendar::{
    countable, day_number, day_text, is_timeline, parse_date, parsed_date, real_date, timeline, Date,
    TimeOfDay, Timeline, Weekday,
};
use crate::json::{as_integer, field, integer_of, Json};
use chrono::{Datelike, TimeZone, Timelike};
use vstd::prelude::*;

verus! {

/// The milliseconds since the epoch that an RFC 3339 timestamp denotes.
pub uninterp spec fn rfc3339_ms(text: Seq<char>) -> Option<i64>;

/// `chrono::DateTime::parse_from_rfc3339` and `timestamp_millis`: the point in time that the text
/// denotes, `None` where it is not an RFC 3339 timestamp. Its year has four digits, so the point lies
/// far from both ends of the calendar.
#[verifier::external_body]
pub(crate) fn parse_rfc3339_ms(text: &str) -> (r: Option<i64>)
    ensures
        r == rfc3339_ms(text@),
        r is Some ==> in_every_zone(r->0 as int),
{
    chrono::DateTime::parse_from_rfc3339(text).ok().map(|t| t.timestamp_millis())
}

/// The first millisecond since the epoch that the calendar has, in UTC.
pub const EARLIEST_MS: i64 = -8_334_601_228_800_000;

/// The last millisecond since the epoch that the calendar has, in UTC.
pub const LATEST_MS: i64 = 8_210_266_876_799_999;

/// The milliseconds of a day.
pub const DAY_MS: i64 = 86_400_000;

/// The calendar has this point in time in UTC.
pub open spec fn in_calendar(ms: int) -> bool {
    EARLIEST_MS <= ms <= LATEST_MS
}

/// The calendar has this point in time in every time zone: no zone is a day away from UTC.
pub open spec fn in_every_zone(ms: int) -> bool {
    EARLIEST_MS + DAY_MS <= ms <= LATEST_MS - DAY_MS
}

/// The number of the day of a point in time in UTC.
pub open spec fn utc_day(ms: int) -> int {
    719_163 + ms / (DAY_MS as int)
}

/// A text is the day of a point in time in some time zone, as `YYYY-MM-DD`.
pub open spec fn is_day_of(ms: int, text: Seq<char>) -> bool {
    exists|number: int|
        utc_day(ms) - 1 <= number <= utc_day(ms) + 1 && #[trigger] day_text(number) == text
}

/// `chrono::DateTime::from_timestamp_millis`, `with_timezone(&chrono::Local)` and `format`: the
/// calendar day of a point in time in the machine's time zone, as `YYYY-MM-DD`; `None` outside the
/// calendar. The zone is a setting of the machine: of the day it is only said that it is the one in
/// UTC or one beside it.
#[verifier::external_body]
pub(crate) fn local_day(timestamp_ms: i64) -> (r: Option<String>)
    ensures
        r is Some <==> in_calendar(timestamp_ms as int),
        in_every_zone(timestamp_ms as int) ==> r is Some && is_day_of(
            timestamp_ms as int,
            r->0@,
        ),
{
    let utc = chrono::DateTime::from_timestamp_millis(timestamp_ms)?;
    Some(utc.with_timezone(&chrono::Local).format("%Y-%m-%d").to_string())
}

/// A date and a time of day.
#[derive(Debug, Clone, Copy, PartialEq, Eq, Structural)]
pub struct Moment {
    pub date: Date,
    pub time: TimeOfDay,
}

/// The fields are in the ranges of a calendar, where there is a moment.
pub open spec fn calendar_moment(m: Option<Moment>) -> bool {
    m is Some ==> m->0.date.valid()
}

/// The number of the minute of a date and a time of day.
pub open spec fn minute_number(m: Moment) -> int {
    day_number(m.date) * 1440 + m.time.hour * 60 + m.time.minute
}

/// A date and a time of day are those of a point in time in some time zone: they lie within a day of
/// those in UTC.
pub open spec fn is_moment_of(ms: int, m: Moment) -> bool {
    let utc = 719_163 * 1440 + ms / 60_000;
    &&& real_date(m.date)
    &&& m.time.hour < 24
    &&& m.time.minute < 60
    &&& utc - 1440 <= minute_number(m) <= utc + 1440
}

/// `chrono::Local.timestamp_millis_opt` and `naive_local`: the date and the time of day of a point in
/// time in the machine's time zone. A point in time of the calendar has exactly one. The zone is a
/// setting of the machine: of the moment it is only said that it is one of the calendar and within a
/// day of the one in UTC.
#[verifier::external_body]
fn local_moment(timestamp_ms: i64) -> (r: Option<Moment>)
    requires
        in_every_zone(timestamp_ms as int),
    ensures
        r is Some,
        is_moment_of(timestamp_ms as int, r->0),
{
    let t = chrono::Local.timestamp_millis_opt(timestamp_ms).single()?.naive_local();
    let date = Date {
        year: t.year(),
        month: t.month(),
        day: t.day(),
        weekday: t.weekday().num_days_from_monday(),
    };
    Some(Moment { date, time: TimeOfDay { hour: t.hour(), minute: t.minute() } })
}

/// The moment of a point in time in some time zone; none at the ends of the calendar and beyond.
pub open spec fn moment_fits(ms: int, m: Option<Moment>) -> bool {
    &&& m is Some <==> in_every_zone(ms)
    &&& m is Some ==> is_moment_of(ms, m->0)
}

/// The moment of a point in time in the machine's time zone; none at the ends of the calendar and
/// beyond.
pub fn moment_at(timestamp_ms: i64) -> (r: Option<Moment>)
    ensures
        moment_fits(timestamp_ms as int, r),
        calendar_moment(r),
{
    if timestamp_ms < EARLIEST_MS + DAY_MS || timestamp_ms > LATEST_MS - DAY_MS {
        return None;
    }
    local_moment(timestamp_ms)
}

/// The moment of a point in time that may not be known and may count seconds.
pub open spec fn opt_moment_fits(at: Option<i64>, m: Option<Moment>) -> bool {
    match at {
        Some(value) => moment_fits(epoch_millis(value as int), m),
        None => m is None,
    }
}

/// The moment of a point in time in the machine's time zone, where it is known; it may count seconds.
pub fn opt_moment_at(at: Option<i64>) -> (r: Option<Moment>)
    ensures
        opt_moment_fits(at, r),
        calendar_moment(r),
{
    match at {
        Some(value) => moment_at(normalize_epoch_millis(value)),
        None => None,
    }
}

/// The moment of a timestamp in some time zone; none where the text is no timestamp.
pub open spec fn stamp_fits(raw: Option<Seq<char>>, m: Option<Moment>) -> bool {
    let ms = match raw {
        Some(text) => rfc3339_ms(text),
        None => None,
    };
    &&& m is Some <==> ms is Some
    &&& m is Some ==> is_moment_of(ms->0 as int, m->0)
}

/// The moment of a timestamp in the machine's time zone; none where the text is no timestamp.
pub fn stamp_moment(raw: Option<&str>) -> (r: Option<Moment>)
    ensures
        stamp_fits(crate::text::opt_str(raw), r),
        calendar_moment(r),
{
    match raw {
        Some(text) => match parse_rfc3339_ms(text) {
            Some(ms) => moment_at(ms),
            None => None,
        },
        None => None,
    }
}

/// The day that it is, with its number.
#[derive(Debug, Clone, Copy, PartialEq, Eq, Structural)]
pub struct Today {
    pub date: Date,
    pub number: i32,
}

/// `chrono::Local::now`: today in the machine's time zone, with the number of the day that
/// `num_days_from_ce` gives. The clock and the zone are the machine's, so nothing more is said of the
/// result.
#[verifier::external_body]
pub(crate) fn local_today() -> (r: Today)
    ensures
        real_date(r.date),
        r.number == day_number(r.date),
{
    let d = chrono::Local::now().date_naive();
    let date = Date {
        year: d.year(),
        month: d.month(),
        day: d.day(),
        weekday: d.weekday().num_days_from_monday(),
    };
    Today { date, number: d.num_days_from_ce() }
}

/// The days of a refresh today; none where the clock of the machine is out of range.
pub fn timeline_today(days: u32, first_weekday: Weekday) -> (r: Option<Timeline>)
    ensures
        exists|today: i32| #[trigger]
            countable(today as int, first_weekday) == (r is Some) && (r is Some ==> is_timeline(
                r->0,
                today as int,
                days,
                first_weekday,
            )),
{
    let today = local_today();
    let r = timeline(today.number, days, first_weekday);
    assert(countable(today.number as int, first_weekday) == (r is Some));
    r
}

/// A date begins at this second since the epoch in some time zone.
pub open spec fn begins_at(date: Date, secs: int) -> bool {
    let utc = (day_number(date) - 719_163) * 86_400;
    utc - 86_400 <= secs <= utc + 86_400
}

/// `chrono::Local.with_ymd_and_hms` at midnight and `timestamp`: the seconds since the epoch at which
/// a date begins in the machine's time zone, `None` where it begins never or twice. The zone is a
/// setting of the machine: it is only said that the date begins within a day of its beginning in UTC.
#[verifier::external_body]
fn local_midnight(date: Date) -> (r: Option<i64>)
    ensures
        r is Some && date.valid() ==> begins_at(date, r->0 as int),
{
    let start = chrono::Local.with_ymd_and_hms(date.year, date.month, date.day, 0, 0, 0);
    start.single().map(|t| t.timestamp())
}

/// Seconds since the epoch; none before it.
pub open spec fn after_epoch(at: Option<i64>) -> Option<u64> {
    match at {
        Some(t) => if t >= 0 {
            Some(t as u64)
        } else {
            None
        },
        None => None,
    }
}

/// Seconds since the epoch; none before it.
pub fn secs_after_epoch(at: Option<i64>) -> (r: Option<u64>)
    ensures
        r == after_epoch(at),
{
    match at {
        Some(t) => if t >= 0 {
            Some(t as u64)
        } else {
            None
        },
        None => None,
    }
}

/// The seconds since the epoch at which a day begins in the machine's time zone; none where the text
/// is no day. Which zone that is, is left open, and with it whether the day begins once.
pub fn epoch_secs_for_local_day_start(day_key: &str) -> (r: Option<u64>)
    ensures
        parsed_date(day_key@) is None ==> r is None,
        r is Some ==> r->0 <= i64::MAX && begins_at(parsed_date(day_key@)->0, r->0 as int),
{
    match parse_date(day_key) {
        Some(date) => secs_after_epoch(local_midnight(date)),
        None => None,
    }
}

/// Two dates are the same day.
pub open spec fn same_day(a: Date, b: Date) -> bool {
    a.year == b.year && a.month == b.month && a.day == b.day
}

/// Tests whether two dates are the same day.
pub fn is_same_day(a: Date, b: Date) -> (r: bool)
    ensures
        r == same_day(a, b),
{
    a.year == b.year && a.month == b.month && a.day == b.day
}

/// A positive number below `10^12` counts seconds, every other number milliseconds.
pub open spec fn epoch_millis(value: int) -> int {
    if 0 < value < 1_000_000_000_000 {
        value * 1000
    } else {
        value
    }
}

/// Milliseconds since the epoch, where the value may count seconds.
pub fn normalize_epoch_millis(value: i64) -> (r: i64)
    ensures
        r == epoch_millis(value as int),
{
    if value > 0 && value < 1_000_000_000_000 {
        value * 1000
    } else {
        value
    }
}

/// The point in time that a JSON value denotes: an RFC 3339 text, or a number of seconds or
/// milliseconds.
pub open spec fn timestamp_ms(raw: Json) -> Option<i64> {
    match raw {
        Json::Text(s) => rfc3339_ms(s@),
        _ => match as_integer(raw) {
            Some(n) => Some(epoch_millis(n as int) as i64),
            None => None,
        },
    }
}

/// The point in time that a JSON value denotes.
pub fn parse_timestamp_value_ms(raw: &Json) -> (r: Option<i64>)
    ensures
        r == timestamp_ms(*raw),
{
    match raw {
        Json::Text(s) => parse_rfc3339_ms(s.as_str()),
        _ => match integer_of(raw) {
            Some(n) => Some(normalize_epoch_millis(n)),
            None => None,
        },
    }
}

/// The point in time of a log line.
pub open spec fn line_ms(line: Json) -> Option<i64> {
    match field(line, "timestamp"@) {
        Some(v) => timestamp_ms(v),
        None => None,
    }
}

/// The point in time of a log line.
pub fn read_timestamp_ms(line: &Json) -> (r: Option<i64>)
    ensures
        r == line_ms(*line),
{
    match line.get("timestamp") {
        Some(v) => parse_timestamp_value_ms(v),
        None => None,
    }
}

} // verus!
