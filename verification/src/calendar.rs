//! Calendar days.

use crate::decimal::{digit, digits, padded};
use crate::locale::iso_date;
use crate::sort::text_before;
use chrono::Datelike;
use vstd::prelude::*;

verus! {

/// A day of the week.
#[derive(Debug, Clone, Copy, PartialEq, Eq, Structural)]
pub enum Weekday {
    Mon,
    Tue,
    Wed,
    Thu,
    Fri,
    Sat,
    Sun,
}

impl Weekday {
    /// The number of days since Monday.
    pub open spec fn index(self) -> nat {
        match self {
            Weekday::Mon => 0,
            Weekday::Tue => 1,
            Weekday::Wed => 2,
            Weekday::Thu => 3,
            Weekday::Fri => 4,
            Weekday::Sat => 5,
            Weekday::Sun => 6,
        }
    }

    /// The number of days since Monday.
    pub fn num_days_from_monday(self) -> (r: usize)
        ensures
            r == self.index(),
            r < 7,
    {
        match self {
            Weekday::Mon => 0,
            Weekday::Tue => 1,
            Weekday::Wed => 2,
            Weekday::Thu => 3,
            Weekday::Fri => 4,
            Weekday::Sat => 5,
            Weekday::Sun => 6,
        }
    }
}

/// The day of the week `index` days after a Monday.
pub open spec fn weekday_at(index: nat) -> Weekday {
    let i = index % 7;
    if i == 0 {
        Weekday::Mon
    } else if i == 1 {
        Weekday::Tue
    } else if i == 2 {
        Weekday::Wed
    } else if i == 3 {
        Weekday::Thu
    } else if i == 4 {
        Weekday::Fri
    } else if i == 5 {
        Weekday::Sat
    } else {
        Weekday::Sun
    }
}

/// The day of the week `index` days after a Monday.
pub fn weekday_from_monday_index(index: usize) -> (r: Weekday)
    ensures
        r == weekday_at(index as nat),
        r.index() == index % 7,
{
    let i: usize = index % 7;
    if i == 0 {
        Weekday::Mon
    } else if i == 1 {
        Weekday::Tue
    } else if i == 2 {
        Weekday::Wed
    } else if i == 3 {
        Weekday::Thu
    } else if i == 4 {
        Weekday::Fri
    } else if i == 5 {
        Weekday::Sat
    } else {
        Weekday::Sun
    }
}

/// A date of the calendar; `weekday` counts the days since Monday.
#[derive(Debug, Clone, Copy, PartialEq, Eq, Structural)]
pub struct Date {
    pub year: i32,
    pub month: u32,
    pub day: u32,
    pub weekday: u32,
}

impl Date {
    /// The fields are in the ranges of a calendar.
    pub open spec fn valid(self) -> bool {
        1 <= self.month <= 12 && 1 <= self.day <= 31 && self.weekday < 7
    }
}

/// A year with a twenty-ninth of February.
pub open spec fn is_leap(year: int) -> bool {
    year % 4 == 0 && (year % 100 != 0 || year % 400 == 0)
}

/// The days of a year before a month.
#[verifier::opaque]
pub open spec fn days_before_month(year: int, month: int) -> int {
    let plain = seq![0, 31, 59, 90, 120, 151, 181, 212, 243, 273, 304, 334int];
    plain[month - 1] + if month > 2 && is_leap(year) {
        1int
    } else {
        0
    }
}

/// The days of a month.
pub open spec fn month_length(year: int, month: int) -> int {
    if month == 2 {
        if is_leap(year) {
            29
        } else {
            28
        }
    } else if month == 4 || month == 6 || month == 9 || month == 11 {
        30
    } else {
        31
    }
}

/// The days before a year, from the first of January of the year one on.
#[verifier::opaque]
pub open spec fn days_before_year(year: int) -> int {
    let past = year - 1;
    365 * past + past / 4 - past / 100 + past / 400
}

/// The number of a date in the Gregorian calendar: the first of January of the year one has the
/// number one.
pub open spec fn day_number(date: Date) -> int {
    days_before_year(date.year as int) + days_before_month(date.year as int, date.month as int)
        + date.day
}

/// A date that the Gregorian calendar has, with its day of the week.
pub open spec fn real_date(date: Date) -> bool {
    &&& date.valid()
    &&& date.day <= month_length(date.year as int, date.month as int)
    &&& date.weekday == (day_number(date) - 1) % 7
}

/// A time of day.
#[derive(Debug, Clone, Copy, PartialEq, Eq, Structural)]
pub struct TimeOfDay {
    pub hour: u32,
    pub minute: u32,
}

/// The date that a text in the form `YYYY-MM-DD` denotes.
pub uninterp spec fn parsed_date(text: Seq<char>) -> Option<Date>;

/// `chrono::NaiveDate::parse_from_str` with the format `%Y-%m-%d`: the date that the text denotes,
/// which is one of the calendar; `None` where it denotes none. The text of a date of the years 0 to
/// 9999 denotes that date.
#[verifier::external_body]
pub(crate) fn parse_date(text: &str) -> (r: Option<Date>)
    ensures
        r == parsed_date(text@),
        r is Some ==> real_date(r->0),
        forall|d: Date|
            real_date(d) && 0 <= d.year <= 9999 && text@ == #[trigger] iso_date(d) ==> r == Some(d),
{
    chrono::NaiveDate::parse_from_str(text, "%Y-%m-%d").ok().map(|d| Date {
        year: d.year(),
        month: d.month(),
        day: d.day(),
        weekday: d.weekday().num_days_from_monday(),
    })
}

/// The number of the first day that has a text: the first of January of the year -262143.
pub const FIRST_DAY: i32 = -95_746_129;

/// The number of the last day that has a text: the last of December of the year 262142.
pub const LAST_DAY: i32 = 95_745_399;

/// `chrono::NaiveDate::from_num_days_from_ce_opt` and `format` with `%Y-%m-%d`: the text of the day
/// with that number; `None` outside the range of dates, which goes from the year -262143 to 262142.
#[verifier::external_body]
fn day_key(number: i32) -> (r: Option<String>)
    ensures
        r is Some <==> FIRST_DAY <= number <= LAST_DAY,
        forall|d: Date|
            r is Some && real_date(d) && #[trigger] day_number(d) == number ==> r->0@ == iso_date(
                d,
            ),
{
    chrono::NaiveDate::from_num_days_from_ce_opt(number).map(|d| d.format("%Y-%m-%d").to_string())
}

/// The date with a number.
pub open spec fn date_at(number: int) -> Date {
    choose|d: Date| real_date(d) && #[trigger] day_number(d) == number
}

/// The text `YYYY-MM-DD` of the day with a number.
pub open spec fn day_text(number: int) -> Seq<char> {
    iso_date(date_at(number))
}

/// A month lies inside its year and begins where the one before it ends.
proof fn lemma_month(year: int, month: int)
    requires
        1 <= month <= 12,
    ensures
        0 <= days_before_month(year, month) <= 335,
        month == 1 ==> days_before_month(year, month) == 0,
        month < 12 ==> days_before_month(year, month + 1) == days_before_month(year, month)
            + month_length(year, month),
        month == 12 ==> days_before_month(year, month) + 31 == year_length(year),
{
    reveal(days_before_month);
    assert(month == 1 || month == 2 || month == 3 || month == 4 || month == 5 || month == 6 || month
        == 7 || month == 8 || month == 9 || month == 10 || month == 11 || month == 12);
}

/// The days of a year.
pub open spec fn year_length(year: int) -> int {
    if is_leap(year) {
        366
    } else {
        365
    }
}

/// Each year begins where the one before it ends.
#[verifier::spinoff_prover]
#[verifier::rlimit(40)]
proof fn lemma_year(year: int)
    ensures
        days_before_year(year + 1) == days_before_year(year) + year_length(year),
{
    let a = (year - 1) / 4;
    let b = (year - 1) / 100;
    let c = (year - 1) / 400;
    assert(year / 4 == a + if year % 4 == 0 { 1int } else { 0 });
    assert(year / 100 == b + if year % 100 == 0 { 1int } else { 0 });
    assert(year / 400 == c + if year % 400 == 0 { 1int } else { 0 });
    assert(year % 400 == 0 ==> year % 100 == 0);
    assert(year % 100 == 0 ==> year % 4 == 0);
    assert(days_before_year(year) == 365 * (year - 1) + a - b + c) by {
        reveal(days_before_year);
    }
    assert(days_before_year(year + 1) == 365 * year + year / 4 - year / 100 + year / 400) by {
        reveal(days_before_year);
    }
}

/// The year of a date is near what its number tells.
proof fn lemma_year_bound(d: Date)
    requires
        real_date(d),
        -96_000_000 <= day_number(d) <= 96_000_000,
    ensures
        -270_000 <= d.year <= 270_000,
{
    reveal(days_before_year);
    lemma_month(d.year as int, d.month as int);
}

/// The number of a date from its parts.
proof fn lemma_number(d: Date, year: int, month: int, day: int)
    requires
        d.year == year,
        d.month == month,
        d.day == day,
    ensures
        day_number(d) == days_before_year(year) + days_before_month(year, month) + day,
{
}

/// The day after a date.
proof fn day_after(d: Date) -> (r: Date)
    requires
        real_date(d),
        -270_000 <= d.year <= 270_000,
    ensures
        real_date(r),
        day_number(r) == day_number(d) + 1,
{
    let (y, m) = (d.year as int, d.month as int);
    let w = ((d.weekday + 1) % 7) as u32;
    let r = if d.day < month_length(y, m) {
        Date { day: (d.day + 1) as u32, weekday: w, ..d }
    } else if m < 12 {
        Date { month: (m + 1) as u32, day: 1, weekday: w, ..d }
    } else {
        Date { year: (y + 1) as i32, month: 1, day: 1, weekday: w }
    };
    assert(day_number(r) == day_number(d) + 1) by {
        lemma_month(y, m);
        lemma_month(y + 1, 1);
        lemma_year(y);
        lemma_number(d, y, m, d.day as int);
        lemma_number(r, r.year as int, r.month as int, r.day as int);
    }
    r
}

/// The day before a date.
proof fn day_before(d: Date) -> (r: Date)
    requires
        real_date(d),
        -270_000 <= d.year <= 270_000,
    ensures
        real_date(r),
        day_number(r) == day_number(d) - 1,
{
    let (y, m) = (d.year as int, d.month as int);
    let w = ((d.weekday + 6) % 7) as u32;
    let r = if d.day > 1 {
        Date { day: (d.day - 1) as u32, weekday: w, ..d }
    } else if m > 1 {
        Date { month: (m - 1) as u32, day: month_length(y, m - 1) as u32, weekday: w, ..d }
    } else {
        Date { year: (y - 1) as i32, month: 12, day: 31, weekday: w }
    };
    assert(day_number(r) == day_number(d) - 1) by {
        if m > 1 {
            lemma_month(y, m - 1);
        }
        lemma_month(y, m);
        lemma_month(y - 1, 12);
        lemma_year(y - 1);
        lemma_number(d, y, m, d.day as int);
        lemma_number(r, r.year as int, r.month as int, r.day as int);
    }
    r
}

/// Every number of the calendar has its date.
pub proof fn every_number_has_a_date(number: int) -> (d: Date)
    requires
        -96_000_000 <= number <= 96_000_000,
    ensures
        real_date(d),
        day_number(d) == number,
        real_date(date_at(number)),
        day_number(date_at(number)) == number,
    decreases
            (if number < 0 {
                -number
            } else {
                number
            }),
{
    let d = if number == 0 {
        let d = Date { year: 0, month: 12, day: 31, weekday: 6 };
        reveal(days_before_year);
        reveal(days_before_month);
        assert(day_number(d) == 0);
        d
    } else if number > 0 {
        let d = every_number_has_a_date(number - 1);
        lemma_year_bound(d);
        day_after(d)
    } else {
        let d = every_number_has_a_date(number + 1);
        lemma_year_bound(d);
        day_before(d)
    };
    assert(real_date(d) && day_number(d) == number);
    d
}

/// The day of the week of the day with a number: the first of January of the year one is a Monday.
pub open spec fn weekday_of(number: int) -> Weekday {
    weekday_at(((number - 1) % 7) as nat)
}

/// How many days a weekday lies behind the first day of its week.
pub open spec fn days_into_week(day: Weekday, first: Weekday) -> int {
    (7 + day.index() - first.index()) % 7
}

/// How many days a weekday lies behind the first day of its week.
pub fn days_since_week_start(day: Weekday, first_weekday: Weekday) -> (r: usize)
    ensures
        r == days_into_week(day, first_weekday),
        r < 7,
{
    (7 + day.num_days_from_monday() - first_weekday.num_days_from_monday()) % 7
}

fn day_keys_from(first: i32, count: usize) -> (r: Vec<String>)
    requires
        FIRST_DAY <= first,
        first + count <= LAST_DAY + 1,
    ensures
        r@.len() == count,
        forall|i: int| 0 <= i < count ==> (#[trigger] r@[i])@ == day_text(first + i),
{
    let mut out: Vec<String> = Vec::new();
    let mut i: usize = 0;
    while i < count
        invariant
            i <= count,
            FIRST_DAY <= first,
            first + count <= LAST_DAY + 1,
            out@.len() == i,
            forall|j: int| 0 <= j < i ==> (#[trigger] out@[j])@ == day_text(first + j),
        decreases count - i,
    {
        proof {
            let _ = every_number_has_a_date(first + i);
        }
        match day_key(first + i as i32) {
            Some(key) => {
                out.push(key);
            },
            None => {
                assert(false);
            },
        }
        i += 1;
    }
    out
}

/// The keys of the last `days` days up to `today`, oldest first.
pub fn make_day_keys(today: i32, days: u32) -> (r: Vec<String>)
    requires
        FIRST_DAY + days <= today + 1,
        today <= LAST_DAY,
    ensures
        r@.len() == days,
        forall|i: int|
            0 <= i < days ==> (#[trigger] r@[i])@ == day_text(today - (days - 1) + i),
{
    day_keys_from(today - days as i32 + 1, days as usize)
}

/// Weeks that the activity view shows.
pub const ACTIVITY_TIMELINE_WEEKS: usize = 54;

/// Days that the activity view shows.
pub const ACTIVITY_TIMELINE_DAYS: usize = 378;

/// The first day that the activity view shows: the start of the week of `today`, 53 weeks back.
pub open spec fn activity_start(today: int, first: Weekday) -> int {
    today - days_into_week(weekday_of(today), first) - 53 * 7
}

fn activity_first_day(today: i32, first_weekday: Weekday) -> (r: i32)
    requires
        FIRST_DAY <= today <= LAST_DAY,
    ensures
        r == activity_start(today as int, first_weekday),
{
    let weekday = weekday_from_monday_index(((today + 139_999_999) % 7) as usize);
    let back: usize = days_since_week_start(weekday, first_weekday);
    today - back as i32 - 371
}

/// The keys of the days that the activity view shows, oldest first.
pub fn make_activity_day_keys(today: i32, first_weekday: Weekday) -> (r: Vec<String>)
    requires
        countable(today as int, first_weekday),
    ensures
        r@.len() == ACTIVITY_TIMELINE_DAYS,
        forall|i: int|
            0 <= i < ACTIVITY_TIMELINE_DAYS ==> (#[trigger] r@[i])@ == day_text(
                activity_start(today as int, first_weekday) + i,
            ),
{
    day_keys_from(activity_first_day(today, first_weekday), ACTIVITY_TIMELINE_DAYS)
}

/// The days of a refresh.
#[derive(Debug)]
pub struct Timeline {
    pub chart: Vec<String>,
    pub activity: Vec<String>,
}

/// The days that the activity view shows on a day have keys.
pub open spec fn countable(today: int, first: Weekday) -> bool {
    FIRST_DAY <= activity_start(today, first) && activity_start(today, first)
        + ACTIVITY_TIMELINE_DAYS <= LAST_DAY + 1
}

/// The days of a chart: at least one, and at most ninety.
pub open spec fn chart_length(days: u32) -> int {
    if days < 1 {
        1
    } else if days > 90 {
        90
    } else {
        days as int
    }
}

/// The keys of the days of a refresh: those of the chart up to today, and those of the activity view.
pub open spec fn is_timeline(t: Timeline, today: int, days: u32, first: Weekday) -> bool {
    &&& t.chart@.len() == chart_length(days)
    &&& forall|i: int|
        0 <= i < t.chart@.len() ==> (#[trigger] t.chart@[i])@ == day_text(
            today - (chart_length(days) - 1) + i,
        )
    &&& t.activity@.len() == ACTIVITY_TIMELINE_DAYS
    &&& forall|i: int|
        0 <= i < t.activity@.len() ==> (#[trigger] t.activity@[i])@ == day_text(
            activity_start(today, first) + i,
        )
}

/// The days of a refresh on a day; none where that day is out of range.
pub fn timeline(today: i32, days: u32, first_weekday: Weekday) -> (r: Option<Timeline>)
    ensures
        r is Some <==> countable(today as int, first_weekday),
        r is Some ==> is_timeline(r->0, today as int, days, first_weekday),
{
    if today < FIRST_DAY || today > LAST_DAY {
        return None;
    }
    let start: i32 = activity_first_day(today, first_weekday);
    if start < FIRST_DAY || start > LAST_DAY - 377 {
        return None;
    }
    let length: u32 = if days < 1 {
        1
    } else if days > 90 {
        90
    } else {
        days
    };
    Some(
        Timeline {
            chart: make_day_keys(today, length),
            activity: make_activity_day_keys(today, first_weekday),
        },
    )
}

/// The activity view starts on the first day of a week and its last week holds today.
pub proof fn activity_days_are_whole_weeks(today: int, first: Weekday)
    ensures
        weekday_of(activity_start(today, first)) == first,
        activity_start(today, first) + 53 * 7 <= today < activity_start(today, first) + 54 * 7,
{
}

proof fn lemma_years_ascend(a: int, b: int)
    requires
        a < b,
    ensures
        days_before_year(a) + year_length(a) <= days_before_year(b),
    decreases b - a,
{
    lemma_year(b - 1);
    if a < b - 1 {
        lemma_years_ascend(a, b - 1);
    }
}

proof fn lemma_months_ascend(year: int, a: int, b: int)
    requires
        1 <= a < b <= 12,
    ensures
        days_before_month(year, a) + month_length(year, a) <= days_before_month(year, b),
    decreases b - a,
{
    lemma_month(year, b - 1);
    if a < b - 1 {
        lemma_months_ascend(year, a, b - 1);
    }
}

/// One date comes before another: by its year, its month, its day.
pub open spec fn earlier(a: Date, b: Date) -> bool {
    a.year < b.year || (a.year == b.year && (a.month < b.month || (a.month == b.month && a.day
        < b.day)))
}

/// Of two dates the one with the smaller number is the earlier one.
pub proof fn numbers_order_dates(a: Date, b: Date)
    requires
        real_date(a),
        real_date(b),
    ensures
        day_number(a) < day_number(b) <==> earlier(a, b),
{
    if earlier(a, b) {
        lemma_earlier_is_smaller(a, b);
    } else if earlier(b, a) {
        lemma_earlier_is_smaller(b, a);
    } else {
        lemma_number(a, b.year as int, b.month as int, b.day as int);
        lemma_number(b, b.year as int, b.month as int, b.day as int);
    }
}

proof fn lemma_earlier_is_smaller(a: Date, b: Date)
    requires
        real_date(a),
        real_date(b),
        earlier(a, b),
    ensures
        day_number(a) < day_number(b),
{
    let (y, m) = (a.year as int, a.month as int);
    lemma_month(y, m);
    lemma_month(y, 12);
    lemma_month(b.year as int, b.month as int);
    if m < 12 {
        lemma_months_ascend(y, m, 12);
    }
    if a.year < b.year {
        lemma_years_ascend(y, b.year as int);
    } else if a.month < b.month {
        lemma_months_ascend(y, m, b.month as int);
    }
    lemma_number(a, y, m, a.day as int);
    lemma_number(b, b.year as int, b.month as int, b.day as int);
}

#[verifier::spinoff_prover]
#[verifier::rlimit(40)]
proof fn lemma_two_digits(n: nat)
    requires
        n < 100,
    ensures
        padded(n, 2) == seq![digit(n / 10), digit(n % 10)],
{
    reveal_with_fuel(digits, 3);
    assert(padded(n, 2) =~= seq![digit(n / 10), digit(n % 10)]);
}

#[verifier::spinoff_prover]
#[verifier::rlimit(40)]
proof fn lemma_four_digits(n: nat)
    requires
        n < 10_000,
    ensures
        padded(n, 4) == seq![
            digit(n / 1000),
            digit(n / 100 % 10),
            digit(n / 10 % 10),
            digit(n % 10),
        ],
{
    reveal_with_fuel(digits, 5);
    assert(n / 10 / 10 == n / 100);
    assert(n / 10 / 10 / 10 == n / 1000);
    assert(padded(n, 4) =~= seq![
        digit(n / 1000),
        digit(n / 100 % 10),
        digit(n / 10 % 10),
        digit(n % 10),
    ]);
}

/// Texts are ordered by the first place at which they differ.
proof fn lemma_first_difference(a: Seq<char>, b: Seq<char>, i: int)
    requires
        0 <= i < a.len(),
        i < b.len(),
        a.take(i) == b.take(i),
        (a[i] as int) < (b[i] as int),
    ensures
        text_before(a, b),
    decreases i,
{
    if i > 0 {
        assert(a[0] == a.take(i)[0] && b[0] == b.take(i)[0]);
        assert(a.skip(1).take(i - 1) =~= a.take(i).skip(1));
        assert(b.skip(1).take(i - 1) =~= b.take(i).skip(1));
        lemma_first_difference(a.skip(1), b.skip(1), i - 1);
    }
}

/// Texts with a number of two digits at the first place at which they may differ are ordered by that
/// number.
proof fn lemma_two_digits_order(s: Seq<char>, t: Seq<char>, at: int, a: nat, b: nat)
    requires
        0 <= at,
        at + 2 <= s.len(),
        at + 2 <= t.len(),
        s.take(at) == t.take(at),
        s[at] == digit(a / 10),
        s[at + 1] == digit(a % 10),
        t[at] == digit(b / 10),
        t[at + 1] == digit(b % 10),
        a < b < 100,
    ensures
        text_before(s, t),
{
    if a / 10 < b / 10 {
        lemma_first_difference(s, t, at);
    } else {
        assert(a / 10 == b / 10 && a % 10 < b % 10);
        assert(s.take(at + 1) =~= s.take(at).push(s[at]));
        assert(t.take(at + 1) =~= t.take(at).push(t[at]));
        lemma_first_difference(s, t, at + 1);
    }
}

proof fn lemma_hundreds(n: nat)
    ensures
        n / 1000 == n / 100 / 10,
        n / 10 % 10 == n % 100 / 10,
        n % 10 == n % 100 % 10,
{
}

/// A number of four digits is written as two numbers of two digits.
#[verifier::spinoff_prover]
#[verifier::rlimit(40)]
proof fn lemma_two_pairs(n: nat)
    requires
        n < 10_000,
    ensures
        padded(n, 4) == seq![
            digit(n / 100 / 10),
            digit(n / 100 % 10),
            digit(n % 100 / 10),
            digit(n % 100 % 10),
        ],
{
    lemma_four_digits(n);
    lemma_hundreds(n);
}

/// Texts that begin with a number of four digits are ordered by that number, where it differs.
proof fn lemma_four_digits_order(s: Seq<char>, t: Seq<char>, a: nat, b: nat)
    requires
        4 <= s.len(),
        4 <= t.len(),
        s.take(4) == padded(a, 4),
        t.take(4) == padded(b, 4),
        a < b < 10_000,
    ensures
        text_before(s, t),
{
    lemma_two_pairs(a);
    lemma_two_pairs(b);
    let (h, k) = (a / 100, b / 100);
    assert(s[0] == s.take(4)[0] && s[1] == s.take(4)[1] && s[2] == s.take(4)[2] && s[3] == s.take(
        4,
    )[3]);
    assert(t[0] == t.take(4)[0] && t[1] == t.take(4)[1] && t[2] == t.take(4)[2] && t[3] == t.take(
        4,
    )[3]);
    if h < k {
        assert(s.take(0) =~= t.take(0));
        lemma_two_digits_order(s, t, 0, h, k);
    } else {
        assert(h == k && a % 100 < b % 100);
        assert(s.take(2) =~= t.take(2));
        lemma_two_digits_order(s, t, 2, a % 100, b % 100);
    }
}

/// The text of a date of four year digits: what stands where.
proof fn lemma_date_text(d: Date)
    requires
        d.valid(),
        0 <= d.year <= 9999,
    ensures
        iso_date(d).len() == 10,
        iso_date(d).take(4) == padded(d.year as nat, 4),
        iso_date(d).take(5) == padded(d.year as nat, 4) + seq!['-'],
        iso_date(d).take(8) == padded(d.year as nat, 4) + seq!['-'] + padded(d.month as nat, 2)
            + seq!['-'],
        iso_date(d)[5] == digit(d.month as nat / 10),
        iso_date(d)[6] == digit(d.month as nat % 10),
        iso_date(d)[8] == digit(d.day as nat / 10),
        iso_date(d)[9] == digit(d.day as nat % 10),
{
    let year = padded(d.year as nat, 4);
    let month = padded(d.month as nat, 2);
    let day = padded(d.day as nat, 2);
    assert(year.len() == 4) by {
        lemma_four_digits(d.year as nat);
    }
    lemma_two_digits(d.month as nat);
    lemma_two_digits(d.day as nat);
    let s = iso_date(d);
    assert(s == year + seq!['-'] + month + seq!['-'] + day);
    assert(s.take(4) =~= year);
    assert(s.take(5) =~= year + seq!['-']);
    assert(s.take(8) =~= year + seq!['-'] + month + seq!['-']);
    assert(s[5] == month[0] && s[6] == month[1] && s[8] == day[0] && s[9] == day[1]);
}

/// Dates of the years 0 to 9999 are written in the order of the calendar.
pub proof fn dates_are_written_in_order(a: Date, b: Date)
    requires
        a.valid(),
        b.valid(),
        0 <= a.year <= 9999,
        0 <= b.year <= 9999,
        earlier(a, b),
    ensures
        text_before(iso_date(a), iso_date(b)),
{
    lemma_date_text(a);
    lemma_date_text(b);
    lemma_date_order(iso_date(a), iso_date(b), a, b);
}

proof fn lemma_date_order(s: Seq<char>, t: Seq<char>, a: Date, b: Date)
    requires
        s.len() == 10,
        t.len() == 10,
        a.valid(),
        b.valid(),
        0 <= a.year <= 9999,
        0 <= b.year <= 9999,
        earlier(a, b),
        s.take(4) == padded(a.year as nat, 4),
        t.take(4) == padded(b.year as nat, 4),
        a.year == b.year ==> s.take(5) == t.take(5),
        a.year == b.year && a.month == b.month ==> s.take(8) == t.take(8),
        s[5] == digit(a.month as nat / 10),
        s[6] == digit(a.month as nat % 10),
        s[8] == digit(a.day as nat / 10),
        s[9] == digit(a.day as nat % 10),
        t[5] == digit(b.month as nat / 10),
        t[6] == digit(b.month as nat % 10),
        t[8] == digit(b.day as nat / 10),
        t[9] == digit(b.day as nat % 10),
    ensures
        text_before(s, t),
{
    if a.year < b.year {
        lemma_four_digits_order(s, t, a.year as nat, b.year as nat);
    } else if a.month < b.month {
        lemma_two_digits_order(s, t, 5, a.month as nat, b.month as nat);
    } else {
        lemma_two_digits_order(s, t, 8, a.day as nat, b.day as nat);
    }
}

/// The number of the first of January of the year 0.
pub const FIRST_PLAIN_DAY: i32 = -365;

/// The number of the last of December of the year 9999.
pub const LAST_PLAIN_DAY: i32 = 3_652_059;

/// The keys of days ascend, from the year 0 to the year 9999: of two days the later one has the key
/// that comes later.
pub proof fn day_keys_ascend(a: int, b: int)
    requires
        FIRST_PLAIN_DAY <= a < b <= LAST_PLAIN_DAY,
    ensures
        text_before(day_text(a), day_text(b)),
{
    let _ = every_number_has_a_date(a);
    let _ = every_number_has_a_date(b);
    let (x, y) = (date_at(a), date_at(b));
    numbers_order_dates(x, y);
    lemma_plain_year(x);
    lemma_plain_year(y);
    dates_are_written_in_order(x, y);
}

proof fn lemma_plain_year(d: Date)
    requires
        real_date(d),
        FIRST_PLAIN_DAY <= day_number(d) <= LAST_PLAIN_DAY,
    ensures
        0 <= d.year <= 9999,
{
    let first = Date { year: 0, month: 1, day: 1, weekday: 5 };
    let last = Date { year: 9999, month: 12, day: 31, weekday: 4 };
    reveal(days_before_year);
    reveal(days_before_month);
    assert(day_number(first) == FIRST_PLAIN_DAY);
    assert(day_number(last) == LAST_PLAIN_DAY);
    numbers_order_dates(d, first);
    numbers_order_dates(last, d);
}

/// The chart ends with today and has as many days before it as were asked for, each one behind the
/// day before it; the activity view begins with a whole week and holds today.
pub proof fn timelines_end_today(t: Timeline, today: int, days: u32, first: Weekday)
    requires
        is_timeline(t, today, days, first),
    ensures
        1 <= days <= 90 ==> t.chart@.len() == days,
        days > 90 ==> t.chart@.len() == 90,
        t.chart@.len() >= 1,
        t.chart@.last()@ == day_text(today),
        forall|back: int|
            0 <= back < t.chart@.len() ==> (#[trigger] t.chart@[t.chart@.len() - 1 - back])@
                == day_text(today - back),
        t.activity@.len() == 54 * 7,
        exists|i: int|
            53 * 7 <= i < 54 * 7 && (#[trigger] t.activity@[i])@ == day_text(today),
        t.activity@[0]@ == day_text(activity_start(today, first)),
{
    activity_days_are_whole_weeks(today, first);
    let i = today - activity_start(today, first);
    assert(t.activity@[i]@ == day_text(activity_start(today, first) + i));
    assert forall|back: int| 0 <= back < t.chart@.len() implies (
    #[trigger] t.chart@[t.chart@.len() - 1 - back])@ == day_text(today - back) by {
        let k = t.chart@.len() - 1 - back;
        assert(t.chart@[k]@ == day_text(today - (chart_length(days) - 1) + k));
    }
}

} // verus!
