//! How numbers, durations, dates and times read.

use crate::calendar::{weekday_at, Date, TimeOfDay};
use crate::clock::epoch_millis;
use crate::decimal::{digit, digits, lemma_digits_len, padded};
use crate::double::{nearest, scaled, two_to};
use crate::locale::{
    chart_day, full_date, localized, month_label, month_name, number_text, numeric_date,
    reset_date, short_date, tenths_text, time_text, weekday_label, weekday_name, DateOrder,
    DisplayFormatter, DisplayStyle,
};
use crate::rounding::{lemma_half_even_near, lemma_nearest_near};
use crate::ui::values::{duration_words, hours_minutes, updated_text};
use crate::usage::format::{long_duration, short_duration, tokens_label, trim_fraction};
use crate::usage::labels::month_of_digits;
use vstd::prelude::*;

verus! {

/// The milliseconds of hours, minutes, seconds and a rest of a second.
pub open spec fn span(h: nat, m: nat, s: nat, rest: nat) -> int {
    (h * 3_600_000 + m * 60_000 + s * 1000 + rest) as int
}

proof fn lemma_span(h: nat, m: nat, s: nat, rest: nat)
    requires
        m < 60,
        s < 60,
        rest < 1000,
    ensures
        span(h, m, s, rest) >= 0,
        span(h, m, s, rest) / 1000 == h * 3600 + m * 60 + s,
        (h * 3600 + m * 60 + s) / 3600 == h,
        ((h * 3600 + m * 60 + s) % 3600) / 60 == m,
        (h * 3600 + m * 60 + s) % 60 == s,
        span(h, m, s, rest) / 60_000 == h * 60 + m,
        (h * 60 + m) / 60 == h,
        (h * 60 + m) % 60 == m,
{
}

/// A duration is shown in hours and minutes, in the long form with its seconds; what is zero at the
/// front is left out, and less than nothing is nothing.
pub proof fn durations_show_hours_minutes_seconds(h: nat, m: nat, s: nat, rest: nat)
    requires
        m < 60,
        s < 60,
        rest < 1000,
    ensures
        h > 0 ==> short_duration(span(h, m, s, rest)) == digits(h) + seq!['h', ' '] + digits(m)
            + seq!['m'],
        h == 0 ==> short_duration(span(h, m, s, rest)) == digits(m) + seq!['m'],
        h > 0 ==> long_duration(span(h, m, s, rest)) == digits(h) + seq!['h', ' '] + digits(m)
            + seq!['m', ' '] + digits(s) + seq!['s'],
        h == 0 && m > 0 ==> long_duration(span(h, m, s, rest)) == digits(m) + seq!['m', ' ']
            + digits(s) + seq!['s'],
        h == 0 && m == 0 ==> long_duration(span(h, m, s, rest)) == digits(s) + seq!['s'],
        short_duration(-span(h, m, s, rest)) == short_duration(0),
        long_duration(-span(h, m, s, rest)) == long_duration(0),
{
    lemma_span(h, m, s, rest);
}

/// A duration in words has its hours and its minutes; whole hours have no minutes, and one hour is
/// not called hours.
pub proof fn durations_in_words(h: nat, m: nat, s: nat, rest: nat)
    requires
        m < 60,
        s < 60,
        rest < 1000,
    ensures
        h == 0 ==> duration_words(span(h, m, s, rest)) == digits(m) + " min"@,
        h == 1 && m == 0 ==> duration_words(span(h, m, s, rest)) == digits(1) + " hour"@,
        h == 1 && m > 0 ==> duration_words(span(h, m, s, rest)) == digits(1) + " hour"@ + " "@ + (
        digits(m) + " min"@),
        h > 1 && m == 0 ==> duration_words(span(h, m, s, rest)) == digits(h) + " hours"@,
        h > 1 && m > 0 ==> duration_words(span(h, m, s, rest)) == digits(h) + " hours"@ + " "@ + (
        digits(m) + " min"@),
{
    lemma_span(h, m, s, rest);
}

/// Minutes of a bar are hours and minutes with two digits each.
pub proof fn bars_show_hours_and_minutes(h: nat, m: nat)
    requires
        m < 60,
    ensures
        h <= 99 ==> hours_minutes(h * 60 + m) == padded(h, 2) + seq![':'] + padded(m, 2),
        h > 99 ==> hours_minutes(h * 60 + m) == "99:59"@,
{
}

/// How long ago something was is told in whole seconds, minutes or hours, the largest that fit.
pub proof fn updates_tell_how_long_ago(secs: nat, n: nat)
    ensures
        secs < 10 ==> updated_text(secs) == "Updated just now"@,
        10 <= secs < 60 ==> updated_text(secs) == "Updated "@ + digits(secs) + "s ago"@,
        60 <= secs < 3600 && 60 * n <= secs < 60 * (n + 1) ==> updated_text(secs) == "Updated "@
            + digits(n) + "m ago"@,
        3600 <= secs && 3600 * n <= secs < 3600 * (n + 1) ==> updated_text(secs) == "Updated "@
            + digits(n) + "h ago"@,
{
    if 60 * n <= secs < 60 * (n + 1) {
        assert(secs / 60 == n);
    }
    if 3600 * n <= secs < 3600 * (n + 1) {
        assert(secs / 3600 == n);
    }
}

/// A point in time below the year 33658 in seconds is taken as seconds and any other as
/// milliseconds: both spellings of one time mean the same.
pub proof fn seconds_and_milliseconds_agree(secs: int)
    requires
        1_000_000_000 <= secs < 1_000_000_000_000,
    ensures
        epoch_millis(secs) == secs * 1000,
        epoch_millis(secs * 1000) == secs * 1000,
        epoch_millis(secs) == epoch_millis(secs * 1000),
{
}

/// The months are named by three letters each, in their order.
pub proof fn months_have_their_names(m: int)
    requires
        1 <= m <= 12,
    ensures
        month_name(m) == "JanFebMarAprMayJunJulAugSepOctNovDec"@.subrange(3 * (m - 1), 3 * m),
{
    reveal_strlit("JanFebMarAprMayJunJulAugSepOctNovDec");
    reveal_strlit("Jan");
    reveal_strlit("Feb");
    reveal_strlit("Mar");
    reveal_strlit("Apr");
    reveal_strlit("May");
    reveal_strlit("Jun");
    reveal_strlit("Jul");
    reveal_strlit("Aug");
    reveal_strlit("Sep");
    reveal_strlit("Oct");
    reveal_strlit("Nov");
    reveal_strlit("Dec");
    let all = "JanFebMarAprMayJunJulAugSepOctNovDec"@;
    assert(all.subrange(0, 3) =~= "Jan"@);
    assert(all.subrange(3, 6) =~= "Feb"@);
    assert(all.subrange(6, 9) =~= "Mar"@);
    assert(all.subrange(9, 12) =~= "Apr"@);
    assert(all.subrange(12, 15) =~= "May"@);
    assert(all.subrange(15, 18) =~= "Jun"@);
    assert(all.subrange(18, 21) =~= "Jul"@);
    assert(all.subrange(21, 24) =~= "Aug"@);
    assert(all.subrange(24, 27) =~= "Sep"@);
    assert(all.subrange(27, 30) =~= "Oct"@);
    assert(all.subrange(30, 33) =~= "Nov"@);
    assert(all.subrange(33, 36) =~= "Dec"@);
}

/// The weekdays are named by three letters each, in their order from Monday on.
pub proof fn weekdays_have_their_names(n: nat)
    requires
        n < 7,
    ensures
        weekday_name(weekday_at(n)) == "MonTueWedThuFriSatSun"@.subrange(
            3 * (n as int),
            3 * (n as int) + 3,
        ),
        weekday_at(n).index() == n,
{
    reveal_strlit("MonTueWedThuFriSatSun");
    reveal_strlit("Mon");
    reveal_strlit("Tue");
    reveal_strlit("Wed");
    reveal_strlit("Thu");
    reveal_strlit("Fri");
    reveal_strlit("Sat");
    reveal_strlit("Sun");
    let all = "MonTueWedThuFriSatSun"@;
    assert(all.subrange(0, 3) =~= "Mon"@);
    assert(all.subrange(3, 6) =~= "Tue"@);
    assert(all.subrange(6, 9) =~= "Wed"@);
    assert(all.subrange(9, 12) =~= "Thu"@);
    assert(all.subrange(12, 15) =~= "Fri"@);
    assert(all.subrange(15, 18) =~= "Sat"@);
    assert(all.subrange(18, 21) =~= "Sun"@);
}

/// The two digits of a month name the month that has this number.
pub proof fn digits_name_their_month(m: nat)
    requires
        1 <= m <= 12,
    ensures
        month_of_digits(padded(m, 2)) == month_name(m as int),
{
    lemma_digits_len(m);
    reveal_with_fuel(digits, 3);
    let p = padded(m, 2);
    if m < 10 {
        assert(p =~= seq!['0', digit(m)]);
    } else {
        assert(p =~= seq![digit(1), digit((m % 10) as nat)]);
    }
    assert(p.len() == 2);
    assert(p[0] == digit(m / 10) && p[1] == digit(m % 10));
    lemma_two_digit_texts();
    if m == 1 {
        assert(p =~= "01"@);
    } else if m == 2 {
        assert(p =~= "02"@);
    } else if m == 3 {
        assert(p =~= "03"@);
    } else if m == 4 {
        assert(p =~= "04"@);
    } else if m == 5 {
        assert(p =~= "05"@);
    } else if m == 6 {
        assert(p =~= "06"@);
    } else if m == 7 {
        assert(p =~= "07"@);
    } else if m == 8 {
        assert(p =~= "08"@);
    } else if m == 9 {
        assert(p =~= "09"@);
    } else if m == 10 {
        assert(p =~= "10"@);
    } else if m == 11 {
        assert(p =~= "11"@);
    } else if m == 12 {
        assert(p =~= "12"@);
    }
}

/// What the texts of two digits hold.
proof fn lemma_two_digit_texts()
    ensures
        "01"@.len() == 2 && "01"@[0] == '0' && "01"@[1] == '1',
        "02"@.len() == 2 && "02"@[0] == '0' && "02"@[1] == '2',
        "03"@.len() == 2 && "03"@[0] == '0' && "03"@[1] == '3',
        "04"@.len() == 2 && "04"@[0] == '0' && "04"@[1] == '4',
        "05"@.len() == 2 && "05"@[0] == '0' && "05"@[1] == '5',
        "06"@.len() == 2 && "06"@[0] == '0' && "06"@[1] == '6',
        "07"@.len() == 2 && "07"@[0] == '0' && "07"@[1] == '7',
        "08"@.len() == 2 && "08"@[0] == '0' && "08"@[1] == '8',
        "09"@.len() == 2 && "09"@[0] == '0' && "09"@[1] == '9',
        "10"@.len() == 2 && "10"@[0] == '1' && "10"@[1] == '0',
        "11"@.len() == 2 && "11"@[0] == '1' && "11"@[1] == '1',
        "12"@.len() == 2 && "12"@[0] == '1' && "12"@[1] == '2',
{
    reveal_strlit("01");
    reveal_strlit("02");
    reveal_strlit("03");
    reveal_strlit("04");
    reveal_strlit("05");
    reveal_strlit("06");
    reveal_strlit("07");
    reveal_strlit("08");
    reveal_strlit("09");
    reveal_strlit("10");
    reveal_strlit("11");
    reveal_strlit("12");
}

/// On a clock of twelve hours, twelve in the morning begins the day and twelve after noon its second
/// half; a clock of 24 hours shows the hour as it is.
pub proof fn clocks_show_the_hour(f: DisplayFormatter, hour: u32, minute: u32, afternoon: bool)
    requires
        1 <= hour <= 12,
        minute < 60,
    ensures
        ({
            let t = TimeOfDay {
                hour: (hour % 12 + (if afternoon {
                    12u32
                } else {
                    0u32
                })) as u32,
                minute,
            };
            let m = padded(minute as nat, 2);
            &&& f.style == DisplayStyle::Classic ==> time_text(f, t) == padded(t.hour as nat, 2)
                + seq![':'] + m
            &&& f.style != DisplayStyle::Classic && f.system.time_24h ==> time_text(f, t) == padded(
                t.hour as nat,
                2,
            ) + f.system.time_separator@ + m
            &&& f.style != DisplayStyle::Classic && !f.system.time_24h ==> time_text(f, t)
                == digits(hour as nat) + f.system.time_separator@ + m + seq![' '] + (if afternoon {
                f.system.pm@
            } else {
                f.system.am@
            })
        }),
{
}

/// The parts of a date stand in the order of the locale, with its separator between them; without
/// the year the order of day and month stays.
pub proof fn dates_stand_in_the_order_of_the_locale(f: DisplayFormatter, d: Date)
    requires
        0 <= d.year <= 9999,
    ensures
        ({
            let day = padded(d.day as nat, 2);
            let month = padded(d.month as nat, 2);
            let year = padded(d.year as nat, 4);
            let sep = f.system.date_separator@;
            let long = numeric_date(*f.system, d, true);
            let short = numeric_date(*f.system, d, false);
            &&& f.style == DisplayStyle::Classic ==> full_date(f, d) == year + seq!['-'] + month
                + seq!['-'] + day
            &&& f.style != DisplayStyle::Classic ==> full_date(f, d) == long
            &&& match f.system.date_order {
                DateOrder::DayMonthYear => long == day + sep + month + sep + year && short == day
                    + sep + month,
                DateOrder::MonthDayYear => long == month + sep + day + sep + year && short == month
                    + sep + day,
                DateOrder::YearMonthDay => long == year + sep + month + sep + day && short == month
                    + sep + day,
            }
        }),
{
}

/// Days in words: the classic style has English names, the others those of the locale, each day and
/// month its own.
pub proof fn days_have_the_names_of_their_style(f: DisplayFormatter, d: Date)
    requires
        1 <= d.month <= 12,
        1 <= d.day <= 31,
        d.weekday < 7,
    ensures
        ({
            let day = padded(d.day as nat, 2);
            let english = month_name(d.month as int);
            let own = f.system.abbreviated_months@[d.month - 1]@;
            &&& f.style == DisplayStyle::Classic ==> short_date(f, d) == english + seq![' '] + day
                && reset_date(f, d) == digits(d.day as nat) + seq![' '] + english && chart_day(f, d)
                == weekday_name(weekday_at(d.weekday as nat)) + seq![' '] + padded(
                d.month as nat,
                2,
            ) + seq!['/'] + day && month_label(f, d.month as int) == english && weekday_label(
                f,
                weekday_at(d.weekday as nat),
            ) == weekday_name(weekday_at(d.weekday as nat))
            &&& f.style != DisplayStyle::Classic && f.system.date_order == DateOrder::MonthDayYear
                ==> short_date(f, d) == own + seq![' '] + day && reset_date(f, d) == own + seq![' ']
                + day
            &&& f.style != DisplayStyle::Classic && f.system.date_order != DateOrder::MonthDayYear
                ==> short_date(f, d) == day + seq![' '] + own && reset_date(f, d) == day + seq![' ']
                + own
            &&& f.style != DisplayStyle::Classic ==> month_label(f, d.month as int) == own
                && weekday_label(f, weekday_at(d.weekday as nat))
                == f.system.abbreviated_weekdays@[d.weekday as int]@
        }),
{
    weekdays_have_their_names(d.weekday as nat);
}

/// A number below a thousand is its numeral, and a larger one ends in its last three digits behind
/// a separator, before which the thousands stand.
pub proof fn numbers_are_grouped_by_thousands(f: DisplayFormatter, n: nat, rest: nat)
    requires
        rest < 1000,
    ensures
        rest > 0 ==> number_text(f, rest) == digits(rest),
        n > 0 ==> number_text(f, n * 1000 + rest) == number_text(f, n)
            + crate::locale::group_separator(f) + padded(rest, 3),
        f.style == DisplayStyle::Classic ==> crate::locale::group_separator(f) == seq![','],
{
    lemma_digits_len(rest);
    if n > 0 {
        lemma_last_three(n, rest);
        lemma_three_digits(rest);
        let ds = digits(n * 1000 + rest);
        let p = padded(rest, 3);
        lemma_digits_len(n);
        assert(ds.take(ds.len() - 3) =~= digits(n));
        assert(ds.skip(ds.len() - 3) =~= p);
    }
}

proof fn lemma_three_digits(rest: nat)
    requires
        rest < 1000,
    ensures
        padded(rest, 3) == seq![digit(rest / 100), digit((rest / 10) % 10), digit(rest % 10)],
{
    reveal_with_fuel(digits, 4);
    assert(rest / 10 / 10 == rest / 100);
    assert(padded(rest, 3) =~= seq![
        digit(rest / 100),
        digit((rest / 10) % 10),
        digit(rest % 10),
    ]);
}

proof fn lemma_last_three(n: nat, rest: nat)
    requires
        rest < 1000,
        n > 0,
    ensures
        digits(n * 1000 + rest) == digits(n) + seq![
            digit(rest / 100),
            digit((rest / 10) % 10),
            digit(rest % 10),
        ],
{
    let v = n * 1000 + rest;
    assert(v / 10 == n * 100 + rest / 10);
    assert(v / 10 / 10 == n * 10 + rest / 100);
    assert(v / 10 / 10 / 10 == n);
    assert(v % 10 == rest % 10);
    assert((v / 10) % 10 == (rest / 10) % 10);
    assert((v / 10 / 10) % 10 == rest / 100);
    assert(digits(v) == digits(v / 10).push(digit(v % 10)));
    assert(digits(v / 10) == digits(v / 10 / 10).push(digit((v / 10) % 10)));
    assert(digits(v / 10 / 10) == digits(v / 10 / 10 / 10).push(digit((v / 10 / 10) % 10)));
    assert(digits(v) =~= digits(n) + seq![
        digit(rest / 100),
        digit((rest / 10) % 10),
        digit(rest % 10),
    ]);
}

/// The unit of a number of tokens, and its letter.
pub open spec fn is_unit(v: nat, unit: nat, mark: char) -> bool {
    ||| unit == 1_000 && mark == 'K' && 1_000 <= v < 1_000_000
    ||| unit == 1_000_000 && mark == 'M' && 1_000_000 <= v < 1_000_000_000
    ||| unit == 1_000_000_000 && mark == 'B' && 1_000_000_000 <= v < 1_000_000_000_000
    ||| unit == 1_000_000_000_000 && mark == 'T' && 1_000_000_000_000 <= v
}

/// A number of tokens below a thousand is shown in full; a larger one in thousands, millions,
/// billions or trillions with two decimals, less than one hundredth of its unit off.
pub proof fn tokens_are_shown_in_their_unit(v: nat, unit: nat, mark: char) -> (n: nat)
    requires
        is_unit(v, unit, mark),
        v < 0x20_0000_0000_0000,
    ensures
        tokens_label(v as int) == trim_fraction(
            digits(n / 100) + seq!['.'] + padded(n % 100, 2),
        ).push(mark),
        unit * n <= 100 * v + unit,
        unit * n >= 100 * v - unit,
        forall|small: nat| small < 1000 ==> #[trigger] tokens_label(small as int) == digits(small),
{
    assert(v < 0x20_0000_0000_0000 * unit);
    lemma_nearest_near(v, unit);
    let x = nearest(v, unit);
    let p = two_to((-x.1) as nat);
    let m = x.0;
    let n = scaled(x, 2);
    if x.1 < 0 {
        lemma_half_even_near(m * 100, p);
    } else {
        assert(p == 1);
        assert(m * two_to(0) * 100 == m * 100) by (nonlinear_arith)
            requires
                two_to(0) == 1,
        ;
        assert(p * n == n) by (nonlinear_arith)
            requires
                p == 1,
        ;
    }
    assert(2 * (p * n) <= 2 * (m * 100) + p && 2 * (p * n) >= 2 * (m * 100) - p);
    if p < 100 {
        // Fewer than seven binary places leave a number that is at least the unit times 2^45.
        crate::double::lemma_two_to_values();
        assert(m >= 0x10_0000_0000_0000);
        assert(2 * (unit * m) <= 2 * (v * p) + unit);
        assert(unit * m >= 1_000 * 0x10_0000_0000_0000) by (nonlinear_arith)
            requires
                unit >= 1_000,
                m >= 0x10_0000_0000_0000,
        ;
        assert(v * p <= 0x20_0000_0000_0000 * 100) by (nonlinear_arith)
            requires
                v <= 0x20_0000_0000_0000,
                0 <= p <= 100,
        ;
    }
    assert(p >= 100);
    assert(unit * n <= 100 * v + unit) by (nonlinear_arith)
        requires
            2 * (p * n) <= 2 * (m * 100) + p,
            2 * (unit * m) <= 2 * (v * p) + unit,
            p >= 100,
            unit >= 1,
    {
        assert(unit * (2 * (p * n)) <= unit * (2 * (m * 100) + p));
        assert(unit * (2 * (m * 100)) == 100 * (2 * (unit * m)));
        assert(unit * 100 <= unit * p);
        assert(p * (2 * (unit * n)) <= p * (200 * v + 2 * unit));
    }
    assert(unit * n >= 100 * v - unit) by (nonlinear_arith)
        requires
            2 * (p * n) >= 2 * (m * 100) - p,
            2 * (unit * m) >= 2 * (v * p) - unit,
            p >= 100,
            unit >= 1,
    {
        assert(unit * (2 * (p * n)) >= unit * (2 * (m * 100) - p));
        assert(unit * (2 * (m * 100)) == 100 * (2 * (unit * m)));
        assert(unit * 100 <= unit * p);
        assert(p * (2 * (unit * n)) >= p * (200 * v - 2 * unit));
    }
    n
}

/// Tenths of a percent are shown with one decimal.
pub proof fn tenths_are_shown_with_one_decimal(whole: nat, tenth: nat)
    requires
        tenth < 10,
    ensures
        tenths_text((whole * 10 + tenth) as int) == digits(whole) + seq!['.'] + digits(tenth),
{
}

/// A numeral with a point has the separator of the locale in its place, but not in the classic
/// style; a numeral without a point stays.
pub proof fn points_become_the_separator(f: DisplayFormatter, whole: Seq<char>, rest: Seq<char>)
    requires
        forall|i: int| 0 <= i < whole.len() ==> #[trigger] whole[i] != '.',
    ensures
        f.style == DisplayStyle::Classic ==> localized(f, whole + seq!['.'] + rest) == whole
            + seq!['.'] + rest,
        f.style != DisplayStyle::Classic ==> localized(f, whole + seq!['.'] + rest) == whole
            + f.system.decimal_separator@ + rest,
        localized(f, whole) == whole,
{
    lemma_first_dot(whole, rest);
    lemma_no_dot(whole);
    let s = whole + seq!['.'] + rest;
    assert(s.take(whole.len() as int) =~= whole);
    assert(s.skip(whole.len() as int + 1) =~= rest);
    reveal_strlit(".");
    assert("."@ =~= seq!['.']);
}

proof fn lemma_first_dot(whole: Seq<char>, rest: Seq<char>)
    requires
        forall|i: int| 0 <= i < whole.len() ==> #[trigger] whole[i] != '.',
    ensures
        crate::locale::first_dot(whole + seq!['.'] + rest) == whole.len(),
    decreases whole.len(),
{
    let s = whole + seq!['.'] + rest;
    if whole.len() > 0 {
        assert(s[0] == whole[0]);
        assert(s.skip(1) =~= whole.skip(1) + seq!['.'] + rest);
        lemma_first_dot(whole.skip(1), rest);
    } else {
        assert(s[0] == '.');
    }
}

proof fn lemma_no_dot(whole: Seq<char>)
    requires
        forall|i: int| 0 <= i < whole.len() ==> #[trigger] whole[i] != '.',
    ensures
        crate::locale::first_dot(whole) == whole.len(),
    decreases whole.len(),
{
    if whole.len() > 0 {
        lemma_no_dot(whole.skip(1));
    }
}

} // verus!
