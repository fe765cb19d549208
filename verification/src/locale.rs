//! Display styles: numbers, dates and times in the classic form or in the system's.

use crate::calendar::{weekday_at, weekday_from_monday_index, Date, TimeOfDay, Weekday};
use crate::decimal::{
    decimal_chars, decimal_padded, digits, group_digits, grouped, lemma_grouped_empty, padded,
    push_digits,
};
use crate::text::{chars_of, extend, same, string_of};
use crate::usage::format::at_least_zero;
use vstd::prelude::*;

verus! {

/// How numbers and dates are shown.
#[derive(Debug, Clone, Copy, PartialEq, Eq, Structural)]
pub enum DisplayStyle {
    Classic,
    SystemCompact,
    SystemFull,
}

/// The text that a style is stored as.
pub open spec fn style_text(style: DisplayStyle) -> Seq<char> {
    match style {
        DisplayStyle::Classic => "classic"@,
        DisplayStyle::SystemCompact => "system-compact"@,
        DisplayStyle::SystemFull => "system-full"@,
    }
}

/// The style that a stored text means; `system` is an older name of the compact one.
pub open spec fn style_of(text: Seq<char>) -> Option<DisplayStyle> {
    if text == "classic"@ {
        Some(DisplayStyle::Classic)
    } else if text == "system"@ || text == "system-compact"@ {
        Some(DisplayStyle::SystemCompact)
    } else if text == "system-full"@ {
        Some(DisplayStyle::SystemFull)
    } else {
        None
    }
}

/// The style after this one.
pub open spec fn next_style(style: DisplayStyle) -> DisplayStyle {
    match style {
        DisplayStyle::Classic => DisplayStyle::SystemCompact,
        DisplayStyle::SystemCompact => DisplayStyle::SystemFull,
        DisplayStyle::SystemFull => DisplayStyle::Classic,
    }
}

impl DisplayStyle {
    /// The style after this one.
    pub fn toggled(self) -> (r: Self)
        ensures
            r == next_style(self),
    {
        match self {
            DisplayStyle::Classic => DisplayStyle::SystemCompact,
            DisplayStyle::SystemCompact => DisplayStyle::SystemFull,
            DisplayStyle::SystemFull => DisplayStyle::Classic,
        }
    }

    /// The text that the style is stored as.
    pub fn store_value(self) -> (r: &'static str)
        ensures
            r@ == style_text(self),
    {
        match self {
            DisplayStyle::Classic => "classic",
            DisplayStyle::SystemCompact => "system-compact",
            DisplayStyle::SystemFull => "system-full",
        }
    }

    /// The style that a stored text means.
    pub fn from_store(value: &str) -> (r: Option<Self>)
        ensures
            r == style_of(value@),
    {
        if same(value, "classic") {
            Some(DisplayStyle::Classic)
        } else if same(value, "system") || same(value, "system-compact") {
            Some(DisplayStyle::SystemCompact)
        } else if same(value, "system-full") {
            Some(DisplayStyle::SystemFull)
        } else {
            None
        }
    }
}

/// A stored style is read back as it was, and three steps lead back to it.
pub proof fn style_round_trip(style: DisplayStyle)
    ensures
        style_of(style_text(style)) == Some(style),
        next_style(next_style(next_style(style))) == style,
{
    reveal_strlit("classic");
    reveal_strlit("system");
    reveal_strlit("system-compact");
    reveal_strlit("system-full");
    assert("classic"@[0] == 'c');
    assert("system-compact"@[0] == 's');
    assert("system-full"@[0] == 's');
    assert("system-compact"@.len() == 14);
    assert("system-full"@.len() == 11);
    assert("system"@.len() == 6);
}

/// In which order the parts of a date stand.
#[derive(Debug, Clone, Copy, PartialEq, Eq, Structural)]
pub enum DateOrder {
    DayMonthYear,
    MonthDayYear,
    YearMonthDay,
}

/// The conventions of the system's locale.
#[derive(Debug)]
pub struct SystemLocale {
    pub id: String,
    pub decimal_separator: String,
    pub thousands_separator: String,
    pub date_order: DateOrder,
    pub date_separator: String,
    pub time_24h: bool,
    pub time_separator: String,
    pub abbreviated_weekdays: [String; 7],
    pub abbreviated_months: [String; 12],
    pub am: String,
    pub pm: String,
}

/// The English name of a weekday, abbreviated.
pub open spec fn weekday_name(day: Weekday) -> Seq<char> {
    match day {
        Weekday::Mon => "Mon"@,
        Weekday::Tue => "Tue"@,
        Weekday::Wed => "Wed"@,
        Weekday::Thu => "Thu"@,
        Weekday::Fri => "Fri"@,
        Weekday::Sat => "Sat"@,
        Weekday::Sun => "Sun"@,
    }
}

/// The English name of a month, abbreviated; empty where there is no such month.
pub open spec fn month_name(month: int) -> Seq<char> {
    if month == 1 {
        "Jan"@
    } else if month == 2 {
        "Feb"@
    } else if month == 3 {
        "Mar"@
    } else if month == 4 {
        "Apr"@
    } else if month == 5 {
        "May"@
    } else if month == 6 {
        "Jun"@
    } else if month == 7 {
        "Jul"@
    } else if month == 8 {
        "Aug"@
    } else if month == 9 {
        "Sep"@
    } else if month == 10 {
        "Oct"@
    } else if month == 11 {
        "Nov"@
    } else if month == 12 {
        "Dec"@
    } else {
        Seq::empty()
    }
}

/// The English name of a weekday, abbreviated.
pub fn classic_weekday(day: Weekday) -> (r: &'static str)
    ensures
        r@ == weekday_name(day),
{
    match day {
        Weekday::Mon => "Mon",
        Weekday::Tue => "Tue",
        Weekday::Wed => "Wed",
        Weekday::Thu => "Thu",
        Weekday::Fri => "Fri",
        Weekday::Sat => "Sat",
        Weekday::Sun => "Sun",
    }
}

/// The English name of a month, abbreviated.
pub fn english_month(month: u32) -> (r: &'static str)
    ensures
        r@ == month_name(month as int),
{
    if month == 1 {
        "Jan"
    } else if month == 2 {
        "Feb"
    } else if month == 3 {
        "Mar"
    } else if month == 4 {
        "Apr"
    } else if month == 5 {
        "May"
    } else if month == 6 {
        "Jun"
    } else if month == 7 {
        "Jul"
    } else if month == 8 {
        "Aug"
    } else if month == 9 {
        "Sep"
    } else if month == 10 {
        "Oct"
    } else if month == 11 {
        "Nov"
    } else if month == 12 {
        "Dec"
    } else {
        proof {
            reveal_strlit("");
        }
        assert(""@ =~= Seq::<char>::empty());
        ""
    }
}

/// The English names of the weekdays.
pub fn english_weekdays() -> (r: [String; 7])
    ensures
        forall|i: int| 0 <= i < 7 ==> (#[trigger] r@[i])@ == weekday_name(weekday_at(i as nat)),
{
    [
        "Mon".to_owned(),
        "Tue".to_owned(),
        "Wed".to_owned(),
        "Thu".to_owned(),
        "Fri".to_owned(),
        "Sat".to_owned(),
        "Sun".to_owned(),
    ]
}

/// The English names of the months.
pub fn english_months() -> (r: [String; 12])
    ensures
        forall|i: int| 0 <= i < 12 ==> (#[trigger] r@[i])@ == month_name(i + 1),
{
    [
        "Jan".to_owned(),
        "Feb".to_owned(),
        "Mar".to_owned(),
        "Apr".to_owned(),
        "May".to_owned(),
        "Jun".to_owned(),
        "Jul".to_owned(),
        "Aug".to_owned(),
        "Sep".to_owned(),
        "Oct".to_owned(),
        "Nov".to_owned(),
        "Dec".to_owned(),
    ]
}

impl SystemLocale {
    /// The conventions of the `C` locale.
    pub open spec fn is_c_locale(self) -> bool {
        &&& self.id@ == "C"@
        &&& self.decimal_separator@ == "."@
        &&& self.thousands_separator@ == Seq::<char>::empty()
        &&& self.date_order == DateOrder::MonthDayYear
        &&& self.date_separator@ == "/"@
        &&& self.time_24h
        &&& self.time_separator@ == ":"@
        &&& forall|i: int|
            0 <= i < 7 ==> (#[trigger] self.abbreviated_weekdays@[i])@ == weekday_name(
                weekday_at(i as nat),
            )
        &&& forall|i: int|
            0 <= i < 12 ==> (#[trigger] self.abbreviated_months@[i])@ == month_name(i + 1)
        &&& self.am@ == "AM"@
        &&& self.pm@ == "PM"@
    }

    /// The `C` locale.
    pub fn c_locale() -> (r: Self)
        ensures
            r.is_c_locale(),
    {
        SystemLocale {
            id: "C".to_owned(),
            decimal_separator: ".".to_owned(),
            thousands_separator: String::new(),
            date_order: DateOrder::MonthDayYear,
            date_separator: "/".to_owned(),
            time_24h: true,
            time_separator: ":".to_owned(),
            abbreviated_weekdays: english_weekdays(),
            abbreviated_months: english_months(),
            am: "AM".to_owned(),
            pm: "PM".to_owned(),
        }
    }

    /// The name of the locale.
    pub fn id(&self) -> (r: &str)
        ensures
            r@ == self.id@,
    {
        self.id.as_str()
    }
}

impl Default for SystemLocale {
    fn default() -> (r: Self)
        ensures
            r.is_c_locale(),
    {
        SystemLocale::c_locale()
    }
}

/// Formats values in a style.
#[derive(Debug, Clone, Copy)]
pub struct DisplayFormatter<'a> {
    pub style: DisplayStyle,
    pub system: &'a SystemLocale,
}

/// What stands between groups of digits: a comma, the separator of the locale, or a space. A locale
/// without a separator has no groups.
pub open spec fn group_separator(f: DisplayFormatter) -> Seq<char> {
    match f.style {
        DisplayStyle::Classic => seq![','],
        DisplayStyle::SystemCompact => f.system.thousands_separator@,
        DisplayStyle::SystemFull => if f.system.thousands_separator@.len() == 0 {
            Seq::empty()
        } else {
            seq![' ']
        },
    }
}

/// A natural number in a style.
pub open spec fn number_text(f: DisplayFormatter, n: nat) -> Seq<char> {
    grouped(digits(n), group_separator(f))
}

/// The position of the first dot, or the length where there is none.
pub open spec fn first_dot(s: Seq<char>) -> nat
    decreases s.len(),
{
    if s.len() == 0 || s[0] == '.' {
        0
    } else {
        1 + first_dot(s.skip(1))
    }
}

/// A numeral with the decimal separator of a style in place of its first dot.
pub open spec fn localized(f: DisplayFormatter, s: Seq<char>) -> Seq<char> {
    let i = first_dot(s) as int;
    if f.style == DisplayStyle::Classic || f.system.decimal_separator@ == "."@ || i >= s.len() {
        s
    } else {
        s.take(i) + f.system.decimal_separator@ + s.skip(i + 1)
    }
}

/// Tenths as a numeral with one decimal.
pub open spec fn tenths_text(v: int) -> Seq<char> {
    let n = crate::double::magnitude(v);
    let t = digits(n / 10) + seq!['.'] + digits(n % 10);
    if v < 0 {
        seq!['-'] + t
    } else {
        t
    }
}

/// The parts of a date in the order of a locale, without the year where `with_year` is false.
pub open spec fn numeric_date(l: SystemLocale, d: Date, with_year: bool) -> Seq<char> {
    let day = padded(d.day as nat, 2);
    let month = padded(d.month as nat, 2);
    let year = year_text(d.year as int);
    let sep = l.date_separator@;
    match (l.date_order, with_year) {
        (DateOrder::DayMonthYear, true) => day + sep + month + sep + year,
        (DateOrder::DayMonthYear, false) => day + sep + month,
        (DateOrder::MonthDayYear, true) => month + sep + day + sep + year,
        (DateOrder::MonthDayYear, false) => month + sep + day,
        (DateOrder::YearMonthDay, true) => year + sep + month + sep + day,
        (DateOrder::YearMonthDay, false) => month + sep + day,
    }
}

/// A year in at least four characters, a minus sign among them.
pub open spec fn year_text(year: int) -> Seq<char> {
    if year < 0 {
        seq!['-'] + padded((-year) as nat, 3)
    } else {
        padded(year as nat, 4)
    }
}

/// A year in at least four digits, with a sign where it is not between 0 and 9999.
pub open spec fn signed_year(year: int) -> Seq<char> {
    if year < 0 {
        seq!['-'] + padded((-year) as nat, 4)
    } else if year > 9999 {
        seq!['+'] + padded(year as nat, 4)
    } else {
        padded(year as nat, 4)
    }
}

/// A date as year, month and day.
pub open spec fn iso_date(d: Date) -> Seq<char> {
    signed_year(d.year as int) + seq!['-'] + padded(d.month as nat, 2) + seq!['-'] + padded(
        d.day as nat,
        2,
    )
}

/// A time of day in hours and minutes.
pub open spec fn clock_time(t: TimeOfDay) -> Seq<char> {
    padded(t.hour as nat, 2) + seq![':'] + padded(t.minute as nat, 2)
}

/// Two texts with one space between them.
pub open spec fn spaced(a: Seq<char>, b: Seq<char>) -> Seq<char> {
    a + seq![' '] + b
}

/// A day of a chart.
pub open spec fn chart_day(f: DisplayFormatter, d: Date) -> Seq<char> {
    if f.style == DisplayStyle::Classic {
        spaced(weekday_name(weekday_at(d.weekday as nat)), padded(d.month as nat, 2)) + seq!['/']
            + padded(d.day as nat, 2)
    } else {
        spaced(f.system.abbreviated_weekdays@[d.weekday as int]@, numeric_date(*f.system, d, false))
    }
}

/// A day and its month.
pub open spec fn short_date(f: DisplayFormatter, d: Date) -> Seq<char> {
    let day = padded(d.day as nat, 2);
    if f.style == DisplayStyle::Classic {
        spaced(month_name(d.month as int), day)
    } else {
        let month = f.system.abbreviated_months@[d.month - 1]@;
        match f.system.date_order {
            DateOrder::MonthDayYear => spaced(month, day),
            _ => spaced(day, month),
        }
    }
}

/// The abbreviated name of a month in a style.
pub open spec fn month_label(f: DisplayFormatter, month: int) -> Seq<char> {
    if f.style == DisplayStyle::Classic {
        month_name(month)
    } else {
        let i = if month <= 1 {
            0
        } else {
            month - 1
        };
        if i < 12 {
            f.system.abbreviated_months@[i]@
        } else {
            Seq::empty()
        }
    }
}

/// The abbreviated name of a weekday in a style.
pub open spec fn weekday_label(f: DisplayFormatter, day: Weekday) -> Seq<char> {
    if f.style == DisplayStyle::Classic {
        weekday_name(day)
    } else {
        f.system.abbreviated_weekdays@[day.index() as int]@
    }
}

/// A date with its year.
pub open spec fn full_date(f: DisplayFormatter, d: Date) -> Seq<char> {
    if f.style == DisplayStyle::Classic {
        iso_date(d)
    } else {
        numeric_date(*f.system, d, true)
    }
}

/// A time of day.
pub open spec fn time_text(f: DisplayFormatter, t: TimeOfDay) -> Seq<char> {
    let minute = padded(t.minute as nat, 2);
    if f.style == DisplayStyle::Classic {
        clock_time(t)
    } else if f.system.time_24h {
        padded(t.hour as nat, 2) + f.system.time_separator@ + minute
    } else {
        let hour = if t.hour % 12 == 0 {
            12nat
        } else {
            (t.hour % 12) as nat
        };
        let marker = if t.hour < 12 {
            f.system.am@
        } else {
            f.system.pm@
        };
        digits(hour) + f.system.time_separator@ + minute + seq![' '] + marker
    }
}

/// The day of a reset.
pub open spec fn reset_date(f: DisplayFormatter, d: Date) -> Seq<char> {
    if f.style == DisplayStyle::Classic {
        spaced(digits(d.day as nat), month_name(d.month as int))
    } else {
        short_date(f, d)
    }
}

/// The label of a style.
pub open spec fn style_label_text(f: DisplayFormatter) -> Seq<char> {
    match f.style {
        DisplayStyle::Classic => "Classic"@,
        DisplayStyle::SystemCompact => "System Compact ("@ + f.system.id@ + ")"@,
        DisplayStyle::SystemFull => "System Full ("@ + f.system.id@ + ")"@,
    }
}

fn push_text(out: &mut Vec<char>, s: &str)
    ensures
        final(out)@ == old(out)@ + s@,
{
    let chars = chars_of(s);
    extend(out, &chars);
}

fn push_padded(out: &mut Vec<char>, n: u32, width: usize)
    ensures
        final(out)@ == old(out)@ + padded(n as nat, width as nat),
{
    let chars = decimal_padded(n as u64, width);
    extend(out, &chars);
}

fn push_year(out: &mut Vec<char>, year: i32)
    ensures
        final(out)@ == old(out)@ + year_text(year as int),
{
    let ghost before = out@;
    if year < 0 {
        out.push('-');
        let chars = decimal_padded((-(year as i64)) as u64, 3);
        extend(out, &chars);
        assert(out@ =~= before + year_text(year as int));
    } else {
        let chars = decimal_padded(year as u64, 4);
        extend(out, &chars);
    }
}

/// Appends a date as year, month and day.
pub(crate) fn push_iso_date(out: &mut Vec<char>, date: Date)
    ensures
        final(out)@ == old(out)@ + iso_date(date),
{
    let ghost before = out@;
    if date.year < 0 {
        out.push('-');
        let chars = decimal_padded((-(date.year as i64)) as u64, 4);
        extend(out, &chars);
    } else {
        if date.year > 9999 {
            out.push('+');
        }
        let chars = decimal_padded(date.year as u64, 4);
        extend(out, &chars);
    }
    assert(out@ =~= before + signed_year(date.year as int));
    out.push('-');
    push_padded(out, date.month, 2);
    out.push('-');
    push_padded(out, date.day, 2);
    assert(out@ =~= before + iso_date(date));
}

/// Appends a time of day in hours and minutes.
pub(crate) fn push_clock_time(out: &mut Vec<char>, time: TimeOfDay)
    ensures
        final(out)@ == old(out)@ + clock_time(time),
{
    let ghost before = out@;
    push_padded(out, time.hour, 2);
    out.push(':');
    push_padded(out, time.minute, 2);
    assert(out@ =~= before + clock_time(time));
}

/// Digits in groups of three with a separator; none where the separator is empty.
pub fn group_decimal_digits(value: u64, separator: &str) -> (r: String)
    ensures
        r@ == grouped(digits(value as nat), separator@),
{
    let ds = decimal_chars(value);
    let sep = chars_of(separator);
    let g = group_digits(&ds, &sep);
    string_of(&g)
}

impl<'a> DisplayFormatter<'a> {
    /// A formatter for a style.
    pub fn new(style: DisplayStyle, system: &'a SystemLocale) -> (r: Self)
        ensures
            r.style == style,
            r.system == system,
    {
        DisplayFormatter { style, system }
    }

    /// The style of the formatter.
    pub fn style(self) -> (r: DisplayStyle)
        ensures
            r == self.style,
    {
        self.style
    }

    /// The label of the style.
    pub fn style_label(self) -> (r: String)
        ensures
            r@ == style_label_text(self),
    {
        match self.style {
            DisplayStyle::Classic => "Classic".to_owned(),
            DisplayStyle::SystemCompact => {
                let mut s = "System Compact (".to_owned();
                s.append(self.system.id.as_str());
                s.append(")");
                s
            },
            DisplayStyle::SystemFull => {
                let mut s = "System Full (".to_owned();
                s.append(self.system.id.as_str());
                s.append(")");
                s
            },
        }
    }

    /// A count; what is below zero counts as zero.
    pub fn format_count(self, value: i64) -> (r: String)
        ensures
            r@ == number_text(self, at_least_zero(value as int)),
    {
        let n: u64 = if value < 0 {
            0
        } else {
            value as u64
        };
        self.format_u64(n)
    }

    /// A size.
    pub fn format_usize(self, value: usize) -> (r: String)
        ensures
            r@ == number_text(self, value as nat),
    {
        self.format_u64(value as u64)
    }

    /// A natural number.
    pub fn format_u64(self, value: u64) -> (r: String)
        ensures
            r@ == number_text(self, value as nat),
    {
        match self.style {
            DisplayStyle::Classic => {
                proof {
                    reveal_strlit(",");
                }
                assert(","@ =~= seq![',']);
                group_decimal_digits(value, ",")
            },
            DisplayStyle::SystemCompact => group_decimal_digits(
                value,
                self.system.thousands_separator.as_str(),
            ),
            DisplayStyle::SystemFull => {
                proof {
                    reveal_strlit("");
                    reveal_strlit(" ");
                    assert(""@ =~= Seq::<char>::empty());
                    assert(" "@ =~= seq![' ']);
                }
                if same(self.system.thousands_separator.as_str(), "") {
                    group_decimal_digits(value, "")
                } else {
                    assert(self.system.thousands_separator@.len() > 0) by {
                        if self.system.thousands_separator@.len() == 0 {
                            assert(self.system.thousands_separator@ =~= ""@);
                        }
                    }
                    group_decimal_digits(value, " ")
                }
            },
        }
    }

    /// A numeral with the decimal separator of the style.
    pub fn localize_decimal(self, value: &str) -> (r: String)
        ensures
            r@ == localized(self, value@),
    {
        if self.style == DisplayStyle::Classic || same(self.system.decimal_separator.as_str(), ".") {
            return value.to_owned();
        }
        let chars = chars_of(value);
        let mut i: usize = 0;
        assert(chars@.skip(0) =~= chars@);
        while i < chars.len() && chars[i] != '.'
            invariant
                i <= chars@.len(),
                first_dot(chars@) == i + first_dot(chars@.skip(i as int)),
            ensures
                i <= chars@.len(),
                first_dot(chars@) == i,
            decreases chars@.len() - i,
        {
            assert(chars@.skip(i as int).skip(1) =~= chars@.skip(i + 1));
            i += 1;
        }
        if i == chars.len() {
            return value.to_owned();
        }
        let mut out = crate::text::slice_of(&chars, 0, i);
        push_text(&mut out, self.system.decimal_separator.as_str());
        let tail = crate::text::slice_of(&chars, i + 1, chars.len());
        extend(&mut out, &tail);
        assert(out@ =~= localized(self, value@));
        string_of(&out)
    }

    /// A number of tenths with one decimal.
    pub fn format_one_decimal(self, tenths: i64) -> (r: String)
        ensures
            r@ == localized(self, tenths_text(tenths as int)),
    {
        let mut out: Vec<char> = Vec::new();
        let n: u64 = if tenths < 0 {
            out.push('-');
            (-(tenths as i128)) as u64
        } else {
            tenths as u64
        };
        push_digits(&mut out, n / 10);
        out.push('.');
        push_digits(&mut out, n % 10);
        assert(out@ =~= tenths_text(tenths as int));
        let s = string_of(&out);
        self.localize_decimal(s.as_str())
    }

    /// A day of a chart.
    pub fn format_chart_day(self, date: Date) -> (r: String)
        requires
            date.valid(),
        ensures
            r@ == chart_day(self, date),
    {
        let mut out: Vec<char> = Vec::new();
        if self.style == DisplayStyle::Classic {
            push_text(&mut out, classic_weekday(weekday_from_monday_index(date.weekday as usize)));
            out.push(' ');
            push_padded(&mut out, date.month, 2);
            out.push('/');
            push_padded(&mut out, date.day, 2);
        } else {
            push_text(&mut out, self.system.abbreviated_weekdays[date.weekday as usize].as_str());
            out.push(' ');
            self.system.push_numeric_date(&mut out, date, false);
        }
        assert(out@ =~= chart_day(self, date));
        string_of(&out)
    }

    /// A day and its month.
    pub fn format_short_date(self, date: Date) -> (r: String)
        requires
            date.valid(),
        ensures
            r@ == short_date(self, date),
    {
        let mut out: Vec<char> = Vec::new();
        if self.style == DisplayStyle::Classic {
            push_text(&mut out, english_month(date.month));
            out.push(' ');
            push_padded(&mut out, date.day, 2);
        } else {
            let month = self.system.abbreviated_months[(date.month - 1) as usize].as_str();
            match self.system.date_order {
                DateOrder::MonthDayYear => {
                    push_text(&mut out, month);
                    out.push(' ');
                    push_padded(&mut out, date.day, 2);
                },
                _ => {
                    push_padded(&mut out, date.day, 2);
                    out.push(' ');
                    push_text(&mut out, month);
                },
            }
        }
        assert(out@ =~= short_date(self, date));
        string_of(&out)
    }

    /// The abbreviated name of a month.
    pub fn abbreviated_month(self, month: u32) -> (r: String)
        ensures
            r@ == month_label(self, month as int),
    {
        if self.style == DisplayStyle::Classic {
            return english_month(month).to_owned();
        }
        let i: usize = month.saturating_sub(1) as usize;
        if i < 12 {
            self.system.abbreviated_months[i].clone()
        } else {
            String::new()
        }
    }

    /// The abbreviated name of a weekday.
    pub fn abbreviated_weekday(self, day: Weekday) -> (r: String)
        ensures
            r@ == weekday_label(self, day),
    {
        if self.style == DisplayStyle::Classic {
            return classic_weekday(day).to_owned();
        }
        self.system.abbreviated_weekdays[day.num_days_from_monday()].clone()
    }

    /// A date with its year.
    pub fn format_full_date(self, date: Date) -> (r: String)
        ensures
            r@ == full_date(self, date),
    {
        let mut out: Vec<char> = Vec::new();
        if self.style == DisplayStyle::Classic {
            push_iso_date(&mut out, date);
        } else {
            self.system.push_numeric_date(&mut out, date, true);
        }
        assert(out@ =~= full_date(self, date));
        string_of(&out)
    }

    /// A time of day.
    pub fn format_time(self, time: TimeOfDay) -> (r: String)
        ensures
            r@ == time_text(self, time),
    {
        let mut out: Vec<char> = Vec::new();
        if self.style == DisplayStyle::Classic {
            push_clock_time(&mut out, time);
        } else if self.system.time_24h {
            push_padded(&mut out, time.hour, 2);
            push_text(&mut out, self.system.time_separator.as_str());
            push_padded(&mut out, time.minute, 2);
        } else {
            let hour: u32 = if time.hour % 12 == 0 {
                12
            } else {
                time.hour % 12
            };
            push_digits(&mut out, hour as u64);
            push_text(&mut out, self.system.time_separator.as_str());
            push_padded(&mut out, time.minute, 2);
            out.push(' ');
            let marker = if time.hour < 12 {
                self.system.am.as_str()
            } else {
                self.system.pm.as_str()
            };
            push_text(&mut out, marker);
        }
        assert(out@ =~= time_text(self, time));
        string_of(&out)
    }

    /// A date and a time of day.
    pub fn format_session_datetime(self, date: Date, time: TimeOfDay) -> (r: String)
        ensures
            r@ == spaced(full_date(self, date), time_text(self, time)),
    {
        let mut s = self.format_full_date(date);
        let ghost d = s@;
        s.push(' ');
        s.append(self.format_time(time).as_str());
        assert(s@ =~= spaced(d, time_text(self, time)));
        s
    }

    /// The day and time of a reset.
    pub fn format_reset_datetime(self, date: Date, time: TimeOfDay) -> (r: String)
        requires
            date.valid(),
        ensures
            r@ == reset_date(self, date) + seq![',', ' '] + time_text(self, time),
    {
        let mut s = self.format_reset_date(date);
        let ghost d = s@;
        s.push(',');
        s.push(' ');
        s.append(self.format_time(time).as_str());
        assert(s@ =~= d + seq![',', ' '] + time_text(self, time));
        s
    }

    /// The day of a reset.
    pub fn format_reset_date(self, date: Date) -> (r: String)
        requires
            date.valid(),
        ensures
            r@ == reset_date(self, date),
    {
        if self.style == DisplayStyle::Classic {
            let mut out: Vec<char> = Vec::new();
            push_digits(&mut out, date.day as u64);
            out.push(' ');
            push_text(&mut out, english_month(date.month));
            assert(out@ =~= reset_date(self, date));
            return string_of(&out);
        }
        self.format_short_date(date)
    }
}

impl SystemLocale {
    fn push_numeric_date(&self, out: &mut Vec<char>, date: Date, include_year: bool)
        ensures
            final(out)@ == old(out)@ + numeric_date(*self, date, include_year),
    {
        let ghost before = out@;
        let sep = self.date_separator.as_str();
        let order = self.date_order;
        if include_year && order == DateOrder::YearMonthDay {
            push_year(out, date.year);
            push_text(out, sep);
        }
        if order == DateOrder::DayMonthYear {
            push_padded(out, date.day, 2);
            push_text(out, sep);
            push_padded(out, date.month, 2);
        } else {
            push_padded(out, date.month, 2);
            push_text(out, sep);
            push_padded(out, date.day, 2);
        }
        if include_year && order != DateOrder::YearMonthDay {
            push_text(out, sep);
            push_year(out, date.year);
        }
        assert(out@ =~= before + numeric_date(*self, date, include_year));
    }
}

/// Without a separator in the locale, numbers in its styles are plain numerals.
pub proof fn no_separator_no_groups(f: DisplayFormatter, n: nat)
    requires
        f.style != DisplayStyle::Classic,
        f.system.thousands_separator@.len() == 0,
    ensures
        number_text(f, n) == digits(n),
{
    assert(f.system.thousands_separator@ =~= Seq::<char>::empty());
    lemma_grouped_empty(digits(n));
}

/// Whether a character is an ASCII letter or digit.
pub open spec fn is_alnum(c: char) -> bool {
    ||| '0' <= c <= '9'
    ||| 'a' <= c <= 'z'
    ||| 'A' <= c <= 'Z'
}

fn ascii_alnum(c: char) -> (r: bool)
    ensures
        r == is_alnum(c),
{
    ('0' <= c && c <= '9') || ('a' <= c && c <= 'z') || ('A' <= c && c <= 'Z')
}

/// The first part of a date that a `strftime` pattern names.
pub open spec fn posix_first_field(p: Seq<char>) -> Option<char>
    decreases p.len(),
{
    if p.len() == 0 {
        None
    } else if p[0] != '%' {
        posix_first_field(p.skip(1))
    } else if p.len() == 1 {
        None
    } else if p[1] == 'd' || p[1] == 'e' {
        Some('d')
    } else if p[1] == 'm' || p[1] == 'b' || p[1] == 'B' || p[1] == 'h' {
        Some('m')
    } else if p[1] == 'y' || p[1] == 'Y' {
        Some('y')
    } else {
        posix_first_field(p.skip(2))
    }
}

/// The first part of a date that a Windows pattern names outside quotes.
pub open spec fn windows_first_field(p: Seq<char>, quoted: bool) -> Option<char>
    decreases p.len(),
{
    if p.len() == 0 {
        None
    } else if p[0] == '\'' {
        windows_first_field(p.skip(1), !quoted)
    } else if !quoted && p[0] == 'd' {
        Some('d')
    } else if !quoted && p[0] == 'M' {
        Some('m')
    } else if !quoted && p[0] == 'y' {
        Some('y')
    } else {
        windows_first_field(p.skip(1), quoted)
    }
}

/// The order of a date by its first part.
pub open spec fn order_by_first(field: Option<char>) -> DateOrder {
    if field == Some('d') {
        DateOrder::DayMonthYear
    } else if field == Some('y') {
        DateOrder::YearMonthDay
    } else {
        DateOrder::MonthDayYear
    }
}

/// The first character that a test accepts.
pub open spec fn first_where(s: Seq<char>, p: spec_fn(char) -> bool) -> Option<char>
    decreases s.len(),
{
    if s.len() == 0 {
        None
    } else if p(s[0]) {
        Some(s[0])
    } else {
        first_where(s.skip(1), p)
    }
}

/// What separates the parts of a `strftime` date pattern.
pub open spec fn posix_date_separator(p: Seq<char>) -> char {
    match first_where(
        p,
        |c: char| !is_alnum(c) && c != '%' && c != ' ' && c != '-' && c != '_',
    ) {
        Some(c) => c,
        None => match first_where(p, |c: char| c == '/' || c == '.' || c == '-') {
            Some(c) => c,
            None => '-',
        },
    }
}

/// What separates the parts of a Windows date pattern.
pub open spec fn windows_date_separator(p: Seq<char>) -> char {
    match first_where(p, |c: char| !is_alnum(c) && c != '\'' && c != ' ') {
        Some(c) => c,
        None => '-',
    }
}

fn one_char(c: char) -> (r: String)
    ensures
        r@ == seq![c],
{
    let mut s = String::new();
    s.push(c);
    assert(s@ =~= seq![c]);
    s
}

fn order_for(field: Option<char>) -> (r: DateOrder)
    ensures
        r == order_by_first(field),
{
    match field {
        Some(c) => if c == 'd' {
            DateOrder::DayMonthYear
        } else if c == 'y' {
            DateOrder::YearMonthDay
        } else {
            DateOrder::MonthDayYear
        },
        None => DateOrder::MonthDayYear,
    }
}

/// The order and separator of dates in a `strftime` pattern.
pub fn parse_posix_date_pattern(pattern: &str) -> (r: (DateOrder, String))
    ensures
        r.0 == order_by_first(posix_first_field(pattern@)),
        r.1@ == seq![posix_date_separator(pattern@)],
{
    let p = chars_of(pattern);
    let mut field: Option<char> = None;
    let mut i: usize = 0;
    let n: usize = p.len();
    assert(p@.skip(0) =~= p@);
    while i < n && field.is_none()
        invariant
            i <= n == p@.len(),
            field is None ==> posix_first_field(p@) == posix_first_field(p@.skip(i as int)),
            field is Some ==> posix_first_field(p@) == field,
        decreases n - i + (if field is None { 1int } else { 0int }),
    {
        let ghost rest = p@.skip(i as int);
        assert(rest.skip(1) =~= p@.skip(i + 1));
        if p[i] != '%' {
            i += 1;
        } else if i + 1 == n {
            assert(rest.len() == 1);
            i += 1;
        } else {
            let c = p[i + 1];
            assert(rest[1] == c);
            assert(rest.skip(2) =~= p@.skip(i + 2));
            if c == 'd' || c == 'e' {
                field = Some('d');
            } else if c == 'm' || c == 'b' || c == 'B' || c == 'h' {
                field = Some('m');
            } else if c == 'y' || c == 'Y' {
                field = Some('y');
            } else {
                i += 2;
            }
        }
    }
    assert(field is None ==> p@.skip(i as int).len() == 0);
    let ghost first = |c: char| !is_alnum(c) && c != '%' && c != ' ' && c != '-' && c != '_';
    let mut j: usize = 0;
    while j < n
        invariant
            j <= n == p@.len(),
            p@ == pattern@,
            first == (|c: char|
                !is_alnum(c) && c != '%' && c != ' ' && c != '-' && c != '_'),
            field == posix_first_field(p@),
            first_where(p@, first) == first_where(p@.skip(j as int), first),
        decreases n - j,
    {
        let c = p[j];
        assert(p@.skip(j as int).skip(1) =~= p@.skip(j + 1));
        if !ascii_alnum(c) && c != '%' && c != ' ' && c != '-' && c != '_' {
            return (order_for(field), one_char(c));
        }
        j += 1;
    }
    let ghost second = |c: char| c == '/' || c == '.' || c == '-';
    let mut k: usize = 0;
    while k < n
        invariant
            k <= n == p@.len(),
            p@ == pattern@,
            second == (|c: char| c == '/' || c == '.' || c == '-'),
            field == posix_first_field(p@),
            first_where(
                p@,
                |c: char| !is_alnum(c) && c != '%' && c != ' ' && c != '-' && c != '_',
            ) is None,
            first_where(p@, second) == first_where(p@.skip(k as int), second),
        decreases n - k,
    {
        let c = p[k];
        assert(p@.skip(k as int).skip(1) =~= p@.skip(k + 1));
        if c == '/' || c == '.' || c == '-' {
            return (order_for(field), one_char(c));
        }
        k += 1;
    }
    (order_for(field), one_char('-'))
}

/// The order and separator of dates in a Windows pattern.
pub fn parse_windows_date_pattern(pattern: &str) -> (r: (DateOrder, String))
    ensures
        r.0 == order_by_first(windows_first_field(pattern@, false)),
        r.1@ == seq![windows_date_separator(pattern@)],
{
    let p = chars_of(pattern);
    let mut field: Option<char> = None;
    let mut quoted = false;
    let mut i: usize = 0;
    let n: usize = p.len();
    assert(p@.skip(0) =~= p@);
    while i < n && field.is_none()
        invariant
            i <= n == p@.len(),
            field is None ==> windows_first_field(p@, false) == windows_first_field(
                p@.skip(i as int),
                quoted,
            ),
            field is Some ==> windows_first_field(p@, false) == field,
        decreases n - i + (if field is None { 1int } else { 0int }),
    {
        let c = p[i];
        let ghost rest = p@.skip(i as int);
        assert(rest.skip(1) =~= p@.skip(i + 1));
        if c == '\'' {
            quoted = !quoted;
            i += 1;
        } else if !quoted && c == 'd' {
            field = Some('d');
        } else if !quoted && c == 'M' {
            field = Some('m');
        } else if !quoted && c == 'y' {
            field = Some('y');
        } else {
            i += 1;
        }
    }
    assert(field is None ==> p@.skip(i as int).len() == 0);
    let ghost first = |c: char| !is_alnum(c) && c != '\'' && c != ' ';
    let mut j: usize = 0;
    while j < n
        invariant
            j <= n == p@.len(),
            p@ == pattern@,
            first == (|c: char| !is_alnum(c) && c != '\'' && c != ' '),
            field == windows_first_field(p@, false),
            first_where(p@, first) == first_where(p@.skip(j as int), first),
        decreases n - j,
    {
        let c = p[j];
        assert(p@.skip(j as int).skip(1) =~= p@.skip(j + 1));
        if !ascii_alnum(c) && c != '\'' && c != ' ' {
            return (order_for(field), one_char(c));
        }
        j += 1;
    }
    (order_for(field), one_char('-'))
}

/// What follows the first `%` with the letter `code` behind it.
pub open spec fn after_code(p: Seq<char>, code: char) -> Option<Seq<char>>
    decreases p.len(),
{
    if p.len() < 2 {
        None
    } else if p[0] == '%' && p[1] == code {
        Some(p.skip(2))
    } else {
        after_code(p.skip(1), code)
    }
}

/// The separator behind the hour that is written with `code`.
pub open spec fn separator_after(p: Seq<char>, code: char) -> Option<char> {
    match after_code(p, code) {
        Some(tail) => first_where(tail, |c: char| !is_alnum(c) && c != '%'),
        None => None,
    }
}

/// What separates hours from minutes in a `strftime` pattern.
pub open spec fn posix_time_separator(p: Seq<char>) -> char {
    match separator_after(p, 'H') {
        Some(c) => c,
        None => match separator_after(p, 'I') {
            Some(c) => c,
            None => match separator_after(p, 'k') {
                Some(c) => c,
                None => match separator_after(p, 'l') {
                    Some(c) => c,
                    None => ':',
                },
            },
        },
    }
}

fn separator_behind(p: &Vec<char>, code: char) -> (r: Option<char>)
    ensures
        r == separator_after(p@, code),
{
    let n: usize = p.len();
    let mut i: usize = 0;
    assert(p@.skip(0) =~= p@);
    while i < n && n - i > 1 && !(p[i] == '%' && p[i + 1] == code)
        invariant
            i <= n == p@.len(),
            after_code(p@, code) == after_code(p@.skip(i as int), code),
        decreases n - i,
    {
        assert(p@.skip(i as int).skip(1) =~= p@.skip(i + 1));
        i += 1;
    }
    if n - i <= 1 {
        return None;
    }
    assert(p@.skip(i as int).skip(2) =~= p@.skip(i + 2));
    let ghost tail = p@.skip(i + 2);
    let ghost want = |c: char| !is_alnum(c) && c != '%';
    let mut j: usize = i + 2;
    while j < n
        invariant
            i + 2 <= j <= n == p@.len(),
            tail == p@.skip(i + 2),
            after_code(p@, code) == Some(tail),
            want == (|c: char| !is_alnum(c) && c != '%'),
            first_where(tail, want) == first_where(p@.skip(j as int), want),
        decreases n - j,
    {
        let c = p[j];
        assert(p@.skip(j as int).skip(1) =~= p@.skip(j + 1));
        if !ascii_alnum(c) && c != '%' {
            return Some(c);
        }
        j += 1;
    }
    None
}

/// What separates hours from minutes in a `strftime` pattern.
pub fn parse_posix_time_separator(pattern: &str) -> (r: String)
    ensures
        r@ == seq![posix_time_separator(pattern@)],
{
    let p = chars_of(pattern);
    if let Some(c) = separator_behind(&p, 'H') {
        return one_char(c);
    }
    if let Some(c) = separator_behind(&p, 'I') {
        return one_char(c);
    }
    if let Some(c) = separator_behind(&p, 'k') {
        return one_char(c);
    }
    if let Some(c) = separator_behind(&p, 'l') {
        return one_char(c);
    }
    one_char(':')
}

/// What separates hours from minutes in a Windows pattern: the first character between the hour
/// and the minute that is neither a letter, a digit nor a quote.
pub open spec fn windows_time_separator(p: Seq<char>, saw_hour: bool) -> char
    decreases p.len(),
{
    if p.len() == 0 {
        ':'
    } else if p[0] == 'h' || p[0] == 'H' {
        windows_time_separator(p.skip(1), true)
    } else if !saw_hour {
        windows_time_separator(p.skip(1), false)
    } else if p[0] == 'm' {
        ':'
    } else if !is_alnum(p[0]) && p[0] != '\'' {
        p[0]
    } else {
        windows_time_separator(p.skip(1), true)
    }
}

/// What separates hours from minutes in a Windows pattern.
pub fn parse_windows_time_separator(pattern: &str) -> (r: String)
    ensures
        r@ == seq![windows_time_separator(pattern@, false)],
{
    let p = chars_of(pattern);
    let mut saw_hour = false;
    let mut i: usize = 0;
    assert(p@.skip(0) =~= p@);
    while i < p.len()
        invariant
            i <= p@.len(),
            windows_time_separator(pattern@, false) == windows_time_separator(
                p@.skip(i as int),
                saw_hour,
            ),
        decreases p@.len() - i,
    {
        let c = p[i];
        assert(p@.skip(i as int).skip(1) =~= p@.skip(i + 1));
        if c == 'h' || c == 'H' {
            saw_hour = true;
        } else if saw_hour {
            if c == 'm' {
                return one_char(':');
            }
            if !ascii_alnum(c) && c != '\'' {
                return one_char(c);
            }
        }
        i += 1;
    }
    one_char(':')
}

/// Names of the weekdays of a locale, English where one is empty.
pub fn fill_weekdays(names: &[String; 7]) -> (r: [String; 7])
    ensures
        forall|i: int|
            0 <= i < 7 ==> (#[trigger] r@[i])@ == (if names@[i]@.len() == 0 {
                weekday_name(weekday_at(i as nat))
            } else {
                names@[i]@
            }),
{
    let d = english_weekdays();
    [
        pick(&names[0], &d[0]),
        pick(&names[1], &d[1]),
        pick(&names[2], &d[2]),
        pick(&names[3], &d[3]),
        pick(&names[4], &d[4]),
        pick(&names[5], &d[5]),
        pick(&names[6], &d[6]),
    ]
}

/// Names of the months of a locale, English where one is empty.
pub fn fill_months(names: &[String; 12]) -> (r: [String; 12])
    ensures
        forall|i: int|
            0 <= i < 12 ==> (#[trigger] r@[i])@ == (if names@[i]@.len() == 0 {
                month_name(i + 1)
            } else {
                names@[i]@
            }),
{
    let d = english_months();
    [
        pick(&names[0], &d[0]),
        pick(&names[1], &d[1]),
        pick(&names[2], &d[2]),
        pick(&names[3], &d[3]),
        pick(&names[4], &d[4]),
        pick(&names[5], &d[5]),
        pick(&names[6], &d[6]),
        pick(&names[7], &d[7]),
        pick(&names[8], &d[8]),
        pick(&names[9], &d[9]),
        pick(&names[10], &d[10]),
        pick(&names[11], &d[11]),
    ]
}

fn pick(value: &String, fallback: &String) -> (r: String)
    ensures
        r@ == (if value@.len() == 0 {
            fallback@
        } else {
            value@
        }),
{
    if value.as_str().is_empty() {
        fallback.clone()
    } else {
        value.clone()
    }
}

} // verus!
