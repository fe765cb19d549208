//! The conventions of the machine, made from what its locale answers.

use crate::locale::{
    fill_months, fill_weekdays, month_name, order_by_first, parse_posix_date_pattern,
    parse_posix_time_separator, parse_windows_date_pattern, parse_windows_time_separator,
    posix_date_separator, posix_first_field, posix_time_separator, weekday_name,
    windows_date_separator, windows_first_field, windows_time_separator, SystemLocale,
};
use crate::calendar::weekday_at;
use crate::text::{chars_of, is_blank, opt_str, opt_view, trim, trimmed};
use vstd::prelude::*;

verus! {

/// What a locale answers. Weekdays begin with Monday; a name that it lacks is empty.
#[derive(Debug)]
pub struct LocaleAnswers {
    pub decimal_separator: Option<String>,
    pub thousands_separator: Option<String>,
    pub date_pattern: Option<String>,
    pub time_pattern: Option<String>,
    pub weekdays: [String; 7],
    pub months: [String; 12],
    pub am: Option<String>,
    pub pm: Option<String>,
}

/// The text, or another one where there is none.
pub open spec fn or_text(o: Option<String>, otherwise: Seq<char>) -> Seq<char> {
    match o {
        Some(s) => s@,
        None => otherwise,
    }
}

/// The text where it is not empty, or another one.
pub open spec fn filled_or(o: Option<String>, otherwise: Seq<char>) -> Seq<char> {
    match o {
        Some(s) => if s@.len() > 0 {
            s@
        } else {
            otherwise
        },
        None => otherwise,
    }
}

/// The pattern holds a field of a code.
pub open spec fn has_field(p: Seq<char>, code: char) -> bool {
    exists|i: int| 0 <= i < p.len() - 1 && #[trigger] p[i] == '%' && p[i + 1] == code
}

/// The names of the weekdays and months are those of the locale, English where one is empty.
pub open spec fn names_filled(l: SystemLocale, a: LocaleAnswers) -> bool {
    &&& forall|i: int|
        0 <= i < 7 ==> (#[trigger] l.abbreviated_weekdays@[i])@ == if a.weekdays@[i]@.len() == 0 {
            weekday_name(weekday_at(i as nat))
        } else {
            a.weekdays@[i]@
        }
    &&& forall|i: int|
        0 <= i < 12 ==> (#[trigger] l.abbreviated_months@[i])@ == if a.months@[i]@.len() == 0 {
            month_name(i + 1)
        } else {
            a.months@[i]@
        }
}

/// The name of a locale by the variables of the environment: the first one that is not blank.
pub open spec fn locale_name(
    all: Option<Seq<char>>,
    time: Option<Seq<char>>,
    numeric: Option<Seq<char>>,
    lang: Option<Seq<char>>,
) -> Seq<char> {
    if all is Some && trimmed(all->0).len() > 0 {
        trimmed(all->0)
    } else if time is Some && trimmed(time->0).len() > 0 {
        trimmed(time->0)
    } else if numeric is Some && trimmed(numeric->0).len() > 0 {
        trimmed(numeric->0)
    } else if lang is Some && trimmed(lang->0).len() > 0 {
        trimmed(lang->0)
    } else {
        "C"@
    }
}

fn text_or(o: &Option<String>, otherwise: &str) -> (r: String)
    ensures
        r@ == or_text(*o, otherwise@),
{
    match o {
        Some(s) => s.as_str().to_owned(),
        None => otherwise.to_owned(),
    }
}

fn text_filled_or(o: &Option<String>, otherwise: &str) -> (r: String)
    ensures
        r@ == filled_or(*o, otherwise@),
{
    if let Some(s) = o {
        if !s.as_str().is_empty() {
            return s.as_str().to_owned();
        }
    }
    otherwise.to_owned()
}

fn holds_field(pattern: &str, code: char) -> (r: bool)
    ensures
        r == has_field(pattern@, code),
{
    let p = chars_of(pattern);
    let n: usize = p.len();
    let mut i: usize = 1;
    while i < n
        invariant
            1 <= i,
            n == p@.len(),
            p@ == pattern@,
            forall|j: int| 0 <= j < i - 1 && j < n - 1 ==> !(#[trigger] p@[j] == '%' && p@[j + 1] == code),
        decreases n - i,
    {
        if p[i - 1] == '%' && p[i] == code {
            assert(p@[i - 1] == '%');
            return true;
        }
        i += 1;
    }
    false
}

fn holds_char(pattern: &str, c: char) -> (r: bool)
    ensures
        r == pattern@.contains(c),
{
    let p = chars_of(pattern);
    let mut i: usize = 0;
    while i < p.len()
        invariant
            i <= p@.len(),
            p@ == pattern@,
            forall|j: int| 0 <= j < i ==> p@[j] != c,
        decreases p@.len() - i,
    {
        if p[i] == c {
            return true;
        }
        i += 1;
    }
    false
}

/// The name of a locale by `LC_ALL`, `LC_TIME`, `LC_NUMERIC` and `LANG`.
pub fn locale_id_from_settings(
    lc_all: Option<&str>,
    lc_time: Option<&str>,
    lc_numeric: Option<&str>,
    lang: Option<&str>,
) -> (r: String)
    ensures
        r@ == locale_name(opt_str(lc_all), opt_str(lc_time), opt_str(lc_numeric), opt_str(lang)),
{
    match lc_all {
        Some(v) if !is_blank(v) => trim(v),
        _ => match lc_time {
            Some(v) if !is_blank(v) => trim(v),
            _ => match lc_numeric {
                Some(v) if !is_blank(v) => trim(v),
                _ => match lang {
                    Some(v) if !is_blank(v) => trim(v),
                    _ => "C".to_owned(),
                },
            },
        },
    }
}

/// The conventions of a POSIX locale.
pub open spec fn is_posix_locale(l: SystemLocale, id: Seq<char>, a: LocaleAnswers) -> bool {
    let date = or_text(a.date_pattern, "%m/%d/%y"@);
    let time = or_text(a.time_pattern, "%H:%M:%S"@);
    &&& l.id@ == id
    &&& l.decimal_separator@ == filled_or(a.decimal_separator, "."@)
    &&& l.thousands_separator@ == or_text(a.thousands_separator, ""@)
    &&& l.date_order == order_by_first(posix_first_field(date))
    &&& l.date_separator@ == seq![posix_date_separator(date)]
    &&& l.time_24h == (has_field(time, 'H') || has_field(time, 'k'))
    &&& l.time_separator@ == seq![posix_time_separator(time)]
    &&& names_filled(l, a)
    &&& l.am@ == filled_or(a.am, "AM"@)
    &&& l.pm@ == filled_or(a.pm, "PM"@)
}

/// The conventions of a POSIX locale.
pub fn posix_locale(id: String, a: &LocaleAnswers) -> (r: SystemLocale)
    ensures
        is_posix_locale(r, id@, *a),
{
    let date = text_or(&a.date_pattern, "%m/%d/%y");
    let time = text_or(&a.time_pattern, "%H:%M:%S");
    let (date_order, date_separator) = parse_posix_date_pattern(date.as_str());
    let time_24h = holds_field(time.as_str(), 'H') || holds_field(time.as_str(), 'k');
    SystemLocale {
        id,
        decimal_separator: text_filled_or(&a.decimal_separator, "."),
        thousands_separator: text_or(&a.thousands_separator, ""),
        date_order,
        date_separator,
        time_24h,
        time_separator: parse_posix_time_separator(time.as_str()),
        abbreviated_weekdays: fill_weekdays(&a.weekdays),
        abbreviated_months: fill_months(&a.months),
        am: text_filled_or(&a.am, "AM"),
        pm: text_filled_or(&a.pm, "PM"),
    }
}

/// The conventions of a Windows locale.
pub open spec fn is_windows_locale(l: SystemLocale, id: Option<Seq<char>>, a: LocaleAnswers) -> bool {
    let date = a.date_pattern->0@;
    let time = a.time_pattern->0@;
    &&& l.id@ == match id {
        Some(id) => id,
        None => "system"@,
    }
    &&& l.decimal_separator@ == or_text(a.decimal_separator, "."@)
    &&& l.thousands_separator@ == or_text(a.thousands_separator, ""@)
    &&& l.date_order == order_by_first(windows_first_field(date, false))
    &&& l.date_separator@ == seq![windows_date_separator(date)]
    &&& l.time_24h == time.contains('H')
    &&& l.time_separator@ == seq![windows_time_separator(time, false)]
    &&& names_filled(l, a)
    &&& l.am@ == or_text(a.am, "AM"@)
    &&& l.pm@ == or_text(a.pm, "PM"@)
}

/// The conventions of a Windows locale; none where it has no pattern for dates or for times.
pub fn windows_locale(id: Option<String>, a: &LocaleAnswers) -> (r: Option<SystemLocale>)
    ensures
        r is Some <==> a.date_pattern is Some && a.time_pattern is Some,
        r is Some ==> is_windows_locale(r->0, opt_view(id), *a),
{
    let date = match &a.date_pattern {
        Some(p) => p.as_str(),
        None => {
            return None;
        },
    };
    let time = match &a.time_pattern {
        Some(p) => p.as_str(),
        None => {
            return None;
        },
    };
    let (date_order, date_separator) = parse_windows_date_pattern(date);
    Some(
        SystemLocale {
            id: text_or(&id, "system"),
            decimal_separator: text_or(&a.decimal_separator, "."),
            thousands_separator: text_or(&a.thousands_separator, ""),
            date_order,
            date_separator,
            time_24h: holds_char(time, 'H'),
            time_separator: parse_windows_time_separator(time),
            abbreviated_weekdays: fill_weekdays(&a.weekdays),
            abbreviated_months: fill_months(&a.months),
            am: text_or(&a.am, "AM"),
            pm: text_or(&a.pm, "PM"),
        },
    )
}

} // verus!
