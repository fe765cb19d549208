//! The lines of the limits card.

use crate::calendar::Date;
use crate::clock::{
    calendar_moment, is_same_day, local_today, opt_moment_at, opt_moment_fits,
    same_day, Moment,
};
use crate::codex_rpc::account::{AccountRateLimits, RateLimitSnapshot, RateLimitWindow};
use crate::decimal::{decimal, digits, signed_decimal, signed_digits};
use crate::double::{
    at_least, finite, hours_of, is_finite, left_of_hundred, nearest_signed, percent_left, reaches,
    round_signed, rounded_hours,
};
use crate::json::{double_of_text, parse_double};
use crate::locale::{number_text, reset_date, time_text, DisplayFormatter};
use crate::text::{
    chars_of, middle_cut, opt_view, printable, same, string_of, strip_controls,
    trim_chars, trimmed, truncate_middle,
};
use crate::usage::format::at_least_zero;
use vstd::prelude::*;

verus! {

/// Labels are filled up to this many characters.
pub const LABEL_WIDTH: usize = 10;

/// A window of at least this many minutes is a weekly one: six days.
pub const WEEKLY_WINDOW_MINUTES: u64 = 8640;

/// A text filled up with spaces on the right.
pub open spec fn left_aligned(s: Seq<char>, width: nat) -> Seq<char> {
    if s.len() >= width {
        s
    } else {
        s + Seq::new((width - s.len()) as nat, |i: int| ' ')
    }
}

/// Fills a text up with spaces on the right.
pub fn align_left(s: &str, width: usize) -> (r: String)
    ensures
        r@ == left_aligned(s@, width as nat),
{
    let mut out = chars_of(s);
    let ghost whole = left_aligned(s@, width as nat);
    while out.len() < width
        invariant
            whole == left_aligned(s@, width as nat),
            s@.len() <= out@.len(),
            s@.len() < width ==> out@.len() <= width && out@ == whole.take(out@.len() as int),
            s@.len() >= width ==> out@ == s@,
        decreases width - out@.len(),
    {
        out.push(' ');
        assert(out@ =~= whole.take(out@.len() as int));
    }
    assert(out@ =~= whole);
    string_of(&out)
}

/// The length of a window: hours from sixty minutes on, else minutes; none for less than one.
pub open spec fn window_text(bits: u64) -> Option<Seq<char>> {
    if !finite(bits) || !reaches(bits, 1) {
        None
    } else if reaches(bits, 60) {
        Some(digits(rounded_hours(bits) as nat) + "h"@)
    } else {
        Some(digits(at_least_zero(nearest_signed(bits))) + "m"@)
    }
}

/// The length of a window.
pub fn format_window_label(window_duration_mins: u64) -> (r: Option<String>)
    ensures
        opt_view(r) == window_text(window_duration_mins),
{
    let bits: u64 = window_duration_mins;
    if !is_finite(bits) || !at_least(bits, 1) {
        return None;
    }
    if at_least(bits, 60) {
        let mut text = decimal(hours_of(bits));
        text.append("h");
        return Some(text);
    }
    let minutes: i64 = round_signed(bits);
    let mut text = decimal(
        if minutes < 0 {
            0
        } else {
            minutes as u64
        },
    );
    text.append("m");
    Some(text)
}

/// What is left of a limit.
pub open spec fn percent_text(used: Option<u64>) -> Seq<char> {
    match used {
        Some(bits) => if finite(bits) {
            digits(percent_left(bits) as nat) + "%"@
        } else {
            "--%"@
        },
        None => "--%"@,
    }
}

/// What is left of a limit.
pub fn percent_left_value(used_percent: Option<u64>) -> (r: String)
    ensures
        r@ == percent_text(used_percent),
{
    match used_percent {
        Some(bits) => if is_finite(bits) {
            let mut text = decimal(left_of_hundred(bits));
            text.append("%");
            text
        } else {
            "--%".to_owned()
        },
        None => "--%".to_owned(),
    }
}

/// When a limit resets, in words: the time of day, and the day unless it is today.
pub open spec fn resets_text(f: DisplayFormatter, at: Option<Moment>, today: Date) -> Option<
    Seq<char>,
> {
    match at {
        Some(m) => Some(
            if same_day(m.date, today) {
                "resets "@ + time_text(f, m.time)
            } else {
                "resets "@ + time_text(f, m.time) + ", "@ + reset_date(f, m.date)
            },
        ),
        None => None,
    }
}

/// When a limit resets, in words.
pub fn resets_label(at: Option<Moment>, today: Date, formatter: DisplayFormatter) -> (r: Option<
    String,
>)
    requires
        calendar_moment(at),
    ensures
        opt_view(r) == resets_text(formatter, at, today),
{
    match at {
        Some(m) => {
            let mut text = "resets ".to_owned();
            text.append(formatter.format_time(m.time).as_str());
            if !is_same_day(m.date, today) {
                text.append(", ");
                text.append(formatter.format_reset_date(m.date).as_str());
            }
            Some(text)
        },
        None => None,
    }
}

/// When a limit resets, in short: the time of day where it is today, else the day.
pub open spec fn reset_short_text(f: DisplayFormatter, at: Option<Moment>, today: Date) -> Option<
    Seq<char>,
> {
    match at {
        Some(m) => Some(
            if same_day(m.date, today) {
                time_text(f, m.time)
            } else {
                reset_date(f, m.date)
            },
        ),
        None => None,
    }
}

/// When a limit resets, in short.
pub fn reset_compact_label(
    at: Option<Moment>,
    today: Date,
    formatter: DisplayFormatter,
) -> (r: Option<String>)
    requires
        calendar_moment(at),
    ensures
        opt_view(r) == reset_short_text(formatter, at, today),
{
    match at {
        Some(m) => Some(
            if is_same_day(m.date, today) {
                formatter.format_time(m.time)
            } else {
                formatter.format_reset_date(m.date)
            },
        ),
        None => None,
    }
}

/// What stands behind a percentage.
pub open spec fn reset_part(
    f: DisplayFormatter,
    at: Option<Moment>,
    today: Date,
    compact: bool,
) -> Seq<char> {
    if compact {
        match reset_short_text(f, at, today) {
            Some(t) => " | "@ + t,
            None => Seq::empty(),
        }
    } else {
        match resets_text(f, at, today) {
            Some(t) => " ("@ + t + ")"@,
            None => Seq::empty(),
        }
    }
}

fn reset_suffix(at: Option<Moment>, today: Date, compact: bool, formatter: DisplayFormatter) -> (r:
    String)
    requires
        calendar_moment(at),
    ensures
        r@ == reset_part(formatter, at, today, compact),
{
    let label = if compact {
        reset_compact_label(at, today, formatter)
    } else {
        resets_label(at, today, formatter)
    };
    match label {
        Some(t) => if compact {
            let mut text = " | ".to_owned();
            text.append(t.as_str());
            text
        } else {
            let mut text = " (".to_owned();
            text.append(t.as_str());
            text.append(")");
            text
        },
        None => {
            proof {
                reveal_strlit("");
                assert(""@ =~= Seq::<char>::empty());
            }
            "".to_owned()
        },
    }
}

/// A text without the colons at its end.
pub open spec fn without_colons(s: Seq<char>) -> Seq<char>
    decreases s.len(),
{
    if s.len() > 0 && s.last() == ':' {
        without_colons(s.drop_last())
    } else {
        s
    }
}

/// A text without one suffix, where it has it.
pub open spec fn without_suffix(s: Seq<char>, suffix: Seq<char>) -> Seq<char> {
    if s.len() >= suffix.len() && s.skip(s.len() - suffix.len()) == suffix {
        s.take(s.len() - suffix.len())
    } else {
        s
    }
}

fn drop_colons(s: Vec<char>) -> (r: Vec<char>)
    ensures
        r@ == without_colons(s@),
{
    let mut out = s;
    while out.len() > 0 && out[out.len() - 1] == ':'
        invariant
            without_colons(out@) == without_colons(s@),
        decreases out@.len(),
    {
        let ghost before = out@;
        out.pop();
        assert(out@ =~= before.drop_last());
    }
    out
}

fn drop_suffix(s: Vec<char>, suffix: &str) -> (r: Vec<char>)
    ensures
        r@ == without_suffix(s@, suffix@),
{
    let tail = chars_of(suffix);
    if s.len() < tail.len() {
        return s;
    }
    let total: usize = s.len();
    let cut: usize = total - tail.len();
    let mut i: usize = 0;
    while i < tail.len()
        invariant
            i <= tail@.len(),
            tail@ == suffix@,
            cut + tail@.len() == s@.len(),
            total == s@.len(),
            forall|k: int| 0 <= k < i ==> s@[cut + k] == #[trigger] tail@[k],
        decreases tail@.len() - i,
    {
        if s[cut + i] != tail[i] {
            assert(s@.skip(cut as int)[i as int] != suffix@[i as int]);
            return s;
        }
        i += 1;
    }
    assert(s@.skip(cut as int) =~= suffix@);
    let mut out = s;
    out.truncate(cut);
    assert(out@ =~= s@.take(cut as int));
    out
}

/// One line of a limit: its label, what is left and when it resets. The short form has a shorter
/// label.
pub open spec fn limit_line(
    f: DisplayFormatter,
    label: Seq<char>,
    window: Option<RateLimitWindow>,
    at: Option<Moment>,
    today: Date,
    compact: bool,
) -> Seq<char> {
    match window {
        None => left_aligned(label, LABEL_WIDTH as nat) + "--"@,
        Some(w) => if compact {
            without_suffix(without_colons(label), " limit"@) + ": "@ + percent_text(w.used_percent)
                + reset_part(f, at, today, true)
        } else {
            left_aligned(label, LABEL_WIDTH as nat) + percent_text(w.used_percent) + reset_part(
                f,
                at,
                today,
                false,
            )
        },
    }
}

/// One line of a limit.
pub fn format_limit_compact_line(
    label_with_colon: &str,
    window: Option<RateLimitWindow>,
    at: Option<Moment>,
    today: Date,
    compact: bool,
    formatter: DisplayFormatter,
) -> (r: String)
    requires
        calendar_moment(at),
    ensures
        r@ == limit_line(formatter, label_with_colon@, window, at, today, compact),
{
    match window {
        None => {
            let mut text = align_left(label_with_colon, LABEL_WIDTH);
            text.append("--");
            text
        },
        Some(w) => {
            let mut text = if compact {
                let short = drop_suffix(drop_colons(chars_of(label_with_colon)), " limit");
                let mut start = string_of(&short);
                start.append(": ");
                start
            } else {
                align_left(label_with_colon, LABEL_WIDTH)
            };
            text.append(percent_left_value(w.used_percent).as_str());
            text.append(reset_suffix(at, today, compact, formatter).as_str());
            text
        },
    }
}

/// A window of a week or nearly so.
pub open spec fn weekly(w: RateLimitWindow) -> bool {
    w.window_duration_mins is Some && finite(w.window_duration_mins->0) && reaches(
        w.window_duration_mins->0,
        WEEKLY_WINDOW_MINUTES as nat,
    )
}

/// Whether a window is one of a week or nearly so.
pub fn is_weekly_rolling_window(window: RateLimitWindow) -> (r: bool)
    ensures
        r == weekly(window),
{
    match window.window_duration_mins {
        Some(bits) => is_finite(bits) && at_least(bits, WEEKLY_WINDOW_MINUTES),
        None => false,
    }
}

/// The short window and the weekly one. A window that says it is weekly is; where none does, the
/// first is the short one.
pub open spec fn classified(
    primary: Option<RateLimitWindow>,
    secondary: Option<RateLimitWindow>,
) -> (Option<RateLimitWindow>, Option<RateLimitWindow>) {
    if primary is Some && weekly(primary->0) {
        (
            if secondary is Some && weekly(secondary->0) {
                None
            } else {
                secondary
            },
            primary,
        )
    } else {
        (primary, secondary)
    }
}

/// The short window and the weekly one.
pub fn classify_rolling_windows(
    primary: Option<RateLimitWindow>,
    secondary: Option<RateLimitWindow>,
) -> (r: (Option<RateLimitWindow>, Option<RateLimitWindow>))
    ensures
        r == classified(primary, secondary),
{
    let primary_is_weekly = match primary {
        Some(w) => is_weekly_rolling_window(w),
        None => false,
    };
    let secondary_is_weekly = match secondary {
        Some(w) => is_weekly_rolling_window(w),
        None => false,
    };
    if primary_is_weekly {
        if secondary_is_weekly {
            (None, primary)
        } else {
            (secondary, primary)
        }
    } else {
        (primary, secondary)
    }
}

/// A window that says it is weekly never stands in the short window's place, and stands in the
/// weekly one's where it is the first that says so.
pub proof fn weekly_window_is_weekly(
    primary: Option<RateLimitWindow>,
    secondary: Option<RateLimitWindow>,
)
    ensures
        ({
            let (short, long) = classified(primary, secondary);
            &&& !(short is Some && weekly(short->0))
            &&& primary is Some && weekly(primary->0) ==> long == primary
            &&& secondary is Some && weekly(secondary->0) && !(primary is Some && weekly(
                primary->0,
            )) ==> long == secondary && short == primary
        }),
{
}

/// A set of limits has a rolling window.
pub open spec fn has_windows(b: RateLimitSnapshot) -> bool {
    b.primary is Some || b.secondary is Some
}

/// The first set that has a rolling window.
pub open spec fn first_with_windows(buckets: Seq<RateLimitSnapshot>) -> Option<RateLimitSnapshot>
    decreases buckets.len(),
{
    if buckets.len() == 0 {
        None
    } else if has_windows(buckets[0]) {
        Some(buckets[0])
    } else {
        first_with_windows(buckets.skip(1))
    }
}

/// The windows that the card shows: those at the head, else those of the first set that has any.
pub open spec fn shown_windows(l: AccountRateLimits) -> (
    Option<RateLimitWindow>,
    Option<RateLimitWindow>,
) {
    if l.primary is Some || l.secondary is Some {
        classified(l.primary, l.secondary)
    } else {
        match first_with_windows(l.buckets@) {
            Some(b) => classified(b.primary, b.secondary),
            None => (None, None),
        }
    }
}

/// The windows that the card shows.
pub fn rolling_windows_for_limits(l: &AccountRateLimits) -> (r: (
    Option<RateLimitWindow>,
    Option<RateLimitWindow>,
))
    ensures
        r == shown_windows(*l),
{
    if l.primary.is_some() || l.secondary.is_some() {
        return classify_rolling_windows(l.primary, l.secondary);
    }
    let mut i: usize = 0;
    assert(l.buckets@.skip(0) =~= l.buckets@);
    while i < l.buckets.len()
        invariant
            i <= l.buckets@.len(),
            !(l.primary is Some || l.secondary is Some),
            first_with_windows(l.buckets@) == first_with_windows(l.buckets@.skip(i as int)),
        decreases l.buckets@.len() - i,
    {
        assert(l.buckets@.skip(i as int).skip(1) =~= l.buckets@.skip(i + 1));
        assert(l.buckets@.skip(i as int)[0] == l.buckets@[i as int]);
        let b = &l.buckets[i];
        if b.primary.is_some() || b.secondary.is_some() {
            return classify_rolling_windows(b.primary, b.secondary);
        }
        i += 1;
    }
    (None, None)
}

/// When the windows of the card reset, and today.
#[derive(Debug, Clone, Copy, PartialEq, Eq, Structural)]
pub struct LimitMoments {
    pub today: Date,
    pub short: Option<Moment>,
    pub weekly: Option<Moment>,
    pub monthly: Option<Moment>,
    pub extra: Option<Moment>,
}

impl LimitMoments {
    /// The dates are in the ranges of a calendar.
    pub open spec fn valid(self) -> bool {
        calendar_moment(self.short) && calendar_moment(self.weekly) && calendar_moment(
            self.monthly,
        ) && calendar_moment(self.extra)
    }
}

/// The label of the short window.
pub open spec fn short_label_text(window: Option<RateLimitWindow>) -> Seq<char> {
    let length = match window {
        Some(w) => match w.window_duration_mins {
            Some(bits) => window_text(bits),
            None => None,
        },
        None => None,
    };
    match length {
        Some(t) => t + " limit:"@,
        None => "5h limit:"@,
    }
}

/// The label of the weekly window.
pub open spec fn weekly_label_text(compact: bool) -> Seq<char> {
    if compact {
        "7d:"@
    } else {
        "Weekly:"@
    }
}

/// The lines of the two windows: the short one first, unless only the weekly one is there.
pub open spec fn rolling_lines(
    f: DisplayFormatter,
    windows: (Option<RateLimitWindow>, Option<RateLimitWindow>),
    m: LimitMoments,
    compact: bool,
) -> (Seq<char>, Seq<char>) {
    let short = limit_line(f, short_label_text(windows.0), windows.0, m.short, m.today, compact);
    let long = limit_line(
        f,
        weekly_label_text(compact),
        windows.1,
        m.weekly,
        m.today,
        compact,
    );
    if windows.0 is None && windows.1 is Some {
        (long, short)
    } else {
        (short, long)
    }
}

/// The lines of the two windows.
pub fn format_rolling_limit_lines(
    short_window: Option<RateLimitWindow>,
    weekly_window: Option<RateLimitWindow>,
    moments: LimitMoments,
    compact: bool,
    formatter: DisplayFormatter,
) -> (r: (String, String))
    requires
        moments.valid(),
    ensures
        (r.0@, r.1@) == rolling_lines(
            formatter,
            (short_window, weekly_window),
            moments,
            compact,
        ),
{
    let length = match short_window {
        Some(w) => match w.window_duration_mins {
            Some(bits) => format_window_label(bits),
            None => None,
        },
        None => None,
    };
    let short_label = match length {
        Some(t) => {
            let mut text = t;
            text.append(" limit:");
            text
        },
        None => "5h limit:".to_owned(),
    };
    let weekly_label = if compact {
        "7d:"
    } else {
        "Weekly:"
    };
    let short = format_limit_compact_line(
        short_label.as_str(),
        short_window,
        moments.short,
        moments.today,
        compact,
        formatter,
    );
    let long = format_limit_compact_line(
        weekly_label,
        weekly_window,
        moments.weekly,
        moments.today,
        compact,
        formatter,
    );
    if short_window.is_none() && weekly_window.is_some() {
        (long, short)
    } else {
        (short, long)
    }
}

/// A text without control characters and without white space around it.
pub open spec fn tidy(s: Seq<char>) -> Seq<char> {
    trimmed(printable(s))
}

fn tidy_text(s: &str) -> (r: String)
    ensures
        r@ == tidy(s@),
{
    string_of(&trim_chars(&strip_controls(&chars_of(s))))
}

/// The finite number that a text denotes.
pub open spec fn finite_number(s: Seq<char>) -> Option<u64> {
    match double_of_text(s) {
        Some(bits) => if finite(bits) {
            Some(bits)
        } else {
            None
        },
        None => None,
    }
}

fn read_finite(s: &str) -> (r: Option<u64>)
    ensures
        r == finite_number(s@),
        r is Some ==> finite(r->0),
{
    match parse_double(s) {
        Some(bits) => if is_finite(bits) {
            Some(bits)
        } else {
            None
        },
        None => None,
    }
}

/// An amount of credits: a number as a count, any other text as it is but not too long.
pub open spec fn amount_text(f: DisplayFormatter, raw: Seq<char>, number: Option<u64>) -> Seq<
    char,
> {
    match number {
        Some(bits) => number_text(f, at_least_zero(nearest_signed(bits))),
        None => middle_cut(tidy(raw), 12),
    }
}

/// An amount of credits from its text and the number that the text denotes.
pub fn credit_amount_of(raw: &str, number: Option<u64>, formatter: DisplayFormatter) -> (r: String)
    requires
        number is Some ==> finite(number->0),
    ensures
        r@ == amount_text(formatter, raw@, number),
{
    match number {
        Some(bits) => formatter.format_count(round_signed(bits)),
        None => truncate_middle(tidy_text(raw).as_str(), 12),
    }
}

/// An amount of credits.
pub fn format_credit_amount(raw: &str, formatter: DisplayFormatter) -> (r: String)
    ensures
        r@ == amount_text(formatter, raw@, finite_number(tidy(raw@))),
{
    let number = read_finite(tidy_text(raw).as_str());
    credit_amount_of(raw, number, formatter)
}

/// An optional amount of credits.
pub open spec fn opt_amount(f: DisplayFormatter, raw: Option<Seq<char>>) -> Seq<char> {
    match raw {
        Some(t) => amount_text(f, t, finite_number(tidy(t))),
        None => "--"@,
    }
}

fn opt_credit_amount(raw: &Option<String>, formatter: DisplayFormatter) -> (r: String)
    ensures
        r@ == opt_amount(formatter, opt_view(*raw)),
{
    match raw {
        Some(t) => format_credit_amount(t.as_str(), formatter),
        None => "--".to_owned(),
    }
}

/// The first limit on spending among the sets.
pub open spec fn first_spend(buckets: Seq<RateLimitSnapshot>) -> Option<
    crate::codex_rpc::account::SpendControlLimitSnapshot,
>
    decreases buckets.len(),
{
    if buckets.len() == 0 {
        None
    } else if buckets[0].individual_limit is Some {
        buckets[0].individual_limit
    } else {
        first_spend(buckets.skip(1))
    }
}

/// The limit on spending that the card shows: the one at the head, else the first one.
pub open spec fn shown_spend(l: AccountRateLimits) -> Option<
    crate::codex_rpc::account::SpendControlLimitSnapshot,
> {
    match l.individual_limit {
        Some(s) => Some(s),
        None => first_spend(l.buckets@),
    }
}

/// What is left of a limit on spending.
pub open spec fn remaining_text(percent: Option<u64>) -> Seq<char> {
    match percent {
        Some(bits) => if finite(bits) {
            signed_digits(nearest_signed(bits)) + "%"@
        } else {
            "--%"@
        },
        None => "--%"@,
    }
}

/// The lines of the limit on spending.
pub open spec fn spend_lines(
    f: DisplayFormatter,
    l: AccountRateLimits,
    m: LimitMoments,
    compact: bool,
) -> Option<(Seq<char>, Seq<char>)> {
    match shown_spend(l) {
        Some(s) => Some(
            (
                left_aligned("Monthly:"@, LABEL_WIDTH as nat) + remaining_text(s.remaining_percent)
                    + reset_part(f, m.monthly, m.today, compact),
                left_aligned("Credits:"@, LABEL_WIDTH as nat) + opt_amount(f, opt_view(s.used))
                    + "/"@ + opt_amount(f, opt_view(s.limit)) + " used"@,
            ),
        ),
        None => None,
    }
}

fn find_spend(l: &AccountRateLimits) -> (r: Option<
    &crate::codex_rpc::account::SpendControlLimitSnapshot,
>)
    ensures
        match r {
            Some(s) => shown_spend(*l) == Some(*s),
            None => shown_spend(*l) is None,
        },
{
    if let Some(s) = &l.individual_limit {
        return Some(s);
    }
    let mut i: usize = 0;
    assert(l.buckets@.skip(0) =~= l.buckets@);
    while i < l.buckets.len()
        invariant
            i <= l.buckets@.len(),
            l.individual_limit is None,
            first_spend(l.buckets@) == first_spend(l.buckets@.skip(i as int)),
        decreases l.buckets@.len() - i,
    {
        assert(l.buckets@.skip(i as int).skip(1) =~= l.buckets@.skip(i + 1));
        assert(l.buckets@.skip(i as int)[0] == l.buckets@[i as int]);
        if let Some(s) = &l.buckets[i].individual_limit {
            return Some(s);
        }
        i += 1;
    }
    None
}

/// What the lines of two optional texts say.
pub open spec fn pair_view(p: Option<(String, String)>) -> Option<(Seq<char>, Seq<char>)> {
    match p {
        Some((a, b)) => Some((a@, b@)),
        None => None,
    }
}

/// The lines of the limit on spending.
pub fn format_individual_limit_compact_lines(
    l: &AccountRateLimits,
    moments: LimitMoments,
    compact: bool,
    formatter: DisplayFormatter,
) -> (r: Option<(String, String)>)
    requires
        moments.valid(),
    ensures
        pair_view(r) == spend_lines(formatter, *l, moments, compact),
{
    match find_spend(l) {
        Some(s) => {
            let mut monthly = align_left("Monthly:", LABEL_WIDTH);
            match s.remaining_percent {
                Some(bits) => if is_finite(bits) {
                    let mut percent = signed_decimal(round_signed(bits));
                    percent.append("%");
                    monthly.append(percent.as_str());
                } else {
                    monthly.append("--%");
                },
                None => {
                    monthly.append("--%");
                },
            }
            monthly.append(
                reset_suffix(moments.monthly, moments.today, compact, formatter).as_str(),
            );
            let mut used = align_left("Credits:", LABEL_WIDTH);
            used.append(opt_credit_amount(&s.used, formatter).as_str());
            used.append("/");
            used.append(opt_credit_amount(&s.limit, formatter).as_str());
            used.append(" used");
            Some((monthly, used))
        },
        None => None,
    }
}

/// A set of limits is the one at the head.
pub open spec fn is_head(l: AccountRateLimits, b: RateLimitSnapshot) -> bool {
    (l.limit_id is Some && opt_view(b.limit_id) == opt_view(l.limit_id)) || (l.limit_id is None
        && l.limit_name is Some && opt_view(b.limit_name) == opt_view(l.limit_name))
}

/// The first set that is not the one at the head.
pub open spec fn first_other(l: AccountRateLimits, buckets: Seq<RateLimitSnapshot>) -> Option<
    RateLimitSnapshot,
>
    decreases buckets.len(),
{
    if buckets.len() == 0 {
        None
    } else if !is_head(l, buckets[0]) {
        Some(buckets[0])
    } else {
        first_other(l, buckets.skip(1))
    }
}

fn same_opt(a: &Option<String>, b: &Option<String>) -> (r: bool)
    ensures
        r == (opt_view(*a) == opt_view(*b)),
{
    match (a, b) {
        (Some(x), Some(y)) => same(x.as_str(), y.as_str()),
        (None, None) => true,
        _ => false,
    }
}

fn find_other(l: &AccountRateLimits) -> (r: Option<&RateLimitSnapshot>)
    ensures
        match r {
            Some(b) => first_other(*l, l.buckets@) == Some(*b),
            None => first_other(*l, l.buckets@) is None,
        },
{
    let mut i: usize = 0;
    assert(l.buckets@.skip(0) =~= l.buckets@);
    while i < l.buckets.len()
        invariant
            i <= l.buckets@.len(),
            first_other(*l, l.buckets@) == first_other(*l, l.buckets@.skip(i as int)),
        decreases l.buckets@.len() - i,
    {
        assert(l.buckets@.skip(i as int).skip(1) =~= l.buckets@.skip(i + 1));
        assert(l.buckets@.skip(i as int)[0] == l.buckets@[i as int]);
        let b = &l.buckets[i];
        let head = (l.limit_id.is_some() && same_opt(&b.limit_id, &l.limit_id)) || (
        l.limit_id.is_none() && l.limit_name.is_some() && same_opt(&b.limit_name, &l.limit_name));
        if !head {
            return Some(b);
        }
        i += 1;
    }
    None
}

/// A text without one prefix, where it has it.
pub open spec fn without_prefix(s: Seq<char>, prefix: Seq<char>) -> Seq<char> {
    if s.len() >= prefix.len() && s.take(prefix.len() as int) == prefix {
        s.skip(prefix.len() as int)
    } else {
        s
    }
}

fn drop_prefix(s: Vec<char>, prefix: &str) -> (r: Vec<char>)
    ensures
        r@ == without_prefix(s@, prefix@),
{
    let head = chars_of(prefix);
    if s.len() < head.len() {
        return s;
    }
    let mut i: usize = 0;
    while i < head.len()
        invariant
            i <= head@.len() <= s@.len(),
            head@ == prefix@,
            forall|k: int| 0 <= k < i ==> s@[k] == #[trigger] head@[k],
        decreases head@.len() - i,
    {
        if s[i] != head[i] {
            assert(s@.take(prefix@.len() as int)[i as int] != prefix@[i as int]);
            return s;
        }
        i += 1;
    }
    assert(s@.take(prefix@.len() as int) =~= prefix@);
    let total: usize = s.len();
    let out = crate::text::slice_of(&s, i, total);
    assert(out@ =~= s@.skip(prefix@.len() as int));
    out
}

/// The label of a further set of limits.
pub open spec fn bucket_label(b: RateLimitSnapshot) -> Seq<char> {
    let raw = match b.limit_name {
        Some(n) => n@,
        None => match b.limit_id {
            Some(n) => n@,
            None => "Other"@,
        },
    };
    let name = tidy(without_prefix(trimmed(raw), "GPT-"@));
    if name.len() == 0 {
        "Other:"@
    } else {
        middle_cut(name, 9) + ":"@
    }
}

/// The label of a further set of limits.
pub fn compact_bucket_label(bucket: &RateLimitSnapshot) -> (r: String)
    ensures
        r@ == bucket_label(*bucket),
{
    let raw = match &bucket.limit_name {
        Some(n) => n.as_str(),
        None => match &bucket.limit_id {
            Some(n) => n.as_str(),
            None => "Other",
        },
    };
    let shorter = drop_prefix(trim_chars(&chars_of(raw)), "GPT-");
    let name = trim_chars(&strip_controls(&shorter));
    if name.len() == 0 {
        return "Other:".to_owned();
    }
    let mut text = truncate_middle(string_of(&name).as_str(), 9);
    text.append(":");
    text
}

/// The window of a further set of limits that the card shows.
pub open spec fn bucket_window(b: RateLimitSnapshot) -> Option<RateLimitWindow> {
    match b.primary {
        Some(w) => Some(w),
        None => b.secondary,
    }
}

/// The line of a further set of limits.
pub open spec fn extra_line(
    f: DisplayFormatter,
    l: AccountRateLimits,
    m: LimitMoments,
    compact: bool,
) -> Option<Seq<char>> {
    match first_other(l, l.buckets@) {
        Some(b) => match bucket_window(b) {
            Some(w) => Some(
                limit_line(f, bucket_label(b), Some(w), m.extra, m.today, compact),
            ),
            None => None,
        },
        None => None,
    }
}

/// The line of a further set of limits.
pub fn format_extra_bucket_compact_line(
    l: &AccountRateLimits,
    moments: LimitMoments,
    compact: bool,
    formatter: DisplayFormatter,
) -> (r: Option<String>)
    requires
        moments.valid(),
    ensures
        opt_view(r) == extra_line(formatter, *l, moments, compact),
{
    match find_other(l) {
        Some(b) => {
            let window = match b.primary {
                Some(w) => Some(w),
                None => b.secondary,
            };
            if window.is_none() {
                return None;
            }
            let label = compact_bucket_label(b);
            Some(
                format_limit_compact_line(
                    label.as_str(),
                    window,
                    moments.extra,
                    moments.today,
                    compact,
                    formatter,
                ),
            )
        },
        None => None,
    }
}

/// The balance of credits: a number as a count, any other text as it is.
pub open spec fn balance_text(f: DisplayFormatter, name: Seq<char>, number: Option<u64>) -> Seq<
    char,
> {
    match number {
        Some(bits) => number_text(f, at_least_zero(nearest_signed(bits))) + " credits"@,
        None => name + " credits"@,
    }
}

/// The line of the credits, where there is anything to say of them.
pub open spec fn credits_line(f: DisplayFormatter, l: AccountRateLimits) -> Option<Seq<char>> {
    match l.credits {
        Some(c) => if !c.has_credits {
            None
        } else if c.unlimited {
            Some(left_aligned("Credits:"@, LABEL_WIDTH as nat) + "Unlimited"@)
        } else {
            match c.balance {
                Some(b) => {
                    let name = tidy(trimmed(b@));
                    if trimmed(b@).len() == 0 || name.len() == 0 {
                        None
                    } else {
                        Some(
                            left_aligned("Credits:"@, LABEL_WIDTH as nat) + balance_text(
                                f,
                                name,
                                finite_number(name),
                            ),
                        )
                    }
                },
                None => None,
            }
        },
        None => None,
    }
}

/// The balance of credits from its text and the number that the text denotes.
pub fn balance_of(name: &str, number: Option<u64>, formatter: DisplayFormatter) -> (r: String)
    requires
        number is Some ==> finite(number->0),
    ensures
        r@ == balance_text(formatter, name@, number),
{
    let mut text = match number {
        Some(bits) => formatter.format_count(round_signed(bits)),
        None => name.to_owned(),
    };
    text.append(" credits");
    text
}

/// The line of the credits, where there is anything to say of them.
pub fn format_credits_compact_line(l: &AccountRateLimits, formatter: DisplayFormatter) -> (r:
    Option<String>)
    ensures
        opt_view(r) == credits_line(formatter, *l),
{
    let c = match &l.credits {
        Some(c) => c,
        None => {
            return None;
        },
    };
    if !c.has_credits {
        return None;
    }
    let mut text = align_left("Credits:", LABEL_WIDTH);
    if c.unlimited {
        text.append("Unlimited");
        return Some(text);
    }
    let raw = match &c.balance {
        Some(b) => trim_chars(&chars_of(b.as_str())),
        None => {
            return None;
        },
    };
    if raw.len() == 0 {
        return None;
    }
    let name = trim_chars(&strip_controls(&raw));
    if name.len() == 0 {
        return None;
    }
    let shown = string_of(&name);
    let number = read_finite(shown.as_str());
    text.append(balance_of(shown.as_str(), number, formatter).as_str());
    Some(text)
}

/// The line of the credits, or that nothing is known of them.
pub open spec fn credits_or_dashes(f: DisplayFormatter, l: AccountRateLimits) -> Seq<char> {
    match credits_line(f, l) {
        Some(t) => t,
        None => "Credits:  --"@,
    }
}

/// The lines of the limits card: those of the limit on spending first, where there is one; else the
/// windows, a further set of limits and the credits.
pub open spec fn card_lines(
    f: DisplayFormatter,
    l: AccountRateLimits,
    m: LimitMoments,
    compact: bool,
) -> Seq<Seq<char>> {
    let (first, second) = rolling_lines(f, shown_windows(l), m, compact);
    match spend_lines(f, l, m, compact) {
        Some((monthly, used)) => seq![monthly, used, first, second],
        None => match extra_line(f, l, m, compact) {
            Some(extra) => seq![first, second, extra, credits_or_dashes(f, l)],
            None => seq![first, second, credits_or_dashes(f, l)],
        },
    }
}

/// The lines of the limits card.
pub fn limits_lines(
    l: &AccountRateLimits,
    moments: LimitMoments,
    compact: bool,
    formatter: DisplayFormatter,
) -> (r: Vec<String>)
    requires
        moments.valid(),
    ensures
        crate::text::views(r@) == card_lines(formatter, *l, moments, compact),
{
    let (short_window, weekly_window) = rolling_windows_for_limits(l);
    let (first, second) = format_rolling_limit_lines(
        short_window,
        weekly_window,
        moments,
        compact,
        formatter,
    );
    let mut out: Vec<String> = Vec::new();
    let ghost want = card_lines(formatter, *l, moments, compact);
    if let Some((monthly, used)) = format_individual_limit_compact_lines(
        l,
        moments,
        compact,
        formatter,
    ) {
        out.push(monthly);
        out.push(used);
        out.push(first);
        out.push(second);
        assert(crate::text::views(out@) =~= want);
        return out;
    }
    out.push(first);
    out.push(second);
    if let Some(extra) = format_extra_bucket_compact_line(l, moments, compact, formatter) {
        out.push(extra);
    }
    out.push(
        match format_credits_compact_line(l, formatter) {
            Some(t) => t,
            None => "Credits:  --".to_owned(),
        },
    );
    assert(crate::text::views(out@) =~= want);
    out
}

/// When a window resets.
pub open spec fn window_reset(window: Option<RateLimitWindow>) -> Option<i64> {
    match window {
        Some(w) => w.resets_at,
        None => None,
    }
}

fn window_moment(window: Option<RateLimitWindow>) -> (r: Option<Moment>)
    ensures
        calendar_moment(r),
        opt_moment_fits(window_reset(window), r),
{
    match window {
        Some(w) => opt_moment_at(w.resets_at),
        None => None,
    }
}

/// Each limit that names a time within the calendar has its moment in some time zone, and no other
/// limit has one.
pub open spec fn moments_fit(l: AccountRateLimits, m: LimitMoments) -> bool {
    let (short, long) = shown_windows(l);
    &&& m.valid()
    &&& opt_moment_fits(window_reset(short), m.short)
    &&& opt_moment_fits(window_reset(long), m.weekly)
    &&& match shown_spend(l) {
        Some(s) => opt_moment_fits(s.resets_at, m.monthly),
        None => m.monthly is None,
    }
    &&& match first_other(l, l.buckets@) {
        Some(b) => opt_moment_fits(window_reset(bucket_window(b)), m.extra),
        None => m.extra is None,
    }
}

/// The lines of the limits card, with the times in the machine's time zone. Which zone that is and
/// what day it is are left open.
pub fn format_limits_compact_card_lines(
    l: &AccountRateLimits,
    compact: bool,
    formatter: DisplayFormatter,
) -> (r: Vec<String>)
    ensures
        exists|m: LimitMoments|
            moments_fit(*l, m) && crate::text::views(r@) == #[trigger] card_lines(
                formatter,
                *l,
                m,
                compact,
            ),
{
    let (short_window, weekly_window) = rolling_windows_for_limits(l);
    let monthly = match find_spend(l) {
        Some(s) => opt_moment_at(s.resets_at),
        None => None,
    };
    let extra = match find_other(l) {
        Some(b) => window_moment(
            match b.primary {
                Some(w) => Some(w),
                None => b.secondary,
            },
        ),
        None => None,
    };
    let moments = LimitMoments {
        today: local_today().date,
        short: window_moment(short_window),
        weekly: window_moment(weekly_window),
        monthly,
        extra,
    };
    assert(moments_fit(*l, moments));
    limits_lines(l, moments, compact, formatter)
}

} // verus!
