//! Values in words and figures.

use crate::calendar::{parse_date, parsed_date};
use crate::decimal::{decimal, decimal_padded, digits, padded};
use crate::locale::{chart_day, number_text, short_date, DisplayFormatter, DisplayStyle};
use crate::text::{byte_len, str_fits, string_of};
use crate::usage::format::at_least_zero;
use crate::usage::labels::{compact_text, overview_text, tokens_text};
use crate::usage::snapshot::UsageMetric;
use vstd::prelude::*;

verus! {

/// How long ago data was updated.
pub open spec fn updated_text(secs: nat) -> Seq<char> {
    if secs < 10 {
        "Updated just now"@
    } else if secs < 60 {
        "Updated "@ + digits(secs) + "s ago"@
    } else if secs < 3600 {
        "Updated "@ + digits(secs / 60) + "m ago"@
    } else {
        "Updated "@ + digits(secs / 3600) + "h ago"@
    }
}

/// How long ago data was updated, from the seconds since.
pub fn format_updated_label(secs: u64) -> (r: String)
    ensures
        r@ == updated_text(secs as nat),
{
    if secs < 10 {
        return "Updated just now".to_owned();
    }
    let mut text = "Updated ".to_owned();
    if secs < 60 {
        text.append(decimal(secs).as_str());
        text.append("s ago");
    } else if secs < 3600 {
        text.append(decimal(secs / 60).as_str());
        text.append("m ago");
    } else {
        text.append(decimal(secs / 3600).as_str());
        text.append("h ago");
    }
    text
}

/// The label of an optional time of update.
pub fn updated_or_dashes(elapsed_secs: Option<u64>) -> (r: String)
    ensures
        r@ == (match elapsed_secs {
            Some(secs) => updated_text(secs as nat),
            None => "Updated --"@,
        }),
{
    match elapsed_secs {
        Some(secs) => format_updated_label(secs),
        None => "Updated --".to_owned(),
    }
}

/// The label of a metric on the chart.
pub open spec fn chart_metric_text(metric: UsageMetric) -> Seq<char> {
    match metric {
        UsageMetric::Tokens => "TOKENS (TOTAL / NON-CACHED)"@,
        UsageMetric::Time => "TIME"@,
        UsageMetric::Runs => "RUNS"@,
    }
}

/// The label of a metric on the chart.
pub fn usage_chart_metric_label(metric: UsageMetric) -> (r: &'static str)
    ensures
        r@ == chart_metric_text(metric),
{
    match metric {
        UsageMetric::Tokens => "TOKENS (TOTAL / NON-CACHED)",
        UsageMetric::Time => "TIME",
        UsageMetric::Runs => "RUNS",
    }
}

/// A number of 64 bits read as a signed one.
pub open spec fn as_signed(value: u64) -> int {
    if value <= i64::MAX {
        value as int
    } else {
        value - 0x1_0000_0000_0000_0000
    }
}

fn to_signed(value: u64) -> (r: i64)
    ensures
        r == as_signed(value),
{
    if value <= i64::MAX as u64 {
        value as i64
    } else {
        -((u64::MAX - value) as i64) - 1
    }
}

/// A token total inside a bar: compact where it is too wide, but never in the full style.
pub open spec fn vertical_tokens(f: DisplayFormatter, value: u64, width: nat) -> Seq<char> {
    let preferred = match f.style {
        DisplayStyle::Classic => digits(value as nat),
        DisplayStyle::SystemCompact => tokens_text(f, as_signed(value)),
        DisplayStyle::SystemFull => number_text(f, value as nat),
    };
    if byte_len(preferred) <= width || f.style == DisplayStyle::SystemFull {
        preferred
    } else {
        compact_text(f, value as nat, width)
    }
}

/// A token total inside a bar.
pub fn format_vertical_token_value(
    value: u64,
    max_width: u16,
    formatter: DisplayFormatter,
) -> (r: String)
    ensures
        r@ == vertical_tokens(formatter, value, max_width as nat),
{
    let preferred = match formatter.style {
        DisplayStyle::Classic => decimal(value),
        DisplayStyle::SystemCompact => formatter.tokens_compact(to_signed(value)),
        DisplayStyle::SystemFull => formatter.format_u64(value),
    };
    if str_fits(preferred.as_str(), max_width as usize) || formatter.style
        == DisplayStyle::SystemFull {
        preferred
    } else {
        formatter.compact_kmb(value, max_width)
    }
}

/// A day of the chart; a text that is no date as it is.
pub open spec fn chart_day_text(f: DisplayFormatter, day: Seq<char>) -> Seq<char> {
    match parsed_date(day) {
        Some(date) => chart_day(f, date),
        None => day,
    }
}

/// A day of the chart.
pub fn format_day_label_weekday_mmdd(day: &str, formatter: DisplayFormatter) -> (r: String)
    ensures
        r@ == chart_day_text(formatter, day@),
{
    match parse_date(day) {
        Some(date) => formatter.format_chart_day(date),
        None => day.to_owned(),
    }
}

/// A day in short; a text that is no date as it is.
pub open spec fn short_day_text(f: DisplayFormatter, day: Seq<char>) -> Seq<char> {
    match parsed_date(day) {
        Some(date) => short_date(f, date),
        None => day,
    }
}

/// A day in short.
pub fn format_activity_date_short(day: &str, formatter: DisplayFormatter) -> (r: String)
    ensures
        r@ == short_day_text(formatter, day@),
{
    match parse_date(day) {
        Some(date) => formatter.format_short_date(date),
        None => day.to_owned(),
    }
}

/// Minutes as hours and minutes, at most what two digits of hours hold.
pub open spec fn hours_minutes(minutes: nat) -> Seq<char> {
    if minutes / 60 > 99 {
        "99:59"@
    } else {
        padded(minutes / 60, 2) + seq![':'] + padded(minutes % 60, 2)
    }
}

/// Minutes as hours and minutes.
pub fn format_minutes_hhmm(total_minutes: u64) -> (r: String)
    ensures
        r@ == hours_minutes(total_minutes as nat),
{
    if total_minutes / 60 > 99 {
        return "99:59".to_owned();
    }
    let mut out = decimal_padded(total_minutes / 60, 2);
    out.push(':');
    let rest = decimal_padded(total_minutes % 60, 2);
    crate::text::extend(&mut out, &rest);
    assert(out@ =~= hours_minutes(total_minutes as nat));
    string_of(&out)
}

/// How wide the two parts of a pair of totals may be.
pub open spec fn pair_widths(width: int) -> (int, int) {
    let both = width - 1;
    let wanted = both * 2 / 3;
    let left = if wanted < 1 {
        1
    } else if wanted > both - 1 {
        both - 1
    } else {
        wanted
    };
    (left, both - left)
}

/// A single value beside a bar.
pub open spec fn single_value(
    f: DisplayFormatter,
    value: u64,
    metric: UsageMetric,
    width: nat,
) -> Seq<char> {
    let full = match metric {
        UsageMetric::Tokens => overview_text(f, as_signed(value)),
        UsageMetric::Time => hours_minutes(value as nat),
        UsageMetric::Runs => number_text(f, at_least_zero(as_signed(value))),
    };
    if byte_len(full) <= width || (metric == UsageMetric::Tokens && f.style
        == DisplayStyle::SystemFull) {
        full
    } else {
        compact_text(f, value as nat, width)
    }
}

/// A value beside a bar: for tokens the total and what was not cached. Where there is no room, the
/// parts are compact, but never in the full style.
pub open spec fn horizontal_value(
    f: DisplayFormatter,
    value: u64,
    out_of_cache: Option<u64>,
    metric: UsageMetric,
    width: nat,
) -> Seq<char> {
    if width == 0 {
        Seq::empty()
    } else if metric == UsageMetric::Tokens && out_of_cache is Some {
        let pair = overview_text(f, as_signed(value)) + " / "@ + overview_text(
            f,
            as_signed(out_of_cache->0),
        );
        if byte_len(pair) <= width || f.style == DisplayStyle::SystemFull {
            pair
        } else if width >= 3 {
            let (left, right) = pair_widths(width as int);
            compact_text(f, value as nat, left as nat) + " / "@ + compact_text(
                f,
                out_of_cache->0 as nat,
                right as nat,
            )
        } else {
            single_value(f, value, metric, width)
        }
    } else {
        single_value(f, value, metric, width)
    }
}

/// A value beside a bar.
pub fn format_horizontal_value(
    value: u64,
    out_of_cache_tokens: Option<u64>,
    metric: UsageMetric,
    max_width: u16,
    formatter: DisplayFormatter,
) -> (r: String)
    ensures
        r@ == horizontal_value(formatter, value, out_of_cache_tokens, metric, max_width as nat),
{
    if max_width == 0 {
        proof {
            reveal_strlit("");
            assert(""@ =~= Seq::<char>::empty());
        }
        return "".to_owned();
    }
    if metric == UsageMetric::Tokens {
        if let Some(out_of_cache) = out_of_cache_tokens {
            let mut pair = formatter.tokens_overview(to_signed(value));
            pair.append(" / ");
            pair.append(formatter.tokens_overview(to_signed(out_of_cache)).as_str());
            if str_fits(pair.as_str(), max_width as usize) || formatter.style
                == DisplayStyle::SystemFull {
                return pair;
            }
            if max_width >= 3 {
                let both: u16 = max_width - 1;
                let wanted: u16 = ((both as u32) * 2 / 3) as u16;
                let left: u16 = if wanted < 1 {
                    1
                } else if wanted > both - 1 {
                    both - 1
                } else {
                    wanted
                };
                let mut compact = formatter.compact_kmb(value, left);
                compact.append(" / ");
                compact.append(formatter.compact_kmb(out_of_cache, both - left).as_str());
                return compact;
            }
        }
    }
    let full = match metric {
        UsageMetric::Tokens => formatter.tokens_overview(to_signed(value)),
        UsageMetric::Time => format_minutes_hhmm(value),
        UsageMetric::Runs => formatter.format_count(to_signed(value)),
    };
    if str_fits(full.as_str(), max_width as usize) || (metric == UsageMetric::Tokens
        && formatter.style == DisplayStyle::SystemFull) {
        full
    } else {
        formatter.compact_kmb(value, max_width)
    }
}

/// The full style keeps totals in full, however little room there is.
pub proof fn full_style_keeps_totals(
    f: DisplayFormatter,
    value: u64,
    out_of_cache: u64,
    width: nat,
)
    requires
        f.style == DisplayStyle::SystemFull,
        width > 0,
        value <= i64::MAX,
        out_of_cache <= i64::MAX,
    ensures
        vertical_tokens(f, value, width) == number_text(f, value as nat),
        horizontal_value(f, value, Some(out_of_cache), UsageMetric::Tokens, width) == number_text(
            f,
            value as nat,
        ) + " / "@ + number_text(f, out_of_cache as nat),
{
}

/// A duration in words, without its seconds.
pub open spec fn duration_words(ms: int) -> Seq<char> {
    let minutes = at_least_zero(ms) / 60000;
    let hours = minutes / 60;
    let rest = digits(minutes % 60) + " min"@;
    let hour_text = digits(hours) + (if hours == 1 {
        " hour"@
    } else {
        " hours"@
    });
    if hours == 0 {
        rest
    } else if minutes % 60 == 0 {
        hour_text
    } else {
        hour_text + " "@ + rest
    }
}

/// A duration in words.
pub fn format_duration_words(ms: i64) -> (r: String)
    ensures
        r@ == duration_words(ms as int),
{
    let total: u64 = if ms < 0 {
        0
    } else {
        ms as u64
    };
    let minutes: u64 = total / 60000;
    let hours: u64 = minutes / 60;
    if hours == 0 {
        let mut text = decimal(minutes % 60);
        text.append(" min");
        return text;
    }
    let mut text = decimal(hours);
    if hours == 1 {
        text.append(" hour");
    } else {
        text.append(" hours");
    }
    if minutes % 60 > 0 {
        text.append(" ");
        let mut rest = decimal(minutes % 60);
        rest.append(" min");
        text.append(rest.as_str());
    }
    text
}

} // verus!
