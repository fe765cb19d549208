//! The usage chart.

use crate::app::state::{sat16, ChartOrientation, ChartRange, Rect};
use crate::decimal::{decimal, digits};
use crate::locale::DisplayFormatter;
use crate::text::{byte_count, byte_len, chars_of, middle_cut, str_fits, truncate_middle};
use crate::ui::drawing::{
    draw_fill, draw_text, drawn, filled, filled_cells, first_chars, take_chars, Drawn, Look, Stroke,
};
use crate::ui::geometry::{
    all_fit, bar_layout, compute_bar_layout, demands, extents, inset,
    inset_with_border_and_padding, less, split_rows, Padding, Share,
};
use crate::ui::values::{
    chart_day_text, format_day_label_weekday_mmdd, format_horizontal_value, format_minutes_hhmm,
    format_vertical_token_value, horizontal_value, hours_minutes, vertical_tokens,
};
use crate::usage::labels::{
    byte_range, compact_text, day_key_cuts, day_of_month_text, styled_day_label,
};
use crate::usage::snapshot::{LocalUsageSnapshot, UsageDay, UsageMetric};
use crate::usage::summary::{keys_cut, last_of};
use vstd::prelude::*;

verus! {

/// How many days a range covers.
pub open spec fn range_days(range: ChartRange) -> nat {
    match range {
        ChartRange::Month => 30,
        _ => 7,
    }
}

/// The title of the chart.
pub open spec fn range_title(range: ChartRange) -> Seq<char> {
    match range {
        ChartRange::Month => "Last 30 days"@,
        _ => "Last 7 days"@,
    }
}

/// The title of the chart.
pub fn range_label(range: ChartRange) -> (r: &'static str)
    ensures
        r@ == range_title(range),
{
    match range {
        ChartRange::Month => "Last 30 days",
        _ => "Last 7 days",
    }
}

/// The days of the chart.
pub fn chart_days(snapshot: &LocalUsageSnapshot, range: ChartRange) -> (r: Vec<UsageDay>)
    ensures
        r@ == last_of(snapshot.days@, range_days(range)),
{
    match range {
        ChartRange::Month => snapshot.last_n_days(30),
        _ => snapshot.last7_days(),
    }
}

/// A bar: its label, its value, and for tokens what was not cached.
#[derive(Debug)]
pub struct ChartColumn {
    pub label: String,
    pub value: u64,
    pub out_of_cache: u64,
}

/// `n`, at least zero.
pub open spec fn positive(n: int) -> int {
    if n < 0 {
        0
    } else {
        n
    }
}

/// The label of a bar.
pub open spec fn column_label(
    f: DisplayFormatter,
    day: Seq<char>,
    range: ChartRange,
    orientation: ChartOrientation,
) -> Seq<char> {
    if orientation == ChartOrientation::Horizontal {
        chart_day_text(f, day)
    } else if range == ChartRange::Month && byte_len(day) == 10 {
        byte_range(day, 8, 10)
    } else {
        styled_day_label(f, day)
    }
}

/// The value of a bar; time counts in minutes.
pub open spec fn column_value(day: UsageDay, metric: UsageMetric) -> int {
    match metric {
        UsageMetric::Tokens => positive(day.total_tokens as int),
        UsageMetric::Time => positive(day.agent_time_ms as int) / 60000,
        UsageMetric::Runs => positive(day.agent_runs as int),
    }
}

/// A bar shows a day.
pub open spec fn is_column(
    c: ChartColumn,
    day: UsageDay,
    f: DisplayFormatter,
    metric: UsageMetric,
    range: ChartRange,
    orientation: ChartOrientation,
) -> bool {
    &&& c.label@ == column_label(f, day.day@, range, orientation)
    &&& c.value == column_value(day, metric)
    &&& c.out_of_cache == positive(day.total_tokens - day.cached_input_tokens)
}

fn at_least_zero_u64(n: i64) -> (r: u64)
    ensures
        r == positive(n as int),
{
    if n < 0 {
        0
    } else {
        n as u64
    }
}

/// The bars of days.
pub fn chart_columns(
    days: &Vec<UsageDay>,
    metric: UsageMetric,
    range: ChartRange,
    orientation: ChartOrientation,
    formatter: DisplayFormatter,
) -> (r: Vec<ChartColumn>)
    requires
        keys_cut(days@),
    ensures
        r@.len() == days@.len(),
        forall|i: int|
            0 <= i < r@.len() ==> is_column(
                #[trigger] r@[i],
                days@[i],
                formatter,
                metric,
                range,
                orientation,
            ) && r@[i].value <= i64::MAX,
{
    let mut out: Vec<ChartColumn> = Vec::new();
    let mut i: usize = 0;
    while i < days.len()
        invariant
            i <= days@.len(),
            keys_cut(days@),
            out@.len() == i,
            forall|k: int|
                0 <= k < i ==> is_column(
                    #[trigger] out@[k],
                    days@[k],
                    formatter,
                    metric,
                    range,
                    orientation,
                ) && out@[k].value <= i64::MAX,
        decreases days@.len() - i,
    {
        let day = &days[i];
        assert(day_key_cuts(days@[i as int].day@));
        let text = day.day.as_str();
        let label = if orientation == ChartOrientation::Horizontal {
            format_day_label_weekday_mmdd(text, formatter)
        } else if range == ChartRange::Month && str_fits(text, 10) && !str_fits(text, 9) {
            day_of_month_text(text)
        } else {
            formatter.short_day(text)
        };
        let value: u64 = match metric {
            UsageMetric::Tokens => at_least_zero_u64(day.total_tokens),
            UsageMetric::Time => at_least_zero_u64(day.agent_time_ms) / 60000,
            UsageMetric::Runs => at_least_zero_u64(day.agent_runs),
        };
        let rest: i128 = day.total_tokens as i128 - day.cached_input_tokens as i128;
        let out_of_cache: u64 = if rest < 0 {
            0
        } else {
            rest as u64
        };
        out.push(ChartColumn { label, value, out_of_cache });
        i += 1;
    }
    out
}

/// The largest value, at least one.
pub open spec fn largest(columns: Seq<ChartColumn>) -> int
    decreases columns.len(),
{
    if columns.len() == 0 {
        1
    } else {
        let before = largest(columns.drop_last());
        if columns.last().value > before {
            columns.last().value as int
        } else {
            before
        }
    }
}

fn largest_value(columns: &Vec<ChartColumn>, from: usize) -> (r: u64)
    requires
        from <= columns@.len(),
    ensures
        r == largest(columns@.skip(from as int)),
        r >= 1,
{
    let mut best: u64 = 1;
    let mut i: usize = from;
    let ghost shown = columns@.skip(from as int);
    assert(shown.take(0) =~= Seq::<ChartColumn>::empty());
    while i < columns.len()
        invariant
            from <= i <= columns@.len(),
            shown == columns@.skip(from as int),
            best == largest(shown.take(i - from)),
            best >= 1,
        decreases columns@.len() - i,
    {
        let ghost next = shown.take(i - from + 1);
        assert(next.drop_last() =~= shown.take(i - from));
        assert(next.last() == columns@[i as int]);
        if columns[i].value > best {
            best = columns[i].value;
        }
        i += 1;
    }
    assert(shown.take(i - from) =~= shown);
    best
}

/// The text inside an upright bar.
pub open spec fn bar_text(
    f: DisplayFormatter,
    metric: UsageMetric,
    value: u64,
    width: nat,
) -> Seq<char> {
    match metric {
        UsageMetric::Tokens => vertical_tokens(f, value, width),
        UsageMetric::Time => if byte_len(hours_minutes(value as nat)) <= width {
            hours_minutes(value as nat)
        } else if width >= 4 {
            compact_text(f, value as nat, width)
        } else {
            Seq::empty()
        },
        UsageMetric::Runs => if byte_len(digits(value as nat)) <= width {
            digits(value as nat)
        } else {
            compact_text(f, value as nat, width)
        },
    }
}

fn text_in_bar(metric: UsageMetric, value: u64, width: u16, formatter: DisplayFormatter) -> (r:
    String)
    ensures
        r@ == bar_text(formatter, metric, value, width as nat),
{
    match metric {
        UsageMetric::Tokens => format_vertical_token_value(value, width, formatter),
        UsageMetric::Time => {
            let raw = format_minutes_hhmm(value);
            if str_fits(raw.as_str(), width as usize) {
                raw
            } else if width >= 4 {
                formatter.compact_kmb(value, width)
            } else {
                proof {
                    reveal_strlit("");
                    assert(""@ =~= Seq::<char>::empty());
                }
                "".to_owned()
            }
        },
        UsageMetric::Runs => {
            let raw = decimal(value);
            if str_fits(raw.as_str(), width as usize) {
                raw
            } else {
                formatter.compact_kmb(value, width)
            }
        },
    }
}

/// Text in the middle of a row of cells, cut where it is too long. The middle is found by the number
/// of bytes of the text.
pub open spec fn centered_text(x: int, width: int, row: int, text: Seq<char>, look: Look) -> Drawn {
    let cut = middle_cut(text, width as nat);
    Drawn::Text(
        x + less(width, (byte_len(cut) % 65536) as int) / 2,
        row,
        first_chars(cut, width),
        look,
    )
}

fn draw_centered(out: &mut Vec<Stroke>, x: u16, width: u16, row: u16, text: &str, look: Look)
    requires
        x + width <= u16::MAX,
    ensures
        drawn(final(out)@) == drawn(old(out)@).push(
            centered_text(x as int, width as int, row as int, text@, look),
        ),
{
    let cut = chars_of(truncate_middle(text, width as usize).as_str());
    let bytes: u16 = (byte_count(&cut) % 65536) as u16;
    let column: u16 = x + width.saturating_sub(bytes) / 2;
    draw_text(out, column, row, take_chars(&cut, width as usize), look);
}

/// Where an upright bar starts.
pub open spec fn bar_start(bars: Rect, i: int, bar_width: int, gap: int) -> int {
    sat16(bars.x + sat16(i * sat16(bar_width + gap)))
}

/// An upright bar: its cells are cleared and filled from the bottom; the value stands in the bar one
/// row above its foot where there is room, the label below it.
pub open spec fn upright_bar(
    f: DisplayFormatter,
    metric: UsageMetric,
    c: ChartColumn,
    max: int,
    bars: Rect,
    label_row: int,
    x: int,
    width: int,
    odd: bool,
) -> Seq<Drawn> {
    let height = filled(bars.height as int, c.value as int, max);
    let bottom = bars.y + bars.height - 1;
    let cleared = seq![
        Drawn::Fill(
            Rect { x: x as u16, y: bars.y, width: width as u16, height: bars.height },
            Look::Keep,
        ),
    ];
    let colored = if height > 0 {
        cleared.push(
            Drawn::Fill(
                Rect {
                    x: x as u16,
                    y: (bottom - (height - 1)) as u16,
                    width: width as u16,
                    height: height as u16,
                },
                Look::Bar(odd),
            ),
        )
    } else {
        cleared
    };
    let named = if bars.height >= 3 && height >= 2 {
        colored.push(
            centered_text(
                x,
                width,
                bottom - 1,
                bar_text(f, metric, c.value, width as nat),
                Look::OnBar(odd),
            ),
        )
    } else {
        colored
    };
    named.push(centered_text(x, width, label_row, c.label@, Look::Gray))
}

/// The upright bars from the `i`-th on, up to the right edge.
pub open spec fn upright_bars(
    f: DisplayFormatter,
    metric: UsageMetric,
    columns: Seq<ChartColumn>,
    bars: Rect,
    label_row: int,
    layout: (int, int),
    i: int,
) -> Seq<Drawn>
    decreases columns.len() - i,
{
    let x = bar_start(bars, i, layout.0, layout.1);
    let right = bars.x + bars.width;
    if i >= columns.len() || x >= right {
        Seq::empty()
    } else {
        let width = if layout.0 < right - x {
            layout.0
        } else {
            right - x
        };
        upright_bar(
            f,
            metric,
            columns[i],
            largest(columns),
            bars,
            label_row,
            x,
            width,
            i % 2 != 0,
        ) + upright_bars(f, metric, columns, bars, label_row, layout, i + 1)
    }
}

fn draw_upright_bar(
    out: &mut Vec<Stroke>,
    c: &ChartColumn,
    max: u64,
    metric: UsageMetric,
    bars: Rect,
    label_row: u16,
    place: (u16, u16),
    odd: bool,
    formatter: DisplayFormatter,
)
    requires
        0 < max,
        c.value <= i64::MAX,
        bars.height > 0,
        bars.y + bars.height <= u16::MAX,
        place.0 + place.1 <= u16::MAX,
    ensures
        drawn(final(out)@) == drawn(old(out)@) + upright_bar(
            formatter,
            metric,
            *c,
            max as int,
            bars,
            label_row as int,
            place.0 as int,
            place.1 as int,
            odd,
        ),
{
    let ghost before = drawn(out@);
    let (x, width) = place;
    let height: u16 = filled_cells(bars.height, c.value, max);
    let bottom: u16 = bars.y + (bars.height - 1);
    draw_fill(out, Rect { x, y: bars.y, width, height: bars.height }, Look::Keep);
    if height > 0 {
        draw_fill(
            out,
            Rect { x, y: bottom - (height - 1), width, height },
            Look::Bar(odd),
        );
    }
    if bars.height >= 3 && height >= 2 {
        let text = text_in_bar(metric, c.value, width, formatter);
        draw_centered(out, x, width, bottom - 1, text.as_str(), Look::OnBar(odd));
    }
    draw_centered(out, x, width, label_row, c.label.as_str(), Look::Gray);
    assert(drawn(out@) =~= before + upright_bar(
        formatter,
        metric,
        *c,
        max as int,
        bars,
        label_row as int,
        x as int,
        width as int,
        odd,
    ));
}

/// Draws upright bars in an area, with the labels in a row of their own.
pub fn draw_upright_bars(
    columns: &Vec<ChartColumn>,
    metric: UsageMetric,
    bars: Rect,
    label_row: u16,
    formatter: DisplayFormatter,
) -> (r: Vec<Stroke>)
    requires
        columns@.len() <= u16::MAX,
        forall|i: int| 0 <= i < columns@.len() ==> (#[trigger] columns@[i]).value <= i64::MAX,
        bars.height > 0,
        bars.x + bars.width <= u16::MAX,
        bars.y + bars.height <= u16::MAX,
    ensures
        drawn(r@) == upright_bars(
            formatter,
            metric,
            columns@,
            bars,
            label_row as int,
            bar_layout(bars.width as int, columns@.len() as int, 0),
            0,
        ),
{
    let (bar_width, gap) = compute_bar_layout(bars, columns.len() as u16, 0);
    let ghost layout = bar_layout(bars.width as int, columns@.len() as int, 0);
    let max: u64 = largest_value(columns, 0);
    assert(columns@.skip(0) =~= columns@);
    let right: u16 = bars.x + bars.width;
    let step: u16 = bar_width.saturating_add(gap);
    let mut out: Vec<Stroke> = Vec::new();
    let ghost whole = upright_bars(
        formatter,
        metric,
        columns@,
        bars,
        label_row as int,
        layout,
        0,
    );
    let mut i: usize = 0;
    assert(drawn(out@) + whole =~= whole);
    while i < columns.len()
        invariant
            i <= columns@.len() <= u16::MAX,
            forall|k: int| 0 <= k < columns@.len() ==> (#[trigger] columns@[k]).value <= i64::MAX,
            bars.height > 0,
            bars.x + bars.width <= u16::MAX,
            bars.y + bars.height <= u16::MAX,
            right == bars.x + bars.width,
            layout == (bar_width as int, gap as int),
            layout == bar_layout(bars.width as int, columns@.len() as int, 0),
            step == sat16(bar_width + gap),
            max == largest(columns@),
            max >= 1,
            drawn(out@) + upright_bars(
                formatter,
                metric,
                columns@,
                bars,
                label_row as int,
                layout,
                i as int,
            ) == whole,
            whole == upright_bars(
                formatter,
                metric,
                columns@,
                bars,
                label_row as int,
                layout,
                0,
            ),
        decreases columns@.len() - i,
    {
        let n: u32 = i as u32;
        proof {
            assert(0 <= n * step <= 65535 * 65535) by (nonlinear_arith)
                requires
                    0 <= n <= 65535,
                    0 <= step <= 65535,
            ;
        }
        let offset: u32 = n * step as u32;
        let offset16: u16 = if offset > 65535 {
            65535
        } else {
            offset as u16
        };
        let x: u16 = bars.x.saturating_add(offset16);
        if x >= right {
            assert(drawn(out@) + Seq::<Drawn>::empty() =~= drawn(out@));
            return out;
        }
        let width: u16 = if bar_width < right - x {
            bar_width
        } else {
            right - x
        };
        let ghost before = drawn(out@);
        draw_upright_bar(
            &mut out,
            &columns[i],
            max,
            metric,
            bars,
            label_row,
            (x, width),
            i % 2 != 0,
            formatter,
        );
        proof {
            let bar = upright_bar(
                formatter,
                metric,
                columns@[i as int],
                max as int,
                bars,
                label_row as int,
                x as int,
                width as int,
                i % 2 != 0,
            );
            let rest = upright_bars(
                formatter,
                metric,
                columns@,
                bars,
                label_row as int,
                layout,
                i + 1,
            );
            assert(before + (bar + rest) =~= (before + bar) + rest);
        }
        i += 1;
    }
    assert(drawn(out@) + Seq::<Drawn>::empty() =~= drawn(out@));
    out
}

/// The upright bars in an area that has cells for them.
pub open spec fn upright_drawing(
    f: DisplayFormatter,
    metric: UsageMetric,
    columns: Seq<ChartColumn>,
    bars: Rect,
    label_row: int,
) -> Seq<Drawn> {
    if bars.height == 0 || bars.y + bars.height > u16::MAX {
        Seq::empty()
    } else {
        upright_bars(
            f,
            metric,
            columns,
            bars,
            label_row,
            bar_layout(bars.width as int, columns.len() as int, 0),
            0,
        )
    }
}

/// There is something to draw and room to draw upright bars.
pub open spec fn upright_room(columns: Seq<ChartColumn>, inner: Rect) -> bool {
    columns.len() > 0 && inner.width >= 3 && inner.height >= 3
}

/// The rows of the bars: all but the last one, which holds the labels.
pub open spec fn bar_rows(inner: Rect) -> Rect {
    Rect { height: (inner.height - 1) as u16, ..inner }
}

/// Draws the chart with upright bars: the bars, and below them one row of labels.
pub fn vertical_chart(
    columns: &Vec<ChartColumn>,
    metric: UsageMetric,
    inner: Rect,
    formatter: DisplayFormatter,
) -> (r: Vec<Stroke>)
    requires
        columns@.len() <= u16::MAX,
        forall|i: int| 0 <= i < columns@.len() ==> (#[trigger] columns@[i]).value <= i64::MAX,
        inner.x + inner.width <= u16::MAX,
        inner.y + inner.height <= u16::MAX,
    ensures
        drawn(r@) == (if upright_room(columns@, inner) {
            upright_drawing(
                formatter,
                metric,
                columns@,
                bar_rows(inner),
                inner.y + inner.height - 1,
            )
        } else {
            Seq::empty()
        }),
{
    if columns.len() == 0 || inner.width < 3 || inner.height < 3 {
        let none: Vec<Stroke> = Vec::new();
        assert(drawn(none@) =~= Seq::<Drawn>::empty());
        return none;
    }
    let mut parts: Vec<Share> = Vec::new();
    parts.push(Share::Min(2));
    parts.push(Share::Length(1));
    proof {
        reveal_with_fuel(demands, 3);
        reveal_with_fuel(extents, 3);
    }
    assert(all_fit(parts@, inner.height as int));
    let rows = split_rows(inner, &parts);
    let bars = rows[0];
    let labels = rows[1];
    assert(bars == bar_rows(inner) && labels.y == inner.y + inner.height - 1);
    let out = if bars.height == 0 || bars.height > u16::MAX - bars.y {
        Vec::new()
    } else {
        draw_upright_bars(columns, metric, bars, labels.y, formatter)
    };
    assert(drawn(out@) =~= upright_drawing(formatter, metric, columns@, bars, labels.y as int));
    out
}

/// The most bytes that a label of the bars takes.
pub open spec fn longest_label(columns: Seq<ChartColumn>) -> nat
    decreases columns.len(),
{
    if columns.len() == 0 {
        0
    } else {
        let before = longest_label(columns.drop_last());
        let last = byte_len(columns.last().label@);
        if last > before {
            last
        } else {
            before
        }
    }
}

/// What of a column is shown beside its value.
pub open spec fn pair_of(c: ChartColumn, metric: UsageMetric) -> Option<u64> {
    if metric == UsageMetric::Tokens {
        Some(c.out_of_cache)
    } else {
        None
    }
}

/// The most bytes that a value takes that is not cut.
pub open spec fn longest_value(
    f: DisplayFormatter,
    metric: UsageMetric,
    columns: Seq<ChartColumn>,
) -> nat
    decreases columns.len(),
{
    if columns.len() == 0 {
        0
    } else {
        let before = longest_value(f, metric, columns.drop_last());
        let c = columns.last();
        let last = byte_len(
            horizontal_value(f, c.value, pair_of(c, metric), metric, u16::MAX as nat),
        );
        if last > before {
            last
        } else {
            before
        }
    }
}

/// `n`, but at least `low` and at most `high`.
pub open spec fn within(n: int, low: int, high: int) -> int {
    if n < low {
        low
    } else if n > high {
        high
    } else {
        n
    }
}

/// The smaller of two numbers.
pub open spec fn smaller(a: int, b: int) -> int {
    if a < b {
        a
    } else {
        b
    }
}

/// How lying bars stand: the height of one, the first that is shown, and the widths of labels,
/// bars and values.
#[derive(Debug, Clone, Copy, PartialEq, Eq, Structural)]
pub struct BarPlan {
    pub bar_height: u16,
    pub start: usize,
    pub label_width: u16,
    pub bar_width: u16,
    pub value_width: u16,
}

/// The height of a lying bar: as many rows as fit, five, four, three or one.
pub open spec fn lying_height(height: int, count: int) -> int {
    let room = height / count;
    if room >= 5 {
        5
    } else if room >= 4 {
        4
    } else if room >= 3 {
        3
    } else {
        1
    }
}

/// The first bar that is shown: where not all fit, the latest ones are.
pub open spec fn first_shown(height: int, count: int) -> int {
    let fit = height / lying_height(height, count);
    less(
        count,
        if fit < 1 {
            1
        } else {
            fit
        },
    )
}

/// How lying bars stand; none where there is no room for them. The values take what they need but
/// leave the bars ten cells, where there are so many.
pub open spec fn bar_plan(
    f: DisplayFormatter,
    metric: UsageMetric,
    columns: Seq<ChartColumn>,
    inner: Rect,
) -> Option<BarPlan> {
    let count = columns.len() as int;
    if count == 0 || inner.width < 10 || inner.height < 1 {
        None
    } else {
        let start = first_shown(inner.height as int, count);
        let shown = columns.skip(start);
        let label = within(sat16((longest_label(shown) % 65536) as int + 1), 4, 14);
        let available = less(inner.width as int, label);
        if available <= 2 {
            None
        } else {
            let wanted = within((longest_value(f, metric, shown) % 65536) as int, 6, 32);
            let fits = smaller(wanted, available - 1);
            let value = if available > 11 {
                smaller(fits, available - 11)
            } else {
                fits
            };
            let bar = less(available - 1, value);
            Some(
                BarPlan {
                    bar_height: lying_height(inner.height as int, count) as u16,
                    start: start as usize,
                    label_width: label as u16,
                    bar_width: (if bar < 1 {
                        1
                    } else {
                        bar
                    }) as u16,
                    value_width: value as u16,
                },
            )
        }
    }
}

fn longest_label_of(columns: &Vec<ChartColumn>, from: usize) -> (r: u128)
    requires
        from <= columns@.len(),
    ensures
        r == longest_label(columns@.skip(from as int)),
{
    let mut best: u128 = 0;
    let mut i: usize = from;
    let ghost shown = columns@.skip(from as int);
    assert(shown.take(0) =~= Seq::<ChartColumn>::empty());
    while i < columns.len()
        invariant
            from <= i <= columns@.len(),
            shown == columns@.skip(from as int),
            best == longest_label(shown.take(i - from)),
        decreases columns@.len() - i,
    {
        let ghost next = shown.take(i - from + 1);
        assert(next.drop_last() =~= shown.take(i - from));
        assert(next.last() == columns@[i as int]);
        let bytes: u128 = byte_count(&chars_of(columns[i].label.as_str()));
        if bytes > best {
            best = bytes;
        }
        i += 1;
    }
    assert(shown.take(i - from) =~= shown);
    best
}

fn pair_in(c: &ChartColumn, metric: UsageMetric) -> (r: Option<u64>)
    ensures
        r == pair_of(*c, metric),
{
    if metric == UsageMetric::Tokens {
        Some(c.out_of_cache)
    } else {
        None
    }
}

fn longest_value_of(
    columns: &Vec<ChartColumn>,
    from: usize,
    metric: UsageMetric,
    formatter: DisplayFormatter,
) -> (r: u128)
    requires
        from <= columns@.len(),
    ensures
        r == longest_value(formatter, metric, columns@.skip(from as int)),
{
    let mut best: u128 = 0;
    let mut i: usize = from;
    let ghost shown = columns@.skip(from as int);
    assert(shown.take(0) =~= Seq::<ChartColumn>::empty());
    while i < columns.len()
        invariant
            from <= i <= columns@.len(),
            shown == columns@.skip(from as int),
            best == longest_value(formatter, metric, shown.take(i - from)),
        decreases columns@.len() - i,
    {
        let ghost next = shown.take(i - from + 1);
        assert(next.drop_last() =~= shown.take(i - from));
        assert(next.last() == columns@[i as int]);
        let text = format_horizontal_value(
            columns[i].value,
            pair_in(&columns[i], metric),
            metric,
            u16::MAX,
            formatter,
        );
        let bytes: u128 = byte_count(&chars_of(text.as_str()));
        if bytes > best {
            best = bytes;
        }
        i += 1;
    }
    assert(shown.take(i - from) =~= shown);
    best
}

/// How lying bars stand.
pub fn plan_bars(
    columns: &Vec<ChartColumn>,
    metric: UsageMetric,
    inner: Rect,
    formatter: DisplayFormatter,
) -> (r: Option<BarPlan>)
    requires
        columns@.len() <= u16::MAX,
    ensures
        r == bar_plan(formatter, metric, columns@, inner),
        r is Some ==> {
            let p = r->0;
            &&& 1 <= p.bar_height <= 5
            &&& p.start < columns@.len()
            &&& 4 <= p.label_width <= 14
            &&& 1 <= p.value_width
            &&& 1 <= p.bar_width
            &&& p.label_width + 1 + p.value_width <= inner.width
        },
{
    let count: usize = columns.len();
    if count == 0 || inner.width < 10 || inner.height < 1 {
        return None;
    }
    let room: u16 = inner.height / (count as u16);
    let bar_height: u16 = if room >= 5 {
        5
    } else if room >= 4 {
        4
    } else if room >= 3 {
        3
    } else {
        1
    };
    let fit: u16 = inner.height / bar_height;
    let fit_bars: usize = if fit < 1 {
        1
    } else {
        fit as usize
    };
    let start: usize = count.saturating_sub(fit_bars);
    let label_bytes: u16 = (longest_label_of(columns, start) % 65536) as u16;
    let with_space: u16 = label_bytes.saturating_add(1);
    let label_width: u16 = if with_space < 4 {
        4
    } else if with_space > 14 {
        14
    } else {
        with_space
    };
    let available: u16 = inner.width.saturating_sub(label_width);
    if available <= 2 {
        return None;
    }
    let value_bytes: u16 = (longest_value_of(columns, start, metric, formatter) % 65536) as u16;
    let wanted: u16 = if value_bytes < 6 {
        6
    } else if value_bytes > 32 {
        32
    } else {
        value_bytes
    };
    let fits: u16 = if wanted < available - 1 {
        wanted
    } else {
        available - 1
    };
    let value_width: u16 = if available > 11 && available - 11 < fits {
        available - 11
    } else {
        fits
    };
    let rest: u16 = (available - 1) - value_width;
    let bar_width: u16 = if rest < 1 {
        1
    } else {
        rest
    };
    Some(BarPlan { bar_height, start, label_width, bar_width, value_width })
}

/// A lying bar: the label to its left and the value to its right stand on the middle row; the
/// cells of the bar are cleared and filled from the left.
pub open spec fn lying_bar(
    f: DisplayFormatter,
    metric: UsageMetric,
    c: ChartColumn,
    max: int,
    inner: Rect,
    p: BarPlan,
    y: int,
    odd: bool,
) -> Seq<Drawn> {
    let height = smaller(p.bar_height as int, inner.y + inner.height - y);
    let middle = y + height / 2;
    let label_width = smaller(p.label_width as int, inner.width as int);
    let bar_x = inner.x + label_width;
    let bar_width = smaller(
        p.bar_width as int,
        less(less(less(inner.width as int, label_width), 1), p.value_width as int),
    );
    let cells = filled(bar_width, c.value as int, max);
    let label = middle_cut(c.label@, label_width as nat);
    let value = middle_cut(
        horizontal_value(f, c.value, pair_of(c, metric), metric, p.value_width as nat),
        p.value_width as nat,
    );
    seq![
        Drawn::Text(inner.x as int, middle, first_chars(label, label_width), Look::Gray),
        Drawn::Fill(
            Rect { x: bar_x as u16, y: y as u16, width: bar_width as u16, height: height as u16 },
            Look::Keep,
        ),
        Drawn::Fill(
            Rect { x: bar_x as u16, y: y as u16, width: cells as u16, height: height as u16 },
            Look::Bar(odd),
        ),
        Drawn::Text(
            less(inner.x + inner.width, (byte_len(value) % 65536) as int),
            middle,
            first_chars(value, p.value_width as int),
            Look::Gray,
        ),
    ]
}

/// The lying bars from the `i`-th shown one on, down to the lower edge.
pub open spec fn lying_bars(
    f: DisplayFormatter,
    metric: UsageMetric,
    shown: Seq<ChartColumn>,
    inner: Rect,
    p: BarPlan,
    i: int,
) -> Seq<Drawn>
    decreases shown.len() - i,
{
    let y = sat16(inner.y + sat16(i * p.bar_height));
    if i >= shown.len() || y >= inner.y + inner.height {
        Seq::empty()
    } else {
        lying_bar(f, metric, shown[i], largest(shown), inner, p, y, i % 2 != 0) + lying_bars(
            f,
            metric,
            shown,
            inner,
            p,
            i + 1,
        )
    }
}

fn draw_lying_bar(
    out: &mut Vec<Stroke>,
    c: &ChartColumn,
    max: u64,
    metric: UsageMetric,
    inner: Rect,
    p: BarPlan,
    y: u16,
    odd: bool,
    formatter: DisplayFormatter,
)
    requires
        0 < max,
        c.value <= i64::MAX,
        inner.x + inner.width <= u16::MAX,
        inner.y + inner.height <= u16::MAX,
        inner.y <= y < inner.y + inner.height,
        p.label_width + 1 + p.value_width <= inner.width,
    ensures
        drawn(final(out)@) == drawn(old(out)@) + lying_bar(
            formatter,
            metric,
            *c,
            max as int,
            inner,
            p,
            y as int,
            odd,
        ),
{
    let ghost before = drawn(out@);
    let below: u16 = (inner.y + inner.height) - y;
    let height: u16 = if p.bar_height < below {
        p.bar_height
    } else {
        below
    };
    let middle: u16 = y + height / 2;
    let label_width: u16 = p.label_width;
    let room: u16 = inner.width - label_width - 1 - p.value_width;
    let bar_width: u16 = if p.bar_width < room {
        p.bar_width
    } else {
        room
    };
    let label = chars_of(truncate_middle(c.label.as_str(), label_width as usize).as_str());
    draw_text(out, inner.x, middle, take_chars(&label, label_width as usize), Look::Gray);
    let cells: u16 = filled_cells(bar_width, c.value, max);
    let bar_x: u16 = inner.x + label_width;
    draw_fill(out, Rect { x: bar_x, y, width: bar_width, height }, Look::Keep);
    draw_fill(out, Rect { x: bar_x, y, width: cells, height }, Look::Bar(odd));
    let full = format_horizontal_value(
        c.value,
        pair_in(c, metric),
        metric,
        p.value_width,
        formatter,
    );
    let value = chars_of(truncate_middle(full.as_str(), p.value_width as usize).as_str());
    let bytes: u16 = (byte_count(&value) % 65536) as u16;
    let column: u16 = (inner.x + inner.width).saturating_sub(bytes);
    draw_text(out, column, middle, take_chars(&value, p.value_width as usize), Look::Gray);
    assert(drawn(out@) =~= before + lying_bar(
        formatter,
        metric,
        *c,
        max as int,
        inner,
        p,
        y as int,
        odd,
    ));
}

fn draw_lying_bars(
    columns: &Vec<ChartColumn>,
    metric: UsageMetric,
    inner: Rect,
    p: BarPlan,
    formatter: DisplayFormatter,
) -> (r: Vec<Stroke>)
    requires
        p.start < columns@.len() <= u16::MAX,
        forall|i: int| 0 <= i < columns@.len() ==> (#[trigger] columns@[i]).value <= i64::MAX,
        inner.x + inner.width <= u16::MAX,
        inner.y + inner.height <= u16::MAX,
        1 <= p.bar_height <= 5,
        p.label_width + 1 + p.value_width <= inner.width,
    ensures
        drawn(r@) == lying_bars(formatter, metric, columns@.skip(p.start as int), inner, p, 0),
{
    let mut out: Vec<Stroke> = Vec::new();
    let ghost shown = columns@.skip(p.start as int);
    let max: u64 = largest_value(columns, p.start);
    let bottom: u16 = inner.y + inner.height;
    let total: usize = columns.len();
    let ghost whole = lying_bars(formatter, metric, shown, inner, p, 0);
    let mut i: usize = 0;
    assert(drawn(out@) + whole =~= whole);
    while i < total - p.start
        invariant
            total == columns@.len(),
            p.start < total <= u16::MAX,
            i <= total - p.start,
            shown == columns@.skip(p.start as int),
            1 <= p.bar_height <= 5,
            p.label_width + 1 + p.value_width <= inner.width,
            forall|k: int| 0 <= k < columns@.len() ==> (#[trigger] columns@[k]).value <= i64::MAX,
            inner.x + inner.width <= u16::MAX,
            inner.y + inner.height <= u16::MAX,
            bottom == inner.y + inner.height,
            max == largest(shown),
            max >= 1,
            whole == lying_bars(formatter, metric, shown, inner, p, 0),
            drawn(out@) + lying_bars(formatter, metric, shown, inner, p, i as int) == whole,
        decreases total - p.start - i,
    {
        let n: u32 = i as u32;
        let h: u32 = p.bar_height as u32;
        proof {
            assert(0 <= n * h <= 65535 * 5) by (nonlinear_arith)
                requires
                    0 <= n <= 65535,
                    1 <= h <= 5,
            ;
        }
        let offset: u32 = n * h;
        let offset16: u16 = if offset > 65535 {
            65535
        } else {
            offset as u16
        };
        let y: u16 = inner.y.saturating_add(offset16);
        if y >= bottom {
            assert(drawn(out@) + Seq::<Drawn>::empty() =~= drawn(out@));
            return out;
        }
        let ghost before = drawn(out@);
        assert(shown[i as int] == columns@[p.start + i]);
        draw_lying_bar(
            &mut out,
            &columns[p.start + i],
            max,
            metric,
            inner,
            p,
            y,
            i % 2 != 0,
            formatter,
        );
        proof {
            lemma_lying_bars_step(
                formatter,
                metric,
                shown,
                inner,
                p,
                i as int,
                y as int,
                before,
                whole,
            );
        }
        i += 1;
    }
    assert(drawn(out@) + Seq::<Drawn>::empty() =~= drawn(out@));
    out
}

proof fn lemma_lying_bars_step(
    f: DisplayFormatter,
    metric: UsageMetric,
    shown: Seq<ChartColumn>,
    inner: Rect,
    p: BarPlan,
    i: int,
    y: int,
    before: Seq<Drawn>,
    whole: Seq<Drawn>,
)
    requires
        0 <= i < shown.len(),
        y == sat16(inner.y + sat16(i * p.bar_height)),
        y < inner.y + inner.height,
        before + lying_bars(f, metric, shown, inner, p, i) == whole,
    ensures
        (before + lying_bar(f, metric, shown[i], largest(shown), inner, p, y, i % 2 != 0))
            + lying_bars(f, metric, shown, inner, p, i + 1) == whole,
{
    let bar = lying_bar(f, metric, shown[i], largest(shown), inner, p, y, i % 2 != 0);
    let rest = lying_bars(f, metric, shown, inner, p, i + 1);
    assert(before + (bar + rest) =~= (before + bar) + rest);
}

/// Draws the chart with lying bars; nothing where there is no room.
pub fn horizontal_chart(
    columns: &Vec<ChartColumn>,
    metric: UsageMetric,
    inner: Rect,
    formatter: DisplayFormatter,
) -> (r: Vec<Stroke>)
    requires
        columns@.len() <= u16::MAX,
        forall|i: int| 0 <= i < columns@.len() ==> (#[trigger] columns@[i]).value <= i64::MAX,
        inner.x + inner.width <= u16::MAX,
        inner.y + inner.height <= u16::MAX,
    ensures
        drawn(r@) == (match bar_plan(formatter, metric, columns@, inner) {
            Some(p) => lying_bars(
                formatter,
                metric,
                columns@.skip(p.start as int),
                inner,
                p,
                0,
            ),
            None => Seq::empty(),
        }),
{
    match plan_bars(columns, metric, inner, formatter) {
        Some(p) => draw_lying_bars(columns, metric, inner, p, formatter),
        None => {
            let out: Vec<Stroke> = Vec::new();
            assert(drawn(out@) =~= Seq::<Drawn>::empty());
            out
        },
    }
}

/// The lying bars.
pub open spec fn lying_drawing(
    f: DisplayFormatter,
    metric: UsageMetric,
    columns: Seq<ChartColumn>,
    inner: Rect,
) -> Seq<Drawn> {
    match bar_plan(f, metric, columns, inner) {
        Some(p) => lying_bars(f, metric, columns.skip(p.start as int), inner, p, 0),
        None => Seq::empty(),
    }
}

/// The bars show the days.
pub open spec fn are_columns(
    columns: Seq<ChartColumn>,
    days: Seq<UsageDay>,
    f: DisplayFormatter,
    metric: UsageMetric,
    range: ChartRange,
    orientation: ChartOrientation,
) -> bool {
    columns.len() == days.len() && forall|i: int|
        0 <= i < columns.len() ==> is_column(
            #[trigger] columns[i],
            days[i],
            f,
            metric,
            range,
            orientation,
        )
}

/// The padding of the chart.
pub open spec fn chart_padding() -> Padding {
    Padding { left: 2, right: 2, top: 1, bottom: 0 }
}

/// The days of the chart; none without a snapshot.
pub open spec fn days_shown(s: Option<&LocalUsageSnapshot>, range: ChartRange) -> Seq<UsageDay> {
    match s {
        Some(s) => last_of(s.days@, range_days(range)),
        None => Seq::empty(),
    }
}

/// Draws the usage chart inside its border.
pub fn usage_chart(
    area: Rect,
    snapshot: Option<&LocalUsageSnapshot>,
    metric: UsageMetric,
    range: ChartRange,
    orientation: ChartOrientation,
    formatter: DisplayFormatter,
) -> (r: Vec<Stroke>)
    requires
        snapshot is Some ==> keys_cut(snapshot->0.days@),
        area.x + area.width <= u16::MAX,
        area.y + area.height <= u16::MAX,
    ensures
        ({
            let inner = inset(area, chart_padding());
            let days = days_shown(snapshot, range);
            if inner.height < 2 {
                r@.len() == 0
            } else {
                exists|columns: Seq<ChartColumn>| #[trigger]
                    are_columns(columns, days, formatter, metric, range, orientation)
                        && if orientation == ChartOrientation::Horizontal {
                        drawn(r@) == lying_drawing(formatter, metric, columns, inner)
                    } else if upright_room(columns, inner) {
                        drawn(r@) == upright_drawing(
                            formatter,
                            metric,
                            columns,
                            bar_rows(inner),
                            inner.y + inner.height - 1,
                        )
                    } else {
                        r@.len() == 0
                    }
            }
        }),
{
    let inner = inset_with_border_and_padding(
        area,
        Padding { left: 2, right: 2, top: 1, bottom: 0 },
    );
    if inner.height < 2 {
        return Vec::new();
    }
    let days: Vec<UsageDay> = match snapshot {
        Some(s) => chart_days(s, range),
        None => Vec::new(),
    };
    assert(days@ =~= days_shown(snapshot, range));
    assert(days@.len() <= 30);
    assert(keys_cut(days@)) by {
        if snapshot is Some {
            let all = snapshot->0.days@;
            assert forall|i: int| 0 <= i < days@.len() implies day_key_cuts(
                (#[trigger] days@[i]).day@,
            ) by {
                assert(days@[i] == all[all.len() - days@.len() + i]);
            }
        }
    }
    let columns = chart_columns(&days, metric, range, orientation, formatter);
    assert(are_columns(columns@, days@, formatter, metric, range, orientation));
    if inner.width == 0 {
        let none: Vec<Stroke> = Vec::new();
        assert(drawn(none@) =~= Seq::<Drawn>::empty());
        return none;
    }
    proof {
        crate::ui::geometry::inset_stays_inside(area, chart_padding());
    }
    match orientation {
        ChartOrientation::Horizontal => horizontal_chart(&columns, metric, inner, formatter),
        ChartOrientation::Vertical => {
            let out = vertical_chart(&columns, metric, inner, formatter);
            assert(drawn(out@).len() == out@.len());
            out
        },
    }
}

} // verus!
