//! What the bars of the chart and the colors of the heatmap say of the days.

use crate::app::state::{sat16, ChartOrientation, ChartRange, Rect};
use crate::locale::{number_text, DisplayFormatter, DisplayStyle};
use crate::rounding::{nothing_fills_nothing, quarters_are_near, shares_are_near};
use crate::text::{byte_len, byte_prefix, char_bytes, middle_cut};
use crate::ui::chart::{
    are_columns, bar_start, bar_text, centered_text, column_label, days_shown, is_column, largest,
    lying_bar, lying_bars, smaller, upright_bar, upright_bars, BarPlan, ChartColumn,
};
use crate::ui::drawing::{filled, first_chars, Drawn, Look};
use crate::ui::geometry::less;
use crate::ui::heatmap::color_level;
use crate::ui::limit_laws::{closes_with, opens_with};
use crate::ui::values::{as_signed, horizontal_value, hours_minutes, single_value, vertical_tokens};
use crate::usage::format::{clipped, compact_label, in_units};
use crate::usage::labels::{compact_text, overview_text, styled_day_label};
use crate::usage::snapshot::{LocalUsageSnapshot, UsageDay, UsageMetric};
use vstd::prelude::*;

verus! {

/// A bar has what its day has: tokens as they are, time in whole minutes, runs as they are; beside
/// the tokens stands what of them was not cached.
pub proof fn bars_have_what_their_days_have(
    c: ChartColumn,
    day: UsageDay,
    f: DisplayFormatter,
    metric: UsageMetric,
    range: ChartRange,
    orientation: ChartOrientation,
)
    requires
        is_column(c, day, f, metric, range, orientation),
    ensures
        metric == UsageMetric::Tokens && day.total_tokens >= 0 ==> c.value == day.total_tokens,
        metric == UsageMetric::Runs && day.agent_runs >= 0 ==> c.value == day.agent_runs,
        metric == UsageMetric::Time && day.agent_time_ms >= 0 ==> c.value * 60_000
            <= day.agent_time_ms < (c.value + 1) * 60_000,
        0 <= day.cached_input_tokens <= day.total_tokens ==> c.out_of_cache
            + day.cached_input_tokens == day.total_tokens,
        c.label@ == column_label(f, day.day@, range, orientation),
{
}

/// The chart shows the latest days: the last thirty under the range of a month and the last seven
/// under any other, each in its place and the last one at the end.
pub proof fn charts_show_the_latest_days(
    s: LocalUsageSnapshot,
    columns: Seq<ChartColumn>,
    f: DisplayFormatter,
    metric: UsageMetric,
    range: ChartRange,
    orientation: ChartOrientation,
    i: int,
)
    requires
        are_columns(columns, days_shown(Some(&s), range), f, metric, range, orientation),
        s.days@.len() >= 30,
        0 <= i < columns.len(),
    ensures
        range == ChartRange::Month ==> columns.len() == 30,
        range != ChartRange::Month ==> columns.len() == 7,
        is_column(
            columns[i],
            s.days@[s.days@.len() - columns.len() + i],
            f,
            metric,
            range,
            orientation,
        ),
{
    let days = days_shown(Some(&s), range);
    assert(days[i] == s.days@[s.days@.len() - columns.len() + i]);
}

/// No bar is larger than the largest value, and where one is above zero the largest value is that
/// of a bar.
pub proof fn largest_bar_is_the_largest(columns: Seq<ChartColumn>)
    ensures
        largest(columns) >= 1,
        forall|i: int| 0 <= i < columns.len() ==> (#[trigger] columns[i]).value <= largest(columns),
        largest(columns) > 1 ==> exists|i: int|
            0 <= i < columns.len() && (#[trigger] columns[i]).value == largest(columns),
    decreases columns.len(),
{
    if columns.len() > 0 {
        let s = columns.drop_last();
        largest_bar_is_the_largest(s);
        assert(columns[columns.len() - 1] == columns.last());
        assert forall|i: int| 0 <= i < columns.len() implies (#[trigger] columns[i]).value
            <= largest(columns) by {
            if i < s.len() {
                assert(s[i] == columns[i]);
            }
        }
        if largest(columns) > 1 {
            if columns.last().value > largest(s) {
                assert(columns[columns.len() - 1].value == largest(columns));
            } else {
                let k = choose|i: int| 0 <= i < s.len() && (#[trigger] s[i]).value == largest(s);
                assert(columns[k].value == largest(columns));
            }
        }
    }
}

/// A bar fills its share of the cells: less than one cell more or less than its value is of the
/// largest one, and none for nothing.
pub proof fn bars_fill_their_share(cells: int, value: int, max: int)
    requires
        1 <= cells <= u16::MAX,
        0 <= value <= max < 0x20_0000_0000_0000,
        0 < max,
    ensures
        0 <= filled(cells, value, max) <= cells,
        max * filled(cells, value, max) <= cells * value + max,
        max * filled(cells, value, max) >= cells * value - max,
        value == 0 ==> filled(cells, value, max) == 0,
{
    if value == 0 {
        nothing_fills_nothing(cells as nat, max as nat);
        assert(max * 0 == 0);
        assert(cells * 0 == 0);
    } else {
        shares_are_near(cells as nat, value as nat, max as nat);
        if filled(cells, value, max) == cells {
            assert(max * cells >= cells * value) by (nonlinear_arith)
                requires
                    max >= value,
                    cells >= 0,
            ;
            let n = crate::double::rounded(
                crate::double::product(
                    cells as nat,
                    crate::double::quotient(value as nat, max as nat),
                ),
            );
            assert(max * cells <= max * n) by (nonlinear_arith)
                requires
                    n >= cells,
                    max > 0,
            ;
        }
    }
}

/// The level of a day's color is the number of quarters of the largest day that it begins.
pub proof fn colors_go_by_quarters(value: int, max: int)
    requires
        max < 0x20_0000_0000_0000,
    ensures
        value <= 0 || max <= 0 ==> color_level(value, max) == 0,
        0 < value <= max ==> 1 <= color_level(value, max) <= 4 && max * color_level(value, max) >= 4
            * value - 12 && max * (color_level(value, max) - 1) <= 4 * value + 12,
{
    if 0 < value <= max {
        quarters_are_near(value as nat, max as nat);
        let c = crate::double::ceiling(
            crate::double::product(4, crate::double::quotient(value as nat, max as nat)),
        ) as int;
        if c > 4 {
            assert(max * (4 - 1) <= max * (c - 1)) by (nonlinear_arith)
                requires
                    c > 4,
                    max > 0,
            ;
        }
    }
}

/// An upright bar grows from the bottom of the area, by its share of the rows; its label stands
/// below and its value in it.
pub open spec fn shows_upright(
    drawing: Seq<Drawn>,
    f: DisplayFormatter,
    metric: UsageMetric,
    c: ChartColumn,
    max: int,
    bars: Rect,
    label_row: int,
    x: int,
    width: int,
) -> bool {
    let height = filled(bars.height as int, c.value as int, max);
    &&& drawing.contains(centered_text(x, width, label_row, c.label@, Look::Gray))
    &&& height > 0 ==> exists|odd: bool| #[trigger]
        drawing.contains(
            Drawn::Fill(
                Rect {
                    x: x as u16,
                    y: (bars.y + bars.height - height) as u16,
                    width: width as u16,
                    height: height as u16,
                },
                Look::Bar(odd),
            ),
        )
    &&& bars.height >= 3 && height >= 2 ==> exists|odd: bool| #[trigger]
        drawing.contains(
            centered_text(
                x,
                width,
                bars.y + bars.height - 2,
                bar_text(f, metric, c.value, width as nat),
                Look::OnBar(odd),
            ),
        )
}

proof fn lemma_upright(
    f: DisplayFormatter,
    metric: UsageMetric,
    c: ChartColumn,
    max: int,
    bars: Rect,
    label_row: int,
    x: int,
    width: int,
    odd: bool,
    rest: Seq<Drawn>,
)
    ensures
        shows_upright(
            upright_bar(f, metric, c, max, bars, label_row, x, width, odd) + rest,
            f,
            metric,
            c,
            max,
            bars,
            label_row,
            x,
            width,
        ),
{
    let bar = upright_bar(f, metric, c, max, bars, label_row, x, width, odd);
    let all = bar + rest;
    let height = filled(bars.height as int, c.value as int, max);
    assert(all[bar.len() - 1] == centered_text(x, width, label_row, c.label@, Look::Gray));
    if height > 0 {
        assert(all[1] == Drawn::Fill(
            Rect {
                x: x as u16,
                y: (bars.y + bars.height - height) as u16,
                width: width as u16,
                height: height as u16,
            },
            Look::Bar(odd),
        ));
        assert(all.contains(all[1]));
    }
    if bars.height >= 3 && height >= 2 {
        assert(all[2] == centered_text(
            x,
            width,
            bars.y + bars.height - 2,
            bar_text(f, metric, c.value, width as nat),
            Look::OnBar(odd),
        ));
        assert(all.contains(all[2]));
    }
}

proof fn lemma_shows_behind(
    head: Seq<Drawn>,
    tail: Seq<Drawn>,
    f: DisplayFormatter,
    metric: UsageMetric,
    c: ChartColumn,
    max: int,
    bars: Rect,
    label_row: int,
    x: int,
    width: int,
)
    requires
        shows_upright(tail, f, metric, c, max, bars, label_row, x, width),
    ensures
        shows_upright(head + tail, f, metric, c, max, bars, label_row, x, width),
{
    assert forall|d: Drawn| #[trigger] tail.contains(d) implies (head + tail).contains(d) by {
        let k = choose|k: int| 0 <= k < tail.len() && tail[k] == d;
        assert((head + tail)[head.len() + k] == d);
    }
    let height = filled(bars.height as int, c.value as int, max);
    if height > 0 {
        let odd = choose|odd: bool| #[trigger]
            tail.contains(
                Drawn::Fill(
                    Rect {
                        x: x as u16,
                        y: (bars.y + bars.height - height) as u16,
                        width: width as u16,
                        height: height as u16,
                    },
                    Look::Bar(odd),
                ),
            );
        assert((head + tail).contains(
            Drawn::Fill(
                Rect {
                    x: x as u16,
                    y: (bars.y + bars.height - height) as u16,
                    width: width as u16,
                    height: height as u16,
                },
                Look::Bar(odd),
            ),
        ));
    }
    if bars.height >= 3 && height >= 2 {
        let odd = choose|odd: bool| #[trigger]
            tail.contains(
                centered_text(
                    x,
                    width,
                    bars.y + bars.height - 2,
                    bar_text(f, metric, c.value, width as nat),
                    Look::OnBar(odd),
                ),
            );
        assert((head + tail).contains(
            centered_text(
                x,
                width,
                bars.y + bars.height - 2,
                bar_text(f, metric, c.value, width as nat),
                Look::OnBar(odd),
            ),
        ));
    }
}

/// Where the bar of a place starts: each one a bar and a gap to the right of the one before.
pub open spec fn place_of(bars: Rect, layout: (int, int), i: int) -> int {
    bars.x + i * (layout.0 + layout.1)
}

/// Upright bars stand side by side in the order of the days, the first one at the left; each shows
/// its own day.
pub proof fn upright_bars_stand_in_order(
    f: DisplayFormatter,
    metric: UsageMetric,
    columns: Seq<ChartColumn>,
    bars: Rect,
    label_row: int,
    layout: (int, int),
    from: int,
    i: int,
)
    requires
        0 <= from <= i < columns.len(),
        layout.0 >= 1,
        layout.1 >= 0,
        bars.x + bars.width <= u16::MAX,
        place_of(bars, layout, i) + layout.0 <= bars.x + bars.width,
    ensures
        shows_upright(
            upright_bars(f, metric, columns, bars, label_row, layout, from),
            f,
            metric,
            columns[i],
            largest(columns),
            bars,
            label_row,
            place_of(bars, layout, i),
            layout.0,
        ),
    decreases i - from,
{
    let step = layout.0 + layout.1;
    assert(from * step <= i * step) by (nonlinear_arith)
        requires
            0 <= from <= i,
            step >= 1,
    ;
    assert(0 <= from * step) by (nonlinear_arith)
        requires
            0 <= from,
            step >= 1,
    ;
    assert(step <= u16::MAX || i == 0) by (nonlinear_arith)
        requires
            i * step <= u16::MAX,
            i >= 0,
            step >= 1,
    ;
    if i == 0 {
        assert(from * sat16(step) == 0) by (nonlinear_arith)
            requires
                from == 0,
        ;
        assert(from * step == 0) by (nonlinear_arith)
            requires
                from == 0,
        ;
    }
    let x = bar_start(bars, from, layout.0, layout.1);
    assert(x == place_of(bars, layout, from));
    let right = bars.x + bars.width;
    let width = if layout.0 < right - x {
        layout.0
    } else {
        right - x
    };
    let rest = upright_bars(f, metric, columns, bars, label_row, layout, from + 1);
    if from == i {
        lemma_upright(
            f,
            metric,
            columns[i],
            largest(columns),
            bars,
            label_row,
            x,
            width,
            from % 2 != 0,
            rest,
        );
    } else {
        upright_bars_stand_in_order(f, metric, columns, bars, label_row, layout, from + 1, i);
        lemma_shows_behind(
            upright_bar(
                f,
                metric,
                columns[from],
                largest(columns),
                bars,
                label_row,
                x,
                width,
                from % 2 != 0,
            ),
            rest,
            f,
            metric,
            columns[i],
            largest(columns),
            bars,
            label_row,
            place_of(bars, layout, i),
            layout.0,
        );
    }
}

/// The value beside a lying bar: for tokens what was not cached stands in it too.
pub open spec fn value_beside(
    f: DisplayFormatter,
    metric: UsageMetric,
    c: ChartColumn,
    width: int,
) -> Seq<char> {
    let second = if metric == UsageMetric::Tokens {
        Some(c.out_of_cache)
    } else {
        None
    };
    first_chars(
        middle_cut(horizontal_value(f, c.value, second, metric, width as nat), width as nat),
        width,
    )
}

/// A lying bar stands in the rows of its place with its label to the left, and grows from the left
/// by its share of the cells.
pub open spec fn shows_lying(
    drawing: Seq<Drawn>,
    f: DisplayFormatter,
    metric: UsageMetric,
    c: ChartColumn,
    max: int,
    inner: Rect,
    p: BarPlan,
    y: int,
) -> bool {
    let bar_width = smaller(
        p.bar_width as int,
        inner.width - p.label_width - 1 - p.value_width,
    );
    &&& drawing.contains(
        Drawn::Text(
            inner.x as int,
            y + p.bar_height as int / 2,
            first_chars(
                middle_cut(c.label@, p.label_width as nat),
                p.label_width as int,
            ),
            Look::Gray,
        ),
    )
    &&& exists|odd: bool| #[trigger]
        drawing.contains(
            Drawn::Fill(
                Rect {
                    x: (inner.x + p.label_width) as u16,
                    y: y as u16,
                    width: filled(bar_width, c.value as int, max) as u16,
                    height: p.bar_height,
                },
                Look::Bar(odd),
            ),
        )
    &&& exists|column: int| #[trigger]
        drawing.contains(
            Drawn::Text(
                column,
                y + p.bar_height as int / 2,
                value_beside(f, metric, c, p.value_width as int),
                Look::Gray,
            ),
        )
}

proof fn lemma_lying(
    f: DisplayFormatter,
    metric: UsageMetric,
    c: ChartColumn,
    max: int,
    inner: Rect,
    p: BarPlan,
    y: int,
    odd: bool,
    head: Seq<Drawn>,
    rest: Seq<Drawn>,
)
    requires
        p.label_width + 1 + p.value_width <= inner.width,
        y + p.bar_height <= inner.y + inner.height,
    ensures
        shows_lying(
            head + (lying_bar(f, metric, c, max, inner, p, y, odd) + rest),
            f,
            metric,
            c,
            max,
            inner,
            p,
            y,
        ),
{
    let bar = lying_bar(f, metric, c, max, inner, p, y, odd);
    let all = head + (bar + rest);
    let n = head.len() as int;
    assert(all[n] == bar[0]);
    assert(all[n + 2] == bar[2]);
    assert(all[n + 3] == bar[3]);
    assert(all.contains(all[n]));
    assert(all.contains(all[n + 2]));
    assert(all.contains(all[n + 3]));
    let bar_width = smaller(
        p.bar_width as int,
        inner.width - p.label_width - 1 - p.value_width,
    );
    assert(less(
        less(less(inner.width as int, p.label_width as int), 1),
        p.value_width as int,
    ) == inner.width - p.label_width - 1 - p.value_width);
}

/// Lying bars stand below one another in the order of the days, the first one at the top; each
/// shows its own day.
pub proof fn lying_bars_stand_in_order(
    f: DisplayFormatter,
    metric: UsageMetric,
    shown: Seq<ChartColumn>,
    inner: Rect,
    p: BarPlan,
    from: int,
    i: int,
    head: Seq<Drawn>,
)
    requires
        0 <= from <= i < shown.len(),
        p.label_width + 1 + p.value_width <= inner.width,
        p.bar_height >= 1,
        inner.y + inner.height <= u16::MAX,
        inner.y + (i + 1) * p.bar_height <= inner.y + inner.height,
    ensures
        shows_lying(
            head + lying_bars(f, metric, shown, inner, p, from),
            f,
            metric,
            shown[i],
            largest(shown),
            inner,
            p,
            inner.y + i * p.bar_height,
        ),
    decreases i - from,
{
    let h = p.bar_height as int;
    assert(from * h <= i * h && 0 <= from * h && (i + 1) * h == i * h + h) by (nonlinear_arith)
        requires
            0 <= from <= i,
            h >= 1,
    ;
    let y = sat16(inner.y + sat16(from * h));
    assert(y == inner.y + from * h);
    let bar = lying_bar(f, metric, shown[from], largest(shown), inner, p, y, from % 2 != 0);
    let rest = lying_bars(f, metric, shown, inner, p, from + 1);
    assert(lying_bars(f, metric, shown, inner, p, from) == bar + rest);
    if from == i {
        lemma_lying(
            f,
            metric,
            shown[i],
            largest(shown),
            inner,
            p,
            y,
            from % 2 != 0,
            head,
            rest,
        );
    } else {
        assert(head + (bar + rest) =~= (head + bar) + rest);
        lying_bars_stand_in_order(f, metric, shown, inner, p, from + 1, i, head + bar);
    }
}

/// A text of characters of one byte each.
pub open spec fn plain(s: Seq<char>) -> bool {
    forall|i: int| 0 <= i < s.len() ==> char_bytes(#[trigger] s[i]) == 1
}

proof fn lemma_plain(s: Seq<char>, n: nat)
    requires
        plain(s),
        n <= s.len(),
    ensures
        byte_len(s) == s.len(),
        byte_prefix(s, n) == s.take(n as int),
    decreases s.len(),
{
    if s.len() > 0 {
        let init = s.drop_last();
        assert forall|i: int| 0 <= i < init.len() implies char_bytes(#[trigger] init[i]) == 1 by {
            assert(init[i] == s[i]);
        }
        assert(char_bytes(s[s.len() - 1]) == 1);
        if n < s.len() {
            lemma_plain(init, n);
            assert(init.take(n as int) =~= s.take(n as int));
        } else {
            lemma_plain(init, init.len());
            assert(s.take(n as int) =~= s);
        }
    } else {
        assert(s.take(0) =~= s);
    }
}

/// Upright bars of a month are labelled with the day of the month, which are the last two digits of
/// a date; those of fewer days and lying ones with the name of the day.
pub proof fn bars_of_a_month_are_numbered(f: DisplayFormatter, day: Seq<char>, range: ChartRange)
    requires
        plain(day),
        day.len() == 10,
    ensures
        column_label(f, day, ChartRange::Month, ChartOrientation::Vertical) == seq![day[8], day[9]],
        range != ChartRange::Month ==> column_label(f, day, range, ChartOrientation::Vertical)
            == styled_day_label(f, day),
        column_label(f, day, range, ChartOrientation::Horizontal) == crate::ui::values::chart_day_text(f, day),
{
    lemma_plain(day, 8);
    lemma_plain(day, 10);
    assert(day.take(10).skip(8) =~= seq![day[8], day[9]]);
}

proof fn lemma_clipped(s: Seq<char>, width: nat)
    ensures
        clipped(s, width).len() <= width,
{
}

/// A compact value takes no more cells than it has, and where a value with two decimals has room it
/// is shown so, however much more room there is.
pub proof fn compact_values_fit(value: nat, width: nat, wider: nat)
    requires
        width <= wider,
    ensures
        compact_label(value, width).len() <= width,
        value >= 1000 && width > 5 && in_units(value, 2).len() <= width ==> compact_label(
            value,
            width,
        ) == in_units(value, 2) && compact_label(value, wider) == in_units(value, 2),
        value < 1000 && compact_label(value, width) == crate::decimal::digits(value)
            ==> compact_label(value, wider) == crate::decimal::digits(value),
{
    lemma_clipped(in_units(value, 0), width);
    lemma_clipped(crate::usage::format::whole_units(value), width);
    let s = crate::decimal::digits(value);
    if value < 1000 && s.len() > width && width > 0 {
        assert(s.skip(s.len() - width).len() == width);
    }
}

/// A bar of tokens tells all tokens first and those that were not cached last, in full where there is
/// room; where nothing is known of a cache, it tells one value.
pub proof fn lying_bars_tell_both_counts(
    f: DisplayFormatter,
    value: u64,
    out_of_cache: u64,
    width: nat,
    metric: UsageMetric,
)
    requires
        width > 0,
    ensures
        ({
            let all = overview_text(f, as_signed(value));
            let rest = overview_text(f, as_signed(out_of_cache));
            let shown = horizontal_value(f, value, Some(out_of_cache), UsageMetric::Tokens, width);
            byte_len(all + " / "@ + rest) <= width ==> opens_with(shown, all) && closes_with(
                shown,
                rest,
            ) && shown.len() == all.len() + rest.len() + 3
        }),
        horizontal_value(f, value, None, metric, width) == single_value(f, value, metric, width),
        metric != UsageMetric::Tokens ==> horizontal_value(
            f,
            value,
            Some(out_of_cache),
            metric,
            width,
        ) == single_value(f, value, metric, width),
{
    reveal_strlit(" / ");
    let all = overview_text(f, as_signed(value));
    let rest = overview_text(f, as_signed(out_of_cache));
    let pair = all + " / "@ + rest;
    assert(pair.take(all.len() as int) =~= all);
    assert(pair.skip(pair.len() - rest.len()) =~= rest);
}

/// A value is told in full where it has room, and in the full style always; elsewhere it is told in
/// short.
pub proof fn values_are_told_in_full_where_they_fit(f: DisplayFormatter, value: u64, width: nat)
    ensures
        f.style == DisplayStyle::SystemFull ==> vertical_tokens(f, value, width) == number_text(
            f,
            value as nat,
        ),
        f.style == DisplayStyle::Classic && byte_len(crate::decimal::digits(value as nat)) <= width
            ==> vertical_tokens(f, value, width) == crate::decimal::digits(value as nat),
        f.style == DisplayStyle::Classic && byte_len(crate::decimal::digits(value as nat)) > width
            ==> vertical_tokens(f, value, width) == compact_text(f, value as nat, width),
        byte_len(overview_text(f, as_signed(value))) <= width ==> single_value(
            f,
            value,
            UsageMetric::Tokens,
            width,
        ) == overview_text(f, as_signed(value)),
        byte_len(hours_minutes(value as nat)) <= width ==> single_value(
            f,
            value,
            UsageMetric::Time,
            width,
        ) == hours_minutes(value as nat) && bar_text(f, UsageMetric::Time, value, width)
            == hours_minutes(value as nat),
        value <= i64::MAX && byte_len(number_text(f, value as nat)) <= width ==> single_value(
            f,
            value,
            UsageMetric::Runs,
            width,
        ) == number_text(f, value as nat),
        byte_len(crate::decimal::digits(value as nat)) <= width ==> bar_text(
            f,
            UsageMetric::Runs,
            value,
            width,
        ) == crate::decimal::digits(value as nat),
{
}

} // verus!
