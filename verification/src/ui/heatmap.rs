//! The activity of projects as heat maps.

use crate::app::state::{sat16, Rect};
use crate::calendar::{
    days_into_week, days_since_week_start, parse_date, parsed_date, weekday_at,
    weekday_from_monday_index, Weekday,
};
use crate::double::{ceil_capped, ceiling, divide_small, multiply, product, quotient, round};
use crate::locale::{month_label, number_text, weekday_label, DisplayFormatter};
use crate::text::{
    chars_of, middle_cut, opt_view, slice_of, string_of, trim_chars, trimmed, truncate_middle,
};
use crate::ui::chart::{positive, smaller, within};
use crate::ui::drawing::{
    draw_fill, draw_text, drawn, first_chars, take_chars, Drawn, Look, Stroke,
};
use crate::ui::geometry::{inset, inset_with_border_and_padding, Padding};
use crate::ui::values::{
    format_activity_date_short, format_horizontal_value, horizontal_value, short_day_text,
};
use crate::ui::wrap::{display_width, text_width};
use crate::usage::format::{at_least_zero, format_duration_compact, short_duration};
use crate::usage::snapshot::{ProjectActivity, UsageDay, UsageMetric};
use vstd::prelude::*;

verus! {

/// The rows of one project.
pub const ACTIVITY_PROJECT_HEIGHT: u16 = 9;

/// The rows from one project to the next.
pub const ACTIVITY_PROJECT_STRIDE: u16 = 10;

/// The cells of the names of the weekdays.
pub const ACTIVITY_WEEKDAY_LABEL_WIDTH: u16 = 4;

/// The value of a day under a metric.
pub open spec fn day_value(day: UsageDay, metric: UsageMetric) -> int {
    match metric {
        UsageMetric::Tokens => positive(day.total_tokens as int),
        UsageMetric::Time => positive(day.agent_time_ms as int),
        UsageMetric::Runs => positive(day.agent_runs as int),
    }
}

/// The value of a day under a metric.
pub fn activity_day_value(day: &UsageDay, metric: UsageMetric) -> (r: i64)
    ensures
        r == day_value(*day, metric),
{
    let value: i64 = match metric {
        UsageMetric::Tokens => day.total_tokens,
        UsageMetric::Time => day.agent_time_ms,
        UsageMetric::Runs => day.agent_runs,
    };
    if value < 0 {
        0
    } else {
        value
    }
}

/// The level of a value from one to four, by its share of the largest value; zero for no value.
pub open spec fn color_level(value: int, max: int) -> int {
    if value <= 0 || max <= 0 {
        0
    } else {
        within(ceiling(product(4, quotient(value as nat, max as nat))) as int, 1, 4)
    }
}

/// The level of a value.
pub fn activity_color_level(value: i64, max_value: i64) -> (r: usize)
    ensures
        r == color_level(value as int, max_value as int),
        r <= 4,
{
    if value <= 0 || max_value <= 0 {
        return 0;
    }
    let x = multiply(4, divide_small(value as u64, max_value as u64));
    let n: u64 = if x.exp >= 0 {
        let whole: u128 = round(x);
        if whole > 4 {
            4
        } else {
            whole as u64
        }
    } else {
        ceil_capped(x, 4)
    };
    if n < 1 {
        1
    } else {
        n as usize
    }
}

/// The width of a day: two cells where all weeks fit so.
pub fn activity_day_cell_width(grid_width: u16, weeks_total: usize) -> (r: u16)
    ensures
        r == cell_width(grid_width as int, weeks_total as int),
{
    if weeks_total > 0 && weeks_total <= (grid_width / 2) as usize {
        2
    } else {
        1
    }
}

/// The width of a day: two cells where all weeks fit so.
pub open spec fn cell_width(grid_width: int, weeks_total: int) -> int {
    if weeks_total > 0 && 2 * weeks_total <= grid_width {
        2
    } else {
        1
    }
}

/// The weekday of a row.
pub open spec fn weekday_of_row(first: Weekday, row: int) -> Weekday {
    weekday_at((first.index() + row) as nat)
}

/// The weekday of a row.
pub fn activity_weekday_for_row(first_weekday: Weekday, row: usize) -> (r: Weekday)
    requires
        row < usize::MAX - 7,
    ensures
        r == weekday_of_row(first_weekday, row as int),
{
    weekday_from_monday_index(first_weekday.num_days_from_monday() + row)
}

/// The row of a weekday.
pub fn activity_weekday_row(first_weekday: Weekday, weekday: Weekday) -> (r: usize)
    ensures
        r == days_into_week(weekday, first_weekday),
        r < 7,
{
    days_since_week_start(weekday, first_weekday)
}

/// The name of the weekday of a row; every other row from Monday on has one.
pub open spec fn row_label(f: DisplayFormatter, first: Weekday, row: int) -> Seq<char> {
    let monday = days_into_week(Weekday::Mon, first);
    let day = weekday_of_row(first, row);
    if row < monday || (row - monday) % 2 != 0 || day == Weekday::Tue || day == Weekday::Thu || day
        == Weekday::Sat {
        Seq::empty()
    } else {
        weekday_label(f, day)
    }
}

/// The name of the weekday of a row.
pub fn activity_weekday_label(first_weekday: Weekday, row: usize, formatter: DisplayFormatter) -> (r:
    String)
    requires
        row < usize::MAX - 7,
    ensures
        r@ == row_label(formatter, first_weekday, row as int),
{
    let monday: usize = activity_weekday_row(first_weekday, Weekday::Mon);
    let day = activity_weekday_for_row(first_weekday, row);
    if row < monday || (row - monday) % 2 != 0 || day == Weekday::Tue || day == Weekday::Thu || day
        == Weekday::Sat {
        proof {
            reveal_strlit("");
            assert(""@ =~= Seq::<char>::empty());
        }
        return "".to_owned();
    }
    formatter.abbreviated_weekday(day)
}

/// A path separator of any system.
pub open spec fn is_separator(c: char) -> bool {
    c == '/' || c == '\\'
}

/// A text without the separators at its end.
pub open spec fn without_separators(s: Seq<char>) -> Seq<char>
    decreases s.len(),
{
    if s.len() > 0 && is_separator(s.last()) {
        without_separators(s.drop_last())
    } else {
        s
    }
}

/// What stands behind the last separator.
pub open spec fn last_part(s: Seq<char>) -> Seq<char>
    decreases s.len(),
{
    if s.len() == 0 || is_separator(s.last()) {
        Seq::empty()
    } else {
        last_part(s.drop_last()).push(s.last())
    }
}

/// The name of a project: the last part of its path.
pub open spec fn project_name(path: Seq<char>) -> Seq<char> {
    last_part(without_separators(trimmed(path)))
}

/// The name of a project.
pub fn activity_project_name(path: &str) -> (r: String)
    ensures
        r@ == project_name(path@),
{
    let mut s = trim_chars(&chars_of(path));
    let ghost start = s@;
    while s.len() > 0 && (s[s.len() - 1] == '/' || s[s.len() - 1] == '\\')
        invariant
            without_separators(s@) == without_separators(start),
        decreases s@.len(),
    {
        let ghost before = s@;
        s.pop();
        assert(s@ =~= before.drop_last());
    }
    let total: usize = s.len();
    let mut i: usize = total;
    let ghost whole = last_part(s@);
    assert(s@.take(total as int) =~= s@);
    assert(last_part(s@.take(total as int)) + s@.skip(total as int) =~= whole);
    while i > 0 && s[i - 1] != '/' && s[i - 1] != '\\'
        invariant
            i <= total == s@.len(),
            last_part(s@.take(i as int)) + s@.skip(i as int) == whole,
        decreases i,
    {
        let ghost head = s@.take(i as int);
        assert(head.drop_last() =~= s@.take(i - 1));
        assert(head.last() == s@[i - 1]);
        assert(last_part(head.drop_last()).push(head.last()) + s@.skip(i as int) =~= last_part(
            s@.take(i - 1),
        ) + s@.skip(i - 1));
        i -= 1;
    }
    assert(last_part(s@.take(i as int)) =~= Seq::<char>::empty());
    assert(whole =~= s@.skip(i as int));
    let name = slice_of(&s, i, total);
    assert(name@ =~= whole);
    string_of(&name)
}

/// The total of a project under a metric.
pub open spec fn total_text(f: DisplayFormatter, p: ProjectActivity, metric: UsageMetric) -> Seq<
    char,
> {
    match metric {
        UsageMetric::Tokens => horizontal_value(
            f,
            positive(p.total_tokens as int) as u64,
            Some(positive(p.total_tokens - p.cached_input_tokens) as u64),
            UsageMetric::Tokens,
            20,
        ) + " tokens"@,
        UsageMetric::Time => short_duration(p.agent_time_ms as int),
        UsageMetric::Runs => number_text(f, at_least_zero(p.agent_runs as int)) + " runs"@,
    }
}

/// The total of a project under a metric.
pub fn activity_metric_total_label(
    project: &ProjectActivity,
    metric: UsageMetric,
    formatter: DisplayFormatter,
) -> (r: String)
    ensures
        r@ == total_text(formatter, *project, metric),
{
    match metric {
        UsageMetric::Tokens => {
            let total: u64 = if project.total_tokens < 0 {
                0
            } else {
                project.total_tokens as u64
            };
            let rest: i128 = project.total_tokens as i128 - project.cached_input_tokens as i128;
            let out_of_cache: u64 = if rest < 0 {
                0
            } else {
                rest as u64
            };
            let mut text = format_horizontal_value(
                total,
                Some(out_of_cache),
                UsageMetric::Tokens,
                20,
                formatter,
            );
            text.append(" tokens");
            text
        },
        UsageMetric::Time => format_duration_compact(project.agent_time_ms),
        UsageMetric::Runs => {
            let mut text = formatter.format_count(project.agent_runs);
            text.append(" runs");
            text
        },
    }
}

/// The number of days with a value.
pub open spec fn active_days(days: Seq<UsageDay>, metric: UsageMetric) -> nat
    decreases days.len(),
{
    if days.len() == 0 {
        0
    } else {
        active_days(days.drop_last(), metric) + (if day_value(days.last(), metric) > 0 {
            1nat
        } else {
            0
        })
    }
}

fn count_active_days(days: &Vec<UsageDay>, metric: UsageMetric) -> (r: usize)
    ensures
        r == active_days(days@, metric),
{
    let mut count: usize = 0;
    let mut i: usize = 0;
    assert(days@.take(0) =~= Seq::<UsageDay>::empty());
    while i < days.len()
        invariant
            i <= days@.len(),
            count <= i,
            count == active_days(days@.take(i as int), metric),
        decreases days@.len() - i,
    {
        let ghost next = days@.take(i + 1);
        assert(next.drop_last() =~= days@.take(i as int));
        assert(next.last() == days@[i as int]);
        if activity_day_value(&days[i], metric) > 0 {
            count += 1;
        }
        i += 1;
    }
    assert(days@.take(i as int) =~= days@);
    count
}

/// The line above the heat map of a project.
pub open spec fn header_text(f: DisplayFormatter, p: ProjectActivity, metric: UsageMetric) -> Seq<
    char,
> {
    let last = match p.last_activity_day {
        Some(day) => short_day_text(f, day@),
        None => "--"@,
    };
    "["@ + project_name(p.display_path@) + "]  "@ + number_text(f, active_days(p.days@, metric))
        + " days  "@ + total_text(f, p, metric) + "  last "@ + last
}

/// The line above the heat map of a project, at most so many characters.
pub fn format_activity_project_header(
    project: &ProjectActivity,
    metric: UsageMetric,
    max_width: usize,
    formatter: DisplayFormatter,
) -> (r: String)
    ensures
        r@ == middle_cut(header_text(formatter, *project, metric), max_width as nat),
{
    let mut text = "[".to_owned();
    text.append(activity_project_name(project.display_path.as_str()).as_str());
    text.append("]  ");
    text.append(formatter.format_usize(count_active_days(&project.days, metric)).as_str());
    text.append(" days  ");
    text.append(activity_metric_total_label(project, metric, formatter).as_str());
    text.append("  last ");
    let last = match &project.last_activity_day {
        Some(day) => format_activity_date_short(day.as_str(), formatter),
        None => "--".to_owned(),
    };
    text.append(last.as_str());
    truncate_middle(text.as_str(), max_width)
}

/// The month whose first day is among the days; none where a day before it is no date.
pub open spec fn first_of_month(f: DisplayFormatter, days: Seq<UsageDay>) -> Option<Seq<char>>
    decreases days.len(),
{
    if days.len() == 0 {
        None
    } else {
        match parsed_date(days[0].day@) {
            Some(date) => if date.day == 1 {
                Some(month_label(f, date.month as int))
            } else {
                first_of_month(f, days.skip(1))
            },
            None => None,
        }
    }
}

/// The month that stands above a week: the month of its first day where `force` is set, else the
/// month that begins in it.
pub open spec fn week_month(
    f: DisplayFormatter,
    days: Seq<UsageDay>,
    week: int,
    force: bool,
) -> Option<Seq<char>> {
    let start = week * 7;
    if start >= days.len() {
        None
    } else if force {
        match parsed_date(days[start].day@) {
            Some(date) => Some(month_label(f, date.month as int)),
            None => None,
        }
    } else {
        first_of_month(f, days.subrange(start, smaller(start + 7, days.len() as int)))
    }
}

/// The month that stands above a week.
pub fn activity_month_label_for_week(
    days: &Vec<UsageDay>,
    week: usize,
    force: bool,
    formatter: DisplayFormatter,
) -> (r: Option<String>)
    ensures
        opt_view(r) == week_month(formatter, days@, week as int, force),
{
    let total: usize = days.len();
    let start: usize = match week.checked_mul(7) {
        Some(n) => n,
        None => {
            return None;
        },
    };
    if start >= total {
        return None;
    }
    if force {
        return match parse_date(days[start].day.as_str()) {
            Some(date) => Some(formatter.abbreviated_month(date.month)),
            None => None,
        };
    }
    let end: usize = if total - start < 7 {
        total
    } else {
        start + 7
    };
    let ghost slice = days@.subrange(start as int, end as int);
    let mut i: usize = start;
    assert(slice.skip(0) =~= slice);
    while i < end
        invariant
            start <= i <= end <= days@.len(),
            slice == days@.subrange(start as int, end as int),
            week_month(formatter, days@, week as int, force) == first_of_month(formatter, slice),
            first_of_month(formatter, slice) == first_of_month(formatter, slice.skip(i - start)),
        decreases end - i,
    {
        let ghost tail = slice.skip(i - start);
        assert(tail[0] == days@[i as int]);
        assert(tail.skip(1) =~= slice.skip(i - start + 1));
        match parse_date(days[i].day.as_str()) {
            Some(date) => {
                if date.day == 1 {
                    return Some(formatter.abbreviated_month(date.month));
                }
            },
            None => {
                return None;
            },
        }
        i += 1;
    }
    None
}

/// The names of the months above the weeks from the `week`-th shown one on. A name that would stand
/// in the one before it is left out.
pub open spec fn month_names(
    f: DisplayFormatter,
    days: Seq<UsageDay>,
    offset: int,
    visible: int,
    x: int,
    y: int,
    width: int,
    week: int,
    free: int,
) -> Seq<Drawn>
    decreases visible - week,
{
    if week >= visible {
        Seq::empty()
    } else {
        let end = x + visible * width;
        let at = x + week * width;
        let name = week_month(f, days, offset + week, week == 0);
        if name is None || at < free {
            month_names(f, days, offset, visible, x, y, width, week + 1, free)
        } else {
            let cells = (display_width(name->0) % 65536) as int;
            seq![
                Drawn::Text(
                    at,
                    y,
                    first_chars(name->0, smaller(cells, end - at)),
                    Look::Gray,
                ),
            ] + month_names(
                f,
                days,
                offset,
                visible,
                x,
                y,
                width,
                week + 1,
                sat16(sat16(at + cells) + 1),
            )
        }
    }
}

fn draw_month_names(
    out: &mut Vec<Stroke>,
    days: &Vec<UsageDay>,
    offset: usize,
    visible: u16,
    origin: (u16, u16),
    width: u16,
    formatter: DisplayFormatter,
)
    requires
        1 <= width <= 2,
        origin.0 + visible * width <= u16::MAX,
        offset + visible <= usize::MAX,
    ensures
        drawn(final(out)@) == drawn(old(out)@) + month_names(
            formatter,
            days@,
            offset as int,
            visible as int,
            origin.0 as int,
            origin.1 as int,
            width as int,
            0,
            origin.0 as int,
        ),
{
    let (x, y) = origin;
    let ghost start = drawn(out@);
    let ghost whole = month_names(
        formatter,
        days@,
        offset as int,
        visible as int,
        x as int,
        y as int,
        width as int,
        0,
        x as int,
    );
    let end: u16 = x + visible * width;
    let mut free: u16 = x;
    let mut week: u16 = 0;
    while week < visible
        invariant
            week <= visible,
            1 <= width <= 2,
            x + visible * width <= u16::MAX,
            offset + visible <= usize::MAX,
            end == x + visible * width,
            drawn(out@) + month_names(
                formatter,
                days@,
                offset as int,
                visible as int,
                x as int,
                y as int,
                width as int,
                week as int,
                free as int,
            ) == start + whole,
        decreases visible - week,
    {
        proof {
            assert(week * width + width <= visible * width) by (nonlinear_arith)
                requires
                    0 <= week < visible,
                    1 <= width <= 2,
            ;
        }
        let label = activity_month_label_for_week(
            days,
            offset + week as usize,
            week == 0,
            formatter,
        );
        let at: u16 = x + week * width;
        if let Some(name) = label {
            if at >= free {
                let cells: u16 = (text_width(name.as_str()) % 65536) as u16;
                let room: u16 = if cells < end - at {
                    cells
                } else {
                    end - at
                };
                let ghost before = drawn(out@);
                let ghost next_free = sat16(sat16(at + cells) + 1);
                draw_text(
                    out,
                    at,
                    y,
                    take_chars(&chars_of(name.as_str()), room as usize),
                    Look::Gray,
                );
                proof {
                    let one = Drawn::Text(
                        at as int,
                        y as int,
                        first_chars(name@, room as int),
                        Look::Gray,
                    );
                    let rest = month_names(
                        formatter,
                        days@,
                        offset as int,
                        visible as int,
                        x as int,
                        y as int,
                        width as int,
                        week + 1,
                        next_free,
                    );
                    assert(before + (seq![one] + rest) =~= before.push(one) + rest);
                }
                free = at.saturating_add(cells).saturating_add(1);
            }
        }
        week += 1;
    }
    assert(drawn(out@) + Seq::<Drawn>::empty() =~= drawn(out@));
}

/// The largest value of the days; zero without days.
pub open spec fn largest_day(days: Seq<UsageDay>, metric: UsageMetric) -> int
    decreases days.len(),
{
    if days.len() == 0 {
        0
    } else {
        let before = largest_day(days.drop_last(), metric);
        let last = day_value(days.last(), metric);
        if last > before {
            last
        } else {
            before
        }
    }
}

fn largest_day_value(days: &Vec<UsageDay>, metric: UsageMetric) -> (r: i64)
    ensures
        r == largest_day(days@, metric),
{
    let mut best: i64 = 0;
    let mut i: usize = 0;
    assert(days@.take(0) =~= Seq::<UsageDay>::empty());
    while i < days.len()
        invariant
            i <= days@.len(),
            best == largest_day(days@.take(i as int), metric),
        decreases days@.len() - i,
    {
        let ghost next = days@.take(i + 1);
        assert(next.drop_last() =~= days@.take(i as int));
        assert(next.last() == days@[i as int]);
        let value: i64 = activity_day_value(&days[i], metric);
        if value > best {
            best = value;
        }
        i += 1;
    }
    assert(days@.take(i as int) =~= days@);
    best
}

/// The days of one weekday, from the `week`-th shown week on.
pub open spec fn row_cells(
    days: Seq<UsageDay>,
    metric: UsageMetric,
    offset: int,
    visible: int,
    x: int,
    y: int,
    width: int,
    row: int,
    week: int,
) -> Seq<Drawn>
    decreases visible - week,
{
    if week >= visible {
        Seq::empty()
    } else {
        seq![
            Drawn::Fill(
                Rect {
                    x: (x + week * width) as u16,
                    y: y as u16,
                    width: width as u16,
                    height: 1,
                },
                Look::Level(
                    color_level(
                        day_value(days[(offset + week) * 7 + row], metric),
                        largest_day(days, metric),
                    ) as usize,
                ),
            ),
        ] + row_cells(days, metric, offset, visible, x, y, width, row, week + 1)
    }
}

fn draw_row_cells(
    out: &mut Vec<Stroke>,
    days: &Vec<UsageDay>,
    metric: UsageMetric,
    max: i64,
    weeks: (usize, u16),
    origin: (u16, u16),
    width: u16,
    row: usize,
)
    requires
        1 <= width <= 2,
        row < 7,
        max == largest_day(days@, metric),
        origin.0 + weeks.1 * width <= u16::MAX,
        (weeks.0 + weeks.1) * 7 <= days@.len(),
    ensures
        drawn(final(out)@) == drawn(old(out)@) + row_cells(
            days@,
            metric,
            weeks.0 as int,
            weeks.1 as int,
            origin.0 as int,
            origin.1 as int,
            width as int,
            row as int,
            0,
        ),
{
    let (x, y) = origin;
    let (offset, visible) = weeks;
    let total: usize = days.len();
    let ghost start = drawn(out@);
    let ghost whole = row_cells(
        days@,
        metric,
        offset as int,
        visible as int,
        x as int,
        y as int,
        width as int,
        row as int,
        0,
    );
    let mut week: u16 = 0;
    while week < visible
        invariant
            week <= visible,
            row < 7,
            1 <= width <= 2,
            x + visible * width <= u16::MAX,
            (offset + visible) * 7 <= total == days@.len(),
            max == largest_day(days@, metric),
            drawn(out@) + row_cells(
                days@,
                metric,
                offset as int,
                visible as int,
                x as int,
                y as int,
                width as int,
                row as int,
                week as int,
            ) == start + whole,
        decreases visible - week,
    {
        proof {
            assert(week * width + width <= visible * width) by (nonlinear_arith)
                requires
                    0 <= week < visible,
                    1 <= width <= 2,
            ;
        }
        let at: u16 = x + week * width;
        let day: usize = (offset + week as usize) * 7 + row;
        let level: usize = activity_color_level(activity_day_value(&days[day], metric), max);
        let ghost before = drawn(out@);
        let area = Rect { x: at, y, width, height: 1 };
        draw_fill(out, area, Look::Level(level));
        proof {
            let one = Drawn::Fill(area, Look::Level(level));
            let rest = row_cells(
                days@,
                metric,
                offset as int,
                visible as int,
                x as int,
                y as int,
                width as int,
                row as int,
                week + 1,
            );
            assert(before + (seq![one] + rest) =~= before.push(one) + rest);
        }
        week += 1;
    }
    assert(drawn(out@) + Seq::<Drawn>::empty() =~= drawn(out@));
}

/// Where the weeks of a heat map stand: the first that is shown, how many are, and the width of a
/// day. Where not all fit, the latest are shown.
pub open spec fn week_plan(weeks: int, grid_width: int) -> (int, int, int) {
    let width = cell_width(grid_width, weeks);
    let visible = smaller(weeks, grid_width / width);
    (weeks - visible, visible, width)
}

/// The rows of the weekdays from one on.
pub open spec fn weekday_rows(
    f: DisplayFormatter,
    days: Seq<UsageDay>,
    metric: UsageMetric,
    first: Weekday,
    area: Rect,
    plan: (int, int, int),
    row: int,
) -> Seq<Drawn>
    decreases 7 - row,
{
    if row >= 7 {
        Seq::empty()
    } else {
        let y = area.y + 2 + row;
        seq![
            Drawn::Text(
                area.x as int,
                y,
                first_chars(row_label(f, first, row), ACTIVITY_WEEKDAY_LABEL_WIDTH as int),
                Look::Gray,
            ),
        ] + row_cells(
            days,
            metric,
            plan.0,
            plan.1,
            area.x + ACTIVITY_WEEKDAY_LABEL_WIDTH,
            y,
            plan.2,
            row,
            0,
        ) + weekday_rows(f, days, metric, first, area, plan, row + 1)
    }
}

/// The heat map of a project: a line about it, the months, and a row for each weekday. Nothing
/// where there is no room or no whole week.
pub open spec fn project_map(
    f: DisplayFormatter,
    p: ProjectActivity,
    metric: UsageMetric,
    first: Weekday,
    area: Rect,
) -> Seq<Drawn> {
    let weeks = (p.days@.len() / 7) as int;
    if area.height < ACTIVITY_PROJECT_HEIGHT || area.width <= ACTIVITY_WEEKDAY_LABEL_WIDTH || weeks
        == 0 {
        Seq::empty()
    } else {
        let plan = week_plan(weeks, area.width - ACTIVITY_WEEKDAY_LABEL_WIDTH);
        let grid = area.x + ACTIVITY_WEEKDAY_LABEL_WIDTH;
        seq![
            Drawn::Text(
                area.x as int,
                area.y as int,
                first_chars(
                    middle_cut(header_text(f, p, metric), area.width as nat),
                    area.width as int,
                ),
                Look::Bold,
            ),
        ] + month_names(f, p.days@, plan.0, plan.1, grid, area.y + 1, plan.2, 0, grid)
            + weekday_rows(f, p.days@, metric, first, area, plan, 0)
    }
}

fn draw_weekday_rows(
    out: &mut Vec<Stroke>,
    days: &Vec<UsageDay>,
    metric: UsageMetric,
    first_weekday: Weekday,
    area: Rect,
    weeks: (usize, u16),
    width: u16,
    formatter: DisplayFormatter,
)
    requires
        1 <= width <= 2,
        area.height >= ACTIVITY_PROJECT_HEIGHT,
        area.y + area.height <= u16::MAX,
        area.x + ACTIVITY_WEEKDAY_LABEL_WIDTH + weeks.1 * width <= u16::MAX,
        (weeks.0 + weeks.1) * 7 <= days@.len(),
    ensures
        drawn(final(out)@) == drawn(old(out)@) + weekday_rows(
            formatter,
            days@,
            metric,
            first_weekday,
            area,
            (weeks.0 as int, weeks.1 as int, width as int),
            0,
        ),
{
    let max: i64 = largest_day_value(days, metric);
    let ghost plan = (weeks.0 as int, weeks.1 as int, width as int);
    let ghost start = drawn(out@);
    let ghost whole = weekday_rows(formatter, days@, metric, first_weekday, area, plan, 0);
    let mut row: u16 = 0;
    assert(start + whole == drawn(out@) + whole);
    while row < 7
        invariant
            row <= 7,
            1 <= width <= 2,
            plan == (weeks.0 as int, weeks.1 as int, width as int),
            area.height >= ACTIVITY_PROJECT_HEIGHT,
            area.y + area.height <= u16::MAX,
            area.x + ACTIVITY_WEEKDAY_LABEL_WIDTH + weeks.1 * width <= u16::MAX,
            (weeks.0 + weeks.1) * 7 <= days@.len(),
            max == largest_day(days@, metric),
            drawn(out@) + weekday_rows(
                formatter,
                days@,
                metric,
                first_weekday,
                area,
                plan,
                row as int,
            ) == start + whole,
        decreases 7 - row,
    {
        let ghost before = drawn(out@);
        let y: u16 = area.y + 2 + row;
        proof {
            assert(weeks.1 * width >= 0) by (nonlinear_arith)
                requires
                    weeks.1 >= 0,
                    width >= 0,
            ;
        }
        let label = chars_of(
            activity_weekday_label(first_weekday, row as usize, formatter).as_str(),
        );
        draw_text(
            out,
            area.x,
            y,
            take_chars(&label, ACTIVITY_WEEKDAY_LABEL_WIDTH as usize),
            Look::Gray,
        );
        draw_row_cells(
            out,
            days,
            metric,
            max,
            weeks,
            (area.x + ACTIVITY_WEEKDAY_LABEL_WIDTH, y),
            width,
            row as usize,
        );
        proof {
            let one = Drawn::Text(
                area.x as int,
                y as int,
                first_chars(
                    row_label(formatter, first_weekday, row as int),
                    ACTIVITY_WEEKDAY_LABEL_WIDTH as int,
                ),
                Look::Gray,
            );
            let cells = row_cells(
                days@,
                metric,
                plan.0,
                plan.1,
                area.x + ACTIVITY_WEEKDAY_LABEL_WIDTH,
                y as int,
                plan.2,
                row as int,
                0,
            );
            let rest = weekday_rows(
                formatter,
                days@,
                metric,
                first_weekday,
                area,
                plan,
                row + 1,
            );
            assert(before + (seq![one] + cells + rest) =~= (before.push(one) + cells) + rest);
        }
        row += 1;
    }
    assert(drawn(out@) + Seq::<Drawn>::empty() =~= drawn(out@));
}

/// Draws the heat map of a project.
pub fn project_activity_heatmap(
    area: Rect,
    project: &ProjectActivity,
    metric: UsageMetric,
    first_weekday: Weekday,
    formatter: DisplayFormatter,
) -> (r: Vec<Stroke>)
    requires
        area.x + area.width <= u16::MAX,
        area.y + area.height <= u16::MAX,
    ensures
        drawn(r@) == project_map(formatter, *project, metric, first_weekday, area),
{
    let mut out: Vec<Stroke> = Vec::new();
    assert(drawn(out@) =~= Seq::<Drawn>::empty());
    let weeks_total: usize = project.days.len() / 7;
    if area.height < ACTIVITY_PROJECT_HEIGHT || area.width <= ACTIVITY_WEEKDAY_LABEL_WIDTH
        || weeks_total == 0 {
        return out;
    }
    let grid_width: u16 = area.width - ACTIVITY_WEEKDAY_LABEL_WIDTH;
    let width: u16 = activity_day_cell_width(grid_width, weeks_total);
    let fit: u16 = grid_width / width;
    let visible: u16 = if weeks_total < fit as usize {
        weeks_total as u16
    } else {
        fit
    };
    let offset: usize = weeks_total - visible as usize;
    let grid_x: u16 = area.x + ACTIVITY_WEEKDAY_LABEL_WIDTH;
    proof {
        assert(visible * width <= grid_width) by (nonlinear_arith)
            requires
                0 <= visible <= grid_width / width,
                1 <= width <= 2,
        ;
        assert((offset + visible) * 7 <= project.days@.len());
    }
    let header = format_activity_project_header(project, metric, area.width as usize, formatter);
    draw_text(
        &mut out,
        area.x,
        area.y,
        take_chars(&chars_of(header.as_str()), area.width as usize),
        Look::Bold,
    );
    let ghost one = drawn(out@);
    draw_month_names(
        &mut out,
        &project.days,
        offset,
        visible,
        (grid_x, area.y + 1),
        width,
        formatter,
    );
    draw_weekday_rows(
        &mut out,
        &project.days,
        metric,
        first_weekday,
        area,
        (offset, visible),
        width,
        formatter,
    );
    assert(drawn(out@) =~= project_map(formatter, *project, metric, first_weekday, area));
    out
}

/// What the activity view shows.
#[derive(Debug)]
pub enum ActivityView {
    Message(&'static str),
    Drawing(Vec<Stroke>),
}

/// How many projects are shown.
pub open spec fn shown_projects(height: int, limit: int, projects: int) -> int {
    let fit = sat16(height + 1) / 10;
    smaller(
        smaller(limit, projects),
        if fit < 1 {
            1
        } else {
            fit
        },
    )
}

/// The heat maps of the projects from the `i`-th on, ten rows apart, down to the lower edge.
pub open spec fn project_maps(
    f: DisplayFormatter,
    projects: Seq<ProjectActivity>,
    metric: UsageMetric,
    first: Weekday,
    inner: Rect,
    count: int,
    i: int,
) -> Seq<Drawn>
    decreases count - i,
{
    let y = inner.y + 10 * i;
    let bottom = inner.y + inner.height;
    if i >= count || y >= bottom {
        Seq::empty()
    } else {
        let slot = Rect {
            x: inner.x,
            y: y as u16,
            width: inner.width,
            height: smaller(ACTIVITY_PROJECT_HEIGHT as int, bottom - y) as u16,
        };
        project_map(f, projects[i], metric, first, slot) + project_maps(
            f,
            projects,
            metric,
            first,
            inner,
            count,
            i + 1,
        )
    }
}

fn append_strokes(out: &mut Vec<Stroke>, more: Vec<Stroke>)
    ensures
        drawn(final(out)@) == drawn(old(out)@) + drawn(more@),
{
    let ghost before = drawn(out@);
    let ghost added = drawn(more@);
    let mut rest = more;
    out.append(&mut rest);
    assert(drawn(out@) =~= before + added);
}

/// Draws the heat maps of projects inside the border of the activity view.
pub fn activity_heatmaps(
    area: Rect,
    projects: Option<&Vec<ProjectActivity>>,
    project_limit: usize,
    metric: UsageMetric,
    first_weekday: Weekday,
    formatter: DisplayFormatter,
) -> (r: ActivityView)
    requires
        area.x + area.width <= u16::MAX,
        area.y + area.height <= u16::MAX,
    ensures
        ({
            let inner = inset(area, Padding { left: 2, right: 2, top: 1, bottom: 0 });
            match projects {
                None => r matches ActivityView::Message(m) && m@ == "Loading activity..."@,
                Some(list) => if list@.len() == 0 {
                    r matches ActivityView::Message(m) && m@ == "No project activity found."@
                } else if inner.width <= ACTIVITY_WEEKDAY_LABEL_WIDTH || inner.height
                    < ACTIVITY_PROJECT_HEIGHT {
                    r matches ActivityView::Message(m) && m@ == "Activity view needs more space."@
                } else {
                    r matches ActivityView::Drawing(strokes) && drawn(strokes@) == project_maps(
                        formatter,
                        list@,
                        metric,
                        first_weekday,
                        inner,
                        shown_projects(
                            inner.height as int,
                            project_limit as int,
                            list@.len() as int,
                        ),
                        0,
                    )
                },
            }
        }),
{
    let inner = inset_with_border_and_padding(
        area,
        Padding { left: 2, right: 2, top: 1, bottom: 0 },
    );
    let list = match projects {
        Some(list) => list,
        None => {
            return ActivityView::Message("Loading activity...");
        },
    };
    if list.len() == 0 {
        return ActivityView::Message("No project activity found.");
    }
    if inner.width <= ACTIVITY_WEEKDAY_LABEL_WIDTH || inner.height < ACTIVITY_PROJECT_HEIGHT {
        return ActivityView::Message("Activity view needs more space.");
    }
    proof {
        crate::ui::geometry::inset_stays_inside(
            area,
            Padding { left: 2, right: 2, top: 1, bottom: 0 },
        );
    }
    let fit_rows: u16 = inner.height.saturating_add(1) / ACTIVITY_PROJECT_STRIDE;
    let fit: usize = if fit_rows < 1 {
        1
    } else {
        fit_rows as usize
    };
    let some: usize = if project_limit < list.len() {
        project_limit
    } else {
        list.len()
    };
    let count: usize = if some < fit {
        some
    } else {
        fit
    };
    let bottom: u16 = inner.y + inner.height;
    let mut out: Vec<Stroke> = Vec::new();
    let ghost whole = project_maps(
        formatter,
        list@,
        metric,
        first_weekday,
        inner,
        count as int,
        0,
    );
    let mut y: u16 = inner.y;
    let mut i: usize = 0;
    assert(drawn(out@) + whole =~= whole);
    while i < count && y < bottom
        invariant
            i <= count <= list@.len(),
            count <= 6554,
            inner.x + inner.width <= u16::MAX,
            inner.y + inner.height <= u16::MAX,
            bottom == inner.y + inner.height,
            y == sat16(inner.y + 10 * i),
            drawn(out@) + project_maps(
                formatter,
                list@,
                metric,
                first_weekday,
                inner,
                count as int,
                i as int,
            ) == whole,
        decreases count - i,
    {
        let below: u16 = bottom - y;
        let slot = Rect {
            x: inner.x,
            y,
            width: inner.width,
            height: if ACTIVITY_PROJECT_HEIGHT < below {
                ACTIVITY_PROJECT_HEIGHT
            } else {
                below
            },
        };
        let ghost before = drawn(out@);
        let strokes = project_activity_heatmap(slot, &list[i], metric, first_weekday, formatter);
        let ghost one = drawn(strokes@);
        append_strokes(&mut out, strokes);
        proof {
            let rest = project_maps(
                formatter,
                list@,
                metric,
                first_weekday,
                inner,
                count as int,
                i + 1,
            );
            assert(before + (one + rest) =~= (before + one) + rest);
        }
        y = y.saturating_add(ACTIVITY_PROJECT_STRIDE);
        i += 1;
    }
    assert(drawn(out@) + Seq::<Drawn>::empty() =~= drawn(out@));
    ActivityView::Drawing(out)
}

/// The cell of a day in the grid of a heat map: weeks from left to right, weekdays from top to bottom
/// below the header and the months.
pub open spec fn day_cell(area: Rect, plan: (int, int, int), day: int) -> Rect {
    Rect {
        x: (area.x + 4 + (day / 7 - plan.0) * plan.2) as u16,
        y: (area.y + 2 + day % 7) as u16,
        width: plan.2 as u16,
        height: 1,
    }
}

/// A day is among the weeks that are shown.
pub open spec fn day_shown(plan: (int, int, int), day: int) -> bool {
    plan.0 <= day / 7 < plan.0 + plan.1
}

proof fn lemma_row_cells(
    days: Seq<UsageDay>,
    metric: UsageMetric,
    offset: int,
    visible: int,
    x: int,
    y: int,
    width: int,
    row: int,
    week: int,
)
    requires
        0 <= week <= visible,
    ensures
        ({
            let cells = row_cells(days, metric, offset, visible, x, y, width, row, week);
            &&& cells.len() == visible - week
            &&& forall|j: int|
                0 <= j < cells.len() ==> #[trigger] cells[j] == Drawn::Fill(
                    Rect {
                        x: (x + (week + j) * width) as u16,
                        y: y as u16,
                        width: width as u16,
                        height: 1,
                    },
                    Look::Level(
                        color_level(
                            day_value(days[(offset + week + j) * 7 + row], metric),
                            largest_day(days, metric),
                        ) as usize,
                    ),
                )
        }),
    decreases visible - week,
{
    if week < visible {
        lemma_row_cells(days, metric, offset, visible, x, y, width, row, week + 1);
        let rest = row_cells(days, metric, offset, visible, x, y, width, row, week + 1);
        let cells = row_cells(days, metric, offset, visible, x, y, width, row, week);
        assert forall|j: int| 0 < j < cells.len() implies #[trigger] cells[j] == rest[j - 1] by {}
    }
}

/// The cell of a day in the color of the day.
pub open spec fn cell_stroke(
    days: Seq<UsageDay>,
    metric: UsageMetric,
    area: Rect,
    plan: (int, int, int),
    day: int,
) -> Drawn {
    Drawn::Fill(
        day_cell(area, plan, day),
        Look::Level(
            color_level(day_value(days[day], metric), largest_day(days, metric)) as usize,
        ),
    )
}

/// The strokes of one row: its label, and the cells of the days of one weekday.
spec fn row_strokes(
    f: DisplayFormatter,
    days: Seq<UsageDay>,
    metric: UsageMetric,
    first: Weekday,
    area: Rect,
    plan: (int, int, int),
    row: int,
) -> Seq<Drawn> {
    seq![label_stroke(f, first, area, row)] + row_cells(
        days,
        metric,
        plan.0,
        plan.1,
        area.x + 4,
        area.y + 2 + row,
        plan.2,
        row,
        0,
    )
}

proof fn lemma_row_strokes(
    f: DisplayFormatter,
    days: Seq<UsageDay>,
    metric: UsageMetric,
    first: Weekday,
    area: Rect,
    plan: (int, int, int),
    row: int,
)
    requires
        0 <= row < 7,
        plan.0 >= 0,
        plan.1 >= 0,
    ensures
        ({
            let all = row_strokes(f, days, metric, first, area, plan, row);
            &&& all.len() == 1 + plan.1
            &&& all[0] == label_stroke(f, first, area, row)
            &&& forall|j: int|
                0 <= j < plan.1 ==> day_shown(plan, (plan.0 + j) * 7 + row) && #[trigger] all[1 + j]
                    == cell_stroke(days, metric, area, plan, (plan.0 + j) * 7 + row)
        }),
{
    let all = row_strokes(f, days, metric, first, area, plan, row);
    let cells = row_cells(
        days,
        metric,
        plan.0,
        plan.1,
        area.x + 4,
        area.y + 2 + row,
        plan.2,
        row,
        0,
    );
    lemma_row_cells(
        days,
        metric,
        plan.0,
        plan.1,
        area.x + 4,
        area.y + 2 + row,
        plan.2,
        row,
        0,
    );
    assert forall|j: int| 0 <= j < plan.1 implies day_shown(plan, (plan.0 + j) * 7 + row)
        && #[trigger] all[1 + j] == cell_stroke(
        days,
        metric,
        area,
        plan,
        (plan.0 + j) * 7 + row,
    ) by {
        let day = (plan.0 + j) * 7 + row;
        assert(all[1 + j] == cells[j]);
        assert(day / 7 == plan.0 + j && day % 7 == row);
        assert(plan.0 + 0 + j == plan.0 + j && 0 + j == j);
    }
}

proof fn lemma_rows_split(
    f: DisplayFormatter,
    days: Seq<UsageDay>,
    metric: UsageMetric,
    first: Weekday,
    area: Rect,
    plan: (int, int, int),
    row: int,
)
    requires
        0 <= row < 7,
    ensures
        weekday_rows(f, days, metric, first, area, plan, row) == row_strokes(
            f,
            days,
            metric,
            first,
            area,
            plan,
            row,
        ) + weekday_rows(f, days, metric, first, area, plan, row + 1),
{
    assert(ACTIVITY_WEEKDAY_LABEL_WIDTH == 4);
}

proof fn lemma_cell_is_drawn(
    f: DisplayFormatter,
    days: Seq<UsageDay>,
    metric: UsageMetric,
    first: Weekday,
    area: Rect,
    plan: (int, int, int),
    row: int,
    day: int,
)
    requires
        0 <= row < 7,
        plan.0 >= 0,
        plan.1 >= 0,
        day >= 0,
        day % 7 >= row,
        day_shown(plan, day),
    ensures
        weekday_rows(f, days, metric, first, area, plan, row).contains(
            cell_stroke(days, metric, area, plan, day),
        ),
        weekday_rows(f, days, metric, first, area, plan, row).contains(
            label_stroke(f, first, area, day % 7),
        ),
    decreases 7 - row,
{
    lemma_rows_split(f, days, metric, first, area, plan, row);
    let here = row_strokes(f, days, metric, first, area, plan, row);
    let rest = weekday_rows(f, days, metric, first, area, plan, row + 1);
    let all = weekday_rows(f, days, metric, first, area, plan, row);
    let cell = cell_stroke(days, metric, area, plan, day);
    let label = label_stroke(f, first, area, day % 7);
    if day % 7 == row {
        lemma_row_strokes(f, days, metric, first, area, plan, row);
        let j = day / 7 - plan.0;
        assert((plan.0 + j) * 7 + row == day);
        assert(here[1 + j] == cell);
        assert(all[1 + j] == cell);
        assert(all[0] == label);
    } else {
        lemma_cell_is_drawn(f, days, metric, first, area, plan, row + 1, day);
        let i = choose|i: int| 0 <= i < rest.len() && rest[i] == cell;
        assert(all[here.len() + i] == cell);
        let k = choose|k: int| 0 <= k < rest.len() && rest[k] == label;
        assert(all[here.len() + k] == label);
    }
}

proof fn lemma_rows_hold_cells(
    f: DisplayFormatter,
    days: Seq<UsageDay>,
    metric: UsageMetric,
    first: Weekday,
    area: Rect,
    plan: (int, int, int),
    row: int,
    i: int,
)
    requires
        0 <= row <= 7,
        plan.0 >= 0,
        plan.1 >= 0,
        0 <= i < weekday_rows(f, days, metric, first, area, plan, row).len(),
        weekday_rows(f, days, metric, first, area, plan, row)[i] is Fill,
    ensures
        exists|day: int|
            0 <= day && #[trigger] day_shown(plan, day) && weekday_rows(
                f,
                days,
                metric,
                first,
                area,
                plan,
                row,
            )[i] == cell_stroke(days, metric, area, plan, day),
    decreases 7 - row,
{
    if row < 7 {
        lemma_rows_split(f, days, metric, first, area, plan, row);
        lemma_row_strokes(f, days, metric, first, area, plan, row);
        let here = row_strokes(f, days, metric, first, area, plan, row);
        let all = weekday_rows(f, days, metric, first, area, plan, row);
        if i < here.len() {
            assert(all[i] == here[i]);
            assert(i > 0);
            let j = i - 1;
            assert(here[1 + j] == cell_stroke(days, metric, area, plan, (plan.0 + j) * 7 + row));
            assert(day_shown(plan, (plan.0 + j) * 7 + row));
        } else {
            assert(all[i] == weekday_rows(f, days, metric, first, area, plan, row + 1)[i
                - here.len()]);
            lemma_rows_hold_cells(
                f,
                days,
                metric,
                first,
                area,
                plan,
                row + 1,
                i - here.len(),
            );
        }
    }
}

/// The label of a row.
pub open spec fn label_stroke(f: DisplayFormatter, first: Weekday, area: Rect, row: int) -> Drawn {
    Drawn::Text(
        area.x as int,
        area.y + 2 + row,
        first_chars(row_label(f, first, row), 4),
        Look::Gray,
    )
}

/// Where the days of a project begin with the first weekday, each day that is shown has its cell in the
/// row of its own weekday: the row whose label names the weekday of the day's date. The cell has the
/// color of that day.
pub proof fn days_stand_in_the_rows_of_their_weekdays(
    f: DisplayFormatter,
    p: ProjectActivity,
    metric: UsageMetric,
    first: Weekday,
    area: Rect,
    start: int,
    day: int,
)
    requires
        area.height >= 9,
        area.width > 4,
        area.x + area.width <= u16::MAX,
        area.y + area.height <= u16::MAX,
        p.days@.len() >= 7,
        crate::calendar::weekday_of(start) == first,
        0 <= day < p.days@.len(),
        day_shown(week_plan((p.days@.len() / 7) as int, area.width - 4), day),
    ensures
        ({
            let plan = week_plan((p.days@.len() / 7) as int, area.width - 4);
            let map = project_map(f, p, metric, first, area);
            let row = day % 7;
            &&& map.contains(
                Drawn::Fill(
                    day_cell(area, plan, day),
                    Look::Level(
                        color_level(
                            day_value(p.days@[day], metric),
                            largest_day(p.days@, metric),
                        ) as usize,
                    ),
                ),
            )
            &&& map.contains(
                Drawn::Text(
                    area.x as int,
                    area.y + 2 + row,
                    first_chars(row_label(f, first, row), 4),
                    Look::Gray,
                ),
            )
            &&& day_cell(area, plan, day).y == area.y + 2 + row
            &&& weekday_of_row(first, row) == crate::calendar::weekday_of(start + day)
            &&& row_label(f, first, row) == Seq::<char>::empty() || row_label(f, first, row)
                == weekday_label(f, crate::calendar::weekday_of(start + day))
        }),
{
    let weeks = (p.days@.len() / 7) as int;
    let plan = week_plan(weeks, area.width - 4);
    let row = day % 7;
    latest_weeks_are_shown(weeks, area.width - 4);
    lemma_cell_is_drawn(f, p.days@, metric, first, area, plan, 0, day);
    lemma_map_holds_rows(f, p, metric, first, area, cell_stroke(p.days@, metric, area, plan, day));
    lemma_map_holds_rows(f, p, metric, first, area, label_stroke(f, first, area, row));
    lemma_rows_are_weekdays(first, start, day);
}

proof fn lemma_rows_are_weekdays(first: Weekday, start: int, day: int)
    requires
        crate::calendar::weekday_of(start) == first,
        day >= 0,
    ensures
        weekday_of_row(first, day % 7) == crate::calendar::weekday_of(start + day),
{
    assert((start + day - 1) % 7 == ((start - 1) % 7 + day) % 7);
    assert((start - 1) % 7 == first.index());
    assert((first.index() + day % 7) % 7 == (first.index() + day) % 7);
}

proof fn lemma_map_holds_rows(
    f: DisplayFormatter,
    p: ProjectActivity,
    metric: UsageMetric,
    first: Weekday,
    area: Rect,
    stroke: Drawn,
)
    requires
        area.height >= 9,
        area.width > 4,
        p.days@.len() >= 7,
        weekday_rows(
            f,
            p.days@,
            metric,
            first,
            area,
            week_plan((p.days@.len() / 7) as int, area.width - 4),
            0,
        ).contains(stroke),
    ensures
        project_map(f, p, metric, first, area).contains(stroke),
{
    let plan = week_plan((p.days@.len() / 7) as int, area.width - 4);
    let rows = weekday_rows(f, p.days@, metric, first, area, plan, 0);
    let map = project_map(f, p, metric, first, area);
    let n = map.len() - rows.len();
    let i = choose|i: int| 0 <= i < rows.len() && rows[i] == stroke;
    assert(map[n + i] == rows[i]);
}

/// No cell of a heat map shows another day than its own: every filled area of the map is the cell of a
/// day that is shown, in the color of that day.
pub proof fn every_cell_shows_its_day(
    f: DisplayFormatter,
    p: ProjectActivity,
    metric: UsageMetric,
    first: Weekday,
    area: Rect,
    i: int,
)
    requires
        area.height >= 9,
        area.width > 4,
        p.days@.len() >= 7,
        0 <= i < project_map(f, p, metric, first, area).len(),
        project_map(f, p, metric, first, area)[i] is Fill,
    ensures
        ({
            let plan = week_plan((p.days@.len() / 7) as int, area.width - 4);
            exists|day: int|
                0 <= day && #[trigger] day_shown(plan, day) && project_map(
                    f,
                    p,
                    metric,
                    first,
                    area,
                )[i] == cell_stroke(p.days@, metric, area, plan, day)
        }),
{
    let weeks = (p.days@.len() / 7) as int;
    let plan = week_plan(weeks, area.width - 4);
    latest_weeks_are_shown(weeks, area.width - 4);
    let map = project_map(f, p, metric, first, area);
    let rows = weekday_rows(f, p.days@, metric, first, area, plan, 0);
    let names = month_names(
        f,
        p.days@,
        plan.0,
        plan.1,
        area.x + 4,
        area.y + 1,
        plan.2,
        0,
        area.x + 4,
    );
    lemma_names_are_texts(
        f,
        p.days@,
        plan.0,
        plan.1,
        area.x + 4,
        area.y + 1,
        plan.2,
        0,
        area.x + 4,
    );
    if i == 0 {
        assert(map[0] is Text);
    } else if i < 1 + names.len() {
        assert(map[i] == names[i - 1]);
    } else {
        let j = i - 1 - names.len();
        assert(map[i] == rows[j]);
        lemma_rows_hold_cells(f, p.days@, metric, first, area, plan, 0, j);
    }
}

proof fn lemma_names_are_texts(
    f: DisplayFormatter,
    days: Seq<UsageDay>,
    offset: int,
    visible: int,
    x: int,
    y: int,
    width: int,
    week: int,
    free: int,
)
    ensures
        forall|i: int|
            0 <= i < month_names(f, days, offset, visible, x, y, width, week, free).len() ==> (
            #[trigger] month_names(f, days, offset, visible, x, y, width, week, free)[i]) is Text,
    decreases visible - week,
{
    if week < visible {
        let at = x + week * width;
        let name = week_month(f, days, offset + week, week == 0);
        if name is None || at < free {
            lemma_names_are_texts(f, days, offset, visible, x, y, width, week + 1, free);
        } else {
            let cells = (display_width(name->0) % 65536) as int;
            let next = sat16(sat16(at + cells) + 1);
            lemma_names_are_texts(f, days, offset, visible, x, y, width, week + 1, next);
            let all = month_names(f, days, offset, visible, x, y, width, week, free);
            let rest = month_names(f, days, offset, visible, x, y, width, week + 1, next);
            assert forall|i: int| 0 < i < all.len() implies #[trigger] all[i] == rest[i - 1] by {}
        }
    }
}

/// The latest weeks are shown: all where they fit, and else as many as do, up to the last one. A day
/// is two cells wide where all weeks fit so.
pub proof fn latest_weeks_are_shown(weeks: int, grid_width: int)
    requires
        weeks >= 0,
        grid_width >= 0,
    ensures
        ({
            let (offset, visible, width) = week_plan(weeks, grid_width);
            &&& offset + visible == weeks
            &&& offset >= 0 && visible >= 0
            &&& visible * width <= grid_width
            &&& weeks <= grid_width ==> offset == 0
            &&& weeks > grid_width ==> visible == grid_width
            &&& 0 < 2 * weeks <= grid_width ==> width == 2
            &&& 2 * weeks > grid_width ==> width == 1
        }),
{
    let (offset, visible, width) = week_plan(weeks, grid_width);
    if width == 2 {
        assert(visible * width == visible * 2);
    } else {
        assert(width == 1);
        assert(visible * width == visible);
    }
}

/// A metric shows its own count of a day, and nothing where that is below zero.
pub proof fn metrics_show_their_counts(day: UsageDay)
    ensures
        day.total_tokens >= 0 ==> day_value(day, UsageMetric::Tokens) == day.total_tokens,
        day.agent_time_ms >= 0 ==> day_value(day, UsageMetric::Time) == day.agent_time_ms,
        day.agent_runs >= 0 ==> day_value(day, UsageMetric::Runs) == day.agent_runs,
        day.total_tokens < 0 ==> day_value(day, UsageMetric::Tokens) == 0,
        day.agent_time_ms < 0 ==> day_value(day, UsageMetric::Time) == 0,
        day.agent_runs < 0 ==> day_value(day, UsageMetric::Runs) == 0,
{
}

/// A day without a value has no color, every other day has one of four.
pub proof fn active_days_have_a_color(value: int, max: int)
    requires
        max > 0,
    ensures
        value <= 0 <==> color_level(value, max) == 0,
        value > 0 ==> 1 <= color_level(value, max) <= 4,
{
}

/// The largest value of the days is the value of one of them, and none is larger.
pub proof fn largest_day_is_the_largest(days: Seq<UsageDay>, metric: UsageMetric)
    ensures
        forall|i: int|
            0 <= i < days.len() ==> day_value(#[trigger] days[i], metric) <= largest_day(
                days,
                metric,
            ),
        days.len() > 0 ==> exists|i: int|
            0 <= i < days.len() && day_value(#[trigger] days[i], metric) == largest_day(
                days,
                metric,
            ),
    decreases days.len(),
{
    if days.len() > 0 {
        let init = days.drop_last();
        let n = days.len() - 1;
        largest_day_is_the_largest(init, metric);
        assert(days.last() == days[n]);
        assert forall|i: int| 0 <= i < days.len() implies day_value(#[trigger] days[i], metric)
            <= largest_day(days, metric) by {
            if i < n {
                assert(init[i] == days[i]);
            }
        }
        assert(day_value(days[n], metric) >= 0);
        if largest_day(days, metric) != day_value(days[n], metric) {
            assert(largest_day(days, metric) == largest_day(init, metric));
            if init.len() == 0 {
                assert(largest_day(init, metric) == 0);
            } else {
                let i = choose|i: int|
                    0 <= i < init.len() && day_value(#[trigger] init[i], metric) == largest_day(
                        init,
                        metric,
                    );
                assert(days[i] == init[i]);
            }
        }
    }
}

/// The labels of the rows name every other weekday from Monday on: Monday, Wednesday and Friday have
/// theirs wherever their rows stand behind that of Monday.
pub proof fn rows_name_their_weekdays(f: DisplayFormatter)
    ensures
        row_label(f, Weekday::Mon, 0) == weekday_label(f, Weekday::Mon),
        row_label(f, Weekday::Mon, 2) == weekday_label(f, Weekday::Wed),
        row_label(f, Weekday::Mon, 4) == weekday_label(f, Weekday::Fri),
        row_label(f, Weekday::Sun, 1) == weekday_label(f, Weekday::Mon),
        row_label(f, Weekday::Sun, 3) == weekday_label(f, Weekday::Wed),
        row_label(f, Weekday::Sun, 5) == weekday_label(f, Weekday::Fri),
        row_label(f, Weekday::Mon, 1).len() == 0,
        row_label(f, Weekday::Sun, 0).len() == 0,
{
}

} // verus!
