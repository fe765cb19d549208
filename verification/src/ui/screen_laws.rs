//! What stands around the charts: titles, footers, maps of projects and the places of cards.

use crate::app::state::{sat16, ActiveScreen, Rect};
use crate::app::worker::DataState;
use crate::calendar::{parsed_date, weekday_at, Weekday};
use crate::locale::{
    month_label, number_text, style_label_text, weekday_label, DisplayFormatter, DisplayStyle,
};
use crate::text::{byte_len, middle_cut};
use crate::text::views;
use crate::ui::cards::{height_of, in_its_row, row_heights, rows_of, tallest, total_height};
use crate::ui::chart::{bar_plan, first_shown, longest_label, lying_height, pair_of, ChartColumn};
use crate::ui::geometry::{
    all_fit, demands, extent, extents, lies_in, percent_cell, stretches, usage_card_layout,
    without_margin, Share, UsageCardLayout,
};
use crate::ui::heatmap::{
    active_days, first_of_month, header_text, month_names, project_map, project_maps, row_label,
    shown_projects, total_text, week_month,
};
use crate::ui::drawing::Drawn;
use crate::ui::limit_laws::{closes_with, opens_with};
use crate::ui::resets::summary_lines;
use crate::ui::screen::{
    error_text, footer_line, hint_text, model_text, reset_details_message, title_text,
    workspace_text,
};
use crate::ui::wrap::wrapped_lines;
use crate::usage::format::{at_least_zero, short_duration};
use crate::usage::snapshot::{LocalUsageModel, ProjectActivity, UsageDay, UsageMetric};
use vstd::prelude::*;

verus! {

/// The footer begins with the keys of its screen, names the style, and ends in the error, that of
/// usage before that of limits; without an error it ends in the style.
pub proof fn footers_show_the_first_error(
    screen: crate::app::state::ActiveScreen,
    d: DataState,
    f: DisplayFormatter,
)
    ensures
        opens_with(footer_line(screen, d, f), hint_text(screen)),
        d.usage_error is None && d.limits_error is None ==> closes_with(
            footer_line(screen, d, f),
            "Style [n]: "@ + style_label_text(f),
        ),
        d.usage_error is Some && middle_cut(d.usage_error->0@, 80).len() > 0 ==> closes_with(
            footer_line(screen, d, f),
            middle_cut(d.usage_error->0@, 80),
        ),
        d.usage_error is None && d.limits_error is Some && middle_cut(
            d.limits_error->0@,
            80,
        ).len() > 0 ==> closes_with(
            footer_line(screen, d, f),
            middle_cut(d.limits_error->0@, 80),
        ),
        d.usage_error is None && d.limits_error is None ==> error_text(d).len() == 0,
{
    let line = footer_line(screen, d, f);
    let hint = hint_text(screen);
    let style = "Style [n]: "@ + style_label_text(f);
    let e = error_text(d);
    let base = hint + "  "@ + style;
    assert(line.take(hint.len() as int) =~= hint);
    assert(base.skip(base.len() - style.len()) =~= style);
    if e.len() > 0 {
        assert(line == base + "  "@ + e);
        assert(line.skip(line.len() - e.len()) =~= e);
    }
}

/// The style is named, and that of the machine with its locale.
pub proof fn styles_are_named(f: DisplayFormatter)
    ensures
        f.style == DisplayStyle::Classic ==> style_label_text(f) == "Classic"@,
        f.style == DisplayStyle::SystemCompact ==> style_label_text(f) == "System Compact ("@
            + f.system.id@ + ")"@,
        f.style == DisplayStyle::SystemFull ==> style_label_text(f) == "System Full ("@
            + f.system.id@ + ")"@,
{
}

/// A model is shown with its name and its share, the workspace with its path, and where none was
/// named all of them are meant.
pub proof fn models_and_workspaces_are_named(
    f: DisplayFormatter,
    m: LocalUsageModel,
    path: Seq<char>,
)
    ensures
        opens_with(model_text(f, m), middle_cut(m.model@, 18)),
        closes_with(
            model_text(f, m),
            crate::locale::localized(f, crate::locale::tenths_text(m.share_tenths as int)) + "%"@,
        ),
        workspace_text(Some(path)) == middle_cut(path, 48),
        workspace_text(None) == middle_cut("All workspaces"@, 48),
{
    let t = model_text(f, m);
    let head = middle_cut(m.model@, 18);
    let tail = crate::locale::localized(f, crate::locale::tenths_text(m.share_tenths as int))
        + "%"@;
    assert(t =~= head + " "@ + tail);
    assert(t.take(head.len() as int) =~= head);
    assert(t.skip(t.len() - tail.len()) =~= tail);
}

/// A row of the heat map names its own weekday or none: Monday always, Wednesday and Friday where
/// Monday stands above them, and never one of the days between.
pub proof fn row_labels_name_the_weekday_of_the_row(
    f: DisplayFormatter,
    first: Weekday,
    row: int,
)
    requires
        0 <= row < 7,
    ensures
        ({
            let day = weekday_at((first.index() + row) as nat);
            let label = row_label(f, first, row);
            let monday = (7 - first.index() as int) % 7;
            &&& label.len() == 0 || label == weekday_label(f, day)
            &&& day == Weekday::Mon ==> label == weekday_label(f, Weekday::Mon)
            &&& (day == Weekday::Wed || day == Weekday::Fri) && row > monday ==> label
                == weekday_label(f, day)
            &&& day == Weekday::Tue || day == Weekday::Thu || day == Weekday::Sat ==> label.len()
                == 0
        }),
{
}

/// A day counts as active where it has a value under the metric.
pub proof fn active_days_are_counted(days: Seq<UsageDay>, d: UsageDay)
    ensures
        active_days(Seq::empty(), UsageMetric::Tokens) == 0,
        d.total_tokens > 0 ==> active_days(days.push(d), UsageMetric::Tokens) == active_days(
            days,
            UsageMetric::Tokens,
        ) + 1,
        d.total_tokens <= 0 ==> active_days(days.push(d), UsageMetric::Tokens) == active_days(
            days,
            UsageMetric::Tokens,
        ),
        d.agent_time_ms > 0 ==> active_days(days.push(d), UsageMetric::Time) == active_days(
            days,
            UsageMetric::Time,
        ) + 1,
        d.agent_time_ms <= 0 ==> active_days(days.push(d), UsageMetric::Time) == active_days(
            days,
            UsageMetric::Time,
        ),
        d.agent_runs > 0 ==> active_days(days.push(d), UsageMetric::Runs) == active_days(
            days,
            UsageMetric::Runs,
        ) + 1,
        d.agent_runs <= 0 ==> active_days(days.push(d), UsageMetric::Runs) == active_days(
            days,
            UsageMetric::Runs,
        ),
{
    assert(days.push(d).drop_last() =~= days);
}

/// The line above the map of a project has the project's own total under the metric and the number
/// of its active days.
pub proof fn projects_show_their_own_totals(f: DisplayFormatter, p: ProjectActivity)
    ensures
        total_text(f, p, UsageMetric::Time) == short_duration(p.agent_time_ms as int),
        total_text(f, p, UsageMetric::Runs) == number_text(f, at_least_zero(p.agent_runs as int))
            + " runs"@,
        p.total_tokens >= 0 && 0 <= p.cached_input_tokens <= p.total_tokens ==> total_text(
            f,
            p,
            UsageMetric::Tokens,
        ) == crate::ui::values::horizontal_value(
            f,
            p.total_tokens as u64,
            Some((p.total_tokens - p.cached_input_tokens) as u64),
            UsageMetric::Tokens,
            20,
        ) + " tokens"@,
        opens_with(
            header_text(f, p, UsageMetric::Runs),
            "["@ + crate::ui::heatmap::project_name(p.display_path@) + "]  "@ + number_text(
                f,
                active_days(p.days@, UsageMetric::Runs),
            ) + " days  "@ + total_text(f, p, UsageMetric::Runs),
        ),
{
    let h = header_text(f, p, UsageMetric::Runs);
    let head = "["@ + crate::ui::heatmap::project_name(p.display_path@) + "]  "@ + number_text(
        f,
        active_days(p.days@, UsageMetric::Runs),
    ) + " days  "@ + total_text(f, p, UsageMetric::Runs);
    assert(h.take(head.len() as int) =~= head);
}

/// The name of a project is the last part of its path, whatever separators stand at the end.
pub proof fn projects_are_named_by_the_last_part(base: Seq<char>, name: Seq<char>)
    requires
        name.len() > 0,
        forall|i: int| 0 <= i < name.len() ==> #[trigger] name[i] != '/' && name[i] != '\\',
        crate::text::trimmed(base + seq!['/'] + name) == base + seq!['/'] + name,
    ensures
        crate::ui::heatmap::project_name(base + seq!['/'] + name) == name,
{
    let path = base + seq!['/'] + name;
    assert(path.last() == name[name.len() - 1]);
    assert(crate::ui::heatmap::without_separators(path) == path);
    lemma_last_part(base + seq!['/'], name);
}

proof fn lemma_last_part(front: Seq<char>, name: Seq<char>)
    requires
        front.len() > 0,
        front.last() == '/',
        forall|i: int| 0 <= i < name.len() ==> #[trigger] name[i] != '/' && name[i] != '\\',
    ensures
        crate::ui::heatmap::last_part(front + name) == name,
    decreases name.len(),
{
    let all = front + name;
    if name.len() == 0 {
        assert(all.last() == '/');
        assert(name =~= Seq::<char>::empty());
    } else {
        assert(all.last() == name[name.len() - 1]);
        let init = name.drop_last();
        assert forall|i: int| 0 <= i < init.len() implies #[trigger] init[i] != '/' && init[i]
            != '\\' by {
            assert(init[i] == name[i]);
        }
        assert(all.drop_last() =~= front + init);
        lemma_last_part(front, init);
        assert(init.push(name.last()) =~= name);
    }
}

/// The maps of the projects stand one below the other in the order of the list, ten rows apart.
pub proof fn project_maps_stand_in_order(
    f: DisplayFormatter,
    projects: Seq<ProjectActivity>,
    metric: UsageMetric,
    first: Weekday,
    inner: Rect,
    count: int,
    from: int,
    i: int,
    k: int,
)
    requires
        0 <= from <= i < count,
        inner.y + inner.height <= u16::MAX,
        inner.y + 10 * i + 9 <= inner.y + inner.height,
        0 <= k < project_map(
            f,
            projects[i],
            metric,
            first,
            Rect { y: (inner.y + 10 * i) as u16, height: 9, ..inner },
        ).len(),
    ensures
        project_maps(f, projects, metric, first, inner, count, from).contains(
            project_map(
                f,
                projects[i],
                metric,
                first,
                Rect { y: (inner.y + 10 * i) as u16, height: 9, ..inner },
            )[k],
        ),
    decreases i - from,
{
    let y = inner.y + 10 * from;
    let bottom = inner.y + inner.height;
    let slot = Rect {
        x: inner.x,
        y: y as u16,
        width: inner.width,
        height: crate::ui::chart::smaller(9, bottom - y) as u16,
    };
    let map = project_map(f, projects[from], metric, first, slot);
    let rest = project_maps(f, projects, metric, first, inner, count, from + 1);
    let all = project_maps(f, projects, metric, first, inner, count, from);
    assert(all == map + rest);
    if from == i {
        assert(all[k] == map[k]);
    } else {
        project_maps_stand_in_order(f, projects, metric, first, inner, count, from + 1, i, k);
        let want = project_map(
            f,
            projects[i],
            metric,
            first,
            Rect { y: (inner.y + 10 * i) as u16, height: 9, ..inner },
        )[k];
        let p = choose|p: int| 0 <= p < rest.len() && rest[p] == want;
        assert(all[map.len() + p] == want);
    }
}

/// As many projects are shown as fit, as there are, and as the limit allows, but one at least where
/// there is any.
pub proof fn projects_that_fit_are_shown(height: int, limit: int, projects: int)
    requires
        9 <= height < u16::MAX,
        limit >= 1,
        projects >= 1,
    ensures
        ({
            let n = shown_projects(height, limit, projects);
            &&& 1 <= n <= limit && n <= projects
            &&& 10 * n <= height + 1 || n == 1
            &&& n < limit && n < projects ==> 10 * (n + 1) > height + 1
        }),
{
}

/// Where not all lying bars fit, the latest are shown: as many as have room at the height that the
/// bars have, and all of them where there is room.
pub proof fn latest_bars_are_shown(height: int, count: int)
    requires
        1 <= height,
        1 <= count,
    ensures
        ({
            let start = first_shown(height, count);
            let bar = lying_height(height, count);
            &&& 0 <= start < count
            &&& bar == 1 || bar == 3 || bar == 4 || bar == 5
            &&& (count - start) * bar <= height || start == count - 1
            &&& start > 0 ==> (count - start + 1) * bar > height
            &&& count <= height ==> start == 0
        }),
{
    let bar = lying_height(height, count);
    let room = height / count;
    assert(room * count <= height) by (nonlinear_arith)
        requires
            room == height / count,
            count >= 1,
            height >= 1,
    ;
    assert(bar >= 2 ==> bar <= room);
    let fit = height / bar;
    assert(fit * bar <= height < (fit + 1) * bar) by (nonlinear_arith)
        requires
            fit == height / bar,
            bar >= 1,
            height >= 1,
    ;
    let start = first_shown(height, count);
    let shown = count - start;
    if bar >= 2 {
        assert(bar * count <= height) by (nonlinear_arith)
            requires
                room * count <= height,
                bar <= room,
                count >= 1,
        ;
        assert(count <= fit) by (nonlinear_arith)
            requires
                bar * count <= height,
                height < (fit + 1) * bar,
                bar >= 1,
        ;
    }
    if start > 0 {
        assert(shown == if fit < 1 {
            1
        } else {
            fit
        });
    }
    assert(shown * bar <= height || shown == 1) by (nonlinear_arith)
        requires
            shown <= fit || shown == 1,
            fit * bar <= height,
            bar >= 1,
            shown >= 1,
    ;
    if start > 0 {
        assert((shown + 1) * bar > height) by (nonlinear_arith)
            requires
                shown >= fit,
                height < (fit + 1) * bar,
                bar >= 1,
        ;
    }
}

/// The first bar of the plan is the first that is shown, and the parts of a bar leave a cell between
/// bar and value.
pub proof fn bars_are_planned_from_the_first_shown(
    f: DisplayFormatter,
    metric: UsageMetric,
    columns: Seq<ChartColumn>,
    inner: Rect,
)
    requires
        columns.len() <= u16::MAX,
        bar_plan(f, metric, columns, inner) is Some,
    ensures
        ({
            let p = bar_plan(f, metric, columns, inner)->0;
            &&& p.start == first_shown(inner.height as int, columns.len() as int)
            &&& p.bar_height == lying_height(inner.height as int, columns.len() as int)
            &&& 4 <= p.label_width <= 14
            &&& p.label_width + 1 + p.value_width <= inner.width
            &&& p.bar_width > 1 ==> p.label_width + p.bar_width + 1 + p.value_width == inner.width
        }),
{
}

/// Cards of a row stand side by side from the left edge to the right one, none over another and no
/// cell between them.
pub proof fn cards_stand_side_by_side(a: Rect, b: Rect, area: Rect, one_row: bool, i: int)
    requires
        in_its_row(a, area, one_row, i),
        in_its_row(b, area, one_row, i + 1),
        0 <= i,
    ensures
        a.x + a.width == b.x,
        i == 0 ==> a.x == area.x,
        one_row && i == 4 ==> b.x + b.width == area.x + area.width,
        !one_row && i == 1 ==> b.x + b.width == area.x + area.width,
{
    assert(percent_cell(area.x as int, area.width as int, 0) == area.x) by (nonlinear_arith)
        requires
            percent_cell(area.x as int, area.width as int, 0) == area.x + (area.width * 0 + 50)
                / 100,
    ;
    assert(percent_cell(area.x as int, area.width as int, 100) == area.x + area.width);
}

proof fn lemma_extents(parts: Seq<Share>, total: int, count: int)
    requires
        0 <= count <= parts.len(),
        forall|i: int| 0 <= i < count ==> !stretches(#[trigger] parts[i]),
    ensures
        extents(parts, total, count) == demands(parts, count),
    decreases count,
{
    if count > 0 {
        assert(!stretches(parts[count - 1]));
        lemma_extents(parts, total, count - 1);
    }
}

proof fn lemma_extents_after(parts: Seq<Share>, total: int, at: int, count: int)
    requires
        0 <= at < count <= parts.len(),
        stretches(parts[at]),
        forall|i: int| 0 <= i < parts.len() && i != at ==> !stretches(#[trigger] parts[i]),
    ensures
        extents(parts, total, count) == demands(parts, count) + total - demands(
            parts,
            parts.len() as int,
        ),
    decreases count,
{
    if at == count - 1 {
        lemma_extents(parts, total, at);
    } else {
        lemma_extents_after(parts, total, at, count - 1);
        assert(!stretches(parts[count - 1]));
    }
}

/// A part of a fixed length has it; the one part that stretches takes all that the others leave, so
/// that the parts together fill the whole.
pub proof fn parts_fill_the_whole(parts: Seq<Share>, total: int, at: int, i: int)
    requires
        all_fit(parts, total),
        0 <= at < parts.len(),
        stretches(parts[at]),
        0 <= i < parts.len(),
    ensures
        extents(parts, total, parts.len() as int) == total,
        parts[i] matches Share::Length(n) ==> extent(parts, total, i) == n,
        parts[i] matches Share::Min(n) ==> extent(parts, total, i) >= n,
{
    assert forall|k: int| 0 <= k < parts.len() && k != at implies !stretches(
        #[trigger] parts[k],
    ) by {
        if k < at {
            assert(!(stretches(parts[k]) && stretches(parts[at])));
        } else {
            assert(!(stretches(parts[at]) && stretches(parts[k])));
        }
    }
    lemma_extents_after(parts, total, at, parts.len() as int);
}

proof fn lemma_tallest(cards: Seq<Seq<Seq<char>>>, width: nat, i: int)
    requires
        0 <= i < cards.len(),
    ensures
        height_of(cards[i], width) <= tallest(cards, width),
        exists|k: int|
            0 <= k < cards.len() && (tallest(cards, width) == 0 || tallest(cards, width)
                == #[trigger] height_of(cards[k], width)),
    decreases cards.len(),
{
    let init = cards.drop_last();
    let n = cards.len() - 1;
    if i < n {
        lemma_tallest(init, width, i);
        assert(init[i] == cards[i]);
    }
    if tallest(cards, width) == height_of(cards[n], width) {
    } else if n > 0 {
        lemma_tallest(init, width, 0);
        let k = choose|k: int|
            0 <= k < init.len() && (tallest(init, width) == 0 || tallest(init, width)
                == #[trigger] height_of(init[k], width));
        assert(init[k] == cards[k]);
        assert(tallest(cards, width) == 0 || tallest(cards, width) == height_of(cards[k], width));
    } else {
        assert(tallest(init, width) == 0);
        assert(height_of(cards[0], width) <= 0);
        assert(tallest(cards, width) == 0);
        assert(0 <= 0 < cards.len() && (tallest(cards, width) == 0 || tallest(cards, width)
            == height_of(cards[0], width)));
    }
}

/// Every card fits into its row: six cards stand in one row or in two rows of three, and each row is
/// as high as its highest card wants.
pub proof fn rows_have_room_for_their_cards(
    cards: Seq<Seq<Seq<char>>>,
    columns: int,
    width: nat,
    i: int,
)
    requires
        cards.len() == 6,
        columns == 3 || columns == 6,
        0 <= i < 6,
    ensures
        row_heights(cards, columns, width).len() * columns == 6,
        height_of(cards[i], width) <= row_heights(cards, columns, width)[i / columns],
{
    if columns == 6 {
        lemma_tallest(cards, width, i);
    } else if i < 3 {
        assert(cards.subrange(0, 3)[i] == cards[i]);
        lemma_tallest(cards.subrange(0, 3), width, i);
    } else {
        assert(cards.subrange(3, 6)[i - 3] == cards[i]);
        lemma_tallest(cards.subrange(3, 6), width, i - 3);
    }
}

/// Rows stand below each other: together they are as high as one after the other.
pub proof fn rows_stand_below_each_other(heights: Seq<u16>, h: u16)
    ensures
        total_height(Seq::empty()) == 0,
        total_height(heights) + h <= u16::MAX ==> total_height(heights.push(h)) == total_height(
            heights,
        ) + h,
        total_height(heights) + h > u16::MAX ==> total_height(heights.push(h)) == u16::MAX,
{
    assert(heights.push(h).drop_last() =~= heights);
}

/// Cards stand in a row of six where there is room and in rows of three elsewhere; a row of them is
/// no wider than the screen.
pub proof fn cards_fit_side_by_side(width: u16, r: UsageCardLayout)
    requires
        call_ensures(usage_card_layout, (width,), r),
    ensures
        r.columns == 6 <==> width >= 180,
        r.columns == 3 <==> width < 180,
        r.columns * r.min_card_width <= width,
        width >= 100 && width < 4000 ==> r.columns * r.min_card_width * 100 >= width * 94 - 600,
{
}

/// What is left within a margin lies in the area, as far from one side as from the other.
pub proof fn margins_are_even(area: Rect, vertical: int, horizontal: int)
    requires
        0 <= vertical,
        0 <= horizontal,
        area.x + area.width <= u16::MAX,
        area.y + area.height <= u16::MAX,
        2 * horizontal <= area.width,
        2 * vertical <= area.height,
    ensures
        ({
            let r = without_margin(area, vertical, horizontal);
            &&& lies_in(r, area)
            &&& r.x - area.x == horizontal
            &&& r.y - area.y == vertical
            &&& area.x + area.width - (r.x + r.width) == horizontal
            &&& area.y + area.height - (r.y + r.height) == vertical
        }),
{
}

/// The summary of resets takes a line more than its text, and none where there is none.
pub proof fn summaries_have_room(text: Seq<char>, width: nat)
    ensures
        summary_lines(None, width) == 0,
        summary_lines(Some(text), width) >= 2,
{
}

/// Each screen has a title of its own.
pub proof fn screens_have_titles_of_their_own(a: ActiveScreen, b: ActiveScreen)
    ensures
        title_text(a) == title_text(b) ==> a == b,
{
    reveal_strlit(" comon :: usage ");
    reveal_strlit(" comon :: activity ");
    reveal_strlit(" comon :: api stats ");
    reveal_strlit(" comon :: limit resets ");
    reveal_strlit(" comon :: session history ");
    assert(title_text(ActiveScreen::Usage).len() == 16);
    assert(title_text(ActiveScreen::Activity).len() == 19);
    assert(title_text(ActiveScreen::ApiStat).len() == 20);
    assert(title_text(ActiveScreen::LimitResets).len() == 23);
    assert(title_text(ActiveScreen::Read).len() == 26);
}

/// Reset credits are listed exactly where there are some; elsewhere it is said why there are none:
/// what went wrong before what is to be noted where limits are off.
pub proof fn missing_credits_are_explained(data: DataState, r: Option<Vec<String>>)
    requires
        call_ensures(reset_details_message, (&data,), r),
    ensures
        r is None <==> data.limits_enabled && data.limits is Some
            && data.limits->0.reset_credits is Some && data.limits->0.reset_credits->0@.len() > 0,
        !data.limits_enabled && data.limits_error is Some ==> views(r->0@) == seq![
            data.limits_error->0@,
        ],
        !data.limits_enabled && data.limits_error is None && data.limits_notice is Some ==> views(
            r->0@,
        ) == seq![data.limits_notice->0@],
        data.limits_enabled && data.limits is None ==> views(r->0@) == seq![
            "Loading reset credits..."@,
        ],
        data.limits_enabled && data.limits is Some && data.limits->0.reset_credits is Some
            && data.limits->0.reset_credits->0@.len() == 0 ==> views(r->0@) == seq![
            "No reset credits are currently available."@,
        ],
{
}

proof fn lemma_first_of_month(f: DisplayFormatter, days: Seq<UsageDay>, k: int)
    requires
        0 <= k < days.len(),
        parsed_date(days[k].day@) is Some,
        parsed_date(days[k].day@)->0.day == 1,
        forall|i: int|
            0 <= i < k ==> parsed_date((#[trigger] days[i]).day@) is Some && parsed_date(
                days[i].day@,
            )->0.day != 1,
    ensures
        first_of_month(f, days) == Some(
            month_label(f, parsed_date(days[k].day@)->0.month as int),
        ),
    decreases k,
{
    if k > 0 {
        assert(parsed_date(days[0].day@) is Some);
        assert forall|i: int| 0 <= i < k - 1 implies parsed_date((#[trigger] days.skip(1)[i]).day@)
            is Some && parsed_date(days.skip(1)[i].day@)->0.day != 1 by {
            assert(days.skip(1)[i] == days[i + 1]);
        }
        lemma_first_of_month(f, days.skip(1), k - 1);
    }
}

proof fn lemma_no_first_of_month(f: DisplayFormatter, days: Seq<UsageDay>)
    requires
        forall|i: int|
            0 <= i < days.len() ==> parsed_date((#[trigger] days[i]).day@) is Some && parsed_date(
                days[i].day@,
            )->0.day != 1,
    ensures
        first_of_month(f, days) is None,
    decreases days.len(),
{
    if days.len() > 0 {
        assert(parsed_date(days[0].day@) is Some);
        assert forall|i: int| 0 <= i < days.skip(1).len() implies parsed_date(
            (#[trigger] days.skip(1)[i]).day@,
        ) is Some && parsed_date(days.skip(1)[i].day@)->0.day != 1 by {
            assert(days.skip(1)[i] == days[i + 1]);
        }
        lemma_no_first_of_month(f, days.skip(1));
    }
}

/// These days of a week have dates, none of them the first of a month.
pub open spec fn within_month(days: Seq<UsageDay>, from: int, to: int) -> bool {
    forall|i: int|
        from <= i < to ==> parsed_date((#[trigger] days[i]).day@) is Some && parsed_date(
            days[i].day@,
        )->0.day != 1
}

/// Above a week stands the month that begins in it; above the first week that is shown stands the
/// month of its first day, whatever begins in it; above every other week stands nothing.
pub proof fn weeks_name_the_month_that_begins(
    f: DisplayFormatter,
    days: Seq<UsageDay>,
    week: int,
    k: int,
)
    requires
        0 <= week,
        (week + 1) * 7 <= days.len(),
        0 <= k < 7,
    ensures
        ({
            let day = parsed_date(days[week * 7 + k].day@);
            &&& day is Some && day->0.day == 1 && within_month(days, week * 7, week * 7 + k)
                ==> week_month(f, days, week, false) == Some(month_label(f, day->0.month as int))
            &&& within_month(days, week * 7, week * 7 + 7) ==> week_month(f, days, week, false)
                is None
            &&& k == 0 && day is Some ==> week_month(f, days, week, true) == Some(
                month_label(f, day->0.month as int),
            )
        }),
{
    let start = week * 7;
    let part = days.subrange(start, start + 7);
    let day = parsed_date(days[start + k].day@);
    if day is Some && day->0.day == 1 && within_month(days, start, start + k) {
        assert(part[k] == days[start + k]);
        assert forall|i: int| 0 <= i < k implies parsed_date((#[trigger] part[i]).day@) is Some
            && parsed_date(part[i].day@)->0.day != 1 by {
            assert(part[i] == days[start + i]);
        }
        lemma_first_of_month(f, part, k);
    }
    if within_month(days, start, start + 7) {
        assert forall|i: int| 0 <= i < part.len() implies parsed_date((#[trigger] part[i]).day@)
            is Some && parsed_date(part[i].day@)->0.day != 1 by {
            assert(part[i] == days[start + i]);
        }
        lemma_no_first_of_month(f, part);
    }
}

/// A name of a month stands above the week that it names, at that week's column.
pub open spec fn names_week(
    d: Drawn,
    f: DisplayFormatter,
    days: Seq<UsageDay>,
    offset: int,
    x: int,
    y: int,
    width: int,
    week: int,
) -> bool {
    match d {
        Drawn::Text(at, row, text, _) => {
            &&& at == x + week * width
            &&& row == y
            &&& week_month(f, days, offset + week, week == 0) is Some
            &&& opens_with(week_month(f, days, offset + week, week == 0)->0, text)
        },
        _ => false,
    }
}

proof fn lemma_first_chars(s: Seq<char>, n: int)
    requires
        0 <= n,
    ensures
        opens_with(s, crate::ui::drawing::first_chars(s, n)),
{
    if s.len() <= n {
        assert(s.take(s.len() as int) =~= s);
    }
}

/// Every name of a month in the map stands above the week whose month it names.
pub proof fn names_of_months_stand_above_their_weeks(
    f: DisplayFormatter,
    days: Seq<UsageDay>,
    offset: int,
    visible: int,
    x: int,
    y: int,
    width: int,
    week: int,
    free: int,
    i: int,
) -> (named: int)
    requires
        0 <= week,
        0 <= width,
    ensures
        0 <= i < month_names(f, days, offset, visible, x, y, width, week, free).len() ==> week
            <= named < visible && names_week(
            month_names(f, days, offset, visible, x, y, width, week, free)[i],
            f,
            days,
            offset,
            x,
            y,
            width,
            named,
        ),
    decreases visible - week,
{
    let at = x + week * width;
    let name = week_month(f, days, offset + week, week == 0);
    if week >= visible {
        week
    } else if name is None || at < free {
        names_of_months_stand_above_their_weeks(
            f, days, offset, visible, x, y, width, week + 1, free, i,
        )
    } else {
        let cells = (crate::ui::wrap::display_width(name->0) % 65536) as int;
        let next = sat16(sat16(at + cells) + 1);
        let all = month_names(f, days, offset, visible, x, y, width, week, free);
        let rest = month_names(f, days, offset, visible, x, y, width, week + 1, next);
        if i == 0 {
            let end = x + visible * width;
            assert(end - at == (visible - week) * width) by (nonlinear_arith)
                requires
                    end == x + visible * width,
                    at == x + week * width,
            ;
            assert((visible - week) * width >= 0) by (nonlinear_arith)
                requires
                    visible > week,
                    width >= 0,
            ;
            lemma_first_chars(
                name->0,
                if cells < end - at {
                    cells
                } else {
                    end - at
                },
            );
            week
        } else {
            assert(0 < i < all.len() ==> all[i] == rest[i - 1]);
            names_of_months_stand_above_their_weeks(
                f, days, offset, visible, x, y, width, week + 1, next, i - 1,
            )
        }
    }
}

/// A card is high enough for its lines, each with the rows that it takes at the card's width, and for
/// its frame; no card is lower than six rows.
pub proof fn cards_are_high_enough_for_their_lines(
    lines: Seq<Seq<char>>,
    line: Seq<char>,
    width: nat,
)
    ensures
        rows_of(Seq::empty(), width) == 0,
        rows_of(lines, width) + wrapped_lines(line, width) <= u16::MAX ==> rows_of(
            lines.push(line),
            width,
        ) == rows_of(lines, width) + wrapped_lines(line, width),
        height_of(lines, width) >= 6,
        width > 5 && rows_of(lines, (width - 5) as nat) + 4 <= u16::MAX ==> height_of(lines, width)
            >= rows_of(lines, (width - 5) as nat) + 4,
        width > 5 && 2 <= rows_of(lines, (width - 5) as nat) && rows_of(lines, (width - 5) as nat)
            + 4 <= u16::MAX ==> height_of(lines, width) == rows_of(lines, (width - 5) as nat) + 4,
{
    assert(lines.push(line).drop_last() =~= lines);
}

/// No label is longer than the longest, which is one of them.
pub proof fn longest_label_is_the_longest(columns: Seq<ChartColumn>, i: int)
    requires
        0 <= i < columns.len(),
    ensures
        byte_len(columns[i].label@) <= longest_label(columns),
        exists|k: int|
            0 <= k < columns.len() && longest_label(columns) == byte_len(
                (#[trigger] columns[k]).label@,
            ),
    decreases columns.len(),
{
    let init = columns.drop_last();
    let n = columns.len() - 1;
    if i < n {
        longest_label_is_the_longest(init, i);
        assert(init[i] == columns[i]);
    } else if n > 0 {
        longest_label_is_the_longest(init, 0);
    }
    if longest_label(columns) == byte_len(columns[n].label@) {
    } else {
        let k = choose|k: int|
            0 <= k < init.len() && longest_label(init) == byte_len((#[trigger] init[k]).label@);
        assert(columns[k] == init[k]);
    }
}

/// Beside tokens stand those that were not cached; beside time and runs stands nothing.
pub proof fn tokens_stand_in_pairs(c: ChartColumn)
    ensures
        pair_of(c, UsageMetric::Tokens) == Some(c.out_of_cache),
        pair_of(c, UsageMetric::Time) is None,
        pair_of(c, UsageMetric::Runs) is None,
{
}

} // verus!
