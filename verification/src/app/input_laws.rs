//! What keys and clicks do, seen from outside.

use crate::app::input::{
    action_at, input_step, BrowserRequest, Event, InputOutcome, KeyCode, KeyInput, MouseInput,
    MouseKind, UiClickAction, UiHitTarget,
};
use crate::app::state::{
    inside, next_fill, next_graph, next_grouping, next_metric, next_orientation, next_range,
    next_theme, next_zone, screen_after, AccentTheme, ActiveScreen, ApiStatGraph,
    ApiStatGrouping, AppState, BarFillMode, Cell, ChartOrientation, ChartRange, Scroll, UsageZone,
};
use crate::locale::{next_style, DisplayStyle};
use crate::usage::snapshot::UsageMetric;
use vstd::prelude::*;

verus! {

/// A key is pressed without Control.
pub open spec fn pressed(code: KeyCode) -> Event {
    Event::Key(KeyInput { code, control: false, press: true })
}

/// The left button goes down in a cell.
pub open spec fn clicked(column: u16, row: u16) -> Event {
    Event::Mouse(MouseInput { kind: MouseKind::LeftDown, column, row })
}

/// No prompt is open.
pub open spec fn calm(s: AppState) -> bool {
    !s.history_catalog_scan_prompt && s.quit_preference_prompt is None && !s.quit_confirm_open
        && !s.no_sessions_confirm_open && !s.show_help
}

/// The state with the mouse in a cell.
pub open spec fn pointed(s: AppState, column: u16, row: u16) -> AppState {
    AppState { mouse_position: Some(Cell { column, row }), ..s }
}

/// Every control moves on, and passes every value before it comes back.
pub proof fn controls_pass_every_value(
    m: UsageMetric,
    r: ChartRange,
    z: UsageZone,
    o: ChartOrientation,
    g: ApiStatGrouping,
    h: ApiStatGraph,
    t: AccentTheme,
    u: AccentTheme,
    b: BarFillMode,
    s: ActiveScreen,
    q: ActiveScreen,
    d: DisplayStyle,
)
    ensures
        next_metric(m) != m && next_metric(next_metric(m)) != m,
        next_range(r) != r && next_range(next_range(r)) != r,
        next_zone(z) != z,
        next_orientation(o) != o,
        next_grouping(g) != g && next_grouping(next_grouping(g)) != g,
        next_graph(h) != h,
        next_theme(t) != t,
        next_theme(t) == next_theme(u) ==> t == u,
        next_theme(next_theme(t)) != t && next_theme(next_theme(next_theme(t))) != t,
        next_fill(b) != b,
        screen_after(s) != s && screen_after(screen_after(s)) != s,
        screen_after(s) == screen_after(q) ==> s == q,
        next_style(d) != d && next_style(next_style(d)) != d,
        next_metric(UsageMetric::Tokens) == UsageMetric::Time,
        next_range(ChartRange::Day) == ChartRange::Week,
        next_grouping(ApiStatGrouping::Day) == ApiStatGrouping::Week,
        screen_after(ActiveScreen::Usage) == ActiveScreen::ApiStat,
{
}

/// A click takes the first target under the mouse, whatever lies behind it.
pub proof fn first_target_is_clicked(
    front: Seq<UiHitTarget>,
    target: UiHitTarget,
    behind: Seq<UiHitTarget>,
    column: u16,
    row: u16,
)
    requires
        inside(target.area, column, row),
        forall|i: int| 0 <= i < front.len() ==> !inside((#[trigger] front[i]).area, column, row),
    ensures
        action_at(front.push(target) + behind, column, row) == Some(target.action),
    decreases front.len(),
{
    let all = front.push(target) + behind;
    if front.len() == 0 {
        assert(all[0] == target);
    } else {
        assert(all[0] == front[0]);
        assert(!inside(front[0].area, column, row));
        let rest = front.skip(1);
        assert forall|i: int| 0 <= i < rest.len() implies !inside(
            (#[trigger] rest[i]).area,
            column,
            row,
        ) by {
            assert(rest[i] == front[i + 1]);
        }
        first_target_is_clicked(rest, target, behind, column, row);
        assert(all.skip(1) =~= rest.push(target) + behind);
    }
}

/// A cell lies in a rectangle that it stands in, edges at the left and the top being part of it.
pub proof fn rectangles_hold_their_cells(area: crate::app::state::Rect, column: u16, row: u16)
    requires
        area.x + area.width <= u16::MAX,
        area.y + area.height <= u16::MAX,
    ensures
        inside(area, column, row) <==> 0 <= column - area.x < area.width && 0 <= row - area.y
            < area.height,
{
}

/// A click on a control sets what the control names and nothing else; a chart that is regrouped or
/// turned shows its newest periods.
pub proof fn clicks_set_what_they_name(
    s: AppState,
    targets: Seq<UiHitTarget>,
    column: u16,
    row: u16,
)
    requires
        calm(s),
    ensures
        ({
            let t = input_step(s, targets, clicked(column, row)).0;
            let p = pointed(s, column, row);
            let newest = Scroll { offset: 0, ..s.usage_scroll };
            let newest_api = Scroll { offset: 0, ..s.api_stat_scroll };
            match action_at(targets, column, row) {
                Some(UiClickAction::SetScreen(v)) => t == (AppState { active_screen: v, ..p }),
                Some(UiClickAction::SetDisplayStyle(v)) => t == (AppState {
                    display_style: v,
                    ..p
                }),
                Some(UiClickAction::SetAccentTheme(v)) => t == (AppState { accent_theme: v, ..p }),
                Some(UiClickAction::SetMetric(v)) => t == (AppState { metric: v, ..p }),
                Some(UiClickAction::SetRange(v)) => t.range == v && (v != s.range ==> t
                    == (AppState { range: v, usage_scroll: newest, ..p })) && (v == s.range ==> t
                    == p),
                Some(UiClickAction::SetUsageZone(v)) => t.usage_zone == v && (v != s.usage_zone
                    ==> t == (AppState { usage_zone: v, usage_scroll: newest, ..p })) && (v
                    == s.usage_zone ==> t == p),
                Some(UiClickAction::SetOrientation(v)) => t.orientation == v && (v
                    != s.orientation ==> t == (AppState {
                    orientation: v,
                    usage_scroll: newest,
                    ..p
                })) && (v == s.orientation ==> t == p),
                Some(UiClickAction::SetApiStatGrouping(v)) => t.api_stat_grouping == v && (v
                    != s.api_stat_grouping ==> t == (AppState {
                    api_stat_grouping: v,
                    api_stat_scroll: newest_api,
                    ..p
                })),
                Some(UiClickAction::SetApiStatGraph(v)) => t.api_stat_graph == v && (v
                    != s.api_stat_graph ==> t == (AppState {
                    api_stat_graph: v,
                    api_stat_scroll: newest_api,
                    ..p
                })),
                Some(UiClickAction::SetApiStatOrientation(v)) => t.api_stat_orientation == v && (v
                    != s.api_stat_orientation ==> t == (AppState {
                    api_stat_orientation: v,
                    api_stat_scroll: newest_api,
                    ..p
                })),
                Some(UiClickAction::IncreaseProjects) => s.activity_project_limit < 50 ==> t
                    == (AppState {
                    activity_project_limit: (s.activity_project_limit + 1) as usize,
                    ..p
                }),
                Some(UiClickAction::DecreaseProjects) => s.activity_project_limit > 1 ==> t
                    == (AppState {
                    activity_project_limit: (s.activity_project_limit - 1) as usize,
                    ..p
                }),
                Some(UiClickAction::PromptQuitConfirmationPreference) => t == (AppState {
                    quit_preference_prompt: Some(!s.skip_quit_confirmation),
                    ..p
                }),
                _ => true,
            }
        }),
{
}

/// Clicks that ask the session history: a mode is the one that was named, deeper is deeper and
/// shallower is shallower; the state stays.
pub proof fn clicks_ask_the_history(
    s: AppState,
    targets: Seq<UiHitTarget>,
    column: u16,
    row: u16,
)
    requires
        calm(s),
    ensures
        ({
            let (t, r) = input_step(s, targets, clicked(column, row));
            match action_at(targets, column, row) {
                Some(UiClickAction::SetHistoryProjectMode(v)) => t == pointed(s, column, row)
                    && r.outcome == InputOutcome::AskBrowser(BrowserRequest::SetProjectMode(v)),
                Some(UiClickAction::DecreaseHistoryDepth) => t == pointed(s, column, row)
                    && r.outcome == InputOutcome::AskBrowser(BrowserRequest::ShallowerCatalog),
                Some(UiClickAction::IncreaseHistoryDepth) => t == pointed(s, column, row)
                    && r.outcome == InputOutcome::AskBrowser(BrowserRequest::DeeperCatalog),
                _ => true,
            }
        }),
{
}

/// An offset that moves to older periods, but not beyond the oldest.
pub open spec fn older_by(p: Scroll, n: int, offset: int) -> bool {
    &&& p.total > p.visible && p.offset + n <= p.total - p.visible ==> offset == p.offset + n
    &&& p.total > p.visible && p.offset + n > p.total - p.visible ==> offset == p.total - p.visible
    &&& p.total <= p.visible ==> offset == 0
}

/// An offset that moves to newer periods, but not beyond the newest.
pub open spec fn newer_by(p: Scroll, n: int, offset: int) -> bool {
    &&& p.offset >= n ==> offset == p.offset - n
    &&& p.offset < n ==> offset == 0
}

/// How far a page is.
pub open spec fn page_of(p: Scroll) -> int {
    if p.visible == 0 {
        1
    } else {
        p.visible as int
    }
}

/// The offset after a scrolling key: older periods lie to the left, newer ones to the right; a page
/// is as many as are visible; Home is the oldest and End the newest.
pub open spec fn moves_by_key(p: Scroll, code: KeyCode, q: Scroll) -> bool {
    &&& q.visible == p.visible && q.total == p.total && q.area == p.area
    &&& code == KeyCode::Left ==> older_by(p, 1, q.offset as int)
    &&& code == KeyCode::Right ==> newer_by(p, 1, q.offset as int)
    &&& code == KeyCode::PageUp ==> older_by(p, page_of(p), q.offset as int)
    &&& code == KeyCode::PageDown ==> newer_by(p, page_of(p), q.offset as int)
    &&& code == KeyCode::Home ==> older_by(p, p.total as int, q.offset as int)
    &&& code == KeyCode::End ==> q.offset == 0
}

/// Keys scroll the chart of the screen that is shown and no other, and change nothing else.
pub proof fn keys_scroll_the_screen_that_is_shown(
    s: AppState,
    targets: Seq<UiHitTarget>,
    code: KeyCode,
)
    requires
        calm(s),
        code == KeyCode::Left || code == KeyCode::Right || code == KeyCode::PageUp || code
            == KeyCode::PageDown || code == KeyCode::Home || code == KeyCode::End,
    ensures
        ({
            let t = input_step(s, targets, pressed(code)).0;
            match s.active_screen {
                ActiveScreen::Usage => moves_by_key(s.usage_scroll, code, t.usage_scroll) && t
                    == (AppState { usage_scroll: t.usage_scroll, ..s }),
                ActiveScreen::Activity => moves_by_key(
                    s.activity_scroll,
                    code,
                    t.activity_scroll,
                ) && t == (AppState { activity_scroll: t.activity_scroll, ..s }),
                ActiveScreen::ApiStat => moves_by_key(
                    s.api_stat_scroll,
                    code,
                    t.api_stat_scroll,
                ) && t == (AppState { api_stat_scroll: t.api_stat_scroll, ..s }),
                _ => t == s,
            }
        }),
{
}

/// The wheel scrolls the chart of the screen that is shown where the mouse is over it: upwards to
/// older periods and downwards to newer ones; elsewhere it scrolls nothing.
pub proof fn wheel_scrolls_what_it_is_over(
    s: AppState,
    targets: Seq<UiHitTarget>,
    m: MouseInput,
)
    requires
        calm(s),
        m.kind == MouseKind::ScrollUp || m.kind == MouseKind::ScrollDown,
    ensures
        ({
            let t = input_step(s, targets, Event::Mouse(m)).0;
            let up = m.kind == MouseKind::ScrollUp;
            let usage = s.active_screen == ActiveScreen::Usage && s.usage_scroll.area is Some
                && inside(s.usage_scroll.area->0, m.column, m.row);
            let activity = s.active_screen == ActiveScreen::Activity && s.activity_scroll.area
                is Some && inside(s.activity_scroll.area->0, m.column, m.row);
            let api = s.active_screen == ActiveScreen::ApiStat && s.api_stat_scroll.area is Some
                && inside(s.api_stat_scroll.area->0, m.column, m.row);
            &&& usage && up ==> older_by(s.usage_scroll, 1, t.usage_scroll.offset as int)
            &&& usage && !up ==> newer_by(s.usage_scroll, 1, t.usage_scroll.offset as int)
            &&& activity && up ==> older_by(s.activity_scroll, 1, t.activity_scroll.offset as int)
            &&& activity && !up ==> newer_by(
                s.activity_scroll,
                1,
                t.activity_scroll.offset as int,
            )
            &&& api && up ==> older_by(s.api_stat_scroll, 1, t.api_stat_scroll.offset as int)
            &&& api && !up ==> newer_by(s.api_stat_scroll, 1, t.api_stat_scroll.offset as int)
            &&& !usage ==> t.usage_scroll == s.usage_scroll
            &&& !activity ==> t.activity_scroll == s.activity_scroll
            &&& !api ==> t.api_stat_scroll == s.api_stat_scroll
        }),
{
}

/// What the letters and function keys do on every screen.
pub proof fn keys_work_on_every_screen(s: AppState, targets: Seq<UiHitTarget>)
    requires
        calm(s),
    ensures
        input_step(s, targets, pressed(KeyCode::Char('s'))).0 == (AppState {
            active_screen: screen_after(s.active_screen),
            ..s
        }),
        input_step(s, targets, pressed(KeyCode::F(2))).0 == (AppState {
            active_screen: screen_after(s.active_screen),
            ..s
        }),
        input_step(s, targets, pressed(KeyCode::Char('n'))).0 == (AppState {
            display_style: next_style(s.display_style),
            ..s
        }),
        input_step(s, targets, pressed(KeyCode::Char('c'))).0 == (AppState {
            accent_theme: next_theme(s.accent_theme),
            ..s
        }),
        s.skip_quit_confirmation ==> input_step(
            s,
            targets,
            pressed(KeyCode::Char('q')),
        ).1.outcome == InputOutcome::Quit,
        !s.skip_quit_confirmation ==> input_step(s, targets, pressed(KeyCode::Char('q'))).0
            == (AppState {
            quit_confirm_open: true,
            quit_confirm_yes_selected: false,
            quit_dont_ask_again: false,
            ..s
        }),
        s.active_screen != ActiveScreen::Read ==> input_step(
            s,
            targets,
            pressed(KeyCode::Char('?')),
        ).0 == (AppState { show_help: true, ..s }),
{
}

/// What the keys of the usage screen change: the metric, the range, the zone or the direction of
/// the bars, each its own.
pub proof fn usage_keys_change_their_own(s: AppState, targets: Seq<UiHitTarget>)
    requires
        calm(s),
        s.active_screen == ActiveScreen::Usage,
    ensures
        ({
            let newest = Scroll { offset: 0, ..s.usage_scroll };
            &&& input_step(s, targets, pressed(KeyCode::Tab)).0 == (AppState {
                metric: next_metric(s.metric),
                ..s
            })
            &&& input_step(s, targets, pressed(KeyCode::Char('g'))).0 == (AppState {
                range: next_range(s.range),
                usage_scroll: newest,
                ..s
            })
            &&& input_step(s, targets, pressed(KeyCode::Char('w'))).0 == (AppState {
                range: next_range(s.range),
                usage_scroll: newest,
                ..s
            })
            &&& input_step(s, targets, pressed(KeyCode::Char('z'))).0 == (AppState {
                usage_zone: next_zone(s.usage_zone),
                usage_scroll: newest,
                ..s
            })
            &&& input_step(s, targets, pressed(KeyCode::Char('f'))).0 == (AppState {
                orientation: next_orientation(s.orientation),
                usage_scroll: newest,
                ..s
            })
        }),
{
}

/// What the keys of the account screen change. The heat map has neither groups nor bars, so there
/// the keys for them change nothing.
pub proof fn account_keys_change_their_own(s: AppState, targets: Seq<UiHitTarget>)
    requires
        calm(s),
        s.active_screen == ActiveScreen::ApiStat,
    ensures
        ({
            let newest = Scroll { offset: 0, ..s.api_stat_scroll };
            &&& input_step(s, targets, pressed(KeyCode::Char('b'))).0 == (AppState {
                api_stat_graph: next_graph(s.api_stat_graph),
                api_stat_scroll: newest,
                ..s
            })
            &&& s.api_stat_graph == ApiStatGraph::Bars ==> input_step(
                s,
                targets,
                pressed(KeyCode::Char('g')),
            ).0 == (AppState {
                api_stat_grouping: next_grouping(s.api_stat_grouping),
                api_stat_scroll: newest,
                ..s
            })
            &&& s.api_stat_graph == ApiStatGraph::Bars ==> input_step(
                s,
                targets,
                pressed(KeyCode::Char('f')),
            ).0 == (AppState {
                api_stat_orientation: next_orientation(s.api_stat_orientation),
                api_stat_scroll: newest,
                ..s
            })
            &&& s.api_stat_graph == ApiStatGraph::Heat ==> input_step(
                s,
                targets,
                pressed(KeyCode::Char('g')),
            ).0 == s && input_step(s, targets, pressed(KeyCode::Char('f'))).0 == s
        }),
{
}

/// Plus and minus show one project more and one less, from one to fifty.
pub proof fn activity_keys_count_projects(s: AppState, targets: Seq<UiHitTarget>)
    requires
        calm(s),
        s.active_screen == ActiveScreen::Activity,
        1 <= s.activity_project_limit <= 50,
    ensures
        ({
            let more = input_step(s, targets, pressed(KeyCode::Char('+'))).0;
            let less = input_step(s, targets, pressed(KeyCode::Char('-'))).0;
            &&& more == (AppState { activity_project_limit: more.activity_project_limit, ..s })
            &&& less == (AppState { activity_project_limit: less.activity_project_limit, ..s })
            &&& s.activity_project_limit < 50 ==> more.activity_project_limit
                == s.activity_project_limit + 1
            &&& s.activity_project_limit == 50 ==> more.activity_project_limit == 50
            &&& s.activity_project_limit > 1 ==> less.activity_project_limit
                == s.activity_project_limit - 1
            &&& s.activity_project_limit == 1 ==> less.activity_project_limit == 1
            &&& input_step(s, targets, pressed(KeyCode::Tab)).0 == (AppState {
                metric: next_metric(s.metric),
                ..s
            })
        }),
{
}

/// The key for a refresh asks for what its screen shows: usage and limits, limits alone, or the
/// repositories, and these only where directories to search are set.
pub proof fn refreshing_asks_for_what_is_shown(s: AppState, targets: Seq<UiHitTarget>)
    requires
        calm(s),
    ensures
        ({
            let (t, r) = input_step(s, targets, pressed(KeyCode::Char('r')));
            match s.active_screen {
                ActiveScreen::Usage | ActiveScreen::Activity => t == s && r.refresh_usage
                    && r.refresh_limits && !r.refresh_catalog,
                ActiveScreen::ApiStat | ActiveScreen::LimitResets => t == s && !r.refresh_usage
                    && r.refresh_limits && !r.refresh_catalog,
                ActiveScreen::Read => !r.refresh_usage && !r.refresh_limits && !r.refresh_catalog
                    && (s.history_roots_configured ==> t == (AppState {
                    history_catalog_scan_prompt: true,
                    ..s
                }) && !r.discovery_disabled) && (!s.history_roots_configured ==> t == s
                    && r.discovery_disabled),
            }
        }),
{
}

/// Repositories are searched where the question is answered with yes, and not where it is answered
/// with no; either way it is closed.
pub proof fn repositories_are_searched_on_consent(s: AppState, targets: Seq<UiHitTarget>)
    requires
        s.history_catalog_scan_prompt,
    ensures
        ({
            let closed = AppState { history_catalog_scan_prompt: false, ..s };
            &&& input_step(s, targets, pressed(KeyCode::Char('y'))).0 == closed
            &&& input_step(s, targets, pressed(KeyCode::Char('y'))).1.refresh_catalog
            &&& input_step(s, targets, pressed(KeyCode::Enter)).0 == closed
            &&& input_step(s, targets, pressed(KeyCode::Enter)).1.refresh_catalog
            &&& input_step(s, targets, pressed(KeyCode::Char('n'))).0 == closed
            &&& !input_step(s, targets, pressed(KeyCode::Char('n'))).1.refresh_catalog
            &&& input_step(s, targets, pressed(KeyCode::Esc)).0 == closed
            &&& !input_step(s, targets, pressed(KeyCode::Esc)).1.refresh_catalog
        }),
{
}

/// The question whether to quit: yes quits and keeps the wish not to be asked again, no closes the
/// question and keeps the setting as it was; Left chooses yes and Right chooses no, and Enter does
/// what is chosen.
pub proof fn quitting_keeps_the_wish(s: AppState, targets: Seq<UiHitTarget>)
    requires
        s.quit_confirm_open,
        !s.history_catalog_scan_prompt,
        s.quit_preference_prompt is None,
    ensures
        ({
            let yes = input_step(s, targets, pressed(KeyCode::Char('y')));
            let no = input_step(s, targets, pressed(KeyCode::Char('n')));
            let enter = input_step(s, targets, pressed(KeyCode::Enter));
            let space = input_step(s, targets, pressed(KeyCode::Char(' ')));
            &&& yes.1.outcome == InputOutcome::Quit
            &&& yes.0 == (AppState { skip_quit_confirmation: s.quit_dont_ask_again, ..s })
            &&& no.1.outcome != InputOutcome::Quit
            &&& !no.0.quit_confirm_open
            &&& no.0.skip_quit_confirmation == s.skip_quit_confirmation
            &&& s.quit_confirm_yes_selected ==> enter == yes
            &&& !s.quit_confirm_yes_selected ==> enter == no
            &&& space.0 == (AppState { quit_dont_ask_again: !s.quit_dont_ask_again, ..s })
            &&& input_step(s, targets, pressed(KeyCode::Left)).0 == (AppState {
                quit_confirm_yes_selected: true,
                ..s
            })
            &&& input_step(s, targets, pressed(KeyCode::Right)).0 == (AppState {
                quit_confirm_yes_selected: false,
                ..s
            })
        }),
{
}

/// The question for the quit preference: yes sets what was asked, no leaves it; either way the
/// question is closed and nobody quits.
pub proof fn preference_is_set_on_consent(
    s: AppState,
    targets: Seq<UiHitTarget>,
    desired: bool,
)
    requires
        s.quit_preference_prompt == Some(desired),
        !s.history_catalog_scan_prompt,
    ensures
        input_step(s, targets, pressed(KeyCode::Char('y'))).0 == (AppState {
            quit_preference_prompt: None,
            skip_quit_confirmation: desired,
            ..s
        }),
        input_step(s, targets, pressed(KeyCode::Char('n'))).0 == (AppState {
            quit_preference_prompt: None,
            ..s
        }),
        input_step(s, targets, pressed(KeyCode::Enter)).0 == (AppState {
            quit_preference_prompt: None,
            ..s
        }),
        input_step(s, targets, pressed(KeyCode::Char('y'))).1.outcome != InputOutcome::Quit,
{
}

/// What a key changes is drawn.
pub open spec fn is_drawn(s: AppState, targets: Seq<UiHitTarget>, k: KeyInput) -> bool {
    let (t, r) = input_step(s, targets, Event::Key(k));
    t != s && r.outcome is Continue ==> r.outcome == InputOutcome::Continue(true)
}

#[verifier::spinoff_prover]
#[verifier::rlimit(80)]
proof fn lemma_usage_is_drawn(s: AppState, targets: Seq<UiHitTarget>, k: KeyInput)
    requires
        calm(s),
        s.active_screen == ActiveScreen::Usage,
    ensures
        is_drawn(s, targets, k),
{
}

#[verifier::spinoff_prover]
#[verifier::rlimit(80)]
proof fn lemma_activity_is_drawn(s: AppState, targets: Seq<UiHitTarget>, k: KeyInput)
    requires
        calm(s),
        s.active_screen == ActiveScreen::Activity,
    ensures
        is_drawn(s, targets, k),
{
}

#[verifier::spinoff_prover]
#[verifier::rlimit(80)]
proof fn lemma_account_is_drawn(s: AppState, targets: Seq<UiHitTarget>, k: KeyInput)
    requires
        calm(s),
        s.active_screen == ActiveScreen::ApiStat,
    ensures
        is_drawn(s, targets, k),
{
}

#[verifier::spinoff_prover]
#[verifier::rlimit(80)]
proof fn lemma_resets_is_drawn(s: AppState, targets: Seq<UiHitTarget>, k: KeyInput)
    requires
        calm(s),
        s.active_screen == ActiveScreen::LimitResets,
    ensures
        is_drawn(s, targets, k),
{
}

/// A key that changes something has it drawn, on every screen but that of the history.
pub proof fn changes_by_keys_are_drawn(s: AppState, targets: Seq<UiHitTarget>, k: KeyInput)
    requires
        calm(s),
        s.active_screen != ActiveScreen::Read,
    ensures
        ({
            let (t, r) = input_step(s, targets, Event::Key(k));
            t != s && r.outcome is Continue ==> r.outcome == InputOutcome::Continue(true)
        }),
{
    match s.active_screen {
        ActiveScreen::Usage => lemma_usage_is_drawn(s, targets, k),
        ActiveScreen::Activity => lemma_activity_is_drawn(s, targets, k),
        ActiveScreen::ApiStat => lemma_account_is_drawn(s, targets, k),
        ActiveScreen::LimitResets => lemma_resets_is_drawn(s, targets, k),
        ActiveScreen::Read => {},
    }
    assert(is_drawn(s, targets, k));
}

} // verus!
