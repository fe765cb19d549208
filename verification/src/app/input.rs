//! Input: keys and mouse events, and what they do to the dashboard.

use crate::app::state::{
    inside, next_active_screen, next_fill, next_graph, next_grouping, next_metric,
    next_orientation, next_range, next_theme, next_zone, oldest, one_more_project,
    one_project_less, rect_contains, screen_after, scrolled, scrolled_period_offset, AccentTheme,
    ActiveScreen, ApiStatGraph, ApiStatGrouping, AppState, Cell, ChartOrientation, ChartRange,
    ProjectViewMode, Rect, Scroll, UsageZone, MAX_ACTIVITY_PROJECT_LIMIT,
    MIN_ACTIVITY_PROJECT_LIMIT,
};
use crate::locale::{next_style, DisplayStyle};
use crate::usage::snapshot::UsageMetric;
use vstd::prelude::*;

verus! {

/// A key.
#[derive(Debug, Clone, Copy, PartialEq, Eq, Structural)]
pub enum KeyCode {
    Char(char),
    F(u8),
    Enter,
    Esc,
    Backspace,
    Left,
    Right,
    Up,
    Down,
    Tab,
    PageUp,
    PageDown,
    Home,
    End,
    Other,
}

/// A key event; `control` where Control is the only modifier that is held.
#[derive(Debug, Clone, Copy, PartialEq, Eq, Structural)]
pub struct KeyInput {
    pub code: KeyCode,
    pub control: bool,
    pub press: bool,
}

/// What a mouse does.
#[derive(Debug, Clone, Copy, PartialEq, Eq, Structural)]
pub enum MouseKind {
    LeftDown,
    LeftDrag,
    ScrollUp,
    ScrollDown,
    Moved,
    Other,
}

/// A mouse event.
#[derive(Debug, Clone, Copy, PartialEq, Eq, Structural)]
pub struct MouseInput {
    pub kind: MouseKind,
    pub column: u16,
    pub row: u16,
}

/// An input event.
#[derive(Debug, Clone, Copy, PartialEq, Eq, Structural)]
pub enum Event {
    Key(KeyInput),
    Mouse(MouseInput),
    Resize,
    Other,
}

/// What a click does.
#[derive(Debug, Clone, Copy, PartialEq, Eq, Structural)]
pub enum UiClickAction {
    SetScreen(ActiveScreen),
    SetDisplayStyle(DisplayStyle),
    SetAccentTheme(AccentTheme),
    ToggleBarFillMode,
    SetHistoryProjectMode(ProjectViewMode),
    ConfirmHistoryCatalogScan,
    CancelHistoryCatalogScan,
    DecreaseHistoryDepth,
    IncreaseHistoryDepth,
    HistoryDepthWheel,
    SetMetric(UsageMetric),
    SetRange(ChartRange),
    SetUsageZone(UsageZone),
    SetOrientation(ChartOrientation),
    SetApiStatGrouping(ApiStatGrouping),
    SetApiStatGraph(ApiStatGraph),
    SetApiStatOrientation(ChartOrientation),
    ScrollUsageOlder,
    ScrollUsageNewer,
    SetUsageScrollOffset(usize),
    ScrollApiStatOlder,
    ScrollApiStatNewer,
    SetApiStatScrollOffset(usize),
    ScrollActivityOlder,
    ScrollActivityNewer,
    SetActivityScrollOffset(usize),
    DecreaseProjects,
    IncreaseProjects,
    PromptQuit,
    CancelQuit,
    ConfirmQuit,
    ToggleQuitDontAskAgain,
    PromptQuitConfirmationPreference,
    ConfirmQuitConfirmationPreference,
    CancelQuitConfirmationPreference,
}

/// An area of the screen that can be clicked.
#[derive(Debug, Clone, Copy, PartialEq, Eq, Structural)]
pub struct UiHitTarget {
    pub area: Rect,
    pub action: UiClickAction,
}

impl UiHitTarget {
    /// Tests whether a cell lies in the area.
    pub fn contains(self, column: u16, row: u16) -> (r: bool)
        ensures
            r == inside(self.area, column, row),
    {
        rect_contains(self.area, column, row)
    }
}

/// The action of the first target that a cell lies in.
pub open spec fn action_at(targets: Seq<UiHitTarget>, column: u16, row: u16) -> Option<
    UiClickAction,
>
    decreases targets.len(),
{
    if targets.len() == 0 {
        None
    } else if inside(targets[0].area, column, row) {
        Some(targets[0].action)
    } else {
        action_at(targets.skip(1), column, row)
    }
}

/// The action of the first target that a cell lies in.
pub fn ui_click_action_at(targets: &Vec<UiHitTarget>, column: u16, row: u16) -> (r: Option<
    UiClickAction,
>)
    ensures
        r == action_at(targets@, column, row),
{
    let mut i: usize = 0;
    assert(targets@.skip(0) =~= targets@);
    while i < targets.len()
        invariant
            i <= targets@.len(),
            action_at(targets@, column, row) == action_at(targets@.skip(i as int), column, row),
        decreases targets@.len() - i,
    {
        assert(targets@.skip(i as int).skip(1) =~= targets@.skip(i + 1));
        if targets[i].contains(column, row) {
            return Some(targets[i].action);
        }
        i += 1;
    }
    None
}

/// Where no target lies under a cell, nothing is clicked.
pub proof fn no_target_no_action(targets: Seq<UiHitTarget>, column: u16, row: u16)
    ensures
        action_at(targets, column, row) is None <==> forall|i: int|
            0 <= i < targets.len() ==> !inside((#[trigger] targets[i]).area, column, row),
    decreases targets.len(),
{
    if targets.len() > 0 {
        let rest = targets.skip(1);
        no_target_no_action(rest, column, row);
        assert forall|i: int| 0 <= i < rest.len() implies #[trigger] rest[i] == targets[i + 1] by {}
        if action_at(targets, column, row) is None {
            assert forall|i: int| 0 <= i < targets.len() implies !inside(
                (#[trigger] targets[i]).area,
                column,
                row,
            ) by {
                if i > 0 {
                    assert(rest[i - 1] == targets[i]);
                }
            }
        } else if !inside(targets[0].area, column, row) {
            let k = choose|i: int|
                0 <= i < rest.len() && inside((#[trigger] rest[i]).area, column, row);
            assert(targets[k + 1] == rest[k]);
        }
    }
}

/// What the session history is asked to do.
#[derive(Debug, Clone, Copy, PartialEq, Eq, Structural)]
pub enum BrowserRequest {
    SetProjectMode(ProjectViewMode),
    DeeperCatalog,
    ShallowerCatalog,
    HandleEvent,
}

/// How the main loop goes on.
#[derive(Debug, Clone, Copy, PartialEq, Eq, Structural)]
pub enum InputOutcome {
    /// Goes on; draws again where true.
    Continue(bool),
    /// Goes on; draws again where the session history has changed.
    AskBrowser(BrowserRequest),
    Quit,
}

/// What an event leads to outside the state.
#[derive(Debug, Clone, Copy, PartialEq, Eq, Structural)]
pub struct Reaction {
    pub outcome: InputOutcome,
    pub refresh_usage: bool,
    pub refresh_limits: bool,
    pub refresh_catalog: bool,
    pub discovery_disabled: bool,
}

/// Nothing but drawing again or not.
pub open spec fn stay(redraw: bool) -> Reaction {
    Reaction {
        outcome: InputOutcome::Continue(redraw),
        refresh_usage: false,
        refresh_limits: false,
        refresh_catalog: false,
        discovery_disabled: false,
    }
}

/// The end.
pub open spec fn leave() -> Reaction {
    Reaction { outcome: InputOutcome::Quit, ..stay(false) }
}

/// The session history decides.
pub open spec fn ask(request: BrowserRequest) -> Reaction {
    Reaction { outcome: InputOutcome::AskBrowser(request), ..stay(false) }
}

fn staying(redraw: bool) -> (r: Reaction)
    ensures
        r == stay(redraw),
{
    Reaction {
        outcome: InputOutcome::Continue(redraw),
        refresh_usage: false,
        refresh_limits: false,
        refresh_catalog: false,
        discovery_disabled: false,
    }
}

fn leaving() -> (r: Reaction)
    ensures
        r == leave(),
{
    Reaction { outcome: InputOutcome::Quit, ..staying(false) }
}

fn asking(request: BrowserRequest) -> (r: Reaction)
    ensures
        r == ask(request),
{
    Reaction { outcome: InputOutcome::AskBrowser(request), ..staying(false) }
}

/// What a key does while the quit confirmation is open.
#[derive(Debug, Clone, Copy, PartialEq, Eq, Structural)]
pub enum QuitConfirmationCommand {
    Confirm,
    Cancel,
    QuitImmediately,
    ToggleDontAskAgain,
    SelectYes,
    SelectNo,
}

/// What a key does while the quit confirmation is open.
pub open spec fn quit_command(code: KeyCode, control: bool, yes_selected: bool) -> Option<
    QuitConfirmationCommand,
> {
    if code == KeyCode::Char('c') && control {
        Some(QuitConfirmationCommand::QuitImmediately)
    } else if code == KeyCode::Left {
        Some(QuitConfirmationCommand::SelectYes)
    } else if code == KeyCode::Right {
        Some(QuitConfirmationCommand::SelectNo)
    } else if code == KeyCode::Char('y') || code == KeyCode::Char('Y') || (code == KeyCode::Enter
        && yes_selected) {
        Some(QuitConfirmationCommand::Confirm)
    } else if code == KeyCode::Char(' ') {
        Some(QuitConfirmationCommand::ToggleDontAskAgain)
    } else if code == KeyCode::Enter || cancels(code) {
        Some(QuitConfirmationCommand::Cancel)
    } else {
        None
    }
}

/// Escape, `n` and `q` cancel a prompt.
pub open spec fn cancels(code: KeyCode) -> bool {
    code == KeyCode::Esc || code == KeyCode::Char('n') || code == KeyCode::Char('N') || code
        == KeyCode::Char('q') || code == KeyCode::Char('Q')
}

fn is_cancel(code: KeyCode) -> (r: bool)
    ensures
        r == cancels(code),
{
    code == KeyCode::Esc || code == KeyCode::Char('n') || code == KeyCode::Char('N') || code
        == KeyCode::Char('q') || code == KeyCode::Char('Q')
}

/// What a key does while the quit confirmation is open.
pub fn quit_confirmation_command(code: KeyCode, control: bool, yes_selected: bool) -> (r: Option<
    QuitConfirmationCommand,
>)
    ensures
        r == quit_command(code, control, yes_selected),
{
    if code == KeyCode::Char('c') && control {
        Some(QuitConfirmationCommand::QuitImmediately)
    } else if code == KeyCode::Left {
        Some(QuitConfirmationCommand::SelectYes)
    } else if code == KeyCode::Right {
        Some(QuitConfirmationCommand::SelectNo)
    } else if code == KeyCode::Char('y') || code == KeyCode::Char('Y') || (code == KeyCode::Enter
        && yes_selected) {
        Some(QuitConfirmationCommand::Confirm)
    } else if code == KeyCode::Char(' ') {
        Some(QuitConfirmationCommand::ToggleDontAskAgain)
    } else if code == KeyCode::Enter || is_cancel(code) {
        Some(QuitConfirmationCommand::Cancel)
    } else {
        None
    }
}

/// The state with the quit confirmation closed.
pub open spec fn quit_closed(s: AppState) -> AppState {
    AppState {
        quit_confirm_open: false,
        quit_confirm_yes_selected: false,
        quit_dont_ask_again: false,
        ..s
    }
}

/// The state with the quit confirmation open.
pub open spec fn quit_opened(s: AppState) -> AppState {
    AppState {
        quit_confirm_open: true,
        quit_confirm_yes_selected: false,
        quit_dont_ask_again: false,
        ..s
    }
}

/// An event while the prompt for repository discovery is open.
pub open spec fn catalog_prompt_step(
    s: AppState,
    targets: Seq<UiHitTarget>,
    e: Event,
) -> (AppState, Reaction) {
    let closed = AppState { history_catalog_scan_prompt: false, ..s };
    let confirmed = (closed, Reaction { refresh_catalog: true, ..stay(true) });
    match e {
        Event::Mouse(m) => if m.kind == MouseKind::LeftDown {
            match action_at(targets, m.column, m.row) {
                Some(UiClickAction::ConfirmHistoryCatalogScan) => confirmed,
                Some(UiClickAction::CancelHistoryCatalogScan) => (closed, stay(true)),
                _ => (s, stay(false)),
            }
        } else {
            (s, stay(false))
        },
        Event::Key(k) => if !k.press {
            (s, stay(false))
        } else if k.code == KeyCode::Char('y') || k.code == KeyCode::Char('Y') || k.code
            == KeyCode::Enter {
            confirmed
        } else if cancels(k.code) {
            (closed, stay(true))
        } else if k.code == KeyCode::Char('c') && k.control {
            (s, leave())
        } else {
            (s, stay(false))
        },
        Event::Resize => (s, stay(true)),
        Event::Other => (s, stay(false)),
    }
}

/// An event while the prompt for the quit preference is open.
pub open spec fn preference_prompt_step(
    s: AppState,
    desired: bool,
    targets: Seq<UiHitTarget>,
    e: Event,
) -> (AppState, Reaction) {
    let closed = AppState { quit_preference_prompt: None, ..s };
    let confirmed = AppState { skip_quit_confirmation: desired, ..closed };
    match e {
        Event::Mouse(m) => if m.kind == MouseKind::LeftDown {
            match action_at(targets, m.column, m.row) {
                Some(UiClickAction::ConfirmQuitConfirmationPreference) => (confirmed, stay(true)),
                Some(UiClickAction::CancelQuitConfirmationPreference) => (closed, stay(true)),
                _ => (s, stay(false)),
            }
        } else {
            (s, stay(false))
        },
        Event::Key(k) => if !k.press {
            (s, stay(false))
        } else if k.code == KeyCode::Char('y') || k.code == KeyCode::Char('Y') {
            (confirmed, stay(true))
        } else if k.code == KeyCode::Char('c') && k.control {
            (s, leave())
        } else if k.code == KeyCode::Enter || cancels(k.code) {
            (closed, stay(true))
        } else {
            (s, stay(false))
        },
        Event::Resize => (s, stay(true)),
        Event::Other => (s, stay(false)),
    }
}

/// An event while the quit confirmation is open.
pub open spec fn quit_prompt_step(
    s: AppState,
    targets: Seq<UiHitTarget>,
    e: Event,
) -> (AppState, Reaction) {
    let confirmed = (AppState { skip_quit_confirmation: s.quit_dont_ask_again, ..s }, leave());
    let toggled = (AppState { quit_dont_ask_again: !s.quit_dont_ask_again, ..s }, stay(true));
    match e {
        Event::Mouse(m) => if m.kind == MouseKind::LeftDown {
            match action_at(targets, m.column, m.row) {
                Some(UiClickAction::ConfirmQuit) => confirmed,
                Some(UiClickAction::CancelQuit) => (quit_closed(s), stay(true)),
                Some(UiClickAction::ToggleQuitDontAskAgain) => toggled,
                _ => (s, stay(false)),
            }
        } else {
            (s, stay(false))
        },
        Event::Key(k) => if !k.press {
            (s, stay(false))
        } else {
            match quit_command(k.code, k.control, s.quit_confirm_yes_selected) {
                Some(QuitConfirmationCommand::Confirm) => confirmed,
                Some(QuitConfirmationCommand::QuitImmediately) => (s, leave()),
                Some(QuitConfirmationCommand::ToggleDontAskAgain) => toggled,
                Some(QuitConfirmationCommand::SelectYes) => (
                    AppState { quit_confirm_yes_selected: true, ..s },
                    stay(true),
                ),
                Some(QuitConfirmationCommand::SelectNo) => (
                    AppState { quit_confirm_yes_selected: false, ..s },
                    stay(true),
                ),
                Some(QuitConfirmationCommand::Cancel) => (quit_closed(s), stay(true)),
                None => (s, stay(false)),
            }
        },
        Event::Resize => (s, stay(true)),
        Event::Other => (s, stay(false)),
    }
}

/// A scroll position after a step.
pub open spec fn scroll_step(p: Scroll, amount: int, older: bool) -> Scroll {
    Scroll {
        offset: scrolled(p.offset as int, p.total as int, p.visible as int, amount, older) as usize,
        ..p
    }
}

/// A scroll position set to an offset, at most the oldest one.
pub open spec fn scroll_to(p: Scroll, offset: int) -> Scroll {
    let end = oldest(p.total as int, p.visible as int);
    Scroll {
        offset: (if offset <= end {
            offset
        } else {
            end
        }) as usize,
        ..p
    }
}

/// A page of periods, at least one.
pub open spec fn page(p: Scroll) -> int {
    if p.visible < 1 {
        1
    } else {
        p.visible as int
    }
}

/// The newest periods.
pub open spec fn newest(p: Scroll) -> Scroll {
    Scroll { offset: 0, ..p }
}

fn step_scroll(p: Scroll, amount: usize, older: bool) -> (r: Scroll)
    ensures
        r == scroll_step(p, amount as int, older),
{
    Scroll { offset: scrolled_period_offset(p.offset, p.total, p.visible, amount, older), ..p }
}

fn set_scroll(p: Scroll, offset: usize) -> (r: Scroll)
    ensures
        r == scroll_to(p, offset as int),
{
    let end: usize = p.total.saturating_sub(p.visible);
    Scroll {
        offset: if offset < end {
            offset
        } else {
            end
        },
        ..p
    }
}

fn page_of(p: Scroll) -> (r: usize)
    ensures
        r == page(p),
{
    if p.visible < 1 {
        1
    } else {
        p.visible
    }
}

/// A click on a control.
pub open spec fn click_step(s: AppState, a: UiClickAction) -> (AppState, Reaction) {
    match a {
        UiClickAction::SetScreen(v) => (
            AppState { active_screen: v, ..s },
            stay(s.active_screen != v),
        ),
        UiClickAction::SetDisplayStyle(v) => (
            AppState { display_style: v, ..s },
            stay(s.display_style != v),
        ),
        UiClickAction::SetAccentTheme(v) => (
            AppState { accent_theme: v, ..s },
            stay(s.accent_theme != v),
        ),
        UiClickAction::ToggleBarFillMode => (
            AppState { bar_fill_mode: next_fill(s.bar_fill_mode), ..s },
            stay(true),
        ),
        UiClickAction::SetHistoryProjectMode(v) => (s, ask(BrowserRequest::SetProjectMode(v))),
        UiClickAction::DecreaseHistoryDepth => (s, ask(BrowserRequest::ShallowerCatalog)),
        UiClickAction::IncreaseHistoryDepth => (s, ask(BrowserRequest::DeeperCatalog)),
        UiClickAction::SetMetric(v) => (AppState { metric: v, ..s }, stay(s.metric != v)),
        UiClickAction::SetRange(v) => if s.range == v {
            (s, stay(false))
        } else {
            (AppState { range: v, usage_scroll: newest(s.usage_scroll), ..s }, stay(true))
        },
        UiClickAction::SetUsageZone(v) => if s.usage_zone == v {
            (s, stay(false))
        } else {
            (AppState { usage_zone: v, usage_scroll: newest(s.usage_scroll), ..s }, stay(true))
        },
        UiClickAction::SetOrientation(v) => if s.orientation == v {
            (s, stay(false))
        } else {
            (AppState { orientation: v, usage_scroll: newest(s.usage_scroll), ..s }, stay(true))
        },
        _ => account_click_step(s, a),
    }
}

/// A click on a control of the account or activity screen.
pub open spec fn account_click_step(s: AppState, a: UiClickAction) -> (AppState, Reaction) {
    match a {
        UiClickAction::SetApiStatGrouping(v) => if s.api_stat_grouping == v {
            (s, stay(false))
        } else {
            (
                AppState { api_stat_grouping: v, api_stat_scroll: newest(s.api_stat_scroll), ..s },
                stay(true),
            )
        },
        UiClickAction::SetApiStatGraph(v) => if s.api_stat_graph == v {
            (s, stay(false))
        } else {
            (
                AppState { api_stat_graph: v, api_stat_scroll: newest(s.api_stat_scroll), ..s },
                stay(true),
            )
        },
        UiClickAction::SetApiStatOrientation(v) => if s.api_stat_orientation == v {
            (s, stay(false))
        } else {
            (
                AppState {
                    api_stat_orientation: v,
                    api_stat_scroll: newest(s.api_stat_scroll),
                    ..s
                },
                stay(true),
            )
        },
        UiClickAction::DecreaseProjects => with_projects(
            s,
            one_project_less(s.activity_project_limit as int),
        ),
        UiClickAction::IncreaseProjects => with_projects(
            s,
            one_more_project(s.activity_project_limit as int),
        ),
        _ => scroll_click_step(s, a),
    }
}

/// A click on a scroll bar.
pub open spec fn scroll_click_step(s: AppState, a: UiClickAction) -> (AppState, Reaction) {
    match a {
        UiClickAction::ScrollUsageOlder => usage_scrolled(s, scroll_step(s.usage_scroll, 1, true)),
        UiClickAction::ScrollUsageNewer => usage_scrolled(s, scroll_step(s.usage_scroll, 1, false)),
        UiClickAction::SetUsageScrollOffset(n) => usage_scrolled(
            s,
            scroll_to(s.usage_scroll, n as int),
        ),
        UiClickAction::ScrollApiStatOlder => api_stat_scrolled(
            s,
            scroll_step(s.api_stat_scroll, 1, true),
        ),
        UiClickAction::ScrollApiStatNewer => api_stat_scrolled(
            s,
            scroll_step(s.api_stat_scroll, 1, false),
        ),
        UiClickAction::SetApiStatScrollOffset(n) => api_stat_scrolled(
            s,
            scroll_to(s.api_stat_scroll, n as int),
        ),
        UiClickAction::ScrollActivityOlder => activity_scrolled(
            s,
            scroll_step(s.activity_scroll, 1, true),
        ),
        UiClickAction::ScrollActivityNewer => activity_scrolled(
            s,
            scroll_step(s.activity_scroll, 1, false),
        ),
        UiClickAction::SetActivityScrollOffset(n) => activity_scrolled(
            s,
            scroll_to(s.activity_scroll, n as int),
        ),
        _ => prompt_click_step(s, a),
    }
}

/// A click that opens, answers or closes a prompt.
pub open spec fn prompt_click_step(s: AppState, a: UiClickAction) -> (AppState, Reaction) {
    match a {
        UiClickAction::PromptQuit => (quit_opened(s), stay(true)),
        UiClickAction::CancelQuit => (quit_closed(s), stay(true)),
        UiClickAction::ConfirmQuit => (
            AppState { skip_quit_confirmation: s.quit_dont_ask_again, ..s },
            stay(false),
        ),
        UiClickAction::ToggleQuitDontAskAgain => (
            AppState { quit_dont_ask_again: !s.quit_dont_ask_again, ..s },
            stay(true),
        ),
        UiClickAction::PromptQuitConfirmationPreference => (
            AppState { quit_preference_prompt: Some(!s.skip_quit_confirmation), ..s },
            stay(true),
        ),
        UiClickAction::ConfirmQuitConfirmationPreference => (
            AppState {
                skip_quit_confirmation: match s.quit_preference_prompt {
                    Some(v) => v,
                    None => s.skip_quit_confirmation,
                },
                quit_preference_prompt: None,
                ..s
            },
            stay(true),
        ),
        UiClickAction::CancelQuitConfirmationPreference => (
            AppState { quit_preference_prompt: None, ..s },
            stay(true),
        ),
        _ => (s, stay(false)),
    }
}

/// The usage chart at a new position.
pub open spec fn usage_scrolled(s: AppState, p: Scroll) -> (AppState, Reaction) {
    (AppState { usage_scroll: p, ..s }, stay(p.offset != s.usage_scroll.offset))
}

/// The account chart at a new position.
pub open spec fn api_stat_scrolled(s: AppState, p: Scroll) -> (AppState, Reaction) {
    (AppState { api_stat_scroll: p, ..s }, stay(p.offset != s.api_stat_scroll.offset))
}

/// The activity view at a new position.
pub open spec fn activity_scrolled(s: AppState, p: Scroll) -> (AppState, Reaction) {
    (AppState { activity_scroll: p, ..s }, stay(p.offset != s.activity_scroll.offset))
}

/// The activity view with another number of projects.
pub open spec fn with_projects(s: AppState, n: int) -> (AppState, Reaction) {
    (AppState { activity_project_limit: n as usize, ..s }, stay(n != s.activity_project_limit))
}

fn scroll_usage(s: AppState, p: Scroll) -> (r: (AppState, Reaction))
    ensures
        r == usage_scrolled(s, p),
{
    (AppState { usage_scroll: p, ..s }, staying(p.offset != s.usage_scroll.offset))
}

fn scroll_api_stat(s: AppState, p: Scroll) -> (r: (AppState, Reaction))
    ensures
        r == api_stat_scrolled(s, p),
{
    (AppState { api_stat_scroll: p, ..s }, staying(p.offset != s.api_stat_scroll.offset))
}

fn scroll_activity(s: AppState, p: Scroll) -> (r: (AppState, Reaction))
    ensures
        r == activity_scrolled(s, p),
{
    (AppState { activity_scroll: p, ..s }, staying(p.offset != s.activity_scroll.offset))
}

fn more_projects(s: AppState) -> (r: (AppState, Reaction))
    ensures
        r == with_projects(s, one_more_project(s.activity_project_limit as int)),
{
    let up: usize = s.activity_project_limit.saturating_add(1);
    let next: usize = if up < MAX_ACTIVITY_PROJECT_LIMIT {
        up
    } else {
        MAX_ACTIVITY_PROJECT_LIMIT
    };
    (AppState { activity_project_limit: next, ..s }, staying(next != s.activity_project_limit))
}

fn fewer_projects(s: AppState) -> (r: (AppState, Reaction))
    ensures
        r == with_projects(s, one_project_less(s.activity_project_limit as int)),
{
    let down: usize = s.activity_project_limit.saturating_sub(1);
    let next: usize = if down > MIN_ACTIVITY_PROJECT_LIMIT {
        down
    } else {
        MIN_ACTIVITY_PROJECT_LIMIT
    };
    (AppState { activity_project_limit: next, ..s }, staying(next != s.activity_project_limit))
}

fn open_quit(s: AppState) -> (r: AppState)
    ensures
        r == quit_opened(s),
{
    AppState {
        quit_confirm_open: true,
        quit_confirm_yes_selected: false,
        quit_dont_ask_again: false,
        ..s
    }
}

fn close_quit(s: AppState) -> (r: AppState)
    ensures
        r == quit_closed(s),
{
    AppState {
        quit_confirm_open: false,
        quit_confirm_yes_selected: false,
        quit_dont_ask_again: false,
        ..s
    }
}

fn to_newest(p: Scroll) -> (r: Scroll)
    ensures
        r == newest(p),
{
    Scroll { offset: 0, ..p }
}

/// Applies a click on a control.
pub fn apply_ui_click_action(s: AppState, action: UiClickAction) -> (r: (AppState, Reaction))
    ensures
        r == click_step(s, action),
{
    match action {
        UiClickAction::SetScreen(v) => (
            AppState { active_screen: v, ..s },
            staying(s.active_screen != v),
        ),
        UiClickAction::SetDisplayStyle(v) => (
            AppState { display_style: v, ..s },
            staying(s.display_style != v),
        ),
        UiClickAction::SetAccentTheme(v) => (
            AppState { accent_theme: v, ..s },
            staying(s.accent_theme != v),
        ),
        UiClickAction::ToggleBarFillMode => (
            AppState { bar_fill_mode: s.bar_fill_mode.toggled(), ..s },
            staying(true),
        ),
        UiClickAction::SetHistoryProjectMode(v) => (s, asking(BrowserRequest::SetProjectMode(v))),
        UiClickAction::DecreaseHistoryDepth => (s, asking(BrowserRequest::ShallowerCatalog)),
        UiClickAction::IncreaseHistoryDepth => (s, asking(BrowserRequest::DeeperCatalog)),
        UiClickAction::SetMetric(v) => (AppState { metric: v, ..s }, staying(s.metric != v)),
        UiClickAction::SetRange(v) => if s.range == v {
            (s, staying(false))
        } else {
            (AppState { range: v, usage_scroll: to_newest(s.usage_scroll), ..s }, staying(true))
        },
        UiClickAction::SetUsageZone(v) => if s.usage_zone == v {
            (s, staying(false))
        } else {
            (AppState { usage_zone: v, usage_scroll: to_newest(s.usage_scroll), ..s }, staying(true))
        },
        UiClickAction::SetOrientation(v) => if s.orientation == v {
            (s, staying(false))
        } else {
            (
                AppState { orientation: v, usage_scroll: to_newest(s.usage_scroll), ..s },
                staying(true),
            )
        },
        _ => click_account_control(s, action),
    }
}

fn click_account_control(s: AppState, action: UiClickAction) -> (r: (AppState, Reaction))
    ensures
        r == account_click_step(s, action),
{
    match action {
        UiClickAction::SetApiStatGrouping(v) => if s.api_stat_grouping == v {
            (s, staying(false))
        } else {
            (
                AppState {
                    api_stat_grouping: v,
                    api_stat_scroll: to_newest(s.api_stat_scroll),
                    ..s
                },
                staying(true),
            )
        },
        UiClickAction::SetApiStatGraph(v) => if s.api_stat_graph == v {
            (s, staying(false))
        } else {
            (
                AppState { api_stat_graph: v, api_stat_scroll: to_newest(s.api_stat_scroll), ..s },
                staying(true),
            )
        },
        UiClickAction::SetApiStatOrientation(v) => if s.api_stat_orientation == v {
            (s, staying(false))
        } else {
            (
                AppState {
                    api_stat_orientation: v,
                    api_stat_scroll: to_newest(s.api_stat_scroll),
                    ..s
                },
                staying(true),
            )
        },
        UiClickAction::DecreaseProjects => fewer_projects(s),
        UiClickAction::IncreaseProjects => more_projects(s),
        _ => click_scroll_control(s, action),
    }
}

fn click_scroll_control(s: AppState, action: UiClickAction) -> (r: (AppState, Reaction))
    ensures
        r == scroll_click_step(s, action),
{
    match action {
        UiClickAction::ScrollUsageOlder => scroll_usage(s, step_scroll(s.usage_scroll, 1, true)),
        UiClickAction::ScrollUsageNewer => scroll_usage(s, step_scroll(s.usage_scroll, 1, false)),
        UiClickAction::SetUsageScrollOffset(n) => scroll_usage(s, set_scroll(s.usage_scroll, n)),
        UiClickAction::ScrollApiStatOlder => scroll_api_stat(
            s,
            step_scroll(s.api_stat_scroll, 1, true),
        ),
        UiClickAction::ScrollApiStatNewer => scroll_api_stat(
            s,
            step_scroll(s.api_stat_scroll, 1, false),
        ),
        UiClickAction::SetApiStatScrollOffset(n) => scroll_api_stat(
            s,
            set_scroll(s.api_stat_scroll, n),
        ),
        UiClickAction::ScrollActivityOlder => scroll_activity(
            s,
            step_scroll(s.activity_scroll, 1, true),
        ),
        UiClickAction::ScrollActivityNewer => scroll_activity(
            s,
            step_scroll(s.activity_scroll, 1, false),
        ),
        UiClickAction::SetActivityScrollOffset(n) => scroll_activity(
            s,
            set_scroll(s.activity_scroll, n),
        ),
        _ => click_prompt_control(s, action),
    }
}

fn click_prompt_control(s: AppState, action: UiClickAction) -> (r: (AppState, Reaction))
    ensures
        r == prompt_click_step(s, action),
{
    match action {
        UiClickAction::PromptQuit => (open_quit(s), staying(true)),
        UiClickAction::CancelQuit => (close_quit(s), staying(true)),
        UiClickAction::ConfirmQuit => (
            AppState { skip_quit_confirmation: s.quit_dont_ask_again, ..s },
            staying(false),
        ),
        UiClickAction::ToggleQuitDontAskAgain => (
            AppState { quit_dont_ask_again: !s.quit_dont_ask_again, ..s },
            staying(true),
        ),
        UiClickAction::PromptQuitConfirmationPreference => (
            AppState { quit_preference_prompt: Some(!s.skip_quit_confirmation), ..s },
            staying(true),
        ),
        UiClickAction::ConfirmQuitConfirmationPreference => (
            AppState {
                skip_quit_confirmation: match s.quit_preference_prompt {
                    Some(v) => v,
                    None => s.skip_quit_confirmation,
                },
                quit_preference_prompt: None,
                ..s
            },
            staying(true),
        ),
        UiClickAction::CancelQuitConfirmationPreference => (
            AppState { quit_preference_prompt: None, ..s },
            staying(true),
        ),
        _ => (s, staying(false)),
    }
}

/// Commands of the usage screen.
#[derive(Debug, Clone, Copy, PartialEq, Eq, Structural)]
pub enum UsageCommand {
    RefreshAll,
    ToggleMetric,
    ToggleRange,
    ToggleZone,
    ToggleOrientation,
    ScrollOlder,
    ScrollNewer,
    PageOlder,
    PageNewer,
    ScrollOldest,
    ScrollNewest,
    ToggleHelp,
    ConfirmContinue,
}

/// Commands of the activity screen.
#[derive(Debug, Clone, Copy, PartialEq, Eq, Structural)]
pub enum ActivityCommand {
    RefreshAll,
    ToggleMetric,
    IncreaseProjects,
    DecreaseProjects,
    ScrollOlder,
    ScrollNewer,
    PageOlder,
    PageNewer,
    ScrollOldest,
    ScrollNewest,
    ToggleHelp,
}

/// Commands of the reset screen.
#[derive(Debug, Clone, Copy, PartialEq, Eq, Structural)]
pub enum LimitResetCommand {
    RefreshLimits,
    ToggleHelp,
}

/// Commands of the account screen.
#[derive(Debug, Clone, Copy, PartialEq, Eq, Structural)]
pub enum ApiStatCommand {
    Refresh,
    ToggleGrouping,
    ToggleGraph,
    ToggleOrientation,
    ScrollOlder,
    ScrollNewer,
    PageOlder,
    PageNewer,
    ScrollOldest,
    ScrollNewest,
    ToggleHelp,
}

/// Either case of a letter.
pub open spec fn letter(code: KeyCode, lower: char, upper: char) -> bool {
    code == KeyCode::Char(lower) || code == KeyCode::Char(upper)
}

/// The command of a key on the usage screen.
pub open spec fn usage_command(code: KeyCode) -> Option<UsageCommand> {
    if code == KeyCode::Char('r') || code == KeyCode::F(5) {
        Some(UsageCommand::RefreshAll)
    } else if code == KeyCode::Tab {
        Some(UsageCommand::ToggleMetric)
    } else if letter(code, 'g', 'G') || letter(code, 'w', 'W') {
        Some(UsageCommand::ToggleRange)
    } else if letter(code, 'z', 'Z') || code == KeyCode::F(6) {
        Some(UsageCommand::ToggleZone)
    } else if code == KeyCode::Char('f') {
        Some(UsageCommand::ToggleOrientation)
    } else if code == KeyCode::Left || code == KeyCode::Up {
        Some(UsageCommand::ScrollOlder)
    } else if code == KeyCode::Right || code == KeyCode::Down {
        Some(UsageCommand::ScrollNewer)
    } else if code == KeyCode::PageUp {
        Some(UsageCommand::PageOlder)
    } else if code == KeyCode::PageDown {
        Some(UsageCommand::PageNewer)
    } else if code == KeyCode::Home {
        Some(UsageCommand::ScrollOldest)
    } else if code == KeyCode::End {
        Some(UsageCommand::ScrollNewest)
    } else if code == KeyCode::Char('?') {
        Some(UsageCommand::ToggleHelp)
    } else if code == KeyCode::Enter || letter(code, 'y', 'Y') {
        Some(UsageCommand::ConfirmContinue)
    } else {
        None
    }
}

/// The command of a key on the activity screen.
pub open spec fn activity_command(code: KeyCode) -> Option<ActivityCommand> {
    if code == KeyCode::Char('r') || code == KeyCode::F(5) {
        Some(ActivityCommand::RefreshAll)
    } else if code == KeyCode::Tab {
        Some(ActivityCommand::ToggleMetric)
    } else if code == KeyCode::Char('+') || code == KeyCode::Char('=') || code
        == KeyCode::Char(']') {
        Some(ActivityCommand::IncreaseProjects)
    } else if code == KeyCode::Char('-') || code == KeyCode::Char('[') {
        Some(ActivityCommand::DecreaseProjects)
    } else if code == KeyCode::Left {
        Some(ActivityCommand::ScrollOlder)
    } else if code == KeyCode::Right {
        Some(ActivityCommand::ScrollNewer)
    } else if code == KeyCode::PageUp {
        Some(ActivityCommand::PageOlder)
    } else if code == KeyCode::PageDown {
        Some(ActivityCommand::PageNewer)
    } else if code == KeyCode::Home {
        Some(ActivityCommand::ScrollOldest)
    } else if code == KeyCode::End {
        Some(ActivityCommand::ScrollNewest)
    } else if code == KeyCode::Char('?') {
        Some(ActivityCommand::ToggleHelp)
    } else {
        None
    }
}

/// The command of a key on the reset screen.
pub open spec fn limit_reset_command(code: KeyCode) -> Option<LimitResetCommand> {
    if code == KeyCode::Char('r') || code == KeyCode::F(5) {
        Some(LimitResetCommand::RefreshLimits)
    } else if code == KeyCode::Char('?') {
        Some(LimitResetCommand::ToggleHelp)
    } else {
        None
    }
}

/// The command of a key on the account screen.
pub open spec fn api_stat_command(code: KeyCode) -> Option<ApiStatCommand> {
    if code == KeyCode::Char('r') || code == KeyCode::F(5) {
        Some(ApiStatCommand::Refresh)
    } else if letter(code, 'g', 'G') {
        Some(ApiStatCommand::ToggleGrouping)
    } else if letter(code, 'b', 'B') {
        Some(ApiStatCommand::ToggleGraph)
    } else if letter(code, 'f', 'F') {
        Some(ApiStatCommand::ToggleOrientation)
    } else if code == KeyCode::Left || code == KeyCode::Up {
        Some(ApiStatCommand::ScrollOlder)
    } else if code == KeyCode::Right || code == KeyCode::Down {
        Some(ApiStatCommand::ScrollNewer)
    } else if code == KeyCode::PageUp {
        Some(ApiStatCommand::PageOlder)
    } else if code == KeyCode::PageDown {
        Some(ApiStatCommand::PageNewer)
    } else if code == KeyCode::Home {
        Some(ApiStatCommand::ScrollOldest)
    } else if code == KeyCode::End {
        Some(ApiStatCommand::ScrollNewest)
    } else if code == KeyCode::Char('?') {
        Some(ApiStatCommand::ToggleHelp)
    } else {
        None
    }
}

fn is_letter(code: KeyCode, lower: char, upper: char) -> (r: bool)
    ensures
        r == letter(code, lower, upper),
{
    code == KeyCode::Char(lower) || code == KeyCode::Char(upper)
}

/// The command of a key on the usage screen.
pub fn map_key_to_usage_cmd(code: KeyCode) -> (r: Option<UsageCommand>)
    ensures
        r == usage_command(code),
{
    if code == KeyCode::Char('r') || code == KeyCode::F(5) {
        Some(UsageCommand::RefreshAll)
    } else if code == KeyCode::Tab {
        Some(UsageCommand::ToggleMetric)
    } else if is_letter(code, 'g', 'G') || is_letter(code, 'w', 'W') {
        Some(UsageCommand::ToggleRange)
    } else if is_letter(code, 'z', 'Z') || code == KeyCode::F(6) {
        Some(UsageCommand::ToggleZone)
    } else if code == KeyCode::Char('f') {
        Some(UsageCommand::ToggleOrientation)
    } else if code == KeyCode::Char('?') {
        Some(UsageCommand::ToggleHelp)
    } else if code == KeyCode::Enter || is_letter(code, 'y', 'Y') {
        Some(UsageCommand::ConfirmContinue)
    } else {
        match code {
            KeyCode::Left | KeyCode::Up => Some(UsageCommand::ScrollOlder),
            KeyCode::Right | KeyCode::Down => Some(UsageCommand::ScrollNewer),
            KeyCode::PageUp => Some(UsageCommand::PageOlder),
            KeyCode::PageDown => Some(UsageCommand::PageNewer),
            KeyCode::Home => Some(UsageCommand::ScrollOldest),
            KeyCode::End => Some(UsageCommand::ScrollNewest),
            _ => None,
        }
    }
}

/// The command of a key on the activity screen.
pub fn map_key_to_activity_cmd(code: KeyCode) -> (r: Option<ActivityCommand>)
    ensures
        r == activity_command(code),
{
    if code == KeyCode::Char('r') || code == KeyCode::F(5) {
        Some(ActivityCommand::RefreshAll)
    } else if code == KeyCode::Char('+') || code == KeyCode::Char('=') || code
        == KeyCode::Char(']') {
        Some(ActivityCommand::IncreaseProjects)
    } else if code == KeyCode::Char('-') || code == KeyCode::Char('[') {
        Some(ActivityCommand::DecreaseProjects)
    } else if code == KeyCode::Char('?') {
        Some(ActivityCommand::ToggleHelp)
    } else {
        match code {
            KeyCode::Tab => Some(ActivityCommand::ToggleMetric),
            KeyCode::Left => Some(ActivityCommand::ScrollOlder),
            KeyCode::Right => Some(ActivityCommand::ScrollNewer),
            KeyCode::PageUp => Some(ActivityCommand::PageOlder),
            KeyCode::PageDown => Some(ActivityCommand::PageNewer),
            KeyCode::Home => Some(ActivityCommand::ScrollOldest),
            KeyCode::End => Some(ActivityCommand::ScrollNewest),
            _ => None,
        }
    }
}

/// The command of a key on the reset screen.
pub fn map_key_to_limit_reset_cmd(code: KeyCode) -> (r: Option<LimitResetCommand>)
    ensures
        r == limit_reset_command(code),
{
    if code == KeyCode::Char('r') || code == KeyCode::F(5) {
        Some(LimitResetCommand::RefreshLimits)
    } else if code == KeyCode::Char('?') {
        Some(LimitResetCommand::ToggleHelp)
    } else {
        None
    }
}

/// The command of a key on the account screen.
pub fn map_key_to_api_stat_cmd(code: KeyCode) -> (r: Option<ApiStatCommand>)
    ensures
        r == api_stat_command(code),
{
    if code == KeyCode::Char('r') || code == KeyCode::F(5) {
        Some(ApiStatCommand::Refresh)
    } else if is_letter(code, 'g', 'G') {
        Some(ApiStatCommand::ToggleGrouping)
    } else if is_letter(code, 'b', 'B') {
        Some(ApiStatCommand::ToggleGraph)
    } else if is_letter(code, 'f', 'F') {
        Some(ApiStatCommand::ToggleOrientation)
    } else if code == KeyCode::Char('?') {
        Some(ApiStatCommand::ToggleHelp)
    } else {
        match code {
            KeyCode::Left | KeyCode::Up => Some(ApiStatCommand::ScrollOlder),
            KeyCode::Right | KeyCode::Down => Some(ApiStatCommand::ScrollNewer),
            KeyCode::PageUp => Some(ApiStatCommand::PageOlder),
            KeyCode::PageDown => Some(ApiStatCommand::PageNewer),
            KeyCode::Home => Some(ApiStatCommand::ScrollOldest),
            KeyCode::End => Some(ApiStatCommand::ScrollNewest),
            _ => None,
        }
    }
}

/// The state with the help shown or hidden.
pub open spec fn help_toggled(s: AppState) -> (AppState, Reaction) {
    (AppState { show_help: !s.show_help, ..s }, stay(true))
}

/// Asks for new usage and limits.
pub open spec fn refresh_all(s: AppState) -> (AppState, Reaction) {
    (s, Reaction { refresh_usage: true, refresh_limits: true, ..stay(true) })
}

/// Asks for new limits.
pub open spec fn refresh_limits(s: AppState) -> (AppState, Reaction) {
    (s, Reaction { refresh_limits: true, ..stay(true) })
}

/// A command of the usage screen. While the warning about missing sessions is open, only
/// continuing is possible.
pub open spec fn usage_step(s: AppState, cmd: UsageCommand) -> (AppState, Reaction) {
    let p = s.usage_scroll;
    if s.no_sessions_confirm_open {
        if cmd == UsageCommand::ConfirmContinue {
            (
                AppState {
                    no_sessions_confirm_open: false,
                    no_sessions_confirm_dismissed: true,
                    ..s
                },
                stay(true),
            )
        } else {
            (s, stay(false))
        }
    } else {
        match cmd {
            UsageCommand::ToggleHelp => help_toggled(s),
            UsageCommand::ConfirmContinue => (s, stay(false)),
            UsageCommand::ToggleMetric => (
                AppState { metric: next_metric(s.metric), ..s },
                stay(true),
            ),
            UsageCommand::ToggleRange => (
                AppState { range: next_range(s.range), usage_scroll: newest(p), ..s },
                stay(true),
            ),
            UsageCommand::ToggleZone => (
                AppState { usage_zone: next_zone(s.usage_zone), usage_scroll: newest(p), ..s },
                stay(true),
            ),
            UsageCommand::ToggleOrientation => (
                AppState {
                    orientation: next_orientation(s.orientation),
                    usage_scroll: newest(p),
                    ..s
                },
                stay(true),
            ),
            UsageCommand::ScrollOlder => usage_scrolled(s, scroll_step(p, 1, true)),
            UsageCommand::ScrollNewer => usage_scrolled(s, scroll_step(p, 1, false)),
            UsageCommand::PageOlder => usage_scrolled(s, scroll_step(p, page(p), true)),
            UsageCommand::PageNewer => usage_scrolled(s, scroll_step(p, page(p), false)),
            UsageCommand::ScrollOldest => usage_scrolled(s, scroll_to(p, p.total as int)),
            UsageCommand::ScrollNewest => usage_scrolled(s, newest(p)),
            UsageCommand::RefreshAll => refresh_all(s),
        }
    }
}

/// A command of the activity screen.
pub open spec fn activity_step(s: AppState, cmd: ActivityCommand) -> (AppState, Reaction) {
    let p = s.activity_scroll;
    match cmd {
        ActivityCommand::ToggleHelp => help_toggled(s),
        ActivityCommand::ToggleMetric => (
            AppState { metric: next_metric(s.metric), ..s },
            stay(true),
        ),
        ActivityCommand::IncreaseProjects => with_projects(
            s,
            one_more_project(s.activity_project_limit as int),
        ),
        ActivityCommand::DecreaseProjects => with_projects(
            s,
            one_project_less(s.activity_project_limit as int),
        ),
        ActivityCommand::ScrollOlder => activity_scrolled(s, scroll_step(p, 1, true)),
        ActivityCommand::ScrollNewer => activity_scrolled(s, scroll_step(p, 1, false)),
        ActivityCommand::PageOlder => activity_scrolled(s, scroll_step(p, page(p), true)),
        ActivityCommand::PageNewer => activity_scrolled(s, scroll_step(p, page(p), false)),
        ActivityCommand::ScrollOldest => activity_scrolled(s, scroll_to(p, p.total as int)),
        ActivityCommand::ScrollNewest => activity_scrolled(s, newest(p)),
        ActivityCommand::RefreshAll => refresh_all(s),
    }
}

/// A command of the reset screen.
pub open spec fn limit_reset_step(s: AppState, cmd: LimitResetCommand) -> (AppState, Reaction) {
    match cmd {
        LimitResetCommand::ToggleHelp => help_toggled(s),
        LimitResetCommand::RefreshLimits => refresh_limits(s),
    }
}

/// A command of the account screen. The heat map has neither grouping nor orientation.
pub open spec fn api_stat_step(s: AppState, cmd: ApiStatCommand) -> (AppState, Reaction) {
    let p = s.api_stat_scroll;
    let heat = s.api_stat_graph == ApiStatGraph::Heat;
    match cmd {
        ApiStatCommand::ToggleHelp => help_toggled(s),
        ApiStatCommand::Refresh => refresh_limits(s),
        ApiStatCommand::ToggleGrouping => if heat {
            (s, stay(false))
        } else {
            (
                AppState {
                    api_stat_grouping: next_grouping(s.api_stat_grouping),
                    api_stat_scroll: newest(p),
                    ..s
                },
                stay(true),
            )
        },
        ApiStatCommand::ToggleGraph => (
            AppState {
                api_stat_graph: next_graph(s.api_stat_graph),
                api_stat_scroll: newest(p),
                ..s
            },
            stay(true),
        ),
        ApiStatCommand::ToggleOrientation => if heat {
            (s, stay(false))
        } else {
            (
                AppState {
                    api_stat_orientation: next_orientation(s.api_stat_orientation),
                    api_stat_scroll: newest(p),
                    ..s
                },
                stay(true),
            )
        },
        ApiStatCommand::ScrollOlder => api_stat_scrolled(s, scroll_step(p, 1, true)),
        ApiStatCommand::ScrollNewer => api_stat_scrolled(s, scroll_step(p, 1, false)),
        ApiStatCommand::PageOlder => api_stat_scrolled(s, scroll_step(p, page(p), true)),
        ApiStatCommand::PageNewer => api_stat_scrolled(s, scroll_step(p, page(p), false)),
        ApiStatCommand::ScrollOldest => api_stat_scrolled(s, scroll_to(p, p.total as int)),
        ApiStatCommand::ScrollNewest => api_stat_scrolled(s, newest(p)),
    }
}

fn toggle_help(s: AppState) -> (r: (AppState, Reaction))
    ensures
        r == help_toggled(s),
{
    (AppState { show_help: !s.show_help, ..s }, staying(true))
}

fn ask_refresh_all(s: AppState) -> (r: (AppState, Reaction))
    ensures
        r == refresh_all(s),
{
    (s, Reaction { refresh_usage: true, refresh_limits: true, ..staying(true) })
}

fn ask_refresh_limits(s: AppState) -> (r: (AppState, Reaction))
    ensures
        r == refresh_limits(s),
{
    (s, Reaction { refresh_limits: true, ..staying(true) })
}

/// Carries out a command of the usage screen.
pub fn handle_usage_command(s: AppState, cmd: UsageCommand) -> (r: (AppState, Reaction))
    ensures
        r == usage_step(s, cmd),
{
    let p = s.usage_scroll;
    if s.no_sessions_confirm_open {
        return if cmd == UsageCommand::ConfirmContinue {
            (
                AppState {
                    no_sessions_confirm_open: false,
                    no_sessions_confirm_dismissed: true,
                    ..s
                },
                staying(true),
            )
        } else {
            (s, staying(false))
        };
    }
    match cmd {
        UsageCommand::ToggleHelp => toggle_help(s),
        UsageCommand::ConfirmContinue => (s, staying(false)),
        UsageCommand::ToggleMetric => (AppState { metric: s.metric.toggled(), ..s }, staying(true)),
        UsageCommand::ToggleRange => (
            AppState { range: s.range.toggled(), usage_scroll: to_newest(p), ..s },
            staying(true),
        ),
        UsageCommand::ToggleZone => (
            AppState { usage_zone: s.usage_zone.toggled(), usage_scroll: to_newest(p), ..s },
            staying(true),
        ),
        UsageCommand::ToggleOrientation => (
            AppState { orientation: s.orientation.toggled(), usage_scroll: to_newest(p), ..s },
            staying(true),
        ),
        UsageCommand::ScrollOlder => scroll_usage(s, step_scroll(p, 1, true)),
        UsageCommand::ScrollNewer => scroll_usage(s, step_scroll(p, 1, false)),
        UsageCommand::PageOlder => scroll_usage(s, step_scroll(p, page_of(p), true)),
        UsageCommand::PageNewer => scroll_usage(s, step_scroll(p, page_of(p), false)),
        UsageCommand::ScrollOldest => scroll_usage(s, set_scroll(p, p.total)),
        UsageCommand::ScrollNewest => scroll_usage(s, to_newest(p)),
        UsageCommand::RefreshAll => ask_refresh_all(s),
    }
}

/// Carries out a command of the activity screen.
pub fn handle_activity_command(s: AppState, cmd: ActivityCommand) -> (r: (AppState, Reaction))
    ensures
        r == activity_step(s, cmd),
{
    let p = s.activity_scroll;
    match cmd {
        ActivityCommand::ToggleHelp => toggle_help(s),
        ActivityCommand::ToggleMetric => (
            AppState { metric: s.metric.toggled(), ..s },
            staying(true),
        ),
        ActivityCommand::IncreaseProjects => more_projects(s),
        ActivityCommand::DecreaseProjects => fewer_projects(s),
        ActivityCommand::ScrollOlder => scroll_activity(s, step_scroll(p, 1, true)),
        ActivityCommand::ScrollNewer => scroll_activity(s, step_scroll(p, 1, false)),
        ActivityCommand::PageOlder => scroll_activity(s, step_scroll(p, page_of(p), true)),
        ActivityCommand::PageNewer => scroll_activity(s, step_scroll(p, page_of(p), false)),
        ActivityCommand::ScrollOldest => scroll_activity(s, set_scroll(p, p.total)),
        ActivityCommand::ScrollNewest => scroll_activity(s, to_newest(p)),
        ActivityCommand::RefreshAll => ask_refresh_all(s),
    }
}

/// Carries out a command of the reset screen.
pub fn handle_limit_reset_command(s: AppState, cmd: LimitResetCommand) -> (r: (AppState, Reaction))
    ensures
        r == limit_reset_step(s, cmd),
{
    match cmd {
        LimitResetCommand::ToggleHelp => toggle_help(s),
        LimitResetCommand::RefreshLimits => ask_refresh_limits(s),
    }
}

/// Carries out a command of the account screen.
pub fn handle_api_stat_command(s: AppState, cmd: ApiStatCommand) -> (r: (AppState, Reaction))
    ensures
        r == api_stat_step(s, cmd),
{
    let p = s.api_stat_scroll;
    let heat = s.api_stat_graph == ApiStatGraph::Heat;
    match cmd {
        ApiStatCommand::ToggleHelp => toggle_help(s),
        ApiStatCommand::Refresh => ask_refresh_limits(s),
        ApiStatCommand::ToggleGrouping => if heat {
            (s, staying(false))
        } else {
            (
                AppState {
                    api_stat_grouping: s.api_stat_grouping.toggled(),
                    api_stat_scroll: to_newest(p),
                    ..s
                },
                staying(true),
            )
        },
        ApiStatCommand::ToggleGraph => (
            AppState {
                api_stat_graph: s.api_stat_graph.toggled(),
                api_stat_scroll: to_newest(p),
                ..s
            },
            staying(true),
        ),
        ApiStatCommand::ToggleOrientation => if heat {
            (s, staying(false))
        } else {
            (
                AppState {
                    api_stat_orientation: s.api_stat_orientation.toggled(),
                    api_stat_scroll: to_newest(p),
                    ..s
                },
                staying(true),
            )
        },
        ApiStatCommand::ScrollOlder => scroll_api_stat(s, step_scroll(p, 1, true)),
        ApiStatCommand::ScrollNewer => scroll_api_stat(s, step_scroll(p, 1, false)),
        ApiStatCommand::PageOlder => scroll_api_stat(s, step_scroll(p, page_of(p), true)),
        ApiStatCommand::PageNewer => scroll_api_stat(s, step_scroll(p, page_of(p), false)),
        ApiStatCommand::ScrollOldest => scroll_api_stat(s, set_scroll(p, p.total)),
        ApiStatCommand::ScrollNewest => scroll_api_stat(s, to_newest(p)),
    }
}

/// What the wheel does over a chart.
pub open spec fn wheel_step(s: AppState, m: MouseInput, older: bool) -> (AppState, Reaction) {
    match s.active_screen {
        ActiveScreen::Usage => if over(s.usage_scroll, m) {
            usage_step(
                s,
                if older {
                    UsageCommand::ScrollOlder
                } else {
                    UsageCommand::ScrollNewer
                },
            )
        } else {
            (s, stay(false))
        },
        ActiveScreen::Activity => if over(s.activity_scroll, m) {
            activity_step(
                s,
                if older {
                    ActivityCommand::ScrollOlder
                } else {
                    ActivityCommand::ScrollNewer
                },
            )
        } else {
            (s, stay(false))
        },
        ActiveScreen::ApiStat => if over(s.api_stat_scroll, m) {
            api_stat_step(
                s,
                if older {
                    ApiStatCommand::ScrollOlder
                } else {
                    ApiStatCommand::ScrollNewer
                },
            )
        } else {
            (s, stay(false))
        },
        _ => (s, stay(false)),
    }
}

/// The mouse is over the area that scrolls.
pub open spec fn over(p: Scroll, m: MouseInput) -> bool {
    match p.area {
        Some(area) => inside(area, m.column, m.row),
        None => false,
    }
}

fn is_over(p: Scroll, m: MouseInput) -> (r: bool)
    ensures
        r == over(p, m),
{
    match p.area {
        Some(area) => rect_contains(area, m.column, m.row),
        None => false,
    }
}

fn turn_wheel(s: AppState, m: MouseInput, older: bool) -> (r: (AppState, Reaction))
    ensures
        r == wheel_step(s, m, older),
{
    match s.active_screen {
        ActiveScreen::Usage => if is_over(s.usage_scroll, m) {
            handle_usage_command(
                s,
                if older {
                    UsageCommand::ScrollOlder
                } else {
                    UsageCommand::ScrollNewer
                },
            )
        } else {
            (s, staying(false))
        },
        ActiveScreen::Activity => if is_over(s.activity_scroll, m) {
            handle_activity_command(
                s,
                if older {
                    ActivityCommand::ScrollOlder
                } else {
                    ActivityCommand::ScrollNewer
                },
            )
        } else {
            (s, staying(false))
        },
        ActiveScreen::ApiStat => if is_over(s.api_stat_scroll, m) {
            handle_api_stat_command(
                s,
                if older {
                    ApiStatCommand::ScrollOlder
                } else {
                    ApiStatCommand::ScrollNewer
                },
            )
        } else {
            (s, staying(false))
        },
        _ => (s, staying(false)),
    }
}

/// The session history, where it is shown, handles what nothing else has.
pub open spec fn left_to_browser(s: AppState) -> (AppState, Reaction) {
    if s.active_screen == ActiveScreen::Read {
        (s, ask(BrowserRequest::HandleEvent))
    } else {
        (s, stay(false))
    }
}

fn leave_to_browser(s: AppState) -> (r: (AppState, Reaction))
    ensures
        r == left_to_browser(s),
{
    if s.active_screen == ActiveScreen::Read {
        (s, asking(BrowserRequest::HandleEvent))
    } else {
        (s, staying(false))
    }
}

/// A mouse event where no prompt is open.
pub open spec fn mouse_step(
    before: AppState,
    targets: Seq<UiHitTarget>,
    m: MouseInput,
) -> (AppState, Reaction) {
    let here = Some(Cell { column: m.column, row: m.row });
    let s = AppState { mouse_position: here, ..before };
    let action = action_at(targets, m.column, m.row);
    let wheel = m.kind == MouseKind::ScrollUp || m.kind == MouseKind::ScrollDown;
    let older = m.kind == MouseKind::ScrollUp;
    if s.show_help || s.no_sessions_confirm_open {
        (s, stay(false))
    } else if wheel && s.active_screen == ActiveScreen::Read && action == Some(
        UiClickAction::HistoryDepthWheel,
    ) {
        (
            s,
            ask(
                if older {
                    BrowserRequest::DeeperCatalog
                } else {
                    BrowserRequest::ShallowerCatalog
                },
            ),
        )
    } else if wheel && wheel_step(s, m, older).1.outcome == InputOutcome::Continue(true) {
        wheel_step(s, m, older)
    } else if (m.kind == MouseKind::LeftDown || m.kind == MouseKind::LeftDrag) && action is Some {
        if action == Some(UiClickAction::ConfirmQuit) || (action == Some(UiClickAction::PromptQuit)
            && s.skip_quit_confirmation) {
            (s, leave())
        } else {
            click_step(s, action->0)
        }
    } else if m.kind == MouseKind::Moved {
        (s, stay(before.mouse_position != here))
    } else {
        left_to_browser(s)
    }
}

fn handle_mouse(before: AppState, targets: &Vec<UiHitTarget>, m: MouseInput) -> (r: (
    AppState,
    Reaction,
))
    ensures
        r == mouse_step(before, targets@, m),
{
    let here = Some(Cell { column: m.column, row: m.row });
    let moved = before.mouse_position != here;
    let s = AppState { mouse_position: here, ..before };
    if s.show_help || s.no_sessions_confirm_open {
        return (s, staying(false));
    }
    let action = ui_click_action_at(targets, m.column, m.row);
    let older = m.kind == MouseKind::ScrollUp;
    if older || m.kind == MouseKind::ScrollDown {
        if s.active_screen == ActiveScreen::Read && action == Some(
            UiClickAction::HistoryDepthWheel,
        ) {
            return (
                s,
                asking(
                    if older {
                        BrowserRequest::DeeperCatalog
                    } else {
                        BrowserRequest::ShallowerCatalog
                    },
                ),
            );
        }
        let turned = turn_wheel(s, m, older);
        if turned.1.outcome == InputOutcome::Continue(true) {
            return turned;
        }
    }
    if m.kind == MouseKind::LeftDown || m.kind == MouseKind::LeftDrag {
        if let Some(a) = action {
            if a == UiClickAction::ConfirmQuit || (a == UiClickAction::PromptQuit
                && s.skip_quit_confirmation) {
                return (s, leaving());
            }
            return apply_ui_click_action(s, a);
        }
    }
    if m.kind == MouseKind::Moved {
        return (s, staying(moved));
    }
    leave_to_browser(s)
}

/// The command of a key on the screen that is shown.
pub open spec fn screen_step(s: AppState, code: KeyCode) -> (AppState, Reaction) {
    match s.active_screen {
        ActiveScreen::Usage => match usage_command(code) {
            Some(cmd) => usage_step(s, cmd),
            None => (s, stay(false)),
        },
        ActiveScreen::Activity => match activity_command(code) {
            Some(cmd) => activity_step(s, cmd),
            None => (s, stay(false)),
        },
        ActiveScreen::ApiStat => match api_stat_command(code) {
            Some(cmd) => api_stat_step(s, cmd),
            None => (s, stay(false)),
        },
        ActiveScreen::LimitResets => match limit_reset_command(code) {
            Some(cmd) => limit_reset_step(s, cmd),
            None => (s, stay(false)),
        },
        ActiveScreen::Read => (s, ask(BrowserRequest::HandleEvent)),
    }
}

fn handle_screen_key(s: AppState, code: KeyCode) -> (r: (AppState, Reaction))
    ensures
        r == screen_step(s, code),
{
    match s.active_screen {
        ActiveScreen::Usage => match map_key_to_usage_cmd(code) {
            Some(cmd) => handle_usage_command(s, cmd),
            None => (s, staying(false)),
        },
        ActiveScreen::Activity => match map_key_to_activity_cmd(code) {
            Some(cmd) => handle_activity_command(s, cmd),
            None => (s, staying(false)),
        },
        ActiveScreen::ApiStat => match map_key_to_api_stat_cmd(code) {
            Some(cmd) => handle_api_stat_command(s, cmd),
            None => (s, staying(false)),
        },
        ActiveScreen::LimitResets => match map_key_to_limit_reset_cmd(code) {
            Some(cmd) => handle_limit_reset_command(s, cmd),
            None => (s, staying(false)),
        },
        ActiveScreen::Read => (s, asking(BrowserRequest::HandleEvent)),
    }
}

/// Repository discovery is asked for: a prompt where roots are configured, else a notice.
pub open spec fn discovery_step(s: AppState) -> (AppState, Reaction) {
    if s.history_roots_configured {
        (AppState { history_catalog_scan_prompt: true, ..s }, stay(true))
    } else {
        (s, Reaction { discovery_disabled: true, ..stay(true) })
    }
}

/// Asks for repository discovery.
pub fn request_history_catalog_scan(s: AppState) -> (r: (AppState, Reaction))
    ensures
        r == discovery_step(s),
{
    if s.history_roots_configured {
        (AppState { history_catalog_scan_prompt: true, ..s }, staying(true))
    } else {
        (s, Reaction { discovery_disabled: true, ..staying(true) })
    }
}

/// A key event where no prompt is open.
pub open spec fn key_step(s: AppState, k: KeyInput) -> (AppState, Reaction) {
    if !k.press {
        (s, stay(false))
    } else if letter(k.code, 'q', 'Q') {
        if s.skip_quit_confirmation {
            (s, leave())
        } else {
            (quit_opened(s), stay(true))
        }
    } else if k.code == KeyCode::Char('c') && k.control {
        (s, leave())
    } else if letter(k.code, 's', 'S') || k.code == KeyCode::F(2) {
        (AppState { active_screen: screen_after(s.active_screen), ..s }, stay(true))
    } else if letter(k.code, 'n', 'N') {
        (AppState { display_style: next_style(s.display_style), ..s }, stay(true))
    } else if letter(k.code, 'c', 'C') {
        (AppState { accent_theme: next_theme(s.accent_theme), ..s }, stay(true))
    } else if (k.code == KeyCode::Char('r') || k.code == KeyCode::F(5)) && s.active_screen
        == ActiveScreen::Read {
        discovery_step(s)
    } else {
        screen_step(s, k.code)
    }
}

fn handle_key(s: AppState, k: KeyInput) -> (r: (AppState, Reaction))
    ensures
        r == key_step(s, k),
{
    if !k.press {
        return (s, staying(false));
    }
    if is_letter(k.code, 'q', 'Q') {
        if s.skip_quit_confirmation {
            return (s, leaving());
        }
        return (open_quit(s), staying(true));
    }
    if k.code == KeyCode::Char('c') && k.control {
        return (s, leaving());
    }
    if is_letter(k.code, 's', 'S') || k.code == KeyCode::F(2) {
        let next = next_active_screen(s.active_screen);
        return (AppState { active_screen: next, ..s }, staying(true));
    }
    if is_letter(k.code, 'n', 'N') {
        return (AppState { display_style: s.display_style.toggled(), ..s }, staying(true));
    }
    if is_letter(k.code, 'c', 'C') {
        return (AppState { accent_theme: s.accent_theme.cycled(), ..s }, staying(true));
    }
    if (k.code == KeyCode::Char('r') || k.code == KeyCode::F(5)) && s.active_screen
        == ActiveScreen::Read {
        return request_history_catalog_scan(s);
    }
    handle_screen_key(s, k.code)
}

/// What an input event does. An open prompt takes every event: first the one for repository
/// discovery, then the one for the quit preference, then the quit confirmation.
pub open spec fn input_step(s: AppState, targets: Seq<UiHitTarget>, e: Event) -> (
    AppState,
    Reaction,
) {
    if s.history_catalog_scan_prompt {
        catalog_prompt_step(s, targets, e)
    } else if s.quit_preference_prompt is Some {
        preference_prompt_step(s, s.quit_preference_prompt->0, targets, e)
    } else if s.quit_confirm_open {
        quit_prompt_step(s, targets, e)
    } else {
        match e {
            Event::Mouse(m) => mouse_step(s, targets, m),
            Event::Key(k) => key_step(s, k),
            Event::Resize => (AppState { mouse_position: None, ..s }, stay(true)),
            Event::Other => left_to_browser(s),
        }
    }
}

fn answer_catalog_prompt(s: AppState, targets: &Vec<UiHitTarget>, e: Event) -> (r: (
    AppState,
    Reaction,
))
    ensures
        r == catalog_prompt_step(s, targets@, e),
{
    let closed = AppState { history_catalog_scan_prompt: false, ..s };
    let confirmed = Reaction { refresh_catalog: true, ..staying(true) };
    match e {
        Event::Mouse(m) => {
            if m.kind != MouseKind::LeftDown {
                return (s, staying(false));
            }
            match ui_click_action_at(targets, m.column, m.row) {
                Some(UiClickAction::ConfirmHistoryCatalogScan) => (closed, confirmed),
                Some(UiClickAction::CancelHistoryCatalogScan) => (closed, staying(true)),
                _ => (s, staying(false)),
            }
        },
        Event::Key(k) => {
            if !k.press {
                (s, staying(false))
            } else if is_letter(k.code, 'y', 'Y') || k.code == KeyCode::Enter {
                (closed, confirmed)
            } else if is_cancel(k.code) {
                (closed, staying(true))
            } else if k.code == KeyCode::Char('c') && k.control {
                (s, leaving())
            } else {
                (s, staying(false))
            }
        },
        Event::Resize => (s, staying(true)),
        Event::Other => (s, staying(false)),
    }
}

fn answer_preference_prompt(
    s: AppState,
    desired: bool,
    targets: &Vec<UiHitTarget>,
    e: Event,
) -> (r: (AppState, Reaction))
    ensures
        r == preference_prompt_step(s, desired, targets@, e),
{
    let closed = AppState { quit_preference_prompt: None, ..s };
    let confirmed = AppState { skip_quit_confirmation: desired, ..closed };
    match e {
        Event::Mouse(m) => {
            if m.kind != MouseKind::LeftDown {
                return (s, staying(false));
            }
            match ui_click_action_at(targets, m.column, m.row) {
                Some(UiClickAction::ConfirmQuitConfirmationPreference) => (
                    confirmed,
                    staying(true),
                ),
                Some(UiClickAction::CancelQuitConfirmationPreference) => (closed, staying(true)),
                _ => (s, staying(false)),
            }
        },
        Event::Key(k) => {
            if !k.press {
                (s, staying(false))
            } else if is_letter(k.code, 'y', 'Y') {
                (confirmed, staying(true))
            } else if k.code == KeyCode::Char('c') && k.control {
                (s, leaving())
            } else if k.code == KeyCode::Enter || is_cancel(k.code) {
                (closed, staying(true))
            } else {
                (s, staying(false))
            }
        },
        Event::Resize => (s, staying(true)),
        Event::Other => (s, staying(false)),
    }
}

fn answer_quit_prompt(s: AppState, targets: &Vec<UiHitTarget>, e: Event) -> (r: (
    AppState,
    Reaction,
))
    ensures
        r == quit_prompt_step(s, targets@, e),
{
    let confirmed = AppState { skip_quit_confirmation: s.quit_dont_ask_again, ..s };
    let toggled = AppState { quit_dont_ask_again: !s.quit_dont_ask_again, ..s };
    match e {
        Event::Mouse(m) => {
            if m.kind != MouseKind::LeftDown {
                return (s, staying(false));
            }
            match ui_click_action_at(targets, m.column, m.row) {
                Some(UiClickAction::ConfirmQuit) => (confirmed, leaving()),
                Some(UiClickAction::CancelQuit) => (close_quit(s), staying(true)),
                Some(UiClickAction::ToggleQuitDontAskAgain) => (toggled, staying(true)),
                _ => (s, staying(false)),
            }
        },
        Event::Key(k) => {
            if !k.press {
                return (s, staying(false));
            }
            match quit_confirmation_command(k.code, k.control, s.quit_confirm_yes_selected) {
                Some(QuitConfirmationCommand::Confirm) => (confirmed, leaving()),
                Some(QuitConfirmationCommand::QuitImmediately) => (s, leaving()),
                Some(QuitConfirmationCommand::ToggleDontAskAgain) => (toggled, staying(true)),
                Some(QuitConfirmationCommand::SelectYes) => (
                    AppState { quit_confirm_yes_selected: true, ..s },
                    staying(true),
                ),
                Some(QuitConfirmationCommand::SelectNo) => (
                    AppState { quit_confirm_yes_selected: false, ..s },
                    staying(true),
                ),
                Some(QuitConfirmationCommand::Cancel) => (close_quit(s), staying(true)),
                None => (s, staying(false)),
            }
        },
        Event::Resize => (s, staying(true)),
        Event::Other => (s, staying(false)),
    }
}

/// Handles an input event.
pub fn handle_input_event(state: &mut AppState, targets: &Vec<UiHitTarget>, event: Event) -> (r:
    Reaction)
    ensures
        (*final(state), r) == input_step(*old(state), targets@, event),
{
    let s = *state;
    let (next, reaction) = if s.history_catalog_scan_prompt {
        answer_catalog_prompt(s, targets, event)
    } else if let Some(desired) = s.quit_preference_prompt {
        answer_preference_prompt(s, desired, targets, event)
    } else if s.quit_confirm_open {
        answer_quit_prompt(s, targets, event)
    } else {
        match event {
            Event::Mouse(m) => handle_mouse(s, targets, m),
            Event::Key(k) => handle_key(s, k),
            Event::Resize => (AppState { mouse_position: None, ..s }, staying(true)),
            Event::Other => leave_to_browser(s),
        }
    };
    *state = next;
    reaction
}

/// Control and C end the program in every state.
pub proof fn control_c_always_quits(s: AppState, targets: Seq<UiHitTarget>)
    ensures
        input_step(
            s,
            targets,
            Event::Key(KeyInput { code: KeyCode::Char('c'), control: true, press: true }),
        ).1.outcome == InputOutcome::Quit,
{
}

proof fn clicks_do_not_quit(s: AppState, a: UiClickAction)
    ensures
        click_step(s, a).1.outcome != InputOutcome::Quit,
{
}

proof fn screens_do_not_quit(s: AppState, code: KeyCode)
    ensures
        screen_step(s, code).1.outcome != InputOutcome::Quit,
{
}

/// Without Control and C, and where the confirmation is not skipped, the program ends only by an
/// answer: a click on the button that confirms, or a key while the confirmation is open.
pub proof fn quitting_is_confirmed(s: AppState, targets: Seq<UiHitTarget>, e: Event)
    requires
        input_step(s, targets, e).1.outcome == InputOutcome::Quit,
        !s.skip_quit_confirmation,
    ensures
        match e {
            Event::Key(k) => (k.code == KeyCode::Char('c') && k.control) || s.quit_confirm_open,
            Event::Mouse(m) => action_at(targets, m.column, m.row) == Some(
                UiClickAction::ConfirmQuit,
            ),
            _ => false,
        },
{
    match e {
        Event::Key(k) => screens_do_not_quit(s, k.code),
        Event::Mouse(m) => {
            let t = AppState { mouse_position: Some(Cell { column: m.column, row: m.row }), ..s };
            if action_at(targets, m.column, m.row) is Some {
                clicks_do_not_quit(t, action_at(targets, m.column, m.row)->0);
            }
        },
        _ => {},
    }
}

/// Keys that are released do nothing.
pub proof fn released_keys_do_nothing(s: AppState, targets: Seq<UiHitTarget>, k: KeyInput)
    requires
        !k.press,
    ensures
        input_step(s, targets, Event::Key(k)) == (s, stay(false)),
{
}

/// A scroll position is at the oldest period or before it.
pub open spec fn in_range(p: Scroll) -> bool {
    p.offset <= oldest(p.total as int, p.visible as int)
}

/// Every scroll position is in range, and so is the number of projects.
pub open spec fn positions_in_range(s: AppState) -> bool {
    &&& in_range(s.usage_scroll)
    &&& in_range(s.api_stat_scroll)
    &&& in_range(s.activity_scroll)
    &&& MIN_ACTIVITY_PROJECT_LIMIT <= s.activity_project_limit <= MAX_ACTIVITY_PROJECT_LIMIT
}

proof fn clicks_keep_positions_in_range(s: AppState, a: UiClickAction)
    requires
        positions_in_range(s),
    ensures
        positions_in_range(click_step(s, a).0),
{
}

proof fn commands_keep_positions_in_range(
    s: AppState,
    usage: UsageCommand,
    activity: ActivityCommand,
    api_stat: ApiStatCommand,
)
    requires
        positions_in_range(s),
    ensures
        positions_in_range(usage_step(s, usage).0),
        positions_in_range(activity_step(s, activity).0),
        positions_in_range(api_stat_step(s, api_stat).0),
{
}

proof fn screens_keep_positions_in_range(s: AppState, code: KeyCode)
    requires
        positions_in_range(s),
    ensures
        positions_in_range(screen_step(s, code).0),
{
    let usage = usage_command(code);
    let activity = activity_command(code);
    let api_stat = api_stat_command(code);
    commands_keep_positions_in_range(s, usage->0, activity->0, api_stat->0);
}

proof fn keys_keep_positions_in_range(s: AppState, k: KeyInput)
    requires
        positions_in_range(s),
    ensures
        positions_in_range(key_step(s, k).0),
{
    screens_keep_positions_in_range(s, k.code);
}

proof fn mouse_keeps_positions_in_range(s: AppState, targets: Seq<UiHitTarget>, m: MouseInput)
    requires
        positions_in_range(s),
    ensures
        positions_in_range(mouse_step(s, targets, m).0),
{
    let t = AppState { mouse_position: Some(Cell { column: m.column, row: m.row }), ..s };
    if action_at(targets, m.column, m.row) is Some {
        clicks_keep_positions_in_range(t, action_at(targets, m.column, m.row)->0);
    }
}

/// No event scrolls out of range, nor leaves the limits on the number of projects.
pub proof fn events_keep_positions_in_range(s: AppState, targets: Seq<UiHitTarget>, e: Event)
    requires
        positions_in_range(s),
    ensures
        positions_in_range(input_step(s, targets, e).0),
{
    match e {
        Event::Mouse(m) => mouse_keeps_positions_in_range(s, targets, m),
        Event::Key(k) => keys_keep_positions_in_range(s, k),
        _ => {},
    }
}

/// While a prompt is open, an event changes nothing but the prompts and the quit preference.
pub proof fn prompts_are_modal(s: AppState, targets: Seq<UiHitTarget>, e: Event)
    requires
        s.history_catalog_scan_prompt || s.quit_preference_prompt is Some || s.quit_confirm_open,
    ensures
        ({
            let t = input_step(s, targets, e).0;
            t == AppState {
                history_catalog_scan_prompt: t.history_catalog_scan_prompt,
                quit_preference_prompt: t.quit_preference_prompt,
                quit_confirm_open: t.quit_confirm_open,
                quit_confirm_yes_selected: t.quit_confirm_yes_selected,
                quit_dont_ask_again: t.quit_dont_ask_again,
                skip_quit_confirmation: t.skip_quit_confirmation,
                ..s
            }
        }),
{
}

} // verus!
