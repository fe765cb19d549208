//! What the dashboard shows.

use crate::locale::DisplayStyle;
use crate::usage::snapshot::UsageMetric;
use vstd::prelude::*;

verus! {

/// Projects that the activity view shows at first.
pub const DEFAULT_ACTIVITY_PROJECT_LIMIT: usize = 5;

/// The activity view shows at least this many projects.
pub const MIN_ACTIVITY_PROJECT_LIMIT: usize = 1;

/// The activity view shows at most this many projects.
pub const MAX_ACTIVITY_PROJECT_LIMIT: usize = 50;

/// A rectangle of cells.
#[derive(Debug, Clone, Copy, PartialEq, Eq, Structural)]
pub struct Rect {
    pub x: u16,
    pub y: u16,
    pub width: u16,
    pub height: u16,
}

/// A cell of the screen.
#[derive(Debug, Clone, Copy, PartialEq, Eq, Structural)]
pub struct Cell {
    pub column: u16,
    pub row: u16,
}

/// The number, at most the largest 16-bit one.
pub open spec fn sat16(n: int) -> int {
    if n > u16::MAX {
        u16::MAX as int
    } else {
        n
    }
}

/// A cell lies in a rectangle: the left and top edges are inside, the right and bottom ones not.
pub open spec fn inside(area: Rect, column: u16, row: u16) -> bool {
    &&& area.x <= column < sat16(area.x + area.width)
    &&& area.y <= row < sat16(area.y + area.height)
}

/// Tests whether a cell lies in a rectangle.
pub fn rect_contains(area: Rect, column: u16, row: u16) -> (r: bool)
    ensures
        r == inside(area, column, row),
{
    column >= area.x && column < area.x.saturating_add(area.width) && row >= area.y && row
        < area.y.saturating_add(area.height)
}

/// Whether live limits are asked for.
#[derive(Debug, Clone, Copy, PartialEq, Eq, Structural)]
pub enum LiveLimitsMode {
    Auto,
    On,
    Off,
}

/// How the usage chart groups days.
#[derive(Debug, Clone, Copy, PartialEq, Eq, Structural)]
pub enum ChartRange {
    Day,
    Week,
    Month,
}

/// In which zone usage is counted.
#[derive(Debug, Clone, Copy, PartialEq, Eq, Structural)]
pub enum UsageZone {
    Local,
    Utc,
}

/// In which direction the bars of a chart run.
#[derive(Debug, Clone, Copy, PartialEq, Eq, Structural)]
pub enum ChartOrientation {
    Vertical,
    Horizontal,
}

/// How the account chart groups days.
#[derive(Debug, Clone, Copy, PartialEq, Eq, Structural)]
pub enum ApiStatGrouping {
    Day,
    Week,
    Month,
}

/// What the account view draws.
#[derive(Debug, Clone, Copy, PartialEq, Eq, Structural)]
pub enum ApiStatGraph {
    Bars,
    Heat,
}

/// A terminal color of an accent.
#[derive(Debug, Clone, Copy, PartialEq, Eq, Structural)]
pub enum AccentColor {
    Cyan,
    LightCyan,
    Red,
    LightRed,
    Green,
    LightGreen,
    Yellow,
    LightYellow,
    Blue,
    LightBlue,
    Magenta,
    LightMagenta,
    Gray,
    White,
}

/// The accent of the dashboard.
#[derive(Debug, Clone, Copy, PartialEq, Eq, Structural)]
pub enum AccentTheme {
    Cyan,
    Red,
    Green,
    Yellow,
    Blue,
    Magenta,
    Gray,
}

/// How bars are filled.
#[derive(Debug, Clone, Copy, PartialEq, Eq, Structural)]
pub enum BarFillMode {
    Semigraphic,
    DualColorBackground,
}

/// The screens of the dashboard.
#[derive(Debug, Clone, Copy, PartialEq, Eq, Structural)]
pub enum ActiveScreen {
    Usage,
    Activity,
    ApiStat,
    LimitResets,
    Read,
}

/// Which projects the history lists.
#[derive(Debug, Clone, Copy, PartialEq, Eq, Structural)]
pub enum ProjectViewMode {
    Strict,
    Deep,
    Custom,
}

/// The metric after this one.
pub open spec fn next_metric(m: UsageMetric) -> UsageMetric {
    match m {
        UsageMetric::Tokens => UsageMetric::Time,
        UsageMetric::Time => UsageMetric::Runs,
        UsageMetric::Runs => UsageMetric::Tokens,
    }
}

/// The range after this one.
pub open spec fn next_range(r: ChartRange) -> ChartRange {
    match r {
        ChartRange::Day => ChartRange::Week,
        ChartRange::Week => ChartRange::Month,
        ChartRange::Month => ChartRange::Day,
    }
}

/// The other zone.
pub open spec fn next_zone(z: UsageZone) -> UsageZone {
    match z {
        UsageZone::Local => UsageZone::Utc,
        UsageZone::Utc => UsageZone::Local,
    }
}

/// The other orientation.
pub open spec fn next_orientation(o: ChartOrientation) -> ChartOrientation {
    match o {
        ChartOrientation::Horizontal => ChartOrientation::Vertical,
        ChartOrientation::Vertical => ChartOrientation::Horizontal,
    }
}

/// The grouping after this one.
pub open spec fn next_grouping(g: ApiStatGrouping) -> ApiStatGrouping {
    match g {
        ApiStatGrouping::Day => ApiStatGrouping::Week,
        ApiStatGrouping::Week => ApiStatGrouping::Month,
        ApiStatGrouping::Month => ApiStatGrouping::Day,
    }
}

/// The other graph.
pub open spec fn next_graph(g: ApiStatGraph) -> ApiStatGraph {
    match g {
        ApiStatGraph::Bars => ApiStatGraph::Heat,
        ApiStatGraph::Heat => ApiStatGraph::Bars,
    }
}

/// The theme after this one.
pub open spec fn next_theme(t: AccentTheme) -> AccentTheme {
    match t {
        AccentTheme::Cyan => AccentTheme::Red,
        AccentTheme::Red => AccentTheme::Green,
        AccentTheme::Green => AccentTheme::Yellow,
        AccentTheme::Yellow => AccentTheme::Blue,
        AccentTheme::Blue => AccentTheme::Magenta,
        AccentTheme::Magenta => AccentTheme::Gray,
        AccentTheme::Gray => AccentTheme::Cyan,
    }
}

/// The other way to fill bars.
pub open spec fn next_fill(m: BarFillMode) -> BarFillMode {
    match m {
        BarFillMode::Semigraphic => BarFillMode::DualColorBackground,
        BarFillMode::DualColorBackground => BarFillMode::Semigraphic,
    }
}

/// The screen after this one.
pub open spec fn screen_after(s: ActiveScreen) -> ActiveScreen {
    match s {
        ActiveScreen::Usage => ActiveScreen::ApiStat,
        ActiveScreen::ApiStat => ActiveScreen::Activity,
        ActiveScreen::Activity => ActiveScreen::LimitResets,
        ActiveScreen::LimitResets => ActiveScreen::Read,
        ActiveScreen::Read => ActiveScreen::Usage,
    }
}

/// The screen after this one.
pub fn next_active_screen(screen: ActiveScreen) -> (r: ActiveScreen)
    ensures
        r == screen_after(screen),
{
    match screen {
        ActiveScreen::Usage => ActiveScreen::ApiStat,
        ActiveScreen::ApiStat => ActiveScreen::Activity,
        ActiveScreen::Activity => ActiveScreen::LimitResets,
        ActiveScreen::LimitResets => ActiveScreen::Read,
        ActiveScreen::Read => ActiveScreen::Usage,
    }
}

impl UsageMetric {
    /// The metric after this one.
    pub fn toggled(self) -> (r: Self)
        ensures
            r == next_metric(self),
    {
        match self {
            UsageMetric::Tokens => UsageMetric::Time,
            UsageMetric::Time => UsageMetric::Runs,
            UsageMetric::Runs => UsageMetric::Tokens,
        }
    }
}

impl ChartRange {
    /// The range after this one.
    pub fn toggled(self) -> (r: Self)
        ensures
            r == next_range(self),
    {
        match self {
            ChartRange::Day => ChartRange::Week,
            ChartRange::Week => ChartRange::Month,
            ChartRange::Month => ChartRange::Day,
        }
    }
}

impl UsageZone {
    /// The other zone.
    pub fn toggled(self) -> (r: Self)
        ensures
            r == next_zone(self),
    {
        match self {
            UsageZone::Local => UsageZone::Utc,
            UsageZone::Utc => UsageZone::Local,
        }
    }
}

impl ChartOrientation {
    /// The other orientation.
    pub fn toggled(self) -> (r: Self)
        ensures
            r == next_orientation(self),
    {
        match self {
            ChartOrientation::Horizontal => ChartOrientation::Vertical,
            ChartOrientation::Vertical => ChartOrientation::Horizontal,
        }
    }
}

impl ApiStatGrouping {
    /// The grouping after this one.
    pub fn toggled(self) -> (r: Self)
        ensures
            r == next_grouping(self),
    {
        match self {
            ApiStatGrouping::Day => ApiStatGrouping::Week,
            ApiStatGrouping::Week => ApiStatGrouping::Month,
            ApiStatGrouping::Month => ApiStatGrouping::Day,
        }
    }
}

impl ApiStatGraph {
    /// The other graph.
    pub fn toggled(self) -> (r: Self)
        ensures
            r == next_graph(self),
    {
        match self {
            ApiStatGraph::Bars => ApiStatGraph::Heat,
            ApiStatGraph::Heat => ApiStatGraph::Bars,
        }
    }
}

/// The normal and the bright color of a theme.
pub open spec fn theme_colors(t: AccentTheme) -> (AccentColor, AccentColor) {
    match t {
        AccentTheme::Cyan => (AccentColor::Cyan, AccentColor::LightCyan),
        AccentTheme::Red => (AccentColor::Red, AccentColor::LightRed),
        AccentTheme::Green => (AccentColor::Green, AccentColor::LightGreen),
        AccentTheme::Yellow => (AccentColor::Yellow, AccentColor::LightYellow),
        AccentTheme::Blue => (AccentColor::Blue, AccentColor::LightBlue),
        AccentTheme::Magenta => (AccentColor::Magenta, AccentColor::LightMagenta),
        AccentTheme::Gray => (AccentColor::Gray, AccentColor::White),
    }
}

impl AccentTheme {
    /// All themes in their order.
    pub fn all() -> (r: [AccentTheme; 7])
        ensures
            r@[0] == AccentTheme::Cyan,
            forall|i: int| 0 <= i < 6 ==> r@[i + 1] == next_theme(#[trigger] r@[i]),
            next_theme(r@[6]) == AccentTheme::Cyan,
    {
        [
            AccentTheme::Cyan,
            AccentTheme::Red,
            AccentTheme::Green,
            AccentTheme::Yellow,
            AccentTheme::Blue,
            AccentTheme::Magenta,
            AccentTheme::Gray,
        ]
    }

    /// The normal and the bright color.
    pub fn colors(self) -> (r: (AccentColor, AccentColor))
        ensures
            r == theme_colors(self),
    {
        match self {
            AccentTheme::Cyan => (AccentColor::Cyan, AccentColor::LightCyan),
            AccentTheme::Red => (AccentColor::Red, AccentColor::LightRed),
            AccentTheme::Green => (AccentColor::Green, AccentColor::LightGreen),
            AccentTheme::Yellow => (AccentColor::Yellow, AccentColor::LightYellow),
            AccentTheme::Blue => (AccentColor::Blue, AccentColor::LightBlue),
            AccentTheme::Magenta => (AccentColor::Magenta, AccentColor::LightMagenta),
            AccentTheme::Gray => (AccentColor::Gray, AccentColor::White),
        }
    }

    /// The theme after this one.
    pub fn cycled(self) -> (r: Self)
        ensures
            r == next_theme(self),
    {
        match self {
            AccentTheme::Cyan => AccentTheme::Red,
            AccentTheme::Red => AccentTheme::Green,
            AccentTheme::Green => AccentTheme::Yellow,
            AccentTheme::Yellow => AccentTheme::Blue,
            AccentTheme::Blue => AccentTheme::Magenta,
            AccentTheme::Magenta => AccentTheme::Gray,
            AccentTheme::Gray => AccentTheme::Cyan,
        }
    }
}

impl BarFillMode {
    /// The other way to fill bars.
    pub fn toggled(self) -> (r: Self)
        ensures
            r == next_fill(self),
    {
        match self {
            BarFillMode::Semigraphic => BarFillMode::DualColorBackground,
            BarFillMode::DualColorBackground => BarFillMode::Semigraphic,
        }
    }
}

/// Every control leads back to where it started.
pub proof fn controls_cycle(
    m: UsageMetric,
    r: ChartRange,
    z: UsageZone,
    o: ChartOrientation,
    g: ApiStatGrouping,
    h: ApiStatGraph,
    t: AccentTheme,
    b: BarFillMode,
    s: ActiveScreen,
)
    ensures
        next_metric(next_metric(next_metric(m))) == m,
        next_range(next_range(next_range(r))) == r,
        next_zone(next_zone(z)) == z,
        next_orientation(next_orientation(o)) == o,
        next_grouping(next_grouping(next_grouping(g))) == g,
        next_graph(next_graph(h)) == h,
        next_theme(
            next_theme(next_theme(next_theme(next_theme(next_theme(next_theme(t)))))),
        ) == t,
        next_fill(next_fill(b)) == b,
        screen_after(screen_after(screen_after(screen_after(screen_after(s))))) == s,
{
}

/// A row of periods of which a part is visible; the offset counts from the newest one.
#[derive(Debug, Clone, Copy, PartialEq, Eq, Structural)]
pub struct Scroll {
    pub offset: usize,
    pub visible: usize,
    pub total: usize,
    pub area: Option<Rect>,
}

/// The offset at which the oldest period is visible.
pub open spec fn oldest(total: int, visible: int) -> int {
    if total > visible {
        total - visible
    } else {
        0
    }
}

/// The offset after scrolling.
pub open spec fn scrolled(
    current: int,
    total: int,
    visible: int,
    amount: int,
    older: bool,
) -> int {
    if older {
        if current + amount <= oldest(total, visible) {
            current + amount
        } else {
            oldest(total, visible)
        }
    } else if current >= amount {
        current - amount
    } else {
        0
    }
}

/// The offset after scrolling by `amount` periods.
pub fn scrolled_period_offset(
    current: usize,
    total: usize,
    visible: usize,
    amount: usize,
    older: bool,
) -> (r: usize)
    ensures
        r == scrolled(current as int, total as int, visible as int, amount as int, older),
{
    let max_offset: usize = total.saturating_sub(visible);
    if older {
        let next: usize = current.saturating_add(amount);
        if next < max_offset {
            next
        } else {
            max_offset
        }
    } else {
        current.saturating_sub(amount)
    }
}

/// Scrolling stays between the newest and the oldest period.
pub proof fn scrolling_stays_in_range(
    current: int,
    total: int,
    visible: int,
    amount: int,
    older: bool,
)
    requires
        0 <= current <= oldest(total, visible),
        0 <= amount,
    ensures
        0 <= scrolled(current, total, visible, amount, older) <= oldest(total, visible),
{
}

/// A step to older periods is undone by one to newer periods, unless it met the end.
pub proof fn scrolling_back_undoes(current: int, total: int, visible: int, amount: int)
    requires
        0 <= current,
        0 <= amount,
        current + amount <= oldest(total, visible),
    ensures
        scrolled(scrolled(current, total, visible, amount, true), total, visible, amount, false)
            == current,
{
}

/// The state of the dashboard that input acts on.
#[derive(Debug, Clone, Copy, PartialEq, Eq, Structural)]
pub struct AppState {
    pub active_screen: ActiveScreen,
    pub metric: UsageMetric,
    pub range: ChartRange,
    pub usage_zone: UsageZone,
    pub orientation: ChartOrientation,
    pub api_stat_grouping: ApiStatGrouping,
    pub api_stat_graph: ApiStatGraph,
    pub api_stat_orientation: ChartOrientation,
    pub usage_scroll: Scroll,
    pub api_stat_scroll: Scroll,
    pub activity_scroll: Scroll,
    pub activity_project_limit: usize,
    pub show_help: bool,
    pub no_sessions_confirm_open: bool,
    pub no_sessions_confirm_dismissed: bool,
    pub quit_confirm_open: bool,
    pub quit_confirm_yes_selected: bool,
    pub quit_dont_ask_again: bool,
    pub skip_quit_confirmation: bool,
    pub quit_preference_prompt: Option<bool>,
    pub history_roots_configured: bool,
    pub history_catalog_scan_prompt: bool,
    pub display_style: DisplayStyle,
    pub accent_theme: AccentTheme,
    pub bar_fill_mode: BarFillMode,
    pub mouse_position: Option<Cell>,
}

/// The number of projects after one more, within the limits.
pub open spec fn one_more_project(n: int) -> int {
    if n + 1 <= MAX_ACTIVITY_PROJECT_LIMIT {
        n + 1
    } else {
        MAX_ACTIVITY_PROJECT_LIMIT as int
    }
}

/// The number of projects after one fewer, within the limits.
pub open spec fn one_project_less(n: int) -> int {
    if n - 1 >= MIN_ACTIVITY_PROJECT_LIMIT {
        n - 1
    } else {
        MIN_ACTIVITY_PROJECT_LIMIT as int
    }
}

/// Whether the usage worker goes on at once: files are pending, and the last pass got further.
pub fn should_continue_scan_catch_up(
    pending_files: usize,
    indexed_files: usize,
    processed_bytes: u64,
    previous: Option<(usize, u64)>,
) -> (r: bool)
    ensures
        r == (pending_files > 0 && (match previous {
            None => true,
            Some((files, bytes)) => indexed_files > files || processed_bytes > bytes,
        })),
{
    pending_files > 0 && match previous {
        None => true,
        Some((files, bytes)) => indexed_files > files || processed_bytes > bytes,
    }
}

} // verus!
