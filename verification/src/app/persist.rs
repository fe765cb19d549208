//! What is kept between runs.

use crate::app::input::BrowserRequest;
use crate::app::state::{
    ApiStatGraph, ApiStatGrouping, AppState, ChartOrientation, ChartRange, ProjectViewMode,
    UsageZone, DEFAULT_ACTIVITY_PROJECT_LIMIT, MAX_ACTIVITY_PROJECT_LIMIT,
    MIN_ACTIVITY_PROJECT_LIMIT,
};
use crate::locale::{style_of, style_round_trip, style_text, DisplayStyle};
use crate::strmap::StrMap;
use crate::strset::{
    ascending, ascending_is_name_set, collect_names, copy_names, name_set, same_names,
};
use crate::text::{opt_str, opt_view, own_opt, same, views};
use crate::usage::snapshot::UsageMetric;
use vstd::prelude::*;

verus! {

/// The version of the stored document.
pub const STATE_STORE_SCHEMA_VERSION: u32 = 2;

/// A change is stored once it is this many milliseconds old.
pub const STATE_SAVE_DEBOUNCE_MS: u64 = 400;

/// The text that a usage metric is stored as.
pub open spec fn metric_text(metric: UsageMetric) -> Seq<char> {
    match metric {
        UsageMetric::Tokens => "tokens"@,
        UsageMetric::Time => "time"@,
        UsageMetric::Runs => "runs"@,
    }
}

/// The usage metric that a stored text means.
pub open spec fn metric_of(text: Seq<char>) -> Option<UsageMetric> {
    if text == "tokens"@ {
        Some(UsageMetric::Tokens)
    } else if text == "time"@ {
        Some(UsageMetric::Time)
    } else if text == "runs"@ {
        Some(UsageMetric::Runs)
    } else {
        None
    }
}

/// The text that a usage metric is stored as.
pub fn usage_metric_to_store(metric: UsageMetric) -> (r: &'static str)
    ensures
        r@ == metric_text(metric),
{
    match metric {
        UsageMetric::Tokens => "tokens",
        UsageMetric::Time => "time",
        UsageMetric::Runs => "runs",
    }
}

/// The usage metric that a stored text means.
pub fn usage_metric_from_store(value: &str) -> (r: Option<UsageMetric>)
    ensures
        r == metric_of(value@),
{
    if same(value, "tokens") {
        Some(UsageMetric::Tokens)
    } else if same(value, "time") {
        Some(UsageMetric::Time)
    } else if same(value, "runs") {
        Some(UsageMetric::Runs)
    } else {
        None
    }
}

/// The text that a chart range is stored as.
pub open spec fn range_text(range: ChartRange) -> Seq<char> {
    match range {
        ChartRange::Day => "day"@,
        ChartRange::Week => "week"@,
        ChartRange::Month => "month"@,
    }
}

/// The chart range that a stored text means.
pub open spec fn range_of(text: Seq<char>) -> Option<ChartRange> {
    if text == "day"@ {
        Some(ChartRange::Day)
    } else if text == "week"@ {
        Some(ChartRange::Week)
    } else if text == "month"@ {
        Some(ChartRange::Month)
    } else {
        None
    }
}

/// The text that a chart range is stored as.
pub fn chart_range_to_store(range: ChartRange) -> (r: &'static str)
    ensures
        r@ == range_text(range),
{
    match range {
        ChartRange::Day => "day",
        ChartRange::Week => "week",
        ChartRange::Month => "month",
    }
}

/// The chart range that a stored text means.
pub fn chart_range_from_store(value: &str) -> (r: Option<ChartRange>)
    ensures
        r == range_of(value@),
{
    if same(value, "day") {
        Some(ChartRange::Day)
    } else if same(value, "week") {
        Some(ChartRange::Week)
    } else if same(value, "month") {
        Some(ChartRange::Month)
    } else {
        None
    }
}

/// The text that a usage zone is stored as.
pub open spec fn zone_text(zone: UsageZone) -> Seq<char> {
    match zone {
        UsageZone::Local => "local"@,
        UsageZone::Utc => "utc"@,
    }
}

/// The usage zone that a stored text means.
pub open spec fn zone_of(text: Seq<char>) -> Option<UsageZone> {
    if text == "local"@ {
        Some(UsageZone::Local)
    } else if text == "utc"@ {
        Some(UsageZone::Utc)
    } else {
        None
    }
}

/// The text that a usage zone is stored as.
pub fn usage_zone_to_store(zone: UsageZone) -> (r: &'static str)
    ensures
        r@ == zone_text(zone),
{
    match zone {
        UsageZone::Local => "local",
        UsageZone::Utc => "utc",
    }
}

/// The usage zone that a stored text means.
pub fn usage_zone_from_store(value: &str) -> (r: Option<UsageZone>)
    ensures
        r == zone_of(value@),
{
    if same(value, "local") {
        Some(UsageZone::Local)
    } else if same(value, "utc") {
        Some(UsageZone::Utc)
    } else {
        None
    }
}

/// The text that a chart orientation is stored as.
pub open spec fn orientation_text(orientation: ChartOrientation) -> Seq<char> {
    match orientation {
        ChartOrientation::Vertical => "vertical"@,
        ChartOrientation::Horizontal => "horizontal"@,
    }
}

/// The chart orientation that a stored text means.
pub open spec fn orientation_of(text: Seq<char>) -> Option<ChartOrientation> {
    if text == "vertical"@ {
        Some(ChartOrientation::Vertical)
    } else if text == "horizontal"@ {
        Some(ChartOrientation::Horizontal)
    } else {
        None
    }
}

/// The text that a chart orientation is stored as.
pub fn chart_orientation_to_store(orientation: ChartOrientation) -> (r: &'static str)
    ensures
        r@ == orientation_text(orientation),
{
    match orientation {
        ChartOrientation::Vertical => "vertical",
        ChartOrientation::Horizontal => "horizontal",
    }
}

/// The chart orientation that a stored text means.
pub fn chart_orientation_from_store(value: &str) -> (r: Option<ChartOrientation>)
    ensures
        r == orientation_of(value@),
{
    if same(value, "vertical") {
        Some(ChartOrientation::Vertical)
    } else if same(value, "horizontal") {
        Some(ChartOrientation::Horizontal)
    } else {
        None
    }
}

/// The text that a api stat grouping is stored as.
pub open spec fn grouping_text(grouping: ApiStatGrouping) -> Seq<char> {
    match grouping {
        ApiStatGrouping::Day => "day"@,
        ApiStatGrouping::Week => "week"@,
        ApiStatGrouping::Month => "month"@,
    }
}

/// The api stat grouping that a stored text means.
pub open spec fn grouping_of(text: Seq<char>) -> Option<ApiStatGrouping> {
    if text == "day"@ {
        Some(ApiStatGrouping::Day)
    } else if text == "week"@ {
        Some(ApiStatGrouping::Week)
    } else if text == "month"@ {
        Some(ApiStatGrouping::Month)
    } else {
        None
    }
}

/// The text that a api stat grouping is stored as.
pub fn api_stat_grouping_to_store(grouping: ApiStatGrouping) -> (r: &'static str)
    ensures
        r@ == grouping_text(grouping),
{
    match grouping {
        ApiStatGrouping::Day => "day",
        ApiStatGrouping::Week => "week",
        ApiStatGrouping::Month => "month",
    }
}

/// The api stat grouping that a stored text means.
pub fn api_stat_grouping_from_store(value: &str) -> (r: Option<ApiStatGrouping>)
    ensures
        r == grouping_of(value@),
{
    if same(value, "day") {
        Some(ApiStatGrouping::Day)
    } else if same(value, "week") {
        Some(ApiStatGrouping::Week)
    } else if same(value, "month") {
        Some(ApiStatGrouping::Month)
    } else {
        None
    }
}

/// The text that a api stat graph is stored as.
pub open spec fn graph_text(graph: ApiStatGraph) -> Seq<char> {
    match graph {
        ApiStatGraph::Bars => "bars"@,
        ApiStatGraph::Heat => "heat"@,
    }
}

/// The api stat graph that a stored text means.
pub open spec fn graph_of(text: Seq<char>) -> Option<ApiStatGraph> {
    if text == "bars"@ {
        Some(ApiStatGraph::Bars)
    } else if text == "heat"@ {
        Some(ApiStatGraph::Heat)
    } else {
        None
    }
}

/// The text that a api stat graph is stored as.
pub fn api_stat_graph_to_store(graph: ApiStatGraph) -> (r: &'static str)
    ensures
        r@ == graph_text(graph),
{
    match graph {
        ApiStatGraph::Bars => "bars",
        ApiStatGraph::Heat => "heat",
    }
}

/// The api stat graph that a stored text means.
pub fn api_stat_graph_from_store(value: &str) -> (r: Option<ApiStatGraph>)
    ensures
        r == graph_of(value@),
{
    if same(value, "bars") {
        Some(ApiStatGraph::Bars)
    } else if same(value, "heat") {
        Some(ApiStatGraph::Heat)
    } else {
        None
    }
}

/// The text that a project view mode is stored as.
pub open spec fn mode_text(mode: ProjectViewMode) -> Seq<char> {
    match mode {
        ProjectViewMode::Strict => "strict"@,
        ProjectViewMode::Deep => "deep"@,
        ProjectViewMode::Custom => "custom"@,
    }
}

/// The project view mode that a stored text means.
pub open spec fn mode_of(text: Seq<char>) -> Option<ProjectViewMode> {
    if text == "strict"@ {
        Some(ProjectViewMode::Strict)
    } else if text == "deep"@ {
        Some(ProjectViewMode::Deep)
    } else if text == "custom"@ {
        Some(ProjectViewMode::Custom)
    } else {
        None
    }
}

/// The text that a project view mode is stored as.
pub fn project_view_mode_to_store(mode: ProjectViewMode) -> (r: &'static str)
    ensures
        r@ == mode_text(mode),
{
    match mode {
        ProjectViewMode::Strict => "strict",
        ProjectViewMode::Deep => "deep",
        ProjectViewMode::Custom => "custom",
    }
}

/// The project view mode that a stored text means.
pub fn project_view_mode_from_store(value: &str) -> (r: Option<ProjectViewMode>)
    ensures
        r == mode_of(value@),
{
    if same(value, "strict") {
        Some(ProjectViewMode::Strict)
    } else if same(value, "deep") {
        Some(ProjectViewMode::Deep)
    } else if same(value, "custom") {
        Some(ProjectViewMode::Custom)
    } else {
        None
    }
}

/// A stored setting is read back as it was.
pub proof fn settings_round_trip(
    metric: UsageMetric,
    range: ChartRange,
    zone: UsageZone,
    orientation: ChartOrientation,
    grouping: ApiStatGrouping,
    graph: ApiStatGraph,
    mode: ProjectViewMode,
)
    ensures
        metric_of(metric_text(metric)) == Some(metric),
        range_of(range_text(range)) == Some(range),
        zone_of(zone_text(zone)) == Some(zone),
        orientation_of(orientation_text(orientation)) == Some(orientation),
        grouping_of(grouping_text(grouping)) == Some(grouping),
        graph_of(graph_text(graph)) == Some(graph),
        mode_of(mode_text(mode)) == Some(mode),
{
    reveal_strlit("tokens");
    reveal_strlit("time");
    reveal_strlit("runs");
    reveal_strlit("day");
    reveal_strlit("week");
    reveal_strlit("month");
    reveal_strlit("local");
    reveal_strlit("utc");
    reveal_strlit("vertical");
    reveal_strlit("horizontal");
    reveal_strlit("bars");
    reveal_strlit("heat");
    reveal_strlit("strict");
    reveal_strlit("deep");
    reveal_strlit("custom");
    assert("tokens"@[0] == 't');
    assert("time"@[0] == 't');
    assert("runs"@[0] == 'r');
    assert("day"@[0] == 'd');
    assert("week"@[0] == 'w');
    assert("month"@[0] == 'm');
    assert("local"@[0] == 'l');
    assert("utc"@[0] == 'u');
    assert("vertical"@[0] == 'v');
    assert("horizontal"@[0] == 'h');
    assert("bars"@[0] == 'b');
    assert("heat"@[0] == 'h');
    assert("strict"@[0] == 's');
    assert("deep"@[0] == 'd');
    assert("custom"@[0] == 'c');
    assert("tokens"@.len() == 6);
    assert("time"@.len() == 4);
    assert("runs"@.len() == 4);
    assert("day"@.len() == 3);
    assert("week"@.len() == 4);
    assert("month"@.len() == 5);
    assert("local"@.len() == 5);
    assert("utc"@.len() == 3);
    assert("vertical"@.len() == 8);
    assert("horizontal"@.len() == 10);
    assert("bars"@.len() == 4);
    assert("heat"@.len() == 4);
    assert("strict"@.len() == 6);
    assert("deep"@.len() == 4);
    assert("custom"@.len() == 6);
}

/// What is kept of the dashboard. The three lists of projects are ascending.
#[derive(Debug)]
pub struct PersistedUiState {
    pub metric: UsageMetric,
    pub range: ChartRange,
    pub usage_zone: UsageZone,
    pub orientation: ChartOrientation,
    pub api_stat_grouping: ApiStatGrouping,
    pub api_stat_graph: ApiStatGraph,
    pub api_stat_orientation: ChartOrientation,
    pub activity_project_limit: usize,
    pub workspace_path: Option<String>,
    pub no_sessions_confirm_dismissed: bool,
    pub display_style: DisplayStyle,
    pub skip_quit_confirmation: bool,
    pub history: HistoryChoices,
}

/// What is kept of the session history.
#[derive(Debug)]
pub struct HistoryChoices {
    pub project_view_mode: ProjectViewMode,
    pub deep_depth: u8,
    pub selected_projects: Vec<String>,
    pub explicitly_excluded_projects: Vec<String>,
    pub expanded_remote_groups: Vec<String>,
}

/// What a kept state says.
#[verifier::ext_equal]
pub ghost struct UiModel {
    pub metric: UsageMetric,
    pub range: ChartRange,
    pub usage_zone: UsageZone,
    pub orientation: ChartOrientation,
    pub api_stat_grouping: ApiStatGrouping,
    pub api_stat_graph: ApiStatGraph,
    pub api_stat_orientation: ChartOrientation,
    pub activity_project_limit: int,
    pub workspace_path: Option<Seq<char>>,
    pub no_sessions_confirm_dismissed: bool,
    pub display_style: DisplayStyle,
    pub skip_quit_confirmation: bool,
    pub history: HistoryModel,
}

/// What the kept choices of the session history say.
#[verifier::ext_equal]
pub ghost struct HistoryModel {
    pub project_view_mode: ProjectViewMode,
    pub deep_depth: int,
    pub selected_projects: Seq<Seq<char>>,
    pub explicitly_excluded_projects: Seq<Seq<char>>,
    pub expanded_remote_groups: Seq<Seq<char>>,
}

impl View for HistoryChoices {
    type V = HistoryModel;

    open spec fn view(&self) -> HistoryModel {
        HistoryModel {
            project_view_mode: self.project_view_mode,
            deep_depth: self.deep_depth as int,
            selected_projects: views(self.selected_projects@),
            explicitly_excluded_projects: views(self.explicitly_excluded_projects@),
            expanded_remote_groups: views(self.expanded_remote_groups@),
        }
    }
}

impl View for PersistedUiState {
    type V = UiModel;

    open spec fn view(&self) -> UiModel {
        UiModel {
            metric: self.metric,
            range: self.range,
            usage_zone: self.usage_zone,
            orientation: self.orientation,
            api_stat_grouping: self.api_stat_grouping,
            api_stat_graph: self.api_stat_graph,
            api_stat_orientation: self.api_stat_orientation,
            activity_project_limit: self.activity_project_limit as int,
            workspace_path: opt_view(self.workspace_path),
            no_sessions_confirm_dismissed: self.no_sessions_confirm_dismissed,
            display_style: self.display_style,
            skip_quit_confirmation: self.skip_quit_confirmation,
            history: self.history@,
        }
    }
}

/// Every number is in range and every list of projects is ascending.
pub open spec fn ui_valid(m: UiModel, max_depth: int) -> bool {
    &&& MIN_ACTIVITY_PROJECT_LIMIT <= m.activity_project_limit <= MAX_ACTIVITY_PROJECT_LIMIT
    &&& 1 <= m.history.deep_depth <= max_depth
    &&& ascending(m.history.selected_projects)
    &&& ascending(m.history.explicitly_excluded_projects)
    &&& ascending(m.history.expanded_remote_groups)
}

/// The state of a first run.
pub open spec fn default_ui(workspace: Option<Seq<char>>, depth: int) -> UiModel {
    UiModel {
        metric: UsageMetric::Tokens,
        range: ChartRange::Day,
        usage_zone: UsageZone::Local,
        orientation: ChartOrientation::Horizontal,
        api_stat_grouping: ApiStatGrouping::Day,
        api_stat_graph: ApiStatGraph::Bars,
        api_stat_orientation: ChartOrientation::Vertical,
        activity_project_limit: DEFAULT_ACTIVITY_PROJECT_LIMIT as int,
        workspace_path: workspace,
        no_sessions_confirm_dismissed: false,
        display_style: DisplayStyle::Classic,
        skip_quit_confirmation: false,
        history: HistoryModel {
            project_view_mode: ProjectViewMode::Strict,
            deep_depth: depth,
            selected_projects: Seq::empty(),
            explicitly_excluded_projects: Seq::empty(),
            expanded_remote_groups: Seq::empty(),
        },
    }
}

/// What the store holds for all workspaces.
#[derive(Debug)]
pub struct StoredGlobalState {
    pub metric: Option<String>,
    pub range: Option<String>,
    pub usage_zone: Option<String>,
    pub orientation: Option<String>,
    pub api_stat_grouping: Option<String>,
    pub api_stat_graph: Option<String>,
    pub api_stat_orientation: Option<String>,
    pub activity_project_limit: Option<usize>,
    pub display_style: Option<String>,
    pub skip_quit_confirmation: bool,
    pub last_workspace_path: Option<String>,
    pub history_project_view_mode: Option<String>,
    pub history_deep_depth: Option<u8>,
    pub history_selected_projects: Vec<String>,
    pub history_explicitly_excluded_projects: Vec<String>,
    pub history_expanded_remote_groups: Vec<String>,
    pub updated_at: i64,
}

/// What the store holds for one workspace.
#[derive(Debug, Clone, Copy, PartialEq, Eq, Structural)]
pub struct StoredWorkspaceState {
    pub no_sessions_confirm_dismissed: bool,
    pub updated_at: i64,
}

/// The stored document.
#[derive(Debug)]
pub struct StateStore {
    pub schema_version: u32,
    pub global: StoredGlobalState,
    pub workspaces: StrMap<StoredWorkspaceState>,
}

/// What the part for all workspaces says.
#[verifier::ext_equal]
pub ghost struct GlobalModel {
    pub metric: Option<Seq<char>>,
    pub range: Option<Seq<char>>,
    pub usage_zone: Option<Seq<char>>,
    pub orientation: Option<Seq<char>>,
    pub api_stat_grouping: Option<Seq<char>>,
    pub api_stat_graph: Option<Seq<char>>,
    pub api_stat_orientation: Option<Seq<char>>,
    pub activity_project_limit: Option<int>,
    pub display_style: Option<Seq<char>>,
    pub skip_quit_confirmation: bool,
    pub last_workspace_path: Option<Seq<char>>,
    pub history_project_view_mode: Option<Seq<char>>,
    pub history_deep_depth: Option<int>,
    pub history_selected_projects: Seq<Seq<char>>,
    pub history_explicitly_excluded_projects: Seq<Seq<char>>,
    pub history_expanded_remote_groups: Seq<Seq<char>>,
    pub updated_at: int,
}

impl View for StoredGlobalState {
    type V = GlobalModel;

    open spec fn view(&self) -> GlobalModel {
        GlobalModel {
            metric: opt_view(self.metric),
            range: opt_view(self.range),
            usage_zone: opt_view(self.usage_zone),
            orientation: opt_view(self.orientation),
            api_stat_grouping: opt_view(self.api_stat_grouping),
            api_stat_graph: opt_view(self.api_stat_graph),
            api_stat_orientation: opt_view(self.api_stat_orientation),
            activity_project_limit: match self.activity_project_limit {
                Some(n) => Some(n as int),
                None => None,
            },
            display_style: opt_view(self.display_style),
            skip_quit_confirmation: self.skip_quit_confirmation,
            last_workspace_path: opt_view(self.last_workspace_path),
            history_project_view_mode: opt_view(self.history_project_view_mode),
            history_deep_depth: match self.history_deep_depth {
                Some(n) => Some(n as int),
                None => None,
            },
            history_selected_projects: views(self.history_selected_projects@),
            history_explicitly_excluded_projects: views(self.history_explicitly_excluded_projects@),
            history_expanded_remote_groups: views(self.history_expanded_remote_groups@),
            updated_at: self.updated_at as int,
        }
    }
}

impl Default for StoredGlobalState {
    fn default() -> (r: Self)
        ensures
            r@ == empty_global(),
    {
        let r = StoredGlobalState {
            metric: None,
            range: None,
            usage_zone: None,
            orientation: None,
            api_stat_grouping: None,
            api_stat_graph: None,
            api_stat_orientation: None,
            activity_project_limit: None,
            display_style: None,
            skip_quit_confirmation: false,
            last_workspace_path: None,
            history_project_view_mode: None,
            history_deep_depth: None,
            history_selected_projects: Vec::new(),
            history_explicitly_excluded_projects: Vec::new(),
            history_expanded_remote_groups: Vec::new(),
            updated_at: 0,
        };
        assert(r@ =~= empty_global());
        r
    }
}

/// A part for all workspaces that says nothing.
pub open spec fn empty_global() -> GlobalModel {
    GlobalModel {
        metric: None,
        range: None,
        usage_zone: None,
        orientation: None,
        api_stat_grouping: None,
        api_stat_graph: None,
        api_stat_orientation: None,
        activity_project_limit: None,
        display_style: None,
        skip_quit_confirmation: false,
        last_workspace_path: None,
        history_project_view_mode: None,
        history_deep_depth: None,
        history_selected_projects: Seq::empty(),
        history_explicitly_excluded_projects: Seq::empty(),
        history_expanded_remote_groups: Seq::empty(),
        updated_at: 0,
    }
}

impl Default for StateStore {
    fn default() -> (r: Self)
        ensures
            r.schema_version == STATE_STORE_SCHEMA_VERSION,
            r.global@ == empty_global(),
            r.workspaces.wf(),
            r.workspaces@ == Map::<Seq<char>, StoredWorkspaceState>::empty(),
    {
        StateStore {
            schema_version: STATE_STORE_SCHEMA_VERSION,
            global: StoredGlobalState::default(),
            workspaces: StrMap::new(),
        }
    }
}

impl PersistedUiState {
    /// The state of a first run.
    pub fn default_for_workspace(workspace_path: Option<String>, deep_depth: u8) -> (r: Self)
        ensures
            r@ == default_ui(opt_view(workspace_path), deep_depth as int),
    {
        let r = PersistedUiState {
            metric: UsageMetric::Tokens,
            range: ChartRange::Day,
            usage_zone: UsageZone::Local,
            orientation: ChartOrientation::Horizontal,
            api_stat_grouping: ApiStatGrouping::Day,
            api_stat_graph: ApiStatGraph::Bars,
            api_stat_orientation: ChartOrientation::Vertical,
            activity_project_limit: DEFAULT_ACTIVITY_PROJECT_LIMIT,
            workspace_path,
            no_sessions_confirm_dismissed: false,
            display_style: DisplayStyle::Classic,
            skip_quit_confirmation: false,
            history: HistoryChoices {
                project_view_mode: ProjectViewMode::Strict,
                deep_depth,
                selected_projects: Vec::new(),
                explicitly_excluded_projects: Vec::new(),
                expanded_remote_groups: Vec::new(),
            },
        };
        assert(r.history@ =~= default_ui(opt_view(workspace_path), deep_depth as int).history);
        r
    }

    /// What is to be kept of a dashboard.
    pub fn from_app_state(
        state: &AppState,
        workspace_path: Option<String>,
        history: HistoryChoices,
    ) -> (r: Self)
        ensures
            r@ == kept(*state, opt_view(workspace_path), history@),
    {
        PersistedUiState {
            metric: state.metric,
            range: state.range,
            usage_zone: state.usage_zone,
            orientation: state.orientation,
            api_stat_grouping: state.api_stat_grouping,
            api_stat_graph: state.api_stat_graph,
            api_stat_orientation: state.api_stat_orientation,
            activity_project_limit: state.activity_project_limit,
            workspace_path,
            no_sessions_confirm_dismissed: state.no_sessions_confirm_dismissed,
            display_style: state.display_style,
            skip_quit_confirmation: state.skip_quit_confirmation,
            history,
        }
    }

    /// Whether two states say the same.
    pub fn matches(&self, other: &Self) -> (r: bool)
        ensures
            r == (self@ == other@),
    {
        let workspaces = match (&self.workspace_path, &other.workspace_path) {
            (Some(a), Some(b)) => same(a.as_str(), b.as_str()),
            (None, None) => true,
            _ => false,
        };
        self.metric == other.metric && self.range == other.range && self.usage_zone
            == other.usage_zone && self.orientation == other.orientation && self.api_stat_grouping
            == other.api_stat_grouping && self.api_stat_graph == other.api_stat_graph
            && self.api_stat_orientation == other.api_stat_orientation
            && self.activity_project_limit == other.activity_project_limit && workspaces
            && self.no_sessions_confirm_dismissed == other.no_sessions_confirm_dismissed
            && self.display_style == other.display_style && self.skip_quit_confirmation
            == other.skip_quit_confirmation && self.history.project_view_mode
            == other.history.project_view_mode && self.history.deep_depth
            == other.history.deep_depth && same_names(
            &self.history.selected_projects,
            &other.history.selected_projects,
        ) && same_names(
            &self.history.explicitly_excluded_projects,
            &other.history.explicitly_excluded_projects,
        ) && same_names(
            &self.history.expanded_remote_groups,
            &other.history.expanded_remote_groups,
        )
    }

    /// A copy of the state.
    pub fn copy(&self) -> (r: Self)
        ensures
            r@ == self@,
    {
        let workspace_path = match &self.workspace_path {
            Some(path) => Some(path.as_str().to_owned()),
            None => None,
        };
        PersistedUiState {
            metric: self.metric,
            range: self.range,
            usage_zone: self.usage_zone,
            orientation: self.orientation,
            api_stat_grouping: self.api_stat_grouping,
            api_stat_graph: self.api_stat_graph,
            api_stat_orientation: self.api_stat_orientation,
            activity_project_limit: self.activity_project_limit,
            workspace_path,
            no_sessions_confirm_dismissed: self.no_sessions_confirm_dismissed,
            display_style: self.display_style,
            skip_quit_confirmation: self.skip_quit_confirmation,
            history: HistoryChoices {
                project_view_mode: self.history.project_view_mode,
                deep_depth: self.history.deep_depth,
                selected_projects: copy_names(&self.history.selected_projects),
                explicitly_excluded_projects: copy_names(
                    &self.history.explicitly_excluded_projects,
                ),
                expanded_remote_groups: copy_names(&self.history.expanded_remote_groups),
            },
        }
    }
}

/// What is kept of a dashboard.
pub open spec fn kept(s: AppState, workspace: Option<Seq<char>>, history: HistoryModel) -> UiModel {
    UiModel {
        metric: s.metric,
        range: s.range,
        usage_zone: s.usage_zone,
        orientation: s.orientation,
        api_stat_grouping: s.api_stat_grouping,
        api_stat_graph: s.api_stat_graph,
        api_stat_orientation: s.api_stat_orientation,
        activity_project_limit: s.activity_project_limit as int,
        workspace_path: workspace,
        no_sessions_confirm_dismissed: s.no_sessions_confirm_dismissed,
        display_style: s.display_style,
        skip_quit_confirmation: s.skip_quit_confirmation,
        history,
    }
}

/// `n`, but at least `low` and at most `high`.
pub open spec fn clamped(n: int, low: int, high: int) -> int {
    if n < low {
        low
    } else if n > high {
        high
    } else {
        n
    }
}

fn clamp_limit(n: usize) -> (r: usize)
    ensures
        r == clamped(
            n as int,
            MIN_ACTIVITY_PROJECT_LIMIT as int,
            MAX_ACTIVITY_PROJECT_LIMIT as int,
        ),
{
    if n < MIN_ACTIVITY_PROJECT_LIMIT {
        MIN_ACTIVITY_PROJECT_LIMIT
    } else if n > MAX_ACTIVITY_PROJECT_LIMIT {
        MAX_ACTIVITY_PROJECT_LIMIT
    } else {
        n
    }
}

fn clamp_depth(n: u8, max_depth: u8) -> (r: u8)
    ensures
        r == clamped(n as int, 1, max_depth as int),
{
    if n < 1 {
        1
    } else if n > max_depth {
        max_depth
    } else {
        n
    }
}

/// The stored usage metric, or the usual one.
pub open spec fn metric_or(stored: Option<Seq<char>>, usual: UsageMetric) -> UsageMetric {
    match stored {
        Some(text) => match metric_of(text) {
            Some(metric) => metric,
            None => usual,
        },
        None => usual,
    }
}

fn read_metric(stored: &Option<String>, usual: UsageMetric) -> (r: UsageMetric)
    ensures
        r == metric_or(opt_view(*stored), usual),
{
    match stored {
        Some(text) => match usage_metric_from_store(text.as_str()) {
            Some(metric) => metric,
            None => usual,
        },
        None => usual,
    }
}

/// The stored chart range, or the usual one.
pub open spec fn range_or(stored: Option<Seq<char>>, usual: ChartRange) -> ChartRange {
    match stored {
        Some(text) => match range_of(text) {
            Some(range) => range,
            None => usual,
        },
        None => usual,
    }
}

fn read_range(stored: &Option<String>, usual: ChartRange) -> (r: ChartRange)
    ensures
        r == range_or(opt_view(*stored), usual),
{
    match stored {
        Some(text) => match chart_range_from_store(text.as_str()) {
            Some(range) => range,
            None => usual,
        },
        None => usual,
    }
}

/// The stored usage zone, or the usual one.
pub open spec fn zone_or(stored: Option<Seq<char>>, usual: UsageZone) -> UsageZone {
    match stored {
        Some(text) => match zone_of(text) {
            Some(zone) => zone,
            None => usual,
        },
        None => usual,
    }
}

fn read_zone(stored: &Option<String>, usual: UsageZone) -> (r: UsageZone)
    ensures
        r == zone_or(opt_view(*stored), usual),
{
    match stored {
        Some(text) => match usage_zone_from_store(text.as_str()) {
            Some(zone) => zone,
            None => usual,
        },
        None => usual,
    }
}

/// The stored chart orientation, or the usual one.
pub open spec fn orientation_or(stored: Option<Seq<char>>, usual: ChartOrientation) -> ChartOrientation {
    match stored {
        Some(text) => match orientation_of(text) {
            Some(orientation) => orientation,
            None => usual,
        },
        None => usual,
    }
}

fn read_orientation(stored: &Option<String>, usual: ChartOrientation) -> (r: ChartOrientation)
    ensures
        r == orientation_or(opt_view(*stored), usual),
{
    match stored {
        Some(text) => match chart_orientation_from_store(text.as_str()) {
            Some(orientation) => orientation,
            None => usual,
        },
        None => usual,
    }
}

/// The stored api stat grouping, or the usual one.
pub open spec fn grouping_or(stored: Option<Seq<char>>, usual: ApiStatGrouping) -> ApiStatGrouping {
    match stored {
        Some(text) => match grouping_of(text) {
            Some(grouping) => grouping,
            None => usual,
        },
        None => usual,
    }
}

fn read_grouping(stored: &Option<String>, usual: ApiStatGrouping) -> (r: ApiStatGrouping)
    ensures
        r == grouping_or(opt_view(*stored), usual),
{
    match stored {
        Some(text) => match api_stat_grouping_from_store(text.as_str()) {
            Some(grouping) => grouping,
            None => usual,
        },
        None => usual,
    }
}

/// The stored api stat graph, or the usual one.
pub open spec fn graph_or(stored: Option<Seq<char>>, usual: ApiStatGraph) -> ApiStatGraph {
    match stored {
        Some(text) => match graph_of(text) {
            Some(graph) => graph,
            None => usual,
        },
        None => usual,
    }
}

fn read_graph(stored: &Option<String>, usual: ApiStatGraph) -> (r: ApiStatGraph)
    ensures
        r == graph_or(opt_view(*stored), usual),
{
    match stored {
        Some(text) => match api_stat_graph_from_store(text.as_str()) {
            Some(graph) => graph,
            None => usual,
        },
        None => usual,
    }
}

/// The stored project view mode, or the usual one.
pub open spec fn mode_or(stored: Option<Seq<char>>, usual: ProjectViewMode) -> ProjectViewMode {
    match stored {
        Some(text) => match mode_of(text) {
            Some(mode) => mode,
            None => usual,
        },
        None => usual,
    }
}

fn read_mode(stored: &Option<String>, usual: ProjectViewMode) -> (r: ProjectViewMode)
    ensures
        r == mode_or(opt_view(*stored), usual),
{
    match stored {
        Some(text) => match project_view_mode_from_store(text.as_str()) {
            Some(mode) => mode,
            None => usual,
        },
        None => usual,
    }
}

/// The stored display style, or the usual one.
pub open spec fn style_or(stored: Option<Seq<char>>, usual: DisplayStyle) -> DisplayStyle {
    match stored {
        Some(text) => match style_of(text) {
            Some(style) => style,
            None => usual,
        },
        None => usual,
    }
}

fn read_style(stored: &Option<String>, usual: DisplayStyle) -> (r: DisplayStyle)
    ensures
        r == style_or(opt_view(*stored), usual),
{
    match stored {
        Some(text) => match DisplayStyle::from_store(text.as_str()) {
            Some(style) => style,
            None => usual,
        },
        None => usual,
    }
}

/// The state that a store restores. A stored workspace is not restored: the workspace is the one
/// that the program was started for, if any. What the store does not say, or says in unknown
/// words, is as in a first run.
pub open spec fn restored(
    g: GlobalModel,
    workspaces: Map<Seq<char>, StoredWorkspaceState>,
    workspace: Option<Seq<char>>,
    depth: int,
    max_depth: int,
) -> UiModel {
    let usual = default_ui(workspace, clamped(depth, 1, max_depth));
    UiModel {
        metric: metric_or(g.metric, usual.metric),
        range: range_or(g.range, usual.range),
        usage_zone: zone_or(g.usage_zone, usual.usage_zone),
        orientation: orientation_or(g.orientation, usual.orientation),
        api_stat_grouping: grouping_or(g.api_stat_grouping, usual.api_stat_grouping),
        api_stat_graph: graph_or(g.api_stat_graph, usual.api_stat_graph),
        api_stat_orientation: orientation_or(g.api_stat_orientation, usual.api_stat_orientation),
        activity_project_limit: match g.activity_project_limit {
            Some(n) => clamped(
                n,
                MIN_ACTIVITY_PROJECT_LIMIT as int,
                MAX_ACTIVITY_PROJECT_LIMIT as int,
            ),
            None => usual.activity_project_limit,
        },
        workspace_path: workspace,
        no_sessions_confirm_dismissed: match workspace {
            Some(path) => workspaces.dom().contains(path)
                && workspaces[path].no_sessions_confirm_dismissed,
            None => false,
        },
        display_style: style_or(g.display_style, usual.display_style),
        skip_quit_confirmation: g.skip_quit_confirmation,
        history: HistoryModel {
            project_view_mode: mode_or(
                g.history_project_view_mode,
                usual.history.project_view_mode,
            ),
            deep_depth: match g.history_deep_depth {
                Some(n) => clamped(n, 1, max_depth),
                None => usual.history.deep_depth,
            },
            selected_projects: name_set(g.history_selected_projects),
            explicitly_excluded_projects: name_set(g.history_explicitly_excluded_projects),
            expanded_remote_groups: name_set(g.history_expanded_remote_groups),
        },
    }
}

/// Restores the state that a store holds.
pub fn restore_ui_state(
    store: &StateStore,
    workspace_hint: Option<&str>,
    history_deep_depth: u8,
    max_depth: u8,
) -> (r: PersistedUiState)
    requires
        store.workspaces.wf(),
    ensures
        r@ == restored(
            store.global@,
            store.workspaces@,
            opt_str(workspace_hint),
            history_deep_depth as int,
            max_depth as int,
        ),
{
    let g = &store.global;
    let dismissed = match workspace_hint {
        Some(path) => match store.workspaces.get(path) {
            Some(stored) => stored.no_sessions_confirm_dismissed,
            None => false,
        },
        None => false,
    };
    PersistedUiState {
        metric: read_metric(&g.metric, UsageMetric::Tokens),
        range: read_range(&g.range, ChartRange::Day),
        usage_zone: read_zone(&g.usage_zone, UsageZone::Local),
        orientation: read_orientation(&g.orientation, ChartOrientation::Horizontal),
        api_stat_grouping: read_grouping(&g.api_stat_grouping, ApiStatGrouping::Day),
        api_stat_graph: read_graph(&g.api_stat_graph, ApiStatGraph::Bars),
        api_stat_orientation: read_orientation(
            &g.api_stat_orientation,
            ChartOrientation::Vertical,
        ),
        activity_project_limit: match g.activity_project_limit {
            Some(n) => clamp_limit(n),
            None => DEFAULT_ACTIVITY_PROJECT_LIMIT,
        },
        workspace_path: own_opt(workspace_hint),
        no_sessions_confirm_dismissed: dismissed,
        display_style: read_style(&g.display_style, DisplayStyle::Classic),
        skip_quit_confirmation: g.skip_quit_confirmation,
        history: HistoryChoices {
            project_view_mode: read_mode(&g.history_project_view_mode, ProjectViewMode::Strict),
            deep_depth: match g.history_deep_depth {
                Some(n) => clamp_depth(n, max_depth),
                None => clamp_depth(history_deep_depth, max_depth),
            },
            selected_projects: collect_names(&g.history_selected_projects),
            explicitly_excluded_projects: collect_names(&g.history_explicitly_excluded_projects),
            expanded_remote_groups: collect_names(&g.history_expanded_remote_groups),
        },
    }
}

/// What the store says of all workspaces after a state was stored at a time.
pub open spec fn stored(m: UiModel, now: int, max_depth: int) -> GlobalModel {
    GlobalModel {
        metric: Some(metric_text(m.metric)),
        range: Some(range_text(m.range)),
        usage_zone: Some(zone_text(m.usage_zone)),
        orientation: Some(orientation_text(m.orientation)),
        api_stat_grouping: Some(grouping_text(m.api_stat_grouping)),
        api_stat_graph: Some(graph_text(m.api_stat_graph)),
        api_stat_orientation: Some(orientation_text(m.api_stat_orientation)),
        activity_project_limit: Some(
            clamped(
                m.activity_project_limit,
                MIN_ACTIVITY_PROJECT_LIMIT as int,
                MAX_ACTIVITY_PROJECT_LIMIT as int,
            ),
        ),
        display_style: Some(style_text(m.display_style)),
        skip_quit_confirmation: m.skip_quit_confirmation,
        last_workspace_path: m.workspace_path,
        history_project_view_mode: Some(mode_text(m.history.project_view_mode)),
        history_deep_depth: Some(clamped(m.history.deep_depth, 1, max_depth)),
        history_selected_projects: m.history.selected_projects,
        history_explicitly_excluded_projects: m.history.explicitly_excluded_projects,
        history_expanded_remote_groups: m.history.expanded_remote_groups,
        updated_at: now,
    }
}

/// What the store says of each workspace after a state was stored at a time.
pub open spec fn stored_workspaces(
    before: Map<Seq<char>, StoredWorkspaceState>,
    m: UiModel,
    now: i64,
) -> Map<Seq<char>, StoredWorkspaceState> {
    match m.workspace_path {
        Some(path) => before.insert(
            path,
            StoredWorkspaceState {
                no_sessions_confirm_dismissed: m.no_sessions_confirm_dismissed,
                updated_at: now,
            },
        ),
        None => before,
    }
}

/// Puts a state into a store.
pub fn store_ui_state(store: &mut StateStore, state: &PersistedUiState, now: i64, max_depth: u8)
    requires
        old(store).workspaces.wf(),
    ensures
        final(store).schema_version == old(store).schema_version,
        final(store).global@ == stored(state@, now as int, max_depth as int),
        final(store).workspaces.wf(),
        final(store).workspaces@ == stored_workspaces(old(store).workspaces@, state@, now),
{
    let last_workspace_path = match &state.workspace_path {
        Some(path) => Some(path.as_str().to_owned()),
        None => None,
    };
    store.global = StoredGlobalState {
        metric: Some(usage_metric_to_store(state.metric).to_owned()),
        range: Some(chart_range_to_store(state.range).to_owned()),
        usage_zone: Some(usage_zone_to_store(state.usage_zone).to_owned()),
        orientation: Some(chart_orientation_to_store(state.orientation).to_owned()),
        api_stat_grouping: Some(api_stat_grouping_to_store(state.api_stat_grouping).to_owned()),
        api_stat_graph: Some(api_stat_graph_to_store(state.api_stat_graph).to_owned()),
        api_stat_orientation: Some(
            chart_orientation_to_store(state.api_stat_orientation).to_owned(),
        ),
        activity_project_limit: Some(clamp_limit(state.activity_project_limit)),
        display_style: Some(state.display_style.store_value().to_owned()),
        skip_quit_confirmation: state.skip_quit_confirmation,
        last_workspace_path,
        history_project_view_mode: Some(
            project_view_mode_to_store(state.history.project_view_mode).to_owned(),
        ),
        history_deep_depth: Some(clamp_depth(state.history.deep_depth, max_depth)),
        history_selected_projects: copy_names(&state.history.selected_projects),
        history_explicitly_excluded_projects: copy_names(
            &state.history.explicitly_excluded_projects,
        ),
        history_expanded_remote_groups: copy_names(&state.history.expanded_remote_groups),
        updated_at: now,
    };
    if let Some(path) = &state.workspace_path {
        store.workspaces.set(
            path.as_str(),
            StoredWorkspaceState {
                no_sessions_confirm_dismissed: state.no_sessions_confirm_dismissed,
                updated_at: now,
            },
        );
    }
}

/// Takes a store that was read as one of this version; a later version is refused, with its
/// number.
pub fn accept_state_store(store: StateStore) -> (r: Result<StateStore, u32>)
    ensures
        match r {
            Ok(s) => store.schema_version <= STATE_STORE_SCHEMA_VERSION && s == (StateStore {
                schema_version: STATE_STORE_SCHEMA_VERSION,
                ..store
            }),
            Err(version) => version == store.schema_version && version
                > STATE_STORE_SCHEMA_VERSION,
        },
{
    if store.schema_version > STATE_STORE_SCHEMA_VERSION {
        return Err(store.schema_version);
    }
    Ok(
        StateStore {
            schema_version: STATE_STORE_SCHEMA_VERSION,
            global: store.global,
            workspaces: store.workspaces,
        },
    )
}

/// What is stored is restored, in a later run for the same workspace; without a workspace, only
/// that the warning about missing sessions was dismissed is forgotten.
pub proof fn stored_state_is_restored(
    before: Map<Seq<char>, StoredWorkspaceState>,
    m: UiModel,
    now: i64,
    depth: int,
    max_depth: int,
)
    requires
        ui_valid(m, max_depth),
    ensures
        restored(
            stored(m, now as int, max_depth),
            stored_workspaces(before, m, now),
            m.workspace_path,
            depth,
            max_depth,
        ) == (UiModel {
            no_sessions_confirm_dismissed: m.workspace_path is Some
                && m.no_sessions_confirm_dismissed,
            ..m
        }),
{
    settings_round_trip(
        m.metric,
        m.range,
        m.usage_zone,
        m.orientation,
        m.api_stat_grouping,
        m.api_stat_graph,
        m.history.project_view_mode,
    );
    settings_round_trip(
        m.metric,
        m.range,
        m.usage_zone,
        m.api_stat_orientation,
        m.api_stat_grouping,
        m.api_stat_graph,
        m.history.project_view_mode,
    );
    style_round_trip(m.display_style);
    ascending_is_name_set(m.history.selected_projects);
    ascending_is_name_set(m.history.explicitly_excluded_projects);
    ascending_is_name_set(m.history.expanded_remote_groups);
}

/// Whatever a store holds, what it restores is valid, and without a workspace that the program
/// was started for none is restored.
pub proof fn restored_state_is_valid(
    g: GlobalModel,
    workspaces: Map<Seq<char>, StoredWorkspaceState>,
    workspace: Option<Seq<char>>,
    depth: int,
    max_depth: int,
)
    requires
        1 <= max_depth,
    ensures
        ui_valid(restored(g, workspaces, workspace, depth, max_depth), max_depth),
        restored(g, workspaces, workspace, depth, max_depth).workspace_path == workspace,
{
    crate::strset::name_set_keeps_names(g.history_selected_projects);
    crate::strset::name_set_keeps_names(g.history_explicitly_excluded_projects);
    crate::strset::name_set_keeps_names(g.history_expanded_remote_groups);
}

/// Storing a state for one workspace leaves what is stored of the others.
pub proof fn other_workspaces_are_kept(
    before: Map<Seq<char>, StoredWorkspaceState>,
    m: UiModel,
    now: i64,
    path: Seq<char>,
)
    requires
        m.workspace_path != Some(path),
    ensures
        stored_workspaces(before, m, now).dom().contains(path) == before.dom().contains(path),
        before.dom().contains(path) ==> stored_workspaces(before, m, now)[path] == before[path],
{
}

/// The choices of the session history after a request.
pub open spec fn asked(m: HistoryModel, request: BrowserRequest, max_depth: int) -> HistoryModel {
    match request {
        BrowserRequest::SetProjectMode(mode) => HistoryModel { project_view_mode: mode, ..m },
        BrowserRequest::DeeperCatalog => HistoryModel {
            deep_depth: if m.deep_depth < max_depth {
                m.deep_depth + 1
            } else {
                m.deep_depth
            },
            ..m
        },
        BrowserRequest::ShallowerCatalog => HistoryModel {
            deep_depth: if m.deep_depth > 1 {
                m.deep_depth - 1
            } else {
                m.deep_depth
            },
            ..m
        },
        BrowserRequest::HandleEvent => m,
    }
}

impl HistoryChoices {
    /// Takes a request for another view of the projects; true where it changes something.
    pub fn ask(&mut self, request: BrowserRequest, max_depth: u8) -> (changed: bool)
        ensures
            final(self)@ == asked(old(self)@, request, max_depth as int),
            changed == (final(self)@ != old(self)@),
    {
        match request {
            BrowserRequest::SetProjectMode(mode) => {
                let changed = self.project_view_mode != mode;
                self.project_view_mode = mode;
                changed
            },
            BrowserRequest::DeeperCatalog => {
                if self.deep_depth < max_depth {
                    self.deep_depth += 1;
                    true
                } else {
                    false
                }
            },
            BrowserRequest::ShallowerCatalog => {
                if self.deep_depth > 1 {
                    self.deep_depth -= 1;
                    true
                } else {
                    false
                }
            },
            BrowserRequest::HandleEvent => false,
        }
    }
}

/// Projects are never searched for deeper than they may, nor less deep than at all.
pub proof fn requests_keep_the_depth_in_range(
    m: HistoryModel,
    request: BrowserRequest,
    max_depth: int,
)
    requires
        1 <= m.deep_depth <= max_depth,
    ensures
        1 <= asked(m, request, max_depth).deep_depth <= max_depth,
{
}

} // verus!
