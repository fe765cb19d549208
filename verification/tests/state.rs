use comon::app::input::{
    apply_ui_click_action, handle_input_event, quit_confirmation_command, ui_click_action_at,
    BrowserRequest, Event, InputOutcome, KeyCode, KeyInput, MouseInput, MouseKind,
    QuitConfirmationCommand, UiClickAction, UiHitTarget,
};
use comon::app::persist::{
    accept_state_store, restore_ui_state, store_ui_state, PersistedUiState, StateStore,
    StoredWorkspaceState,
};
use comon::app::state::{
    next_active_screen, scrolled_period_offset, should_continue_scan_catch_up, AccentColor,
    AccentTheme, ActiveScreen, ApiStatGraph, ApiStatGrouping, AppState, BarFillMode,
    ChartOrientation, ChartRange, ProjectViewMode, Rect, Scroll, UsageZone,
};
use comon::app::worker::{
    account_start_event, catalog_depth, handle_app_event, initial_state, limits_wake,
    missing_app_server_message, note_catalog_scan, should_redraw, AccountStart, AppEvent,
    CatalogScan, DataState, LimitsSignal, LimitsWake, SaveTracker, ScanProgress, UsageWorker,
};
use comon::app::state::LiveLimitsMode;
use comon::locale::DisplayStyle;
use comon::usage::snapshot::UsageMetric;

const DEPTH: u8 = 3;
const MAX_DEPTH: u8 = 8;

fn fresh() -> PersistedUiState {
    PersistedUiState::default_for_workspace(None, DEPTH)
}

fn round_trip(state: &PersistedUiState) -> PersistedUiState {
    let mut store = StateStore::default();
    store_ui_state(&mut store, state, 7, MAX_DEPTH);
    let store = accept_state_store(store).expect("a store of this version");
    restore_ui_state(&store, None, DEPTH, MAX_DEPTH)
}

fn started() -> AppState {
    initial_state(&fresh(), false, true)
}

fn press(code: KeyCode) -> Event {
    Event::Key(KeyInput { code, control: false, press: true })
}

#[test]
fn accent_theme_exposes_requested_normal_and_bright_pairs() {
    let expected = [
        (AccentTheme::Cyan, AccentColor::Cyan, AccentColor::LightCyan),
        (AccentTheme::Red, AccentColor::Red, AccentColor::LightRed),
        (AccentTheme::Green, AccentColor::Green, AccentColor::LightGreen),
        (AccentTheme::Yellow, AccentColor::Yellow, AccentColor::LightYellow),
        (AccentTheme::Blue, AccentColor::Blue, AccentColor::LightBlue),
        (AccentTheme::Magenta, AccentColor::Magenta, AccentColor::LightMagenta),
        (AccentTheme::Gray, AccentColor::Gray, AccentColor::White),
    ];

    assert_eq!(AccentTheme::all().len(), expected.len());
    for (index, (theme, accent, accent_bright)) in expected.iter().enumerate() {
        assert_eq!(AccentTheme::all()[index], *theme);
        assert_eq!(theme.colors(), (*accent, *accent_bright));
    }
}

#[test]
fn accent_theme_cycles_through_every_available_theme() {
    let mut theme = AccentTheme::Cyan;
    for expected in AccentTheme::all().iter().copied().skip(1) {
        theme = theme.cycled();
        assert_eq!(theme, expected);
    }
    assert_eq!(theme.cycled(), AccentTheme::Cyan);
}

#[test]
fn bar_fill_mode_toggles_between_semigraphic_and_background() {
    assert_eq!(BarFillMode::Semigraphic.toggled(), BarFillMode::DualColorBackground);
    assert_eq!(BarFillMode::DualColorBackground.toggled(), BarFillMode::Semigraphic);
}

#[test]
fn ui_hit_targets_include_left_top_and_exclude_right_bottom_edges() {
    let targets = vec![UiHitTarget {
        area: Rect { x: 10, y: 5, width: 4, height: 2 },
        action: UiClickAction::SetMetric(UsageMetric::Runs),
    }];

    assert_eq!(
        ui_click_action_at(&targets, 10, 5),
        Some(UiClickAction::SetMetric(UsageMetric::Runs))
    );
    assert_eq!(
        ui_click_action_at(&targets, 13, 6),
        Some(UiClickAction::SetMetric(UsageMetric::Runs))
    );
    assert_eq!(ui_click_action_at(&targets, 14, 5), None);
    assert_eq!(ui_click_action_at(&targets, 10, 7), None);
}

#[test]
fn quit_confirmation_arrows_select_and_enter_uses_the_selected_button() {
    assert_eq!(
        quit_confirmation_command(KeyCode::Left, false, false),
        Some(QuitConfirmationCommand::SelectYes)
    );
    assert_eq!(
        quit_confirmation_command(KeyCode::Right, false, true),
        Some(QuitConfirmationCommand::SelectNo)
    );
    assert_eq!(
        quit_confirmation_command(KeyCode::Enter, false, true),
        Some(QuitConfirmationCommand::Confirm)
    );
    assert_eq!(
        quit_confirmation_command(KeyCode::Enter, false, false),
        Some(QuitConfirmationCommand::Cancel)
    );
}

#[test]
fn period_scrolling_clamps_at_oldest_and_newest() {
    assert_eq!(scrolled_period_offset(0, 30, 10, 1, true), 1);
    assert_eq!(scrolled_period_offset(19, 30, 10, 5, true), 20);
    assert_eq!(scrolled_period_offset(3, 30, 10, 2, false), 1);
    assert_eq!(scrolled_period_offset(1, 30, 10, 5, false), 0);
    assert_eq!(scrolled_period_offset(4, 5, 10, 1, true), 0);
}

#[test]
fn rapid_scan_catch_up_stops_when_pending_work_cannot_advance() {
    assert!(should_continue_scan_catch_up(4, 10, 1_000, None));
    assert!(should_continue_scan_catch_up(3, 11, 1_000, Some((10, 1_000))));
    assert!(should_continue_scan_catch_up(3, 10, 1_500, Some((10, 1_000))));
    assert!(!should_continue_scan_catch_up(1, 10, 1_000, Some((10, 1_000))));
    assert!(!should_continue_scan_catch_up(0, 10, 1_000, Some((9, 900))));
}

#[test]
fn screen_cycle_places_api_stats_after_usage() {
    assert_eq!(next_active_screen(ActiveScreen::Usage), ActiveScreen::ApiStat);
    assert_eq!(next_active_screen(ActiveScreen::ApiStat), ActiveScreen::Activity);
    assert_eq!(next_active_screen(ActiveScreen::Activity), ActiveScreen::LimitResets);
    assert_eq!(next_active_screen(ActiveScreen::LimitResets), ActiveScreen::Read);
    assert_eq!(next_active_screen(ActiveScreen::Read), ActiveScreen::Usage);
}

#[test]
fn load_persisted_ui_state_does_not_restore_last_workspace_without_hint() {
    let mut store = StateStore::default();
    store.global.last_workspace_path = Some("/tmp/old-workspace".to_string());
    let loaded = restore_ui_state(&store, None, DEPTH, MAX_DEPTH);
    assert_eq!(loaded.workspace_path, None);
}

#[test]
fn load_persisted_ui_state_uses_workspace_hint_and_workspace_state() {
    let mut store = StateStore::default();
    store.global.last_workspace_path = Some("/tmp/other-workspace".to_string());
    store.workspaces.set(
        "/tmp/repo-workspace",
        StoredWorkspaceState { no_sessions_confirm_dismissed: true, updated_at: 1 },
    );
    let loaded = restore_ui_state(&store, Some("/tmp/repo-workspace"), DEPTH, MAX_DEPTH);
    assert_eq!(loaded.workspace_path.as_deref(), Some("/tmp/repo-workspace"));
    assert!(loaded.no_sessions_confirm_dismissed);
}

#[test]
fn legacy_state_without_display_style_defaults_to_classic() {
    let store = StateStore::default();
    let loaded = restore_ui_state(&store, None, DEPTH, MAX_DEPTH);
    assert_eq!(loaded.display_style, DisplayStyle::Classic);
}

#[test]
fn display_style_round_trips_through_state_store() {
    let mut state = fresh();
    state.display_style = DisplayStyle::SystemFull;
    assert_eq!(round_trip(&state).display_style, DisplayStyle::SystemFull);
}

#[test]
fn api_stat_controls_round_trip_through_state_store() {
    let mut state = fresh();
    state.api_stat_grouping = ApiStatGrouping::Month;
    state.api_stat_graph = ApiStatGraph::Heat;
    state.api_stat_orientation = ChartOrientation::Horizontal;
    let loaded = round_trip(&state);
    assert_eq!(loaded.api_stat_grouping, ApiStatGrouping::Month);
    assert_eq!(loaded.api_stat_graph, ApiStatGraph::Heat);
    assert_eq!(loaded.api_stat_orientation, ChartOrientation::Horizontal);
}

#[test]
fn usage_grouping_and_zone_round_trip_through_state_store() {
    let mut state = fresh();
    state.range = ChartRange::Month;
    state.usage_zone = UsageZone::Utc;
    let loaded = round_trip(&state);
    assert_eq!(loaded.range, ChartRange::Month);
    assert_eq!(loaded.usage_zone, UsageZone::Utc);
}

#[test]
fn quit_confirmation_preference_round_trips_through_state_store() {
    let mut state = fresh();
    state.skip_quit_confirmation = true;
    assert!(round_trip(&state).skip_quit_confirmation);
}

#[test]
fn history_project_controls_round_trip_through_state_store() {
    let mut state = fresh();
    state.history.project_view_mode = ProjectViewMode::Custom;
    state.history.deep_depth = 5;
    state.history.selected_projects.push("remote:example.com/team/project".to_string());
    state
        .history
        .explicitly_excluded_projects
        .push("path:/home/example/hidden".to_string());
    let loaded = round_trip(&state);
    assert_eq!(loaded.history.project_view_mode, ProjectViewMode::Custom);
    assert_eq!(loaded.history.deep_depth, 5);
    assert_eq!(loaded.history.selected_projects, state.history.selected_projects);
    assert_eq!(
        loaded.history.explicitly_excluded_projects,
        state.history.explicitly_excluded_projects
    );
    assert!(loaded.matches(&state));
}

#[test]
fn state_schema_one_migrates_by_applying_catalog_defaults() {
    let mut store = StateStore::default();
    store.schema_version = 1;
    store.global.display_style = Some(DisplayStyle::SystemFull.store_value().to_string());
    let store = accept_state_store(store).expect("an older store");
    let loaded = restore_ui_state(&store, None, 4, MAX_DEPTH);
    assert_eq!(loaded.display_style, DisplayStyle::SystemFull);
    assert_eq!(loaded.history.project_view_mode, ProjectViewMode::Strict);
    assert_eq!(loaded.history.deep_depth, 4);
}

#[test]
fn legacy_system_style_restores_as_system_compact() {
    let mut store = StateStore::default();
    store.global.display_style = Some("system".to_string());
    let loaded = restore_ui_state(&store, None, DEPTH, MAX_DEPTH);
    assert_eq!(loaded.display_style, DisplayStyle::SystemCompact);
}

#[test]
fn a_newer_store_is_refused_by_its_version() {
    let mut store = StateStore::default();
    store.schema_version = 3;
    assert_eq!(accept_state_store(store).err(), Some(3));
}

#[test]
fn other_workspaces_survive_a_save() {
    let mut store = StateStore::default();
    store.workspaces.set(
        "/a",
        StoredWorkspaceState { no_sessions_confirm_dismissed: true, updated_at: 1 },
    );
    let mut state = fresh();
    state.workspace_path = Some("/b".to_string());
    store_ui_state(&mut store, &state, 9, MAX_DEPTH);
    assert_eq!(store.workspaces.len(), 2);
    assert_eq!(
        store.workspaces.get("/a"),
        Some(&StoredWorkspaceState { no_sessions_confirm_dismissed: true, updated_at: 1 })
    );
    assert_eq!(store.global.last_workspace_path.as_deref(), Some("/b"));
    assert_eq!(store.global.updated_at, 9);
}

#[test]
fn stored_depth_and_limit_stay_in_range() {
    let mut store = StateStore::default();
    store.global.activity_project_limit = Some(900);
    store.global.history_deep_depth = Some(200);
    store.global.metric = Some("nonsense".to_string());
    let loaded = restore_ui_state(&store, None, DEPTH, MAX_DEPTH);
    assert_eq!(loaded.activity_project_limit, 50);
    assert_eq!(loaded.history.deep_depth, 8);
    assert_eq!(loaded.metric, UsageMetric::Tokens);
}

#[test]
fn control_c_quits_from_everywhere() {
    let mut state = started();
    state.quit_confirm_open = true;
    let event = Event::Key(KeyInput { code: KeyCode::Char('c'), control: true, press: true });
    let reaction = handle_input_event(&mut state, &Vec::new(), event);
    assert_eq!(reaction.outcome, InputOutcome::Quit);
}

#[test]
fn a_letter_asks_before_quitting_and_enter_confirms() {
    let mut state = started();
    let reaction = handle_input_event(&mut state, &Vec::new(), press(KeyCode::Char('q')));
    assert_eq!(reaction.outcome, InputOutcome::Continue(true));
    assert!(state.quit_confirm_open);
    assert!(!state.quit_confirm_yes_selected);
    handle_input_event(&mut state, &Vec::new(), press(KeyCode::Left));
    assert!(state.quit_confirm_yes_selected);
    let reaction = handle_input_event(&mut state, &Vec::new(), press(KeyCode::Enter));
    assert_eq!(reaction.outcome, InputOutcome::Quit);
}

#[test]
fn a_released_key_does_nothing() {
    let mut state = started();
    let before = state;
    let event = Event::Key(KeyInput { code: KeyCode::Char('q'), control: false, press: false });
    let reaction = handle_input_event(&mut state, &Vec::new(), event);
    assert_eq!(reaction.outcome, InputOutcome::Continue(false));
    assert_eq!(state, before);
}

#[test]
fn keys_of_the_usage_screen_change_its_controls() {
    let mut state = started();
    handle_input_event(&mut state, &Vec::new(), press(KeyCode::Tab));
    assert_eq!(state.metric, UsageMetric::Time);
    handle_input_event(&mut state, &Vec::new(), press(KeyCode::Char('f')));
    assert_eq!(state.orientation, ChartOrientation::Vertical);
    let reaction = handle_input_event(&mut state, &Vec::new(), press(KeyCode::Char('r')));
    assert!(reaction.refresh_usage);
    handle_input_event(&mut state, &Vec::new(), press(KeyCode::Char('s')));
    assert_eq!(state.active_screen, ActiveScreen::ApiStat);
}

#[test]
fn a_click_on_a_target_sets_the_metric() {
    let mut state = started();
    let targets = vec![UiHitTarget {
        area: Rect { x: 0, y: 0, width: 3, height: 1 },
        action: UiClickAction::SetMetric(UsageMetric::Runs),
    }];
    let click = Event::Mouse(MouseInput { kind: MouseKind::LeftDown, column: 2, row: 0 });
    let reaction = handle_input_event(&mut state, &targets, click);
    assert_eq!(state.metric, UsageMetric::Runs);
    assert_eq!(reaction.outcome, InputOutcome::Continue(true));
    let (same, reaction) = apply_ui_click_action(state, UiClickAction::SetMetric(UsageMetric::Runs));
    assert_eq!(same, state);
    assert_eq!(reaction.outcome, InputOutcome::Continue(false));
}

#[test]
fn keys_of_the_history_go_to_its_browser() {
    let mut state = started();
    state.active_screen = ActiveScreen::Read;
    let reaction = handle_input_event(&mut state, &Vec::new(), press(KeyCode::Down));
    assert_eq!(reaction.outcome, InputOutcome::AskBrowser(BrowserRequest::HandleEvent));
}

#[test]
fn scrolling_is_bounded_by_what_is_visible() {
    let mut state = started();
    state.active_screen = ActiveScreen::Activity;
    state.activity_scroll = Scroll { offset: 0, visible: 40, total: 53, area: None };
    handle_input_event(&mut state, &Vec::new(), press(KeyCode::Home));
    assert!(state.activity_scroll.offset <= 13);
}

#[test]
fn the_first_state_shows_what_was_restored() {
    let mut restored = fresh();
    restored.metric = UsageMetric::Runs;
    restored.activity_project_limit = 9;
    let state = initial_state(&restored, true, false);
    assert_eq!(state.active_screen, ActiveScreen::Read);
    assert_eq!(state.metric, UsageMetric::Runs);
    assert_eq!(state.activity_project_limit, 9);
    assert!(!state.history_roots_configured);
}

#[test]
fn the_catalog_looks_as_deep_as_configured() {
    assert_eq!(catalog_depth(2, 5, 8), 5);
    assert_eq!(catalog_depth(0, 0, 8), 1);
    assert_eq!(catalog_depth(20, 3, 8), 8);
}

#[test]
fn a_failed_refresh_is_reported_and_opens_nothing() {
    let mut state = started();
    let mut data = DataState::new();
    handle_app_event(&mut state, &mut data, true, AppEvent::UsageUpdated(Err("boom".to_string())), 5);
    assert_eq!(data.usage_error.as_deref(), Some("boom"));
    assert!(!state.no_sessions_confirm_open);
}

#[test]
fn a_missing_app_server_is_an_error_only_where_it_is_asked_for() {
    let on = account_start_event(LiveLimitsMode::On, AccountStart::ServerNotFound);
    assert!(matches!(
        on,
        Some(AppEvent::AccountApiUnavailable { message, is_error: true })
            if message == missing_app_server_message()
    ));
    let auto = account_start_event(LiveLimitsMode::Auto, AccountStart::ServerNotFound);
    assert!(matches!(auto, Some(AppEvent::AccountApiUnavailable { is_error: false, .. })));
    let named = account_start_event(
        LiveLimitsMode::Auto,
        AccountStart::SpawnFailed { message: "no".to_string(), explicit: true },
    );
    assert!(matches!(named, Some(AppEvent::AccountApiUnavailable { is_error: true, .. })));
    let off = account_start_event(LiveLimitsMode::Off, AccountStart::Disabled);
    assert!(matches!(
        off,
        Some(AppEvent::AccountApiUnavailable { message, is_error: false })
            if message == "Codex account API disabled (--live-limits off)."
    ));
    assert!(account_start_event(LiveLimitsMode::On, AccountStart::Running).is_none());
}

#[test]
fn an_unavailable_account_switches_limits_off() {
    let mut state = started();
    let mut data = DataState::new();
    let event = AppEvent::AccountApiUnavailable { message: "gone".to_string(), is_error: false };
    handle_app_event(&mut state, &mut data, false, event, 1);
    assert!(!data.limits_enabled);
    assert_eq!(data.limits_notice.as_deref(), Some("gone"));
    assert_eq!(data.limits_error, None);
    assert_eq!(data.account_usage_notice.as_deref(), Some("gone"));
}

#[test]
fn limits_are_read_again_when_something_asks_for_it() {
    assert_eq!(limits_wake(LimitsSignal::Tick), LimitsWake::Poll);
    assert_eq!(limits_wake(LimitsSignal::Refresh(true)), LimitsWake::Poll);
    assert_eq!(limits_wake(LimitsSignal::Refresh(false)), LimitsWake::Stop);
    assert_eq!(limits_wake(LimitsSignal::Notification(true)), LimitsWake::Poll);
    assert_eq!(limits_wake(LimitsSignal::Notification(false)), LimitsWake::Wait);
    assert_eq!(limits_wake(LimitsSignal::NotificationsEnded), LimitsWake::Stop);
    assert_eq!(limits_wake(LimitsSignal::Shutdown), LimitsWake::Stop);
}

#[test]
fn the_usage_worker_goes_on_at_once_while_it_advances() {
    let mut worker = UsageWorker::new();
    assert_eq!(worker.wait_ms(300_000), None);
    worker.note_pass(Some(ScanProgress { pending_files: 3, indexed_files: 1, processed_bytes: 10 }));
    assert_eq!(worker.wait_ms(300_000), Some(75));
    worker.note_pass(Some(ScanProgress { pending_files: 3, indexed_files: 1, processed_bytes: 10 }));
    assert_eq!(worker.wait_ms(300_000), Some(300_000));
}

#[test]
fn the_screen_is_drawn_at_most_twenty_times_a_second() {
    assert!(should_redraw(true, 50));
    assert!(!should_redraw(true, 49));
    assert!(!should_redraw(false, 5_000));
}

#[test]
fn a_change_is_saved_when_it_has_lasted() {
    let first = fresh();
    let mut tracker = SaveTracker::new(&first);
    let mut changed = fresh();
    changed.metric = UsageMetric::Time;
    assert!(!tracker.observe(&changed, 1_000));
    assert!(!tracker.observe(&changed, 1_399));
    assert!(tracker.observe(&changed, 1_400));
    assert!(!tracker.observe(&changed, 9_000));
}

#[test]
fn an_unfinished_catalog_scan_goes_on() {
    let (worker, goes_on) =
        note_catalog_scan(CatalogScan::Done { sessions_scanned: 3, sessions_total: 5 });
    assert!(worker.catch_up && worker.reuse_cached_repositories && goes_on);
    let (worker, goes_on) =
        note_catalog_scan(CatalogScan::Done { sessions_scanned: 5, sessions_total: 5 });
    assert!(!worker.catch_up && goes_on);
    let (_, goes_on) = note_catalog_scan(CatalogScan::Failed { cancelled: true });
    assert!(!goes_on);
}

#[test]
fn history_requests_stay_in_range() {
    let mut choices = fresh().history;
    assert!(choices.ask(BrowserRequest::SetProjectMode(ProjectViewMode::Deep), MAX_DEPTH));
    assert!(!choices.ask(BrowserRequest::SetProjectMode(ProjectViewMode::Deep), MAX_DEPTH));
    assert_eq!(choices.project_view_mode, ProjectViewMode::Deep);
    assert!(choices.ask(BrowserRequest::DeeperCatalog, 4));
    assert!(!choices.ask(BrowserRequest::DeeperCatalog, 4));
    assert_eq!(choices.deep_depth, 4);
    for _ in 0..3 {
        assert!(choices.ask(BrowserRequest::ShallowerCatalog, 4));
    }
    assert!(!choices.ask(BrowserRequest::ShallowerCatalog, 4));
    assert_eq!(choices.deep_depth, 1);
    assert!(!choices.ask(BrowserRequest::HandleEvent, 4));
}
