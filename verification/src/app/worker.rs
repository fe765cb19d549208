//! What the main loop and its workers decide.

use crate::app::persist::{clamped, PersistedUiState, UiModel, STATE_SAVE_DEBOUNCE_MS};
use crate::app::state::{
    should_continue_scan_catch_up, AccentTheme, ActiveScreen, AppState, BarFillMode,
    LiveLimitsMode, Scroll,
};
use crate::calendar::ACTIVITY_TIMELINE_WEEKS;
use crate::codex_rpc::account::{AccountRateLimits, AccountUsage};
use crate::text::opt_view;
use crate::usage::snapshot::LocalUsageSnapshot;
use vstd::prelude::*;

verus! {

/// The screen is drawn at most once in this many milliseconds.
pub const MIN_REDRAW_MS: u64 = 50;

/// While files are pending and passes get further, the usage worker waits this many milliseconds.
pub const CATCH_UP_WAIT_MS: u64 = 75;

/// The first state of the dashboard.
pub open spec fn first_state(m: UiModel, history: bool, roots_configured: bool) -> AppState {
    let nothing = Scroll { offset: 0, visible: 0, total: 0, area: None };
    AppState {
        active_screen: if history {
            ActiveScreen::Read
        } else {
            ActiveScreen::Usage
        },
        metric: m.metric,
        range: m.range,
        usage_zone: m.usage_zone,
        orientation: m.orientation,
        api_stat_grouping: m.api_stat_grouping,
        api_stat_graph: m.api_stat_graph,
        api_stat_orientation: m.api_stat_orientation,
        usage_scroll: nothing,
        api_stat_scroll: nothing,
        activity_scroll: Scroll { total: ACTIVITY_TIMELINE_WEEKS, ..nothing },
        activity_project_limit: m.activity_project_limit as usize,
        show_help: false,
        no_sessions_confirm_open: false,
        no_sessions_confirm_dismissed: m.no_sessions_confirm_dismissed,
        quit_confirm_open: false,
        quit_confirm_yes_selected: false,
        quit_dont_ask_again: false,
        skip_quit_confirmation: m.skip_quit_confirmation,
        quit_preference_prompt: None,
        history_roots_configured: roots_configured,
        history_catalog_scan_prompt: false,
        display_style: m.display_style,
        accent_theme: AccentTheme::Cyan,
        bar_fill_mode: BarFillMode::Semigraphic,
        mouse_position: None,
    }
}

/// The first state of the dashboard.
pub fn initial_state(
    restored: &PersistedUiState,
    start_in_read_screen: bool,
    history_roots_configured: bool,
) -> (r: AppState)
    ensures
        r == first_state(restored@, start_in_read_screen, history_roots_configured),
{
    let nothing = Scroll { offset: 0, visible: 0, total: 0, area: None };
    AppState {
        active_screen: if start_in_read_screen {
            ActiveScreen::Read
        } else {
            ActiveScreen::Usage
        },
        metric: restored.metric,
        range: restored.range,
        usage_zone: restored.usage_zone,
        orientation: restored.orientation,
        api_stat_grouping: restored.api_stat_grouping,
        api_stat_graph: restored.api_stat_graph,
        api_stat_orientation: restored.api_stat_orientation,
        usage_scroll: nothing,
        api_stat_scroll: nothing,
        activity_scroll: Scroll { total: ACTIVITY_TIMELINE_WEEKS, ..nothing },
        activity_project_limit: restored.activity_project_limit,
        show_help: false,
        no_sessions_confirm_open: false,
        no_sessions_confirm_dismissed: restored.no_sessions_confirm_dismissed,
        quit_confirm_open: false,
        quit_confirm_yes_selected: false,
        quit_dont_ask_again: false,
        skip_quit_confirmation: restored.skip_quit_confirmation,
        quit_preference_prompt: None,
        history_roots_configured,
        history_catalog_scan_prompt: false,
        display_style: restored.display_style,
        accent_theme: AccentTheme::Cyan,
        bar_fill_mode: BarFillMode::Semigraphic,
        mouse_position: None,
    }
}

/// What is kept of the first state is what was restored.
pub proof fn first_state_keeps_what_was_restored(m: UiModel, history: bool, roots_configured: bool)
    requires
        0 <= m.activity_project_limit <= usize::MAX,
    ensures
        crate::app::persist::kept(
            first_state(m, history, roots_configured),
            m.workspace_path,
            m.history,
        ) == m,
{
}

/// How deep the catalog of projects looks for repositories: the larger of the two configured
/// depths, at least one and at most the largest depth there is.
pub fn catalog_depth(max_depth: u8, depth: u8, limit: u8) -> (r: u8)
    ensures
        r == clamped(
            if max_depth < depth {
                depth as int
            } else {
                max_depth as int
            },
            1,
            limit as int,
        ),
{
    let wanted: u8 = if max_depth < depth {
        depth
    } else {
        max_depth
    };
    if wanted < 1 {
        1
    } else if wanted > limit {
        limit
    } else {
        wanted
    }
}

/// What the dashboard has been told. Times are in milliseconds.
#[derive(Debug)]
pub struct DataState {
    pub usage: Option<LocalUsageSnapshot>,
    pub usage_updated_at: Option<u64>,
    pub usage_error: Option<String>,
    pub limits: Option<AccountRateLimits>,
    pub limits_updated_at: Option<u64>,
    pub limits_error: Option<String>,
    pub limits_notice: Option<String>,
    pub limits_enabled: bool,
    pub account_usage: Option<AccountUsage>,
    pub account_usage_updated_at: Option<u64>,
    pub account_usage_error: Option<String>,
    pub account_usage_notice: Option<String>,
    pub account_usage_enabled: bool,
}

impl DataState {
    /// Nothing has been told yet.
    pub fn new() -> (r: Self)
        ensures
            r.usage is None && r.usage_updated_at is None && r.usage_error is None,
            r.limits is None && r.limits_updated_at is None && r.limits_error is None
                && r.limits_notice is None && r.limits_enabled,
            r.account_usage is None && r.account_usage_updated_at is None
                && r.account_usage_error is None && r.account_usage_notice is None
                && r.account_usage_enabled,
    {
        DataState {
            usage: None,
            usage_updated_at: None,
            usage_error: None,
            limits: None,
            limits_updated_at: None,
            limits_error: None,
            limits_notice: None,
            limits_enabled: true,
            account_usage: None,
            account_usage_updated_at: None,
            account_usage_error: None,
            account_usage_notice: None,
            account_usage_enabled: true,
        }
    }
}

/// What a worker tells.
#[derive(Debug)]
pub enum AppEvent {
    UsageUpdated(Result<LocalUsageSnapshot, String>),
    AccountApiUnavailable { message: String, is_error: bool },
    LimitsUpdated(Result<AccountRateLimits, String>),
    AccountUsageUpdated(Result<AccountUsage, String>),
}

/// A message where it is wanted.
pub open spec fn message_if(wanted: bool, message: Seq<char>) -> Option<Seq<char>> {
    if wanted {
        Some(message)
    } else {
        None
    }
}

/// What is known after an event. A failure keeps the data and the time of the last success.
pub open spec fn told(before: DataState, event: AppEvent, now: u64, after: DataState) -> bool {
    match event {
        AppEvent::UsageUpdated(Ok(snapshot)) => after == (DataState {
            usage: Some(snapshot),
            usage_error: None,
            usage_updated_at: Some(now),
            ..before
        }),
        AppEvent::UsageUpdated(Err(e)) => after == (DataState { usage_error: Some(e), ..before }),
        AppEvent::LimitsUpdated(Ok(limits)) => after == (DataState {
            limits_enabled: true,
            limits: Some(limits),
            limits_error: None,
            limits_notice: None,
            limits_updated_at: Some(now),
            ..before
        }),
        AppEvent::LimitsUpdated(Err(e)) => after == (DataState { limits_error: Some(e), ..before }),
        AppEvent::AccountUsageUpdated(Ok(usage)) => after == (DataState {
            account_usage_enabled: true,
            account_usage: Some(usage),
            account_usage_error: None,
            account_usage_notice: None,
            account_usage_updated_at: Some(now),
            ..before
        }),
        AppEvent::AccountUsageUpdated(Err(e)) => after == (DataState {
            account_usage_error: Some(e),
            ..before
        }),
        AppEvent::AccountApiUnavailable { message, is_error } => {
            &&& after == (DataState {
                limits_enabled: false,
                account_usage_enabled: false,
                limits_error: after.limits_error,
                limits_notice: after.limits_notice,
                account_usage_error: after.account_usage_error,
                account_usage_notice: after.account_usage_notice,
                ..before
            })
            &&& opt_view(after.limits_error) == message_if(is_error, message@)
            &&& opt_view(after.account_usage_error) == message_if(is_error, message@)
            &&& opt_view(after.limits_notice) == message_if(!is_error, message@)
            &&& opt_view(after.account_usage_notice) == message_if(!is_error, message@)
        },
    }
}

/// The warning about missing sessions opens: a workspace was named, none of its sessions was
/// found, and the warning was not dismissed.
pub open spec fn warns(s: AppState, workspace_named: bool, event: AppEvent) -> bool {
    event matches AppEvent::UsageUpdated(Ok(snapshot)) && workspace_named
        && !s.no_sessions_confirm_dismissed && snapshot.matched_session_files == 0
}

/// Takes what a worker tells.
pub fn handle_app_event(
    state: &mut AppState,
    data: &mut DataState,
    workspace_named: bool,
    event: AppEvent,
    now: u64,
)
    ensures
        told(*old(data), event, now, *final(data)),
        *final(state) == (if warns(*old(state), workspace_named, event) {
            AppState { no_sessions_confirm_open: true, ..*old(state) }
        } else {
            *old(state)
        }),
{
    match event {
        AppEvent::UsageUpdated(Ok(snapshot)) => {
            if workspace_named && !state.no_sessions_confirm_dismissed
                && snapshot.matched_session_files == 0 {
                state.no_sessions_confirm_open = true;
            }
            data.usage = Some(snapshot);
            data.usage_error = None;
            data.usage_updated_at = Some(now);
        },
        AppEvent::UsageUpdated(Err(e)) => {
            data.usage_error = Some(e);
        },
        AppEvent::LimitsUpdated(Ok(limits)) => {
            data.limits_enabled = true;
            data.limits = Some(limits);
            data.limits_error = None;
            data.limits_notice = None;
            data.limits_updated_at = Some(now);
        },
        AppEvent::LimitsUpdated(Err(e)) => {
            data.limits_error = Some(e);
        },
        AppEvent::AccountUsageUpdated(Ok(usage)) => {
            data.account_usage_enabled = true;
            data.account_usage = Some(usage);
            data.account_usage_error = None;
            data.account_usage_notice = None;
            data.account_usage_updated_at = Some(now);
        },
        AppEvent::AccountUsageUpdated(Err(e)) => {
            data.account_usage_error = Some(e);
        },
        AppEvent::AccountApiUnavailable { message, is_error } => {
            let copy = message.as_str().to_owned();
            data.limits_enabled = false;
            data.account_usage_enabled = false;
            if is_error {
                data.limits_error = Some(copy);
                data.limits_notice = None;
                data.account_usage_error = Some(message);
                data.account_usage_notice = None;
            } else {
                data.limits_error = None;
                data.limits_notice = Some(copy);
                data.account_usage_error = None;
                data.account_usage_notice = Some(message);
            }
        },
    }
}

/// What there is to say where no app server was found.
pub fn missing_app_server_message() -> (r: &'static str)
    ensures
        r@
            == "Codex App Server not found; usage/history still work. Install Codex CLI or pass --codex-bin/--app-server-bin."@,
{
    "Codex App Server not found; usage/history still work. Install Codex CLI or pass --codex-bin/--app-server-bin."
}

/// How far the limits worker got before it could poll.
#[derive(Debug)]
pub enum AccountStart {
    Disabled,
    ServerNotFound,
    SpawnFailed { message: String, explicit: bool },
    Running,
}

/// What the limits worker says where it cannot poll, and whether that is an error: it is one where
/// limits are asked for, or where the server that failed is one that the user named.
pub open spec fn unavailable(mode: LiveLimitsMode, start: AccountStart) -> Option<
    (Seq<char>, bool),
> {
    match start {
        AccountStart::Disabled => Some(
            ("Codex account API disabled (--live-limits off)."@, false),
        ),
        AccountStart::ServerNotFound => Some(
            (
                "Codex App Server not found; usage/history still work. Install Codex CLI or pass --codex-bin/--app-server-bin."@,
                mode == LiveLimitsMode::On,
            ),
        ),
        AccountStart::SpawnFailed { message, explicit } => Some(
            (message@, mode == LiveLimitsMode::On || explicit),
        ),
        AccountStart::Running => None,
    }
}

/// What the limits worker says where it cannot poll.
pub fn account_start_event(mode: LiveLimitsMode, start: AccountStart) -> (r: Option<AppEvent>)
    ensures
        match unavailable(mode, start) {
            Some((text, error)) => r matches Some(
                AppEvent::AccountApiUnavailable { message, is_error },
            ) && message@ == text && is_error == error,
            None => r is None,
        },
{
    match start {
        AccountStart::Disabled => Some(
            AppEvent::AccountApiUnavailable {
                message: "Codex account API disabled (--live-limits off).".to_owned(),
                is_error: false,
            },
        ),
        AccountStart::ServerNotFound => Some(
            AppEvent::AccountApiUnavailable {
                message: missing_app_server_message().to_owned(),
                is_error: mode == LiveLimitsMode::On,
            },
        ),
        AccountStart::SpawnFailed { message, explicit } => Some(
            AppEvent::AccountApiUnavailable {
                message,
                is_error: mode == LiveLimitsMode::On || explicit,
            },
        ),
        AccountStart::Running => None,
    }
}

/// What wakes the limits worker.
#[derive(Debug, Clone, Copy, PartialEq, Eq, Structural)]
pub enum LimitsSignal {
    Shutdown,
    Tick,
    /// A refresh was asked for; false where nobody can ask any more.
    Refresh(bool),
    /// A notification; whether it says that the limits have changed.
    Notification(bool),
    NotificationsEnded,
}

/// What the limits worker does next.
#[derive(Debug, Clone, Copy, PartialEq, Eq, Structural)]
pub enum LimitsWake {
    Poll,
    Stop,
    Wait,
}

/// What the limits worker does next.
pub fn limits_wake(signal: LimitsSignal) -> (r: LimitsWake)
    ensures
        r == (match signal {
            LimitsSignal::Tick | LimitsSignal::Refresh(true) | LimitsSignal::Notification(
                true,
            ) => LimitsWake::Poll,
            LimitsSignal::Notification(false) => LimitsWake::Wait,
            _ => LimitsWake::Stop,
        }),
{
    match signal {
        LimitsSignal::Tick => LimitsWake::Poll,
        LimitsSignal::Refresh(asked) => if asked {
            LimitsWake::Poll
        } else {
            LimitsWake::Stop
        },
        LimitsSignal::Notification(changed) => if changed {
            LimitsWake::Poll
        } else {
            LimitsWake::Wait
        },
        LimitsSignal::Shutdown | LimitsSignal::NotificationsEnded => LimitsWake::Stop,
    }
}

/// The state of the usage worker.
#[derive(Debug, Clone, Copy)]
pub struct UsageWorker {
    pub first_run: bool,
    pub rapid_catch_up: bool,
    pub previous: Option<(usize, u64)>,
}

/// How far a pass over the session files got.
#[derive(Debug, Clone, Copy, PartialEq, Eq, Structural)]
pub struct ScanProgress {
    pub pending_files: usize,
    pub indexed_files: usize,
    pub processed_bytes: u64,
}

/// The worker after a pass; none where it failed.
pub open spec fn after_pass(w: UsageWorker, progress: Option<ScanProgress>) -> UsageWorker {
    match progress {
        Some(p) => UsageWorker {
            first_run: false,
            rapid_catch_up: p.pending_files > 0 && (match w.previous {
                None => true,
                Some((files, bytes)) => p.indexed_files > files || p.processed_bytes > bytes,
            }),
            previous: Some((p.indexed_files, p.processed_bytes)),
        },
        None => UsageWorker { first_run: false, rapid_catch_up: false, previous: None },
    }
}

impl UsageWorker {
    /// A worker that has not run.
    pub fn new() -> (r: Self)
        ensures
            r.first_run && !r.rapid_catch_up && r.previous is None,
    {
        UsageWorker { first_run: true, rapid_catch_up: false, previous: None }
    }

    /// How many milliseconds the worker waits before the next pass; the first pass comes at once.
    pub fn wait_ms(&self, refresh_ms: u64) -> (r: Option<u64>)
        ensures
            r == (if self.first_run {
                None::<u64>
            } else if self.rapid_catch_up {
                Some(CATCH_UP_WAIT_MS)
            } else {
                Some(refresh_ms)
            }),
    {
        if self.first_run {
            None
        } else if self.rapid_catch_up {
            Some(CATCH_UP_WAIT_MS)
        } else {
            Some(refresh_ms)
        }
    }

    /// Takes note of a pass; none where it failed.
    pub fn note_pass(&mut self, progress: Option<ScanProgress>)
        ensures
            *final(self) == after_pass(*old(self), progress),
    {
        self.first_run = false;
        match progress {
            Some(p) => {
                self.rapid_catch_up = should_continue_scan_catch_up(
                    p.pending_files,
                    p.indexed_files,
                    p.processed_bytes,
                    self.previous,
                );
                self.previous = Some((p.indexed_files, p.processed_bytes));
            },
            None => {
                self.rapid_catch_up = false;
                self.previous = None;
            },
        }
    }
}

/// The state of the catalog worker.
#[derive(Debug, Clone, Copy, PartialEq, Eq, Structural)]
pub struct CatalogWorker {
    pub catch_up: bool,
    pub reuse_cached_repositories: bool,
}

/// How a catalog scan ended.
#[derive(Debug, Clone, Copy, PartialEq, Eq, Structural)]
pub enum CatalogScan {
    Done { sessions_scanned: usize, sessions_total: usize },
    Failed { cancelled: bool },
}

/// Takes note of a scan; false where the worker stops. A scan that did not get to all sessions is
/// continued at once, with the repositories that it found.
pub fn note_catalog_scan(scan: CatalogScan) -> (r: (CatalogWorker, bool))
    ensures
        r == (match scan {
            CatalogScan::Done { sessions_scanned, sessions_total } => (
                CatalogWorker {
                    catch_up: sessions_scanned < sessions_total,
                    reuse_cached_repositories: sessions_scanned < sessions_total,
                },
                true,
            ),
            CatalogScan::Failed { cancelled } => (
                CatalogWorker { catch_up: false, reuse_cached_repositories: false },
                !cancelled,
            ),
        }),
{
    match scan {
        CatalogScan::Done { sessions_scanned, sessions_total } => {
            let more = sessions_scanned < sessions_total;
            (CatalogWorker { catch_up: more, reuse_cached_repositories: more }, true)
        },
        CatalogScan::Failed { cancelled } => (
            CatalogWorker { catch_up: false, reuse_cached_repositories: false },
            !cancelled,
        ),
    }
}

/// Whether the screen is drawn.
pub fn should_redraw(dirty: bool, elapsed_ms: u64) -> (r: bool)
    ensures
        r == (dirty && elapsed_ms >= MIN_REDRAW_MS),
{
    dirty && elapsed_ms >= MIN_REDRAW_MS
}

/// What has been seen and stored of the state that is kept.
#[derive(Debug)]
pub struct SaveTracker {
    pub observed: PersistedUiState,
    pub saved: PersistedUiState,
    pub changed_at: Option<u64>,
}

/// When the state last changed, as seen now.
pub open spec fn change_time(t: SaveTracker, current: UiModel, now: u64) -> Option<u64> {
    if current != t.observed@ {
        Some(now)
    } else {
        t.changed_at
    }
}

/// The state is to be stored: it differs from the stored one, and its last change is old enough.
pub open spec fn save_due(t: SaveTracker, current: UiModel, now: u64) -> bool {
    current != t.saved@ && (match change_time(t, current, now) {
        Some(at) => now - at >= STATE_SAVE_DEBOUNCE_MS,
        None => true,
    })
}

impl SaveTracker {
    /// The state at the start counts as stored.
    pub fn new(current: &PersistedUiState) -> (r: Self)
        ensures
            r.observed@ == current@,
            r.saved@ == current@,
            r.changed_at is None,
    {
        SaveTracker { observed: current.copy(), saved: current.copy(), changed_at: None }
    }

    /// Looks at the state; true where it is to be stored now.
    pub fn observe(&mut self, current: &PersistedUiState, now: u64) -> (r: bool)
        ensures
            r == save_due(*old(self), current@, now),
            final(self).observed@ == current@,
            final(self).saved@ == (if r {
                current@
            } else {
                old(self).saved@
            }),
            final(self).changed_at == change_time(*old(self), current@, now),
    {
        if !current.matches(&self.observed) {
            self.observed = current.copy();
            self.changed_at = Some(now);
        }
        let old_enough = match self.changed_at {
            Some(at) => now >= at && now - at >= STATE_SAVE_DEBOUNCE_MS,
            None => true,
        };
        if old_enough && !current.matches(&self.saved) {
            self.saved = current.copy();
            true
        } else {
            false
        }
    }
}

/// A change that is never undone is stored at the first look that comes late enough.
pub proof fn lasting_changes_are_saved(t: SaveTracker, current: UiModel, now: u64)
    requires
        current == t.observed@,
        current != t.saved@,
        t.changed_at is Some ==> now >= t.changed_at->0 + STATE_SAVE_DEBOUNCE_MS,
    ensures
        save_due(t, current, now),
{
}

/// What a worker tells of usage changes what is known of usage and nothing else, and likewise for
/// limits and for the account: a success brings its data, its time and no error, a failure keeps the
/// data and the time that were there.
pub proof fn news_change_their_own_part(
    before: DataState,
    after: DataState,
    now: u64,
    snapshot: LocalUsageSnapshot,
    limits: AccountRateLimits,
    usage: AccountUsage,
    e: String,
)
    ensures
        told(before, AppEvent::UsageUpdated(Ok(snapshot)), now, after) ==> after.usage == Some(
            snapshot,
        ) && after.usage_error is None && after.usage_updated_at == Some(now) && after.limits
            == before.limits && after.account_usage == before.account_usage,
        told(before, AppEvent::UsageUpdated(Err(e)), now, after) ==> after.usage == before.usage
            && after.usage_updated_at == before.usage_updated_at && after.usage_error == Some(e)
            && after.limits == before.limits,
        told(before, AppEvent::LimitsUpdated(Ok(limits)), now, after) ==> after.limits == Some(
            limits,
        ) && after.limits_error is None && after.limits_updated_at == Some(now)
            && after.limits_enabled && after.usage == before.usage && after.account_usage
            == before.account_usage,
        told(before, AppEvent::LimitsUpdated(Err(e)), now, after) ==> after.limits == before.limits
            && after.limits_updated_at == before.limits_updated_at && after.limits_error == Some(e)
            && after.limits_enabled == before.limits_enabled,
        told(before, AppEvent::AccountUsageUpdated(Ok(usage)), now, after) ==> after.account_usage
            == Some(usage) && after.account_usage_error is None
            && after.account_usage_updated_at == Some(now) && after.limits == before.limits,
        told(before, AppEvent::AccountUsageUpdated(Err(e)), now, after) ==> after.account_usage
            == before.account_usage && after.account_usage_error == Some(e) && after.limits_error
            == before.limits_error,
        told(
            before,
            AppEvent::AccountApiUnavailable { message: e, is_error: true },
            now,
            after,
        ) ==> !after.limits_enabled && !after.account_usage_enabled && opt_view(after.limits_error)
            == Some(e@) && after.limits_notice is None && after.usage == before.usage,
        told(
            before,
            AppEvent::AccountApiUnavailable { message: e, is_error: false },
            now,
            after,
        ) ==> !after.limits_enabled && after.limits_error is None && opt_view(
            after.limits_notice,
        ) == Some(e@),
{
}

/// The warning about missing sessions comes where a workspace was named and a snapshot holds none of
/// its sessions, and not once it was dismissed.
pub proof fn missing_sessions_are_warned_of(
    s: AppState,
    named: bool,
    snapshot: LocalUsageSnapshot,
    e: String,
)
    ensures
        warns(s, true, AppEvent::UsageUpdated(Ok(snapshot))) <==> (
        !s.no_sessions_confirm_dismissed && snapshot.matched_session_files == 0),
        !warns(s, false, AppEvent::UsageUpdated(Ok(snapshot))),
        !warns(s, named, AppEvent::UsageUpdated(Err(e))),
{
}

/// That the account cannot be asked is an error where limits were asked for, and where the server
/// that failed was named; a server that was not found is none where limits come by themselves.
pub proof fn missing_account_is_an_error_where_asked_for(
    mode: LiveLimitsMode,
    message: String,
    explicit: bool,
)
    ensures
        unavailable(mode, AccountStart::Running) is None,
        unavailable(mode, AccountStart::Disabled) is Some && !(unavailable(
            mode,
            AccountStart::Disabled,
        )->0).1,
        unavailable(mode, AccountStart::ServerNotFound) is Some && ((unavailable(
            mode,
            AccountStart::ServerNotFound,
        )->0).1 <==> mode == LiveLimitsMode::On),
        ({
            let failed = unavailable(mode, AccountStart::SpawnFailed { message, explicit });
            failed is Some && (failed->0).0 == message@ && ((failed->0).1 <==> mode
                == LiveLimitsMode::On || explicit)
        }),
{
}

/// The state is stored only where it differs from what is stored and has not changed for a while: a
/// change puts the storing off.
pub proof fn states_are_stored_once_they_rest(t: SaveTracker, current: UiModel, now: u64)
    ensures
        current == t.saved@ ==> !save_due(t, current, now),
        current != t.observed@ ==> change_time(t, current, now) == Some(now) && !save_due(
            t,
            current,
            now,
        ),
        current == t.observed@ && t.changed_at is Some && now < t.changed_at->0
            + STATE_SAVE_DEBOUNCE_MS ==> !save_due(t, current, now),
        current == t.observed@ ==> change_time(t, current, now) == t.changed_at,
{
}

} // verus!
