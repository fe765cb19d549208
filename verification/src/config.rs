//! Settings: what the user configured, what the command line overrides, and where files are kept.

use crate::text::{is_blank, opt_str, opt_view, trim, trimmed, views};
use crate::usage::scan::{ScanLimits, DEFAULT_SCAN_CACHE_MAX_ENTRIES};
use vstd::prelude::*;

verus! {

/// The version of the configuration that is written.
pub const USER_CONFIG_SCHEMA_VERSION: u32 = 2;

/// The name of the file that holds the configuration.
pub const USER_CONFIG_FILE_NAME: &'static str = "config.json";

pub const DEFAULT_USAGE_DAYS: u32 = 30;

pub const DEFAULT_REFRESH_USAGE_SECS: u64 = 300;

pub const DEFAULT_REFRESH_LIMITS_SECS: u64 = 60;

pub const DEFAULT_MAX_SESSION_FILE_MIB: u64 = 256;

pub const DEFAULT_MAX_SESSION_TOTAL_MIB: u64 = 256;

pub const DEFAULT_MAX_SESSION_FILES: usize = 10_000;

pub const DEFAULT_MAX_JSONL_LINE_KIB: u64 = 512;

pub const DEFAULT_SCAN_TIME_BUDGET_MS: u64 = 1500;

pub const DEFAULT_HISTORY_CATALOG_MAX_CANDIDATES: usize = 10_000;

pub const DEFAULT_HISTORY_CATALOG_SCAN_BUDGET_MS: u64 = 100;

/// What the user configured.
#[derive(Debug)]
pub struct UserConfig {
    pub schema_version: u32,
    pub usage_days: u32,
    pub refresh_usage_secs: u64,
    pub refresh_limits_secs: u64,
    pub max_session_file_mib: u64,
    pub max_session_total_mib: u64,
    pub max_session_files: usize,
    pub max_jsonl_line_kib: u64,
    pub scan_time_budget_ms: u64,
    pub full_scan: bool,
    pub scan_cache_max_entries: usize,
    pub history_project_roots: Vec<String>,
    pub history_deep_depth: u8,
    pub history_deep_max_depth: u8,
    pub history_catalog_max_candidates: usize,
    pub history_catalog_scan_budget_ms: u64,
}

/// The configuration that holds where the user has set nothing. The directory of the user is the
/// only root of projects, where it is known; how deep projects are searched for is the catalog's to
/// say.
pub open spec fn is_standard(c: UserConfig, home: Option<Seq<char>>, depth: u8, max_depth: u8) -> bool {
    &&& c.schema_version == USER_CONFIG_SCHEMA_VERSION
    &&& c.usage_days == DEFAULT_USAGE_DAYS
    &&& c.refresh_usage_secs == DEFAULT_REFRESH_USAGE_SECS
    &&& c.refresh_limits_secs == DEFAULT_REFRESH_LIMITS_SECS
    &&& c.max_session_file_mib == DEFAULT_MAX_SESSION_FILE_MIB
    &&& c.max_session_total_mib == DEFAULT_MAX_SESSION_TOTAL_MIB
    &&& c.max_session_files == DEFAULT_MAX_SESSION_FILES
    &&& c.max_jsonl_line_kib == DEFAULT_MAX_JSONL_LINE_KIB
    &&& c.scan_time_budget_ms == DEFAULT_SCAN_TIME_BUDGET_MS
    &&& !c.full_scan
    &&& c.scan_cache_max_entries == DEFAULT_SCAN_CACHE_MAX_ENTRIES
    &&& views(c.history_project_roots@) == match home {
        Some(h) => seq![h],
        None => Seq::empty(),
    }
    &&& c.history_deep_depth == depth
    &&& c.history_deep_max_depth == max_depth
    &&& c.history_catalog_max_candidates == DEFAULT_HISTORY_CATALOG_MAX_CANDIDATES
    &&& c.history_catalog_scan_budget_ms == DEFAULT_HISTORY_CATALOG_SCAN_BUDGET_MS
}

impl UserConfig {
    /// The configuration that holds where the user has set nothing.
    pub fn standard(home: Option<&str>, depth: u8, max_depth: u8) -> (r: Self)
        ensures
            is_standard(r, opt_str(home), depth, max_depth),
    {
        let mut roots: Vec<String> = Vec::new();
        if let Some(h) = home {
            roots.push(h.to_owned());
            assert(views(roots@) =~= seq![h@]);
        } else {
            assert(views(roots@) =~= Seq::<Seq<char>>::empty());
        }
        UserConfig {
            schema_version: USER_CONFIG_SCHEMA_VERSION,
            usage_days: DEFAULT_USAGE_DAYS,
            refresh_usage_secs: DEFAULT_REFRESH_USAGE_SECS,
            refresh_limits_secs: DEFAULT_REFRESH_LIMITS_SECS,
            max_session_file_mib: DEFAULT_MAX_SESSION_FILE_MIB,
            max_session_total_mib: DEFAULT_MAX_SESSION_TOTAL_MIB,
            max_session_files: DEFAULT_MAX_SESSION_FILES,
            max_jsonl_line_kib: DEFAULT_MAX_JSONL_LINE_KIB,
            scan_time_budget_ms: DEFAULT_SCAN_TIME_BUDGET_MS,
            full_scan: false,
            scan_cache_max_entries: DEFAULT_SCAN_CACHE_MAX_ENTRIES,
            history_project_roots: roots,
            history_deep_depth: depth,
            history_deep_max_depth: max_depth,
            history_catalog_max_candidates: DEFAULT_HISTORY_CATALOG_MAX_CANDIDATES,
            history_catalog_scan_budget_ms: DEFAULT_HISTORY_CATALOG_SCAN_BUDGET_MS,
        }
    }
}

/// A configuration that has been read: whether it has to be written again.
#[derive(Debug)]
pub struct AcceptedConfig {
    pub config: UserConfig,
    pub migrated: bool,
}

/// Takes a configuration of this version or an older one, which becomes one of this version. A
/// newer one is refused by its version.
pub fn accept_user_config(config: UserConfig) -> (r: Result<AcceptedConfig, u32>)
    ensures
        match r {
            Ok(a) => config.schema_version <= USER_CONFIG_SCHEMA_VERSION && a.migrated == (
            config.schema_version < USER_CONFIG_SCHEMA_VERSION) && a.config == (UserConfig {
                schema_version: USER_CONFIG_SCHEMA_VERSION,
                ..config
            }),
            Err(version) => config.schema_version > USER_CONFIG_SCHEMA_VERSION && version
                == config.schema_version,
        },
{
    if config.schema_version > USER_CONFIG_SCHEMA_VERSION {
        return Err(config.schema_version);
    }
    let migrated = config.schema_version < USER_CONFIG_SCHEMA_VERSION;
    let mut config = config;
    config.schema_version = USER_CONFIG_SCHEMA_VERSION;
    Ok(AcceptedConfig { config, migrated })
}

/// What the command line says of the settings.
#[derive(Debug, Clone, Copy)]
pub struct Overrides {
    pub usage_days: Option<u32>,
    pub refresh_usage_secs: Option<u64>,
    pub refresh_limits_secs: Option<u64>,
    pub max_session_file_mib: Option<u64>,
    pub max_session_total_mib: Option<u64>,
    pub max_session_files: Option<usize>,
    pub max_jsonl_line_kib: Option<u64>,
    pub scan_time_budget_ms: Option<u64>,
    pub full_scan: bool,
    pub no_full_scan: bool,
    pub scan_cache_max_entries: Option<usize>,
}

/// The settings that hold.
#[derive(Debug, Clone, Copy)]
pub struct Settings {
    pub usage_days: u32,
    pub refresh_usage_secs: u64,
    pub refresh_limits_secs: u64,
    pub usage_scan_limits: ScanLimits,
    pub history_deep_depth: u8,
    pub history_deep_max_depth: u8,
    pub history_catalog_max_candidates: usize,
    pub history_catalog_scan_budget_ms: u64,
}

/// The number that overrides another one, where it is given.
pub open spec fn given<T>(o: Option<T>, otherwise: T) -> T {
    match o {
        Some(v) => v,
        None => otherwise,
    }
}

/// The number, between two bounds.
pub open spec fn between(n: int, low: int, high: int) -> int {
    if n < low {
        low
    } else if n > high {
        high
    } else {
        n
    }
}

/// The number, at least another one.
pub open spec fn at_least(n: int, low: int) -> int {
    if n < low {
        low
    } else {
        n
    }
}

/// The number, at most another one.
pub open spec fn at_most(n: int, high: int) -> int {
    if n > high {
        high
    } else {
        n
    }
}

/// The limits of a scan. A single file never weighs more than all together.
pub open spec fn are_limits(l: ScanLimits, o: Overrides, c: UserConfig) -> bool {
    let total = at_least(given(o.max_session_total_mib, c.max_session_total_mib) as int, 1);
    let file = at_most(
        at_least(given(o.max_session_file_mib, c.max_session_file_mib) as int, 1),
        total,
    );
    let line = at_least(given(o.max_jsonl_line_kib, c.max_jsonl_line_kib) as int, 1);
    &&& l.max_session_total_bytes == at_most(total * 1048576, u64::MAX as int)
    &&& l.max_session_file_bytes == at_most(file * 1048576, u64::MAX as int)
    &&& l.max_session_files_scanned == at_least(
        given(o.max_session_files, c.max_session_files) as int,
        1,
    )
    &&& l.max_jsonl_line_bytes == at_most(
        at_most(line * 1024, u64::MAX as int),
        usize::MAX as int,
    )
    &&& l.scan_time_budget_ms == given(o.scan_time_budget_ms, c.scan_time_budget_ms)
    &&& l.full_scan == (o.full_scan || (!o.no_full_scan && c.full_scan))
    &&& l.scan_cache_max_entries == at_least(
        given(o.scan_cache_max_entries, c.scan_cache_max_entries) as int,
        1,
    )
}

/// The settings that hold under a configuration and a command line. Projects are never searched for
/// deeper than the catalog can.
pub open spec fn are_settings(s: Settings, o: Overrides, c: UserConfig, catalog_depth: u8) -> bool {
    let max_depth = between(c.history_deep_max_depth as int, 1, catalog_depth as int);
    &&& s.usage_days == between(given(o.usage_days, c.usage_days) as int, 1, 90)
    &&& s.refresh_usage_secs == at_least(
        given(o.refresh_usage_secs, c.refresh_usage_secs) as int,
        30,
    )
    &&& s.refresh_limits_secs == at_least(
        given(o.refresh_limits_secs, c.refresh_limits_secs) as int,
        10,
    )
    &&& are_limits(s.usage_scan_limits, o, c)
    &&& s.history_deep_max_depth == max_depth
    &&& s.history_deep_depth == between(c.history_deep_depth as int, 1, max_depth)
    &&& s.history_catalog_max_candidates == at_least(c.history_catalog_max_candidates as int, 1)
    &&& s.history_catalog_scan_budget_ms == at_least(c.history_catalog_scan_budget_ms as int, 25)
}

fn pick<T: Copy>(o: Option<T>, otherwise: T) -> (r: T)
    ensures
        r == given(o, otherwise),
{
    match o {
        Some(v) => v,
        None => otherwise,
    }
}

fn floor(n: u64, low: u64) -> (r: u64)
    ensures
        r == at_least(n as int, low as int),
{
    if n < low {
        low
    } else {
        n
    }
}

fn units(n: u64, unit: u64) -> (r: u64)
    requires
        unit == 1024 || unit == 1048576,
    ensures
        r == at_most(n * unit, u64::MAX as int),
{
    let product: u128 = if unit == 1024 {
        n as u128 * 1024
    } else {
        n as u128 * 1048576
    };
    if product > u64::MAX as u128 {
        u64::MAX
    } else {
        product as u64
    }
}

fn scan_limits(o: Overrides, c: &UserConfig) -> (r: ScanLimits)
    ensures
        are_limits(r, o, *c),
{
    let total: u64 = floor(pick(o.max_session_total_mib, c.max_session_total_mib), 1);
    let wanted: u64 = floor(pick(o.max_session_file_mib, c.max_session_file_mib), 1);
    let file: u64 = if wanted > total {
        total
    } else {
        wanted
    };
    let line: u64 = units(floor(pick(o.max_jsonl_line_kib, c.max_jsonl_line_kib), 1), 1024);
    let files: usize = pick(o.max_session_files, c.max_session_files);
    let entries: usize = pick(o.scan_cache_max_entries, c.scan_cache_max_entries);
    ScanLimits {
        max_session_file_bytes: units(file, 1048576),
        max_session_total_bytes: units(total, 1048576),
        max_session_files_scanned: if files < 1 {
            1
        } else {
            files
        },
        max_jsonl_line_bytes: if line > usize::MAX as u64 {
            usize::MAX
        } else {
            line as usize
        },
        scan_time_budget_ms: pick(o.scan_time_budget_ms, c.scan_time_budget_ms),
        full_scan: o.full_scan || (!o.no_full_scan && c.full_scan),
        scan_cache_max_entries: if entries < 1 {
            1
        } else {
            entries
        },
    }
}

/// The settings that hold under a configuration and a command line.
pub fn resolve_settings(o: Overrides, c: &UserConfig, catalog_depth: u8) -> (r: Settings)
    requires
        catalog_depth >= 1,
    ensures
        are_settings(r, o, *c, catalog_depth),
{
    let days: u32 = pick(o.usage_days, c.usage_days);
    let max_depth: u8 = if c.history_deep_max_depth < 1 {
        1
    } else if c.history_deep_max_depth > catalog_depth {
        catalog_depth
    } else {
        c.history_deep_max_depth
    };
    let depth: u8 = if c.history_deep_depth < 1 {
        1
    } else if c.history_deep_depth > max_depth {
        max_depth
    } else {
        c.history_deep_depth
    };
    Settings {
        usage_days: if days < 1 {
            1
        } else if days > 90 {
            90
        } else {
            days
        },
        refresh_usage_secs: floor(pick(o.refresh_usage_secs, c.refresh_usage_secs), 30),
        refresh_limits_secs: floor(pick(o.refresh_limits_secs, c.refresh_limits_secs), 10),
        usage_scan_limits: scan_limits(o, c),
        history_deep_depth: depth,
        history_deep_max_depth: max_depth,
        history_catalog_max_candidates: if c.history_catalog_max_candidates < 1 {
            1
        } else {
            c.history_catalog_max_candidates
        },
        history_catalog_scan_budget_ms: floor(c.history_catalog_scan_budget_ms, 25),
    }
}

/// Whatever is configured, at least one day, one file and one byte are read, a file weighs no more
/// than all files together, and projects are searched for at a depth that is allowed.
pub proof fn settings_are_usable(s: Settings, o: Overrides, c: UserConfig, catalog_depth: u8)
    requires
        are_settings(s, o, c, catalog_depth),
        catalog_depth >= 1,
    ensures
        1 <= s.usage_days <= 90,
        1 <= s.usage_scan_limits.max_session_file_bytes,
        s.usage_scan_limits.max_session_file_bytes <= s.usage_scan_limits.max_session_total_bytes,
        1 <= s.usage_scan_limits.max_session_files_scanned,
        1 <= s.usage_scan_limits.max_jsonl_line_bytes,
        1 <= s.usage_scan_limits.scan_cache_max_entries,
        1 <= s.history_deep_depth <= s.history_deep_max_depth <= catalog_depth,
{
}

/// A directory: a path as it is given, or a name under a path.
#[derive(Debug)]
pub struct Home {
    pub base: String,
    pub leaf: Option<&'static str>,
}

/// A directory as plain values.
pub struct HomeModel {
    pub base: Seq<char>,
    pub leaf: Option<Seq<char>>,
}

impl View for Home {
    type V = HomeModel;

    open spec fn view(&self) -> HomeModel {
        HomeModel { base: self.base@, leaf: opt_str(self.leaf) }
    }
}

/// The view of an optional directory.
pub open spec fn opt_home(h: Option<Home>) -> Option<HomeModel> {
    match h {
        Some(h) => Some(h@),
        None => None,
    }
}

/// The text of a variable of the environment, where it is not blank.
pub open spec fn filled(value: Option<Seq<char>>) -> Option<Seq<char>> {
    match value {
        Some(v) => if trimmed(v).len() > 0 {
            Some(v)
        } else {
            None
        },
        None => None,
    }
}

/// The variables that may name a directory, in the order in which they are asked: the one for the
/// directory itself, and the two for the directory of the user.
pub struct HomeVariables<'a> {
    pub own: Option<&'a str>,
    pub home: Option<&'a str>,
    pub profile: Option<&'a str>,
}

/// Where a directory is: as the command line says, else as its variable says, else under the
/// directory of the user. White space around that one is kept where `verbatim`.
pub open spec fn home_of(
    given_path: Option<Seq<char>>,
    v: HomeVariables,
    leaf: Seq<char>,
    verbatim: bool,
) -> Option<HomeModel> {
    let user = match filled(opt_str(v.home)) {
        Some(h) => Some(h),
        None => filled(opt_str(v.profile)),
    };
    match given_path {
        Some(path) => Some(HomeModel { base: path, leaf: None }),
        None => match filled(opt_str(v.own)) {
            Some(own) => Some(HomeModel { base: trimmed(own), leaf: None }),
            None => match user {
                Some(u) => Some(
                    HomeModel {
                        base: if verbatim {
                            u
                        } else {
                            trimmed(u)
                        },
                        leaf: Some(leaf),
                    },
                ),
                None => None,
            },
        },
    }
}

fn is_filled(value: Option<&str>) -> (r: bool)
    ensures
        r == (filled(opt_str(value)) is Some),
{
    match value {
        Some(v) => !is_blank(v),
        None => false,
    }
}

fn resolve_home(
    given_path: Option<&str>,
    v: &HomeVariables,
    leaf: &'static str,
    verbatim: bool,
) -> (r: Option<Home>)
    ensures
        opt_home(r) == home_of(opt_str(given_path), *v, leaf@, verbatim),
{
    if let Some(path) = given_path {
        return Some(Home { base: path.to_owned(), leaf: None });
    }
    if is_filled(v.own) {
        if let Some(own) = v.own {
            return Some(Home { base: trim(own), leaf: None });
        }
    }
    let user = if is_filled(v.home) {
        v.home
    } else if is_filled(v.profile) {
        v.profile
    } else {
        None
    };
    match user {
        Some(u) => Some(
            Home {
                base: if verbatim {
                    u.to_owned()
                } else {
                    trim(u)
                },
                leaf: Some(leaf),
            },
        ),
        None => None,
    }
}

/// Where the program keeps its own files.
pub fn resolve_comon_home(override_home: Option<&str>, v: &HomeVariables) -> (r: Option<Home>)
    ensures
        opt_home(r) == home_of(opt_str(override_home), *v, ".comon"@, false),
{
    resolve_home(override_home, v, ".comon", false)
}

/// Where Codex keeps its files.
pub fn resolve_codex_home(override_home: Option<&str>, v: &HomeVariables) -> (r: Option<Home>)
    ensures
        opt_home(r) == home_of(opt_str(override_home), *v, ".codex"@, true),
{
    resolve_home(override_home, v, ".codex", true)
}

/// Where the sessions are: in a directory that is given, or in the one named `sessions` of a home.
#[derive(Debug)]
pub enum SessionsDir {
    Given(String),
    In(Home),
}

/// Where the sessions are; none where no home is known.
pub fn resolve_sessions_dir(
    sessions_dir: Option<&str>,
    codex_home: Option<&str>,
    v: &HomeVariables,
) -> (r: Option<SessionsDir>)
    ensures
        match opt_str(sessions_dir) {
            Some(path) => r is Some && r->0 is Given && r->0->Given_0@ == path,
            None => match home_of(opt_str(codex_home), *v, ".codex"@, false) {
                Some(home) => r is Some && r->0 is In && r->0->In_0@ == home,
                None => r is None,
            },
        },
{
    if let Some(path) = sessions_dir {
        return Some(SessionsDir::Given(path.to_owned()));
    }
    match resolve_home(codex_home, v, ".codex", false) {
        Some(home) => Some(SessionsDir::In(home)),
        None => None,
    }
}

/// What stands at a path, links followed.
#[derive(Debug, Clone, Copy, PartialEq, Eq, Structural)]
pub enum Found {
    Nothing,
    Directory,
    Other,
}

/// Why a path that is given cannot stand for a directory.
pub open spec fn dir_refusal(found: Found, label: Seq<char>) -> Option<Seq<char>> {
    match found {
        Found::Nothing => Some(label + " does not exist"@),
        Found::Directory => None,
        Found::Other => Some(label + " must be a directory"@),
    }
}

/// Tests what stands at a path that is given for a directory.
pub fn validate_dir(found: Found, label: &str) -> (r: Result<(), String>)
    ensures
        match r {
            Ok(()) => dir_refusal(found, label@) is None,
            Err(message) => dir_refusal(found, label@) == Some(message@),
        },
{
    let mut message = label.to_owned();
    match found {
        Found::Nothing => {
            message.append(" does not exist");
            Err(message)
        },
        Found::Directory => Ok(()),
        Found::Other => {
            message.append(" must be a directory");
            Err(message)
        },
    }
}

/// A path that names a workspace: as it stands, or from a directory on.
#[derive(Debug)]
pub struct WorkspaceFilter {
    pub from: Option<String>,
    pub path: String,
}

/// The workspace that usage is limited to; all of them where none is given. A path takes its
/// canonical form; where it has none and is relative, it starts from the directory that the program
/// runs in, where that one is known.
pub fn resolve_workspace_filter(
    project: Option<&str>,
    canonical: Option<&str>,
    is_absolute: bool,
    current_dir: Option<&str>,
) -> (r: Option<WorkspaceFilter>)
    ensures
        match project {
            Some(path) => r is Some && r->0.path@ == (match canonical {
                Some(c) => c@,
                None => path@,
            }) && opt_view(r->0.from) == if canonical is Some || is_absolute {
                None
            } else {
                opt_str(current_dir)
            },
            None => r is None,
        },
{
    match project {
        Some(path) => match canonical {
            Some(c) => Some(WorkspaceFilter { from: None, path: c.to_owned() }),
            None => Some(
                WorkspaceFilter {
                    from: if is_absolute {
                        None
                    } else {
                        crate::text::own_opt(current_dir)
                    },
                    path: path.to_owned(),
                },
            ),
        },
        None => None,
    }
}

/// The directory in which the app server is started: the one that is given, else the workspace, else
/// the one that the program was started in.
pub fn server_dir<'a>(
    cwd: Option<&'a str>,
    workspace: Option<&'a str>,
    launch_dir: &'a str,
) -> (r: &'a str)
    ensures
        r@ == match opt_str(cwd) {
            Some(c) => c,
            None => given(opt_str(workspace), launch_dir@),
        },
{
    match cwd {
        Some(c) => c,
        None => match workspace {
            Some(w) => w,
            None => launch_dir,
        },
    }
}

/// What the command line says holds, whatever the configuration says.
pub proof fn flags_come_first(
    a: Settings,
    b: Settings,
    o: Overrides,
    c: UserConfig,
    d: UserConfig,
    catalog_depth: u8,
)
    requires
        are_settings(a, o, c, catalog_depth),
        are_settings(b, o, d, catalog_depth),
    ensures
        o.usage_days is Some ==> a.usage_days == b.usage_days,
        o.refresh_usage_secs is Some ==> a.refresh_usage_secs == b.refresh_usage_secs,
        o.refresh_limits_secs is Some ==> a.refresh_limits_secs == b.refresh_limits_secs,
        o.max_session_total_mib is Some ==> a.usage_scan_limits.max_session_total_bytes
            == b.usage_scan_limits.max_session_total_bytes,
        o.max_session_total_mib is Some && o.max_session_file_mib is Some
            ==> a.usage_scan_limits.max_session_file_bytes
            == b.usage_scan_limits.max_session_file_bytes,
        o.max_session_files is Some ==> a.usage_scan_limits.max_session_files_scanned
            == b.usage_scan_limits.max_session_files_scanned,
        o.max_jsonl_line_kib is Some ==> a.usage_scan_limits.max_jsonl_line_bytes
            == b.usage_scan_limits.max_jsonl_line_bytes,
        o.scan_time_budget_ms is Some ==> a.usage_scan_limits.scan_time_budget_ms
            == b.usage_scan_limits.scan_time_budget_ms,
        o.full_scan || o.no_full_scan ==> a.usage_scan_limits.full_scan
            == b.usage_scan_limits.full_scan,
        o.scan_cache_max_entries is Some ==> a.usage_scan_limits.scan_cache_max_entries
            == b.usage_scan_limits.scan_cache_max_entries,
{
}

/// What was asked for holds where it is in range: by the command line, else by the configuration.
pub open spec fn asked<T>(o: Option<T>, c: T, v: T) -> bool {
    o == Some(v) || (o is None && c == v)
}

/// The settings are what was asked for, as far as that is in range: sizes of files count in
/// mebibytes and those of lines in kibibytes, and the command line can ask for a full scan and for
/// none.
pub proof fn settings_are_what_was_asked(
    s: Settings,
    o: Overrides,
    c: UserConfig,
    catalog_depth: u8,
    days: u32,
    n: u64,
    m: u64,
    count: usize,
)
    requires
        are_settings(s, o, c, catalog_depth),
        catalog_depth >= 1,
    ensures
        asked(o.usage_days, c.usage_days, days) && 1 <= days <= 90 ==> s.usage_days == days,
        asked(o.usage_days, c.usage_days, days) && days > 90 ==> s.usage_days == 90,
        asked(o.refresh_usage_secs, c.refresh_usage_secs, n) && n >= 30 ==> s.refresh_usage_secs
            == n,
        asked(o.refresh_limits_secs, c.refresh_limits_secs, n) && n >= 10 ==> s.refresh_limits_secs
            == n,
        asked(o.max_session_total_mib, c.max_session_total_mib, n) && 1 <= n <= 1_000_000
            ==> s.usage_scan_limits.max_session_total_bytes == n * 1024 * 1024,
        asked(o.max_session_total_mib, c.max_session_total_mib, n) && asked(
            o.max_session_file_mib,
            c.max_session_file_mib,
            m,
        ) && 1 <= m <= n <= 1_000_000 ==> s.usage_scan_limits.max_session_file_bytes == m * 1024
            * 1024,
        asked(o.max_session_total_mib, c.max_session_total_mib, n) && asked(
            o.max_session_file_mib,
            c.max_session_file_mib,
            m,
        ) && 1 <= n < m && n <= 1_000_000 ==> s.usage_scan_limits.max_session_file_bytes == n * 1024
            * 1024,
        asked(o.max_jsonl_line_kib, c.max_jsonl_line_kib, n) && 1 <= n <= 1_000_000
            ==> s.usage_scan_limits.max_jsonl_line_bytes == n * 1024,
        asked(o.scan_time_budget_ms, c.scan_time_budget_ms, n)
            ==> s.usage_scan_limits.scan_time_budget_ms == n,
        asked(o.max_session_files, c.max_session_files, count) && count >= 1
            ==> s.usage_scan_limits.max_session_files_scanned == count,
        asked(o.scan_cache_max_entries, c.scan_cache_max_entries, count) && count >= 1
            ==> s.usage_scan_limits.scan_cache_max_entries == count,
        o.full_scan ==> s.usage_scan_limits.full_scan,
        !o.full_scan && o.no_full_scan ==> !s.usage_scan_limits.full_scan,
        !o.full_scan && !o.no_full_scan ==> s.usage_scan_limits.full_scan == c.full_scan,
        1 <= c.history_deep_depth <= c.history_deep_max_depth <= catalog_depth
            ==> s.history_deep_depth == c.history_deep_depth && s.history_deep_max_depth
            == c.history_deep_max_depth,
        c.history_catalog_max_candidates >= 1 ==> s.history_catalog_max_candidates
            == c.history_catalog_max_candidates,
        c.history_catalog_scan_budget_ms >= 25 ==> s.history_catalog_scan_budget_ms
            == c.history_catalog_scan_budget_ms,
{
}

/// A directory is the one that the command line names, whatever the variables say; else the one
/// that its own variable names; else its place under the directory of the user.
pub proof fn directories_are_found_in_order(
    path: Seq<char>,
    v: HomeVariables,
    leaf: Seq<char>,
    verbatim: bool,
)
    ensures
        home_of(Some(path), v, leaf, verbatim) == Some(HomeModel { base: path, leaf: None }),
        v.own is Some && trimmed(v.own->0@).len() > 0 ==> home_of(None, v, leaf, verbatim) == Some(
            HomeModel { base: trimmed(v.own->0@), leaf: None },
        ),
        v.own is None && v.home is Some && trimmed(v.home->0@).len() > 0 ==> home_of(
            None,
            v,
            leaf,
            true,
        ) == Some(HomeModel { base: v.home->0@, leaf: Some(leaf) }) && home_of(
            None,
            v,
            leaf,
            false,
        ) == Some(HomeModel { base: trimmed(v.home->0@), leaf: Some(leaf) }),
        v.own is None && v.home is None && v.profile is Some && trimmed(v.profile->0@).len() > 0
            ==> home_of(None, v, leaf, true) == Some(
            HomeModel { base: v.profile->0@, leaf: Some(leaf) },
        ),
        v.own is None && v.home is None && v.profile is None ==> home_of(None, v, leaf, verbatim)
            is None,
{
}

/// A path that is given for a directory is refused unless a directory stands there, and the message
/// names it.
pub proof fn only_directories_are_taken(found: Found, label: Seq<char>)
    ensures
        dir_refusal(found, label) is None <==> found == Found::Directory,
        dir_refusal(found, label) is Some ==> dir_refusal(found, label)->0.len() > label.len()
            && dir_refusal(found, label)->0.take(label.len() as int) == label,
{
    reveal_strlit(" does not exist");
    reveal_strlit(" must be a directory");
    if let Some(m) = dir_refusal(found, label) {
        assert(m.take(label.len() as int) =~= label);
    }
}

/// Where the user has set nothing, thirty days are shown, nothing is scanned in full, and the
/// directory of the user is the one in which projects are looked for.
pub proof fn standard_settings(c: UserConfig, home: Seq<char>, depth: u8, max_depth: u8)
    ensures
        is_standard(c, Some(home), depth, max_depth) ==> c.usage_days == 30 && !c.full_scan && views(
            c.history_project_roots@,
        ) == seq![home] && c.history_deep_depth == depth && c.history_deep_max_depth == max_depth,
        is_standard(c, None, depth, max_depth) ==> c.history_project_roots@.len() == 0,
        is_standard(c, Some(home), depth, max_depth) ==> c.max_session_file_mib
            <= c.max_session_total_mib,
{
    if is_standard(c, None, depth, max_depth) {
        assert(views(c.history_project_roots@).len() == c.history_project_roots@.len());
    }
}

/// A configuration is taken exactly where it is not of a later version, with all that it says; it
/// was migrated where it was of an earlier one, and taking it again migrates nothing.
pub proof fn configurations_of_later_versions_are_refused(
    c: UserConfig,
    taken: Result<AcceptedConfig, u32>,
    again: Result<AcceptedConfig, u32>,
)
    requires
        call_ensures(accept_user_config, (c,), taken),
        taken is Ok ==> call_ensures(accept_user_config, (taken->Ok_0.config,), again),
    ensures
        taken is Ok <==> c.schema_version <= USER_CONFIG_SCHEMA_VERSION,
        taken is Err ==> taken->Err_0 == c.schema_version,
        taken is Ok ==> taken->Ok_0.config == (UserConfig {
            schema_version: USER_CONFIG_SCHEMA_VERSION,
            ..c
        }) && (taken->Ok_0.migrated <==> c.schema_version < USER_CONFIG_SCHEMA_VERSION),
        taken is Ok ==> again is Ok && again->Ok_0.config == taken->Ok_0.config
            && !again->Ok_0.migrated,
{
}

/// The server is started where it is said, else in the workspace, else where the program was.
pub proof fn servers_start_in_the_nearest_directory(
    cwd: &str,
    workspace: &str,
    launch: &str,
    any: Option<&str>,
    said: &str,
    own: &str,
    last: &str,
)
    requires
        call_ensures(server_dir, (Some(cwd), any, launch), said),
        call_ensures(server_dir, (None, Some(workspace), launch), own),
        call_ensures(server_dir, (None, None, launch), last),
    ensures
        said@ == cwd@,
        own@ == workspace@,
        last@ == launch@,
{
}

} // verus!
