use comon::config::{
    accept_user_config, resolve_codex_home, resolve_comon_home, resolve_sessions_dir,
    resolve_settings, resolve_workspace_filter, server_dir, validate_dir, Found, HomeVariables,
    Overrides, SessionsDir, UserConfig, USER_CONFIG_SCHEMA_VERSION,
};
use comon::storage::{
    clear_scan_cache_file, enforce_private_file_if_exists, ensure_directory_not_symlink,
    ensure_regular_file_or_missing, PathKind, PRIVATE_DIR_MODE, PRIVATE_FILE_MODE,
};

const DEPTH: u8 = 3;
const MAX_DEPTH: u8 = 8;

fn standard() -> UserConfig {
    UserConfig::standard(Some("/home/me"), DEPTH, MAX_DEPTH)
}

fn no_overrides() -> Overrides {
    Overrides {
        usage_days: None,
        refresh_usage_secs: None,
        refresh_limits_secs: None,
        max_session_file_mib: None,
        max_session_total_mib: None,
        max_session_files: None,
        max_jsonl_line_kib: None,
        scan_time_budget_ms: None,
        full_scan: false,
        no_full_scan: false,
        scan_cache_max_entries: None,
    }
}

fn variables<'a>(
    own: Option<&'a str>,
    home: Option<&'a str>,
    profile: Option<&'a str>,
) -> HomeVariables<'a> {
    HomeVariables { own, home, profile }
}

#[test]
fn resolve_workspace_path_uses_all_workspaces_outside_repo() {
    assert!(resolve_workspace_filter(None, None, false, Some("/tmp")).is_none());
}

#[test]
fn resolve_workspace_filter_uses_all_workspaces_without_project_override() {
    assert!(resolve_workspace_filter(None, Some("/tmp/workspace"), true, None).is_none());
}

#[test]
fn resolve_workspace_filter_uses_project_path_as_filter() {
    let filtered =
        resolve_workspace_filter(Some("nested"), Some("/tmp/workspace/nested"), false, Some("/tmp"))
            .expect("filter");
    assert_eq!(filtered.path, "/tmp/workspace/nested");
    assert_eq!(filtered.from, None);
}

#[test]
fn resolve_workspace_filter_accepts_non_git_directory() {
    let absolute =
        resolve_workspace_filter(Some("/tmp/plain-dir"), None, true, Some("/cwd")).expect("filter");
    assert_eq!((absolute.from, absolute.path.as_str()), (None, "/tmp/plain-dir"));
    let relative =
        resolve_workspace_filter(Some("plain-dir"), None, false, Some("/cwd")).expect("filter");
    assert_eq!(relative.from.as_deref(), Some("/cwd"));
    assert_eq!(relative.path, "plain-dir");
}

#[test]
fn user_config_schema_one_migrates_without_losing_scan_settings() {
    let mut legacy = standard();
    legacy.schema_version = 1;
    legacy.usage_days = 45;
    legacy.refresh_usage_secs = 600;
    let accepted = accept_user_config(legacy).expect("migrate config");
    assert!(accepted.migrated);
    let migrated = accepted.config;
    assert_eq!(migrated.schema_version, USER_CONFIG_SCHEMA_VERSION);
    assert_eq!(migrated.usage_days, 45);
    assert_eq!(migrated.refresh_usage_secs, 600);
    assert_eq!(migrated.history_deep_depth, DEPTH);
    assert!(!migrated.history_project_roots.is_empty());
}

#[test]
fn a_newer_config_is_refused() {
    let mut newer = standard();
    newer.schema_version = 3;
    assert_eq!(accept_user_config(newer).err(), Some(3));
    assert!(!accept_user_config(standard()).expect("current").migrated);
}

#[test]
fn settings_follow_the_command_line_and_stay_in_range() {
    let config = standard();
    let usual = resolve_settings(no_overrides(), &config, MAX_DEPTH);
    assert_eq!(usual.usage_days, 30);
    assert_eq!(usual.refresh_usage_secs, 300);
    assert_eq!(usual.refresh_limits_secs, 60);
    assert_eq!(usual.usage_scan_limits.max_session_total_bytes, 256 * 1024 * 1024);
    assert_eq!(usual.usage_scan_limits.max_jsonl_line_bytes, 512 * 1024);
    assert_eq!(usual.usage_scan_limits.scan_time_budget_ms, 1500);
    assert_eq!(usual.history_deep_depth, 3);
    assert_eq!(usual.history_catalog_scan_budget_ms, 100);

    let extreme = Overrides {
        usage_days: Some(900),
        refresh_usage_secs: Some(1),
        refresh_limits_secs: Some(1),
        max_session_file_mib: Some(900),
        max_session_total_mib: Some(2),
        max_session_files: Some(0),
        max_jsonl_line_kib: Some(0),
        full_scan: true,
        scan_cache_max_entries: Some(0),
        ..no_overrides()
    };
    let s = resolve_settings(extreme, &config, 2);
    assert_eq!(s.usage_days, 90);
    assert_eq!(s.refresh_usage_secs, 30);
    assert_eq!(s.refresh_limits_secs, 10);
    assert_eq!(s.usage_scan_limits.max_session_file_bytes, 2 * 1024 * 1024);
    assert_eq!(s.usage_scan_limits.max_session_files_scanned, 1);
    assert_eq!(s.usage_scan_limits.max_jsonl_line_bytes, 1024);
    assert_eq!(s.usage_scan_limits.scan_cache_max_entries, 1);
    assert!(s.usage_scan_limits.full_scan);
    assert_eq!((s.history_deep_depth, s.history_deep_max_depth), (2, 2));

    let mut full = standard();
    full.full_scan = true;
    full.max_session_total_mib = u64::MAX;
    let s = resolve_settings(no_overrides(), &full, MAX_DEPTH);
    assert!(s.usage_scan_limits.full_scan);
    assert_eq!(s.usage_scan_limits.max_session_total_bytes, u64::MAX);
    let off = Overrides { no_full_scan: true, ..no_overrides() };
    assert!(!resolve_settings(off, &full, MAX_DEPTH).usage_scan_limits.full_scan);
}

#[test]
fn homes_are_resolved_in_order() {
    let v = variables(Some(" /own "), Some(" /home/me "), None);
    let given = resolve_comon_home(Some(" as given "), &v).expect("home");
    assert_eq!((given.base.as_str(), given.leaf), (" as given ", None));
    let own = resolve_comon_home(None, &v).expect("home");
    assert_eq!((own.base.as_str(), own.leaf), ("/own", None));
    let v = variables(Some("  "), Some(" /home/me "), Some("C:\\me"));
    let home = resolve_comon_home(None, &v).expect("home");
    assert_eq!((home.base.as_str(), home.leaf), ("/home/me", Some(".comon")));
    let codex = resolve_codex_home(None, &v).expect("home");
    assert_eq!((codex.base.as_str(), codex.leaf), (" /home/me ", Some(".codex")));
    let v = variables(None, None, Some("C:\\me"));
    assert_eq!(resolve_comon_home(None, &v).expect("home").base, "C:\\me");
    assert!(resolve_comon_home(None, &variables(None, None, None)).is_none());
}

#[test]
fn sessions_lie_in_a_given_directory_or_in_the_home() {
    let v = variables(None, Some("/home/me"), None);
    assert!(matches!(
        resolve_sessions_dir(Some("/s"), None, &v),
        Some(SessionsDir::Given(path)) if path == "/s"
    ));
    assert!(matches!(
        resolve_sessions_dir(None, None, &v),
        Some(SessionsDir::In(home)) if home.base == "/home/me" && home.leaf == Some(".codex")
    ));
    assert!(resolve_sessions_dir(None, None, &variables(None, None, None)).is_none());
}

#[test]
fn directories_that_are_given_have_to_exist() {
    assert_eq!(validate_dir(Found::Directory, "--cwd"), Ok(()));
    assert_eq!(validate_dir(Found::Nothing, "--cwd"), Err("--cwd does not exist".to_string()));
    assert_eq!(
        validate_dir(Found::Other, "--project"),
        Err("--project must be a directory".to_string())
    );
    assert_eq!(server_dir(Some("/c"), Some("/w"), "/l"), "/c");
    assert_eq!(server_dir(None, Some("/w"), "/l"), "/w");
    assert_eq!(server_dir(None, None, "/l"), "/l");
}

#[test]
fn links_are_never_used() {
    assert_eq!(
        ensure_directory_not_symlink(PathKind::Link, "directory", "/d"),
        Err("Refusing to use directory /d: symlink is not allowed".to_string())
    );
    assert_eq!(
        ensure_directory_not_symlink(PathKind::File, "directory", "/d"),
        Err("Refusing to use directory /d: expected directory".to_string())
    );
    assert_eq!(ensure_directory_not_symlink(PathKind::Missing, "directory", "/d"), Ok(()));
    assert_eq!(
        ensure_regular_file_or_missing(PathKind::Directory, "file", "/f"),
        Err("Refusing to use file /f: expected regular file".to_string())
    );
    assert_eq!(ensure_regular_file_or_missing(PathKind::File, "file", "/f"), Ok(()));
    assert_eq!(enforce_private_file_if_exists(PathKind::Missing, "/f"), Ok(false));
    assert_eq!(enforce_private_file_if_exists(PathKind::File, "/f"), Ok(true));
    assert_eq!(
        enforce_private_file_if_exists(PathKind::Link, "/f"),
        Err("Refusing to use file /f: symlink is not allowed".to_string())
    );
    assert_eq!((PRIVATE_DIR_MODE, PRIVATE_FILE_MODE), (0o700, 0o600));
}

#[test]
fn only_regular_cache_files_are_removed() {
    assert_eq!(clear_scan_cache_file(PathKind::File, "/c/comon.db"), Ok(true));
    assert_eq!(clear_scan_cache_file(PathKind::Missing, "/c/comon.db-wal"), Ok(false));
    assert_eq!(
        clear_scan_cache_file(PathKind::Link, "/c/comon.db"),
        Err("Refusing to rebuild cache: symlink is not allowed (/c/comon.db)".to_string())
    );
    assert_eq!(
        clear_scan_cache_file(PathKind::Directory, "/c/comon.db"),
        Err("Refusing to rebuild cache: expected regular file (/c/comon.db)".to_string())
    );
}

#[test]
fn the_command_line_wins_over_any_config() {
    let flags = Overrides {
        usage_days: Some(14),
        scan_time_budget_ms: Some(0),
        no_full_scan: true,
        ..no_overrides()
    };
    let a = resolve_settings(flags, &standard(), MAX_DEPTH);
    let other = UserConfig { usage_days: 60, scan_time_budget_ms: 9, full_scan: true, ..standard() };
    let b = resolve_settings(flags, &other, MAX_DEPTH);
    for s in [a, b] {
        assert_eq!(s.usage_days, 14);
        assert_eq!(s.usage_scan_limits.scan_time_budget_ms, 0);
        assert!(!s.usage_scan_limits.full_scan);
    }
}
