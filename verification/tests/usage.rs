use chrono::{Datelike, TimeZone};
use comon::calendar::{
    make_activity_day_keys, make_day_keys, timeline, Weekday, ACTIVITY_TIMELINE_DAYS, FIRST_DAY,
    LAST_DAY,
};
use comon::clock::{
    epoch_secs_for_local_day_start, moment_at, normalize_epoch_millis, opt_moment_at,
    parse_timestamp_value_ms, secs_after_epoch, stamp_moment, timeline_today, EARLIEST_MS,
    LATEST_MS,
};
use comon::json::{parse_json, Json};
use comon::locale::{DisplayFormatter, DisplayStyle, SystemLocale};
use comon::read::view::project_usage_for_path;
use comon::strmap::StrMap;
use comon::usage::cache::{
    cache_migration, cached_session_needs_v3_reparse, check_cache_version, dir_entry_use,
    entry_from_row, is_valid_cached_session_file, row_from_entry, scan_day_keys, sorted_paths,
    trim_scan_cache_to_limit, CacheAge, CacheMigration, CacheRow, CacheSchemaError, DirEntryUse,
};
use comon::usage::format::{
    format_compact_kmb, format_count, format_duration, format_duration_compact,
    format_tokens_compact,
};
use comon::usage::refresh::{begin_pass, PassStep, ScanCacheStore};
use comon::usage::region::{
    first_weekday_for_region, first_weekday_from_settings, locale_region, path_matches_workspace,
    workspace_admits,
};
use comon::usage::scan::{
    plan_scan, scan_cutoff, sort_candidates, CachedFileScanEntry, ScanLimits,
    SessionFileCandidate, SCAN_CACHE_DB_SCHEMA_VERSION,
};
use comon::usage::session::{add_model_tokens_limited, DailyTotals, FileScan, ModelsByDay, ParserState};
use comon::usage::snapshot::{normalize_project_key, LocalUsageSnapshot, UsageMetric};
use comon::usage::summary::{daily_has_activity, share_tenths};

const HOUR_MS: i64 = 3_600_000;
const DAY_MS: i64 = 24 * HOUR_MS;

/// A session file held in memory.
struct LogFile {
    path: &'static str,
    modified: u64,
    lines: Vec<String>,
}

impl LogFile {
    fn len(&self) -> u64 {
        self.lines.iter().map(|l| l.len() as u64).sum()
    }
}

fn now_ms() -> i64 {
    chrono::Utc::now().timestamp_millis()
}

fn stamp(ms: i64) -> String {
    chrono::Utc.timestamp_millis_opt(ms).single().expect("valid timestamp").to_rfc3339()
}

fn today() -> i32 {
    chrono::Local::now().date_naive().num_days_from_ce()
}

fn token_line(ms: i64, input: i64, output: i64) -> String {
    format!(
        "{{\"type\":\"event_msg\",\"timestamp\":\"{}\",\"payload\":{{\"type\":\"token_count\",\"info\":{{\"last_token_usage\":{{\"input_tokens\":{input},\"cached_input_tokens\":0,\"output_tokens\":{output}}},\"model\":\"gpt-test\"}}}}}}\n",
        stamp(ms)
    )
}

fn total_line(ms: i64, input: i64, cached: i64, output: i64) -> String {
    format!(
        "{{\"type\":\"event_msg\",\"timestamp\":\"{}\",\"payload\":{{\"type\":\"token_count\",\"info\":{{\"total_token_usage\":{{\"input_tokens\":{input},\"cached_input_tokens\":{cached},\"output_tokens\":{output}}},\"model\":\"gpt-test\"}}}}}}\n",
        stamp(ms)
    )
}

fn message_line(ms: i64) -> String {
    format!(
        "{{\"type\":\"event_msg\",\"timestamp\":\"{}\",\"payload\":{{\"type\":\"agent_message\",\"message\":\"ok\"}}}}\n",
        stamp(ms)
    )
}

fn meta_line(ms: i64, cwd: &str) -> String {
    let t = stamp(ms);
    format!(
        "{{\"type\":\"session_meta\",\"timestamp\":\"{t}\",\"payload\":{{\"id\":\"{cwd}\",\"timestamp\":\"{t}\",\"cwd\":\"{cwd}\"}}}}\n"
    )
}

fn forked_lines(ms: i64) -> Vec<String> {
    let t = stamp(ms);
    vec![
        format!(
            "{{\"type\":\"session_meta\",\"timestamp\":\"{t}\",\"payload\":{{\"id\":\"fork-child\",\"forked_from_id\":\"parent\",\"timestamp\":\"{t}\",\"cwd\":\"/tmp/forked-project\"}}}}\n"
        ),
        format!(
            "{{\"type\":\"session_meta\",\"timestamp\":\"{t}\",\"payload\":{{\"id\":\"parent\",\"timestamp\":\"{t}\",\"cwd\":\"/tmp/forked-project\"}}}}\n"
        ),
        total_line(ms + 100, 1_000, 800, 100),
        message_line(ms + 200),
        total_line(ms + 400, 1_500, 1_300, 130),
        total_line(ms + 1_700, 1_700, 1_400, 150),
        message_line(ms + 1_800),
    ]
}

fn default_test_limits(full_scan: bool) -> ScanLimits {
    ScanLimits {
        max_session_file_bytes: 4 * 1024 * 1024,
        max_session_total_bytes: 16 * 1024 * 1024,
        max_session_files_scanned: 10,
        max_jsonl_line_bytes: 512 * 1024,
        scan_time_budget_ms: 0,
        full_scan,
        scan_cache_max_entries: 1000,
    }
}

/// One refresh over files in memory; the cache is what the last one left.
fn refresh(
    files: &[LogFile],
    limits: ScanLimits,
    workspace: Option<&str>,
    cache: &mut Option<ScanCacheStore>,
) -> LocalUsageSnapshot {
    let chart = make_day_keys(today(), 30);
    let activity = make_activity_day_keys(today(), Weekday::Mon);
    let scan_days = scan_day_keys(&activity, &chart);
    let candidates = sort_candidates(
        files
            .iter()
            .map(|f| SessionFileCandidate {
                path: f.path.to_string(),
                len: f.len(),
                modified_epoch_secs: Some(f.modified),
            })
            .collect(),
    );
    let store = cache.take();
    let had_cache = store.is_some();
    let mut pass = begin_pass(
        candidates,
        None,
        limits,
        workspace.map(str::to_string),
        chart,
        &scan_days,
        store,
    );
    loop {
        match pass.advance(false) {
            PassStep::Done => break,
            PassStep::Counted => {}
            PassStep::Read(index) => {
                let candidate = &pass.candidates[index];
                let file = files.iter().find(|f| f.path == candidate.path).expect("file");
                let known = pass.store.get(candidate.path.as_str());
                let (mut scan, start) =
                    FileScan::open(known, candidate.len, candidate.modified_epoch_secs, limits);
                let mut offset: u64 = 0;
                for line in &file.lines {
                    if offset >= start {
                        scan.scan_text(line, limits.max_jsonl_line_bytes);
                    }
                    offset += line.len() as u64;
                }
                let parsed = scan.finish(offset, candidate.len, true);
                assert!(pass.note_read(Some(parsed), 1));
            }
        }
    }
    let snapshot = pass.snapshot(Weekday::Mon, &activity);
    if had_cache {
        *cache = Some(ScanCacheStore { entries: pass.store, removed: pass.removed });
    }
    snapshot
}

fn empty_entry(updated_at: i64) -> CachedFileScanEntry {
    let scan = FileScan::start();
    CachedFileScanEntry {
        size: 4,
        modified_epoch_secs: Some(1),
        file_offset: 4,
        fully_parsed: true,
        session_cwd: None,
        parser_state: scan.parser_state,
        daily: StrMap::new(),
        model_totals_by_day: StrMap::new(),
        updated_at,
    }
}

#[test]
fn locale_region_parses_common_locale_values() {
    assert_eq!(locale_region("ja_JP.UTF-8").as_deref(), Some("JP"));
    assert_eq!(locale_region("en-US").as_deref(), Some("US"));
    assert_eq!(locale_region("C"), None);
}

#[test]
fn first_weekday_uses_region_defaults() {
    assert_eq!(first_weekday_for_region("JP"), Weekday::Sun);
    assert_eq!(first_weekday_for_region("US"), Weekday::Sun);
    assert_eq!(first_weekday_for_region("GB"), Weekday::Mon);
}

#[test]
fn activity_day_keys_start_on_requested_weekday() {
    let sunday_keys = make_activity_day_keys(today(), Weekday::Sun);
    let monday_keys = make_activity_day_keys(today(), Weekday::Mon);
    let sunday = chrono::NaiveDate::parse_from_str(&sunday_keys[0], "%Y-%m-%d")
        .expect("parse sunday-first activity key");
    let monday = chrono::NaiveDate::parse_from_str(&monday_keys[0], "%Y-%m-%d")
        .expect("parse monday-first activity key");
    assert_eq!(sunday.weekday(), chrono::Weekday::Sun);
    assert_eq!(monday.weekday(), chrono::Weekday::Mon);
}

#[test]
fn compute_snapshot_ignores_forked_session_replay_without_cache() {
    let files = [LogFile { path: "forked.jsonl", modified: 9, lines: forked_lines(now_ms() - HOUR_MS) }];
    let snapshot = refresh(&files, default_test_limits(false), None, &mut None);
    assert_eq!(
        snapshot.totals.last30_days_tokens, 220,
        "only token deltas after the fork replay should count"
    );
    assert_eq!(snapshot.days.iter().map(|day| day.agent_runs).sum::<i64>(), 1);
}

#[test]
fn compute_snapshot_ignores_forked_session_replay_with_cache() {
    let files = [LogFile { path: "forked.jsonl", modified: 9, lines: forked_lines(now_ms() - HOUR_MS) }];
    let mut cache = Some(ScanCacheStore::new());
    let first = refresh(&files, default_test_limits(false), None, &mut cache);
    assert_eq!(first.totals.last30_days_tokens, 220);

    let cached = refresh(&files, default_test_limits(false), None, &mut cache);
    assert_eq!(cached.totals.last30_days_tokens, 220);
    assert_eq!(cached.days.iter().map(|day| day.agent_runs).sum::<i64>(), 1);
}

#[test]
fn compute_snapshot_builds_project_activity_sorted_by_last_activity() {
    let older_ms = now_ms() - 5 * DAY_MS;
    let newer_ms = now_ms() - DAY_MS;
    let files = [
        LogFile {
            path: "photonia.jsonl",
            modified: 9,
            lines: vec![
                meta_line(older_ms, "/tmp/Photonia"),
                total_line(older_ms + 100, 100, 0, 20),
            ],
        },
        LogFile {
            path: "sfm.jsonl",
            modified: 9,
            lines: vec![meta_line(newer_ms, "/tmp/SFM"), total_line(newer_ms + 100, 200, 150, 50)],
        },
    ];
    let snapshot = refresh(&files, default_test_limits(false), None, &mut None);

    assert_eq!(snapshot.project_activity.len(), 2);
    assert_eq!(snapshot.project_activity[0].days.len(), ACTIVITY_TIMELINE_DAYS);
    assert_eq!(snapshot.project_activity[0].display_path, "/tmp/SFM");
    assert_eq!(snapshot.project_activity[0].total_tokens, 250);
    assert_eq!(snapshot.project_activity[0].cached_input_tokens, 150);
    assert_eq!(snapshot.project_activity[1].display_path, "/tmp/Photonia");
    assert_eq!(snapshot.project_activity[1].total_tokens, 120);
    assert_eq!(snapshot.project_activity[1].cached_input_tokens, 0);
}

#[test]
fn compute_snapshot_keeps_cached_totals_for_unplanned_unchanged_files() {
    let files = [
        LogFile {
            path: "older.jsonl",
            modified: 9,
            lines: vec![token_line(now_ms() - 20 * DAY_MS, 100, 25)],
        },
        LogFile {
            path: "newer.jsonl",
            modified: 9,
            lines: vec![token_line(now_ms() - 5 * DAY_MS, 80, 20)],
        },
    ];
    let mut cache = Some(ScanCacheStore::new());
    let warmed = refresh(&files, default_test_limits(true), None, &mut cache);
    assert_eq!(warmed.totals.last30_days_tokens, 225);

    let restrictive = ScanLimits { max_session_files_scanned: 1, ..default_test_limits(false) };
    let restricted = refresh(&files, restrictive, None, &mut cache);
    assert_eq!(
        restricted.totals.last30_days_tokens, warmed.totals.last30_days_tokens,
        "unchanged files outside current scan plan should still contribute via cache"
    );
}

#[test]
fn compute_snapshot_resumes_from_cached_offset_after_append() {
    let mut files = [LogFile {
        path: "session.jsonl",
        modified: 9,
        lines: vec![token_line(now_ms() - 2 * HOUR_MS, 100, 20)],
    }];
    let limits = ScanLimits {
        max_session_total_bytes: 4 * 1024 * 1024,
        ..default_test_limits(false)
    };
    let mut cache = Some(ScanCacheStore::new());
    let first = refresh(&files, limits, None, &mut cache);
    assert_eq!(first.totals.last30_days_tokens, 120);

    files[0].lines.push(token_line(now_ms() - HOUR_MS, 40, 10));
    let second = refresh(&files, limits, None, &mut cache);
    assert_eq!(second.totals.last30_days_tokens, 170);

    let third = refresh(&files, limits, None, &mut cache);
    assert_eq!(
        third.totals.last30_days_tokens, 170,
        "unchanged file should not double-count appended usage after resume"
    );

    let store = cache.expect("cache");
    let entry = store.entries.get("session.jsonl").expect("cache row for appended session");
    assert!(entry.file_offset > 0);
    assert!(entry.fully_parsed);
}

#[test]
fn compute_snapshot_full_scan_ignores_file_and_byte_scan_caps() {
    let files = [
        LogFile {
            path: "a.jsonl",
            modified: 7,
            lines: vec![token_line(now_ms() - 3 * DAY_MS, 90, 10)],
        },
        LogFile {
            path: "b.jsonl",
            modified: 8,
            lines: vec![token_line(now_ms() - 2 * DAY_MS, 70, 5)],
        },
        LogFile {
            path: "c.jsonl",
            modified: 9,
            lines: vec![token_line(now_ms() - DAY_MS, 40, 15)],
        },
    ];
    let expected_total = 90 + 10 + 70 + 5 + 40 + 15;
    let capped_limits = ScanLimits {
        max_session_file_bytes: 1,
        max_session_total_bytes: 1,
        max_session_files_scanned: 1,
        max_jsonl_line_bytes: 512 * 1024,
        scan_time_budget_ms: 0,
        full_scan: false,
        scan_cache_max_entries: 1000,
    };
    let capped = refresh(&files, capped_limits, None, &mut None);
    assert!(
        capped.totals.last30_days_tokens < expected_total,
        "planner caps should leave some files unscanned in non-full mode"
    );

    let uncapped_limits = ScanLimits { full_scan: true, ..capped_limits };
    let full = refresh(&files, uncapped_limits, None, &mut None);
    assert_eq!(
        full.totals.last30_days_tokens, expected_total,
        "full scan should include all files even when scan caps are tiny"
    );
}

#[test]
fn compute_snapshot_full_scan_reparses_when_cache_row_is_stale() {
    let files = [LogFile {
        path: "session.jsonl",
        modified: 9,
        lines: vec![token_line(now_ms() - 6 * HOUR_MS, 120, 30)],
    }];
    let expected_total = 150_i64;
    let baseline_limits = default_test_limits(false);
    let mut cache = Some(ScanCacheStore::new());
    let baseline = refresh(&files, baseline_limits, None, &mut cache);
    assert_eq!(baseline.totals.last30_days_tokens, expected_total);

    let store = cache.as_mut().expect("cache");
    let mut entry = store.entries.take("session.jsonl").expect("row");
    entry.daily = StrMap::new();
    entry.model_totals_by_day = StrMap::new();
    store.entries.set("session.jsonl", entry);

    let stale = refresh(&files, baseline_limits, None, &mut cache);
    assert_eq!(
        stale.totals.last30_days_tokens, 0,
        "non-full scan should still trust unchanged cache rows"
    );

    let full_limits = ScanLimits { full_scan: true, ..baseline_limits };
    let repaired = refresh(&files, full_limits, None, &mut cache);
    assert_eq!(
        repaired.totals.last30_days_tokens, expected_total,
        "full scan with unlimited time should reparse files and repair stale cache rows"
    );
}

#[test]
fn prune_scan_cache_db_removes_stale_entries() {
    // under the root, link, regular file, session log, length
    let keep = is_valid_cached_session_file(true, false, true, true, 3, 1024);
    let wrong_ext = is_valid_cached_session_file(true, false, true, false, 7, 1024);
    let outside = is_valid_cached_session_file(false, false, true, true, 3, 1024);
    let missing = is_valid_cached_session_file(true, false, false, true, 0, 1024);
    assert!(keep);
    assert!(!wrong_ext);
    assert!(!outside);
    assert!(!missing);

    let mut cache = Some(ScanCacheStore::new());
    let store = cache.as_mut().expect("cache");
    store.note_row("keep.jsonl", Some(empty_entry(5)));
    store.note_row("gone.jsonl", Some(empty_entry(4)));
    store.note_row("broken.jsonl", None);
    let files = [LogFile { path: "keep.jsonl", modified: 1, lines: vec!["{}\n".to_string()] }];
    refresh(&files, default_test_limits(false), None, &mut cache);
    let store = cache.expect("cache");
    assert_eq!(store.entries.len(), 1);
    assert!(store.entries.get("keep.jsonl").is_some());
    let mut removed = store.removed;
    removed.sort();
    assert_eq!(removed, vec!["broken.jsonl", "gone.jsonl"]);
}

#[test]
fn trim_scan_cache_db_to_limit_drops_oldest_entries() {
    let entries = [("a", 30_i64), ("b", 10_i64), ("c", 20_i64)]
        .iter()
        .map(|(path, updated_at)| CacheAge { path: path.to_string(), updated_at: *updated_at })
        .collect();
    let (gone, kept) = trim_scan_cache_to_limit(entries, 2);
    assert_eq!(gone.len(), 1, "expected trim to remove one row");
    assert_eq!(gone[0].path, "b");
    let paths = sorted_paths(kept.into_iter().map(|e| e.path).collect());
    assert_eq!(paths, vec!["a".to_string(), "c".to_string()]);
}

#[test]
fn open_or_init_scan_cache_db_v3_migration_preserves_nonforked_rows() {
    assert_eq!(
        cache_migration(Some(2), true),
        Ok(CacheMigration { add_columns: false, drop_forked_rows: true })
    );
    let keep = token_line(now_ms(), 10, 5);
    let forked = forked_lines(now_ms());
    assert!(!cached_session_needs_v3_reparse(Some(&keep)));
    assert!(cached_session_needs_v3_reparse(Some(&forked[0])));
    assert!(cached_session_needs_v3_reparse(None));
}

#[test]
fn open_or_init_scan_cache_db_migrates_v1_schema_and_clears_stale_rows() {
    assert_eq!(
        cache_migration(Some(1), false),
        Ok(CacheMigration { add_columns: true, drop_forked_rows: true })
    );
    assert_eq!(check_cache_version(Some(SCAN_CACHE_DB_SCHEMA_VERSION)), Ok(()));
    assert_eq!(check_cache_version(Some(9)), Err(CacheSchemaError::Unsupported(9)));
    assert_eq!(check_cache_version(None), Err(CacheSchemaError::Missing));
    assert_eq!(cache_migration(None, true), Err(CacheSchemaError::Missing));
    assert!(cached_session_needs_v3_reparse(Some("not json")));
}

#[test]
fn a_workspace_counts_only_what_lies_in_it() {
    let at = now_ms() - DAY_MS;
    let files = [
        LogFile {
            path: "in.jsonl",
            modified: 9,
            lines: vec![meta_line(at, "/work/app/sub"), token_line(at + 10, 5, 1)],
        },
        LogFile {
            path: "out.jsonl",
            modified: 9,
            lines: vec![meta_line(at, "/work/application"), token_line(at + 10, 50, 10)],
        },
        LogFile { path: "none.jsonl", modified: 9, lines: vec![token_line(at + 10, 500, 100)] },
    ];
    let snapshot = refresh(&files, default_test_limits(false), Some("/work/app"), &mut None);
    assert_eq!(snapshot.totals.last30_days_tokens, 6);
    assert_eq!(snapshot.matched_session_files, 1);
    let all = refresh(&files, default_test_limits(false), None, &mut None);
    assert_eq!(all.totals.last30_days_tokens, 666);
    assert_eq!(all.matched_session_files, 0);
}

#[test]
fn a_file_that_cannot_be_read_keeps_its_cached_totals() {
    let at = now_ms() - DAY_MS;
    let mut files = [LogFile {
        path: "session.jsonl",
        modified: 9,
        lines: vec![token_line(at, 100, 20)],
    }];
    let mut cache = Some(ScanCacheStore::new());
    refresh(&files, default_test_limits(false), None, &mut cache);
    files[0].lines.push(token_line(at + 10, 1, 1));
    let chart = make_day_keys(today(), 30);
    let scan_days = make_day_keys(today(), 30);
    let candidates = vec![SessionFileCandidate {
        path: "session.jsonl".to_string(),
        len: files[0].len(),
        modified_epoch_secs: Some(10),
    }];
    let mut pass =
        begin_pass(candidates, None, default_test_limits(false), None, chart, &scan_days, cache);
    assert_eq!(pass.advance(false), PassStep::Read(0));
    assert!(pass.note_read(None, 5));
    assert_eq!(pass.advance(false), PassStep::Done);
    assert!(pass.dirty.is_empty());
    let snapshot = pass.snapshot(Weekday::Mon, &scan_days);
    assert_eq!(snapshot.totals.last30_days_tokens, 120);

    let candidates = vec![SessionFileCandidate {
        path: "session.jsonl".to_string(),
        len: 1,
        modified_epoch_secs: Some(10),
    }];
    let chart = make_day_keys(today(), 30);
    let mut uncached =
        begin_pass(candidates, None, default_test_limits(false), None, chart, &scan_days, None);
    assert_eq!(uncached.advance(true), PassStep::Read(0));
    assert!(!uncached.note_read(None, 5));
}

#[test]
fn a_refresh_out_of_time_counts_what_is_known() {
    let at = now_ms() - DAY_MS;
    let files = [LogFile {
        path: "session.jsonl",
        modified: 9,
        lines: vec![token_line(at, 100, 20)],
    }];
    let mut cache = Some(ScanCacheStore::new());
    refresh(&files, default_test_limits(false), None, &mut cache);
    let chart = make_day_keys(today(), 30);
    let scan_days = make_day_keys(today(), 30);
    let candidates = vec![
        SessionFileCandidate {
            path: "session.jsonl".to_string(),
            len: files[0].len() + 1,
            modified_epoch_secs: Some(10),
        },
        SessionFileCandidate {
            path: "new.jsonl".to_string(),
            len: 5,
            modified_epoch_secs: Some(10),
        },
    ];
    let mut pass =
        begin_pass(candidates, None, default_test_limits(false), None, chart, &scan_days, cache);
    assert_eq!(pass.advance(true), PassStep::Counted);
    assert_eq!(pass.advance(true), PassStep::Counted);
    assert_eq!(pass.advance(true), PassStep::Done);
    assert_eq!(pass.snapshot(Weekday::Mon, &scan_days).totals.last30_days_tokens, 120);
}

#[test]
fn files_are_planned_newest_first_within_the_limits() {
    let file = |path: &str, len: u64, modified: Option<u64>| SessionFileCandidate {
        path: path.to_string(),
        len,
        modified_epoch_secs: modified,
    };
    let sorted = sort_candidates(vec![
        file("old", 10, Some(1)),
        file("unknown", 10, None),
        file("big", 20, Some(5)),
        file("small", 10, Some(5)),
    ]);
    let order: Vec<&str> = sorted.iter().map(|c| c.path.as_str()).collect();
    assert_eq!(order, vec!["small", "big", "old", "unknown"]);
    let limits = ScanLimits { max_session_total_bytes: 25, ..default_test_limits(false) };
    assert_eq!(plan_scan(&sorted, None, limits), vec![0, 2]);
    assert_eq!(plan_scan(&sorted, Some(2), limits), vec![0, 3]);
    assert_eq!(plan_scan(&sorted, None, ScanLimits { full_scan: true, ..limits }), vec![0, 1, 2, 3]);
    assert_eq!(scan_cutoff(true, Some(5), Some(6)), None);
    assert_eq!(scan_cutoff(false, None, Some(6)), Some(6));
    assert_eq!(scan_cutoff(false, Some(5), Some(6)), Some(5));
}

#[test]
fn directory_entries_are_followed_by_their_kind() {
    assert_eq!(dir_entry_use(true, true, false, false, 0), DirEntryUse::Skip);
    assert_eq!(dir_entry_use(false, true, false, false, 0), DirEntryUse::Descend);
    assert_eq!(dir_entry_use(false, false, true, true, 1), DirEntryUse::Candidate);
    assert_eq!(dir_entry_use(false, false, true, true, 0), DirEntryUse::Skip);
    assert_eq!(dir_entry_use(false, false, true, false, 9), DirEntryUse::Skip);
}

#[test]
fn rows_of_the_cache_give_back_their_entries() {
    let entry = empty_entry(8);
    let row = row_from_entry(&entry);
    assert_eq!(row.file_size, 4);
    assert_eq!(row.fully_parsed, 1);
    let back = entry_from_row(
        row,
        None,
        Some(FileScan::start().parser_state),
        Some(StrMap::new()),
        Some(StrMap::new()),
    )
    .expect("entry");
    assert_eq!(back.size, entry.size);
    assert_eq!(back.modified_epoch_secs, entry.modified_epoch_secs);
    assert_eq!(back.updated_at, 8);
    let odd = CacheRow {
        file_size: -1,
        file_mtime: Some(-1),
        file_offset: -5,
        fully_parsed: 0,
        updated_at: 0,
    };
    let none: Option<ParserState> = None;
    let daily: Option<StrMap<DailyTotals>> = Some(StrMap::new());
    let models: Option<ModelsByDay> = Some(StrMap::new());
    assert!(entry_from_row(odd, None, none, daily, models).is_none());
    let back = entry_from_row(
        odd,
        None,
        Some(FileScan::start().parser_state),
        Some(StrMap::new()),
        Some(StrMap::new()),
    )
    .expect("entry");
    assert_eq!((back.size, back.modified_epoch_secs, back.file_offset), (0, None, 0));
}

#[test]
fn times_may_count_seconds_or_milliseconds() {
    assert_eq!(normalize_epoch_millis(1_784_334_782), 1_784_334_782_000);
    assert_eq!(normalize_epoch_millis(1_784_334_782_001), 1_784_334_782_001);
    assert_eq!(normalize_epoch_millis(-3), -3);
    assert_eq!(
        parse_timestamp_value_ms(&Json::Text("1970-01-01T00:00:01.5Z".to_string())),
        Some(1_500)
    );
    assert_eq!(parse_timestamp_value_ms(&parse_json("7").expect("number")), Some(7_000));
    assert_eq!(parse_timestamp_value_ms(&Json::Text("soon".to_string())), None);
}

#[test]
fn paths_match_a_workspace_by_components() {
    assert!(path_matches_workspace("/work/app", "/work/app"));
    assert!(path_matches_workspace("/work/app/sub", "/work/app"));
    assert!(!path_matches_workspace("/work/application", "/work/app"));
    assert!(!path_matches_workspace("work/app", "/work/app"));
    assert!(!path_matches_workspace("", "/work/app"));
    assert!(!path_matches_workspace("/work/app\u{7}", "/work/app"));
    assert!(workspace_admits("/x", true, true, true));
    assert!(!workspace_admits("x", true, false, true));
    assert_eq!(normalize_project_key("  /Mnt/E/GH "), "/mnt/e/gh");
}

#[test]
fn the_week_starts_as_the_settings_say() {
    assert_eq!(first_weekday_from_settings(Some(" "), Some("en_US"), None), Weekday::Sun);
    assert_eq!(first_weekday_from_settings(Some("C"), Some("en_US"), None), Weekday::Mon);
    assert_eq!(first_weekday_from_settings(None, None, Some("ar_EG")), Weekday::Sat);
    assert_eq!(first_weekday_from_settings(None, None, None), Weekday::Mon);
}

#[test]
fn numbers_are_shortened() {
    assert_eq!(format_compact_kmb(999, 8), "999");
    assert_eq!(format_compact_kmb(1_756_241, 8), "1.76M");
    assert_eq!(format_tokens_compact(45_456_785), "45.46M");
    assert_eq!(format_count(1_234_567), "1,234,567");
    assert_eq!(format_duration(3_661_000), "1h 1m 1s");
    assert!(format_duration_compact(3_661_000).starts_with("1h"));
    assert_eq!(share_tenths(1, 4), 250);
}

#[test]
fn totals_have_labels_under_every_metric() {
    let at = now_ms() - DAY_MS;
    let files = [LogFile {
        path: "s.jsonl",
        modified: 9,
        lines: vec![meta_line(at, "/w"), total_line(at + 10, 1_000, 250, 500)],
    }];
    let snapshot = refresh(&files, default_test_limits(false), None, &mut None);
    let system = SystemLocale::c_locale();
    let f = DisplayFormatter::new(DisplayStyle::Classic, &system);
    let view = snapshot.totals_view(UsageMetric::Tokens, f);
    assert_eq!(view.last7_primary_label, "1.5K tokens");
    assert_eq!(view.cache_label, "25.0%");
    assert_eq!(snapshot.last7_days().len(), 7);
    assert_eq!(snapshot.last_n_days(3).len(), 3);
    assert!(!snapshot.days[29].short_label().is_empty());
    assert_eq!(snapshot.top_models[0].model, "gpt-test");
    let quiet = DailyTotals { input: 0, cached: 0, output: 0, agent_ms: 0, agent_runs: 0 };
    assert!(!daily_has_activity(quiet));
    assert!(daily_has_activity(DailyTotals { agent_runs: 1, ..quiet }));
}

#[test]
fn overlong_lines_are_skipped() {
    let at = now_ms() - DAY_MS;
    let files = [LogFile {
        path: "s.jsonl",
        modified: 9,
        lines: vec![token_line(at, 10, 5), format!("{}{}", " ".repeat(600), token_line(at, 99, 1))],
    }];
    let limits = ScanLimits { max_jsonl_line_bytes: 512, ..default_test_limits(false) };
    let snapshot = refresh(&files, limits, None, &mut None);
    assert_eq!(snapshot.totals.last30_days_tokens, 15);
}

#[test]
fn progress_counts_files_and_bytes() {
    let days = make_day_keys(today(), 30);
    let candidates = ["a.jsonl", "b.jsonl", "c.jsonl"]
        .iter()
        .map(|path| SessionFileCandidate {
            path: path.to_string(),
            len: 50,
            modified_epoch_secs: Some(1),
        })
        .collect();
    let mut pass = begin_pass(
        candidates,
        None,
        default_test_limits(false),
        None,
        make_day_keys(today(), 30),
        &days,
        Some(ScanCacheStore::new()),
    );
    let none = pass.progress();
    assert_eq!((none.pending_files, none.indexed_files, none.processed_bytes), (3, 0, 0));
    assert_eq!(pass.advance(false), PassStep::Read(0));
    assert!(pass.note_read(Some(FileScan::start().finish(50, 50, true)), 1));
    assert_eq!(pass.advance(false), PassStep::Read(1));
    assert!(pass.note_read(Some(FileScan::start().finish(20, 50, false)), 1));
    let some = pass.progress();
    assert_eq!((some.pending_files, some.indexed_files, some.processed_bytes), (2, 1, 70));
}

#[test]
fn long_and_broken_lines_count_for_nothing() {
    let line = token_line(now_ms() - DAY_MS, 100, 20);
    let mut scan = FileScan::start();
    scan.scan_text(&line, line.len() - 1);
    assert!(scan.daily.entries.is_empty());
    scan.scan_text("{\"type\":", 1000);
    assert!(scan.daily.entries.is_empty());
    scan.scan_text(&line, line.len());
    assert_eq!(scan.daily.entries.len(), 1);
}

#[test]
fn the_number_of_models_stays_bounded() {
    let mut models: StrMap<i64> = StrMap::new();
    for n in 0..5_003 {
        add_model_tokens_limited(&mut models, &format!("m{n}"), 1);
    }
    assert_eq!(models.entries.len(), 5_001);
    assert_eq!(models.get("m4999"), Some(&1));
    assert_eq!(models.get("m5000"), None);
    assert_eq!(models.get("other"), Some(&3));
    add_model_tokens_limited(&mut models, "m7", 5);
    assert_eq!(models.get("m7"), Some(&6));
}

#[test]
fn the_timeline_ends_today() {
    let first = Weekday::Mon;
    let t = timeline(738_000, 7, first).expect("days");
    assert_eq!(t.chart, make_day_keys(738_000, 7));
    assert_eq!(t.activity, make_activity_day_keys(738_000, first));
    assert_eq!(timeline(738_000, 0, first).expect("days").chart.len(), 1);
    assert_eq!(timeline(738_000, 400, first).expect("days").chart.len(), 90);
    let last = chrono::NaiveDate::MAX.num_days_from_ce();
    assert_eq!(last, LAST_DAY);
    assert_eq!(chrono::NaiveDate::MIN.num_days_from_ce(), FIRST_DAY);
    assert!(timeline(last, 7, first).is_none());
    let shown = timeline(last - 6, 7, first).expect("days");
    assert_eq!(shown.activity.len(), ACTIVITY_TIMELINE_DAYS);
    assert!(timeline(FIRST_DAY + 370, 7, first).is_none());
    assert!(timeline(FIRST_DAY + 377, 7, first).is_some());
    let now = timeline_today(7, first).expect("days");
    assert_eq!(now.chart.len(), 7);
    assert_eq!(now.activity.len(), ACTIVITY_TIMELINE_DAYS);
}

#[test]
fn a_day_starts_at_midnight() {
    let at = epoch_secs_for_local_day_start("2024-01-15").expect("start");
    let start = chrono::Local
        .with_ymd_and_hms(2024, 1, 15, 0, 0, 0)
        .single()
        .expect("midnight")
        .timestamp();
    assert_eq!(at, start as u64);
    assert_eq!(epoch_secs_for_local_day_start("no day"), None);
    assert_eq!(secs_after_epoch(Some(-1)), None);
    assert_eq!(secs_after_epoch(Some(5)), Some(5));
    assert_eq!(secs_after_epoch(None), None);
}

#[test]
fn sessions_are_counted_by_project() {
    let days = make_day_keys(today(), 30);
    let mut cache = ScanCacheStore::new();
    for (path, cwd, whole) in [
        ("a.jsonl", Some("/Work/App"), true),
        ("b.jsonl", Some(" /work/app "), true),
        ("c.jsonl", Some("/work/app"), false),
        ("d.jsonl", Some("/work/other"), true),
        ("e.jsonl", None, true),
    ] {
        let mut entry = empty_entry(1);
        entry.session_cwd = cwd.map(str::to_string);
        entry.fully_parsed = whole;
        cache.note_row(path, Some(entry));
    }
    let candidates = ["a", "b", "c", "d", "e"]
        .iter()
        .map(|name| SessionFileCandidate {
            path: format!("{name}.jsonl"),
            len: 10,
            modified_epoch_secs: None,
        })
        .collect();
    let pass = begin_pass(
        candidates,
        None,
        default_test_limits(false),
        None,
        make_day_keys(today(), 30),
        &days,
        Some(cache),
    );
    let counts = pass.sessions_by_project();
    let at = now_ms() - DAY_MS;
    let files = [LogFile {
        path: "a.jsonl",
        modified: 9,
        lines: vec![meta_line(at, "/Work/App"), token_line(at + 10, 5, 1)],
    }];
    let snapshot = refresh(&files, default_test_limits(false), None, &mut None);
    let usage = project_usage_for_path(&snapshot, &counts, " /work/APP").expect("usage");
    assert_eq!(usage.indexed_files, 2);
    assert_eq!(usage.total_tokens, 6);
    assert!(project_usage_for_path(&snapshot, &counts, "/work/other").is_none());
    assert_eq!(counts.get("/work/app"), Some(&2));
    assert_eq!(counts.get("/work/other"), Some(&1));
    assert_eq!(counts.entries.len(), 2);
}

fn minutes_of(moment: comon::clock::Moment) -> i64 {
    let date = chrono::NaiveDate::from_ymd_opt(
        moment.date.year,
        moment.date.month,
        moment.date.day,
    )
    .expect("date");
    assert_eq!(date.weekday().num_days_from_monday(), moment.date.weekday);
    i64::from(date.num_days_from_ce() - 719_163) * 1440
        + i64::from(moment.time.hour) * 60
        + i64::from(moment.time.minute)
}

#[test]
fn moments_end_a_day_before_the_calendar() {
    for ms in [0, -1, 1_784_334_782_001, EARLIEST_MS + DAY_MS, LATEST_MS - DAY_MS] {
        let moment = moment_at(ms).expect("moment");
        let utc = ms.div_euclid(60_000);
        assert!((minutes_of(moment) - utc).abs() <= 1440);
    }
    for ms in [i64::MIN, i64::MAX, LATEST_MS, EARLIEST_MS, LATEST_MS - DAY_MS + 1] {
        assert!(moment_at(ms).is_none());
    }
    assert!(chrono::DateTime::from_timestamp_millis(LATEST_MS).is_some());
    assert!(chrono::DateTime::from_timestamp_millis(LATEST_MS + 1).is_none());
    assert!(chrono::DateTime::from_timestamp_millis(EARLIEST_MS).is_some());
    assert!(chrono::DateTime::from_timestamp_millis(EARLIEST_MS - 1).is_none());
}

#[test]
fn moments_of_resets_and_stamps() {
    assert_eq!(opt_moment_at(None), None);
    assert_eq!(opt_moment_at(Some(1_784_334_782)), moment_at(1_784_334_782_000));
    assert_eq!(stamp_moment(None), None);
    assert_eq!(stamp_moment(Some("yesterday")), None);
    let at = stamp_moment(Some("2024-01-15T12:00:00Z")).expect("moment");
    assert_eq!(Some(at), moment_at(1_705_320_000_000));
    assert!(stamp_moment(Some("9999-12-31T23:59:60-23:59")).is_some());
    assert!(stamp_moment(Some("0000-01-01T00:00:00+23:59")).is_some());
}

#[test]
fn a_forced_scan_starts_at_the_beginning() {
    let mut known = empty_entry(1);
    known.session_cwd = Some("/work".to_string());
    let (scan, offset) = FileScan::open(Some(&known), 9, Some(2), default_test_limits(false));
    assert_eq!((scan.session_cwd.as_deref(), offset), (Some("/work"), 4));
    let (scan, offset) = FileScan::open(Some(&known), 9, Some(2), default_test_limits(true));
    assert_eq!((scan.session_cwd, offset), (None, 0));
    let mut timed = default_test_limits(true);
    timed.scan_time_budget_ms = 5;
    assert_eq!(FileScan::open(Some(&known), 9, Some(2), timed).1, 4);
}

fn input_tokens(snapshot: &LocalUsageSnapshot) -> i64 {
    snapshot.days.iter().map(|d| d.input_tokens).sum()
}

#[test]
fn grown_files_count_once_in_every_kind_of_refresh() {
    let ms = now_ms();
    let mut files = vec![LogFile {
        path: "/s/a.jsonl",
        modified: 5,
        lines: vec![meta_line(ms, "/work"), token_line(ms + 10, 100, 1)],
    }];
    let mut cache = Some(ScanCacheStore::new());
    let normal = default_test_limits(false);
    assert_eq!(input_tokens(&refresh(&files, normal, None, &mut cache)), 100);
    files[0].lines.push(token_line(ms + 20, 50, 1));
    files[0].modified = 6;
    assert_eq!(input_tokens(&refresh(&files, normal, None, &mut cache)), 150);
    assert_eq!(input_tokens(&refresh(&files, normal, None, &mut cache)), 150);
    files[0].lines.push(token_line(ms + 30, 25, 1));
    files[0].modified = 7;
    let full = default_test_limits(true);
    assert_eq!(input_tokens(&refresh(&files, full, None, &mut cache)), 175);
    assert_eq!(input_tokens(&refresh(&files, full, None, &mut None)), 175);
}

#[test]
fn unplanned_files_keep_contributing() {
    let ms = now_ms();
    let files = vec![
        LogFile { path: "/s/a.jsonl", modified: 5, lines: vec![token_line(ms, 100, 1)] },
        LogFile { path: "/s/b.jsonl", modified: 6, lines: vec![token_line(ms, 7, 1)] },
    ];
    let mut cache = Some(ScanCacheStore::new());
    let normal = default_test_limits(false);
    assert_eq!(input_tokens(&refresh(&files, normal, None, &mut cache)), 107);
    let mut one = normal;
    one.max_session_files_scanned = 1;
    assert_eq!(input_tokens(&refresh(&files, one, None, &mut cache)), 107);
    assert_eq!(input_tokens(&refresh(&files, one, None, &mut None)), 7);
}

#[test]
fn only_a_full_scan_repairs_a_stale_row() {
    let ms = now_ms();
    let files =
        vec![LogFile { path: "/s/a.jsonl", modified: 5, lines: vec![token_line(ms, 100, 1)] }];
    let mut row = empty_entry(1);
    row.size = files[0].len();
    row.file_offset = row.size;
    row.modified_epoch_secs = Some(5);
    let mut store = ScanCacheStore::new();
    store.note_row("/s/a.jsonl", Some(row));
    let mut cache = Some(store);
    assert_eq!(input_tokens(&refresh(&files, default_test_limits(false), None, &mut cache)), 0);
    assert_eq!(input_tokens(&refresh(&files, default_test_limits(true), None, &mut cache)), 100);
    assert_eq!(input_tokens(&refresh(&files, default_test_limits(false), None, &mut cache)), 100);
}

#[test]
fn caps_leave_a_full_scan_alone() {
    let ms = now_ms();
    let files = vec![
        LogFile { path: "/s/a.jsonl", modified: 5, lines: vec![token_line(ms, 100, 1)] },
        LogFile { path: "/s/b.jsonl", modified: 6, lines: vec![token_line(ms, 7, 1)] },
    ];
    let mut tight = default_test_limits(true);
    tight.max_session_files_scanned = 1;
    tight.max_session_total_bytes = 1;
    assert_eq!(input_tokens(&refresh(&files, tight, None, &mut None)), 107);
    tight.full_scan = false;
    assert_eq!(input_tokens(&refresh(&files, tight, None, &mut None)), 7);
}

#[test]
fn project_activity_is_the_same_in_every_order() {
    let ms = now_ms();
    let shown = |first: u64, second: u64| {
        let files = vec![
            LogFile {
                path: "/s/a.jsonl",
                modified: first,
                lines: vec![meta_line(ms, "/Work/App "), token_line(ms, 100, 1)],
            },
            LogFile {
                path: "/s/b.jsonl",
                modified: second,
                lines: vec![meta_line(ms, "/work/app"), token_line(ms, 7, 1)],
            },
        ];
        let snapshot = refresh(&files, default_test_limits(false), None, &mut None);
        assert_eq!(snapshot.project_activity.len(), 1);
        let project = &snapshot.project_activity[0];
        (project.display_path.clone(), project.total_tokens)
    };
    assert_eq!(shown(1, 2), ("/work/app".to_string(), 109));
    assert_eq!(shown(2, 1), shown(1, 2));
}

#[test]
fn wide_compact_labels_are_token_labels() {
    for value in [-5, 0, 999, 1_000, 999_999, 1_234_567, 999_999_999_999_999, i64::MAX] {
        for width in [11, 12, 80] {
            assert_eq!(
                format_compact_kmb(value.max(0) as u64, width),
                format_tokens_compact(value)
            );
        }
    }
    assert_eq!(format_tokens_compact(i64::MAX), "9223372.04T");
    assert_ne!(format_compact_kmb(i64::MAX as u64, 10), "9223372.04T");
}

#[test]
fn nested_directories_belong_to_a_workspace() {
    assert!(path_matches_workspace("/work/app/src", "/work/app"));
    assert!(!path_matches_workspace("/work/app", "/work/app/src"));
    assert!(!path_matches_workspace("/work/apple", "/work/app"));
    assert!(!path_matches_workspace("/work/app/\u{1}", "/work/app"));
}

#[test]
fn only_sessions_below_a_workspace_belong_to_it() {
    assert!(!path_matches_workspace("/tmp/foobar", "/tmp/foo"));
    assert!(path_matches_workspace("/tmp/foo.d/.x", "/tmp/foo.d"));
    assert!(!path_matches_workspace("/tmp/foo.d", "/tmp/foo"));
    assert!(path_matches_workspace("/tmp/foo", "/"));
    assert!(!path_matches_workspace("tmp/foo", "/"));
    assert!(path_matches_workspace("tmp/foo/bar", "tmp/foo"));
    assert!(!path_matches_workspace("/tmp/foo/bar", "tmp/foo"));
    assert!(!path_matches_workspace("tmp/foo", "/tmp/foo"));
    assert!(!path_matches_workspace("/tmp/../foo", "/foo"));
    assert!(path_matches_workspace("/tmp/../foo/x", "/tmp/../foo"));
}

#[test]
fn refreshes_count_the_workspace_alone() {
    let ms = now_ms();
    let session = |path, cwd, tokens| LogFile {
        path,
        modified: 5,
        lines: vec![meta_line(ms, cwd), token_line(ms + 10, tokens, 1)],
    };
    let files = vec![
        session("/s/a.jsonl", "/work/app", 100),
        session("/s/b.jsonl", "/work/app/sub", 20),
        session("/s/c.jsonl", "/work/apple", 3),
    ];
    let shown = refresh(&files, default_test_limits(false), Some("/work/app"), &mut None);
    assert_eq!((input_tokens(&shown), shown.matched_session_files), (120, 2));
}

#[test]
fn day_keys_are_dates_in_order() {
    for number in [FIRST_DAY, -719_529, -366, -365, 0, 1, 59, 60, 738_000, 3_652_059, LAST_DAY] {
        let date = chrono::NaiveDate::from_num_days_from_ce_opt(number).expect("date");
        assert_eq!(make_day_keys(number, 1), vec![date.format("%Y-%m-%d").to_string()]);
    }
    for number in [-365, 60, 365, 738_000, 3_652_059] {
        let key = &make_day_keys(number, 1)[0];
        let utc = i64::from(number - 719_163) * 86_400;
        match epoch_secs_for_local_day_start(key) {
            Some(secs) => assert!((secs as i64 - utc).abs() <= 86_400),
            None => assert!(utc <= 86_400),
        }
    }
    assert_eq!(make_day_keys(-365, 1), ["0000-01-01"]);
    assert_eq!(make_day_keys(-366, 1), ["-0001-12-31"]);
    assert_eq!(make_day_keys(3_652_060, 1), ["+10000-01-01"]);
    assert_eq!(make_day_keys(738_000, 0), Vec::<String>::new());
    let keys = make_day_keys(738_000, 1_500);
    assert_eq!(keys.len(), 1_500);
    assert!(keys.windows(2).all(|pair| pair[0] < pair[1]));
}
