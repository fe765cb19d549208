//! Rows of the scan cache, and what is kept of it.

use crate::json::{field, opt_text, parse_json, parsed_json, sub_field, text_field, Json};
use crate::sort::{
    is_sorting, stable_sort, text_before, text_before_asymmetric, text_before_weak, text_less,
    Precedes,
};
use crate::strmap::StrMap;
use crate::text::{same, views};
use crate::usage::scan::{CachedFileScanEntry, SCAN_CACHE_DB_SCHEMA_VERSION};
use crate::usage::session::{DailyTotals, ModelsByDay, ParserState};
use vstd::prelude::*;

verus! {

/// The numbers of a row of the scan cache.
#[derive(Debug, Clone, Copy)]
pub struct CacheRow {
    pub file_size: i64,
    pub file_mtime: Option<i64>,
    pub file_offset: i64,
    pub fully_parsed: i64,
    pub updated_at: i64,
}

/// A stored number that counts bytes; what is below zero counts as zero.
pub open spec fn stored_bytes(v: i64) -> u64 {
    if v < 0 {
        0
    } else {
        v as u64
    }
}

/// A stored time; what is below zero is none.
pub open spec fn stored_time(v: Option<i64>) -> Option<u64> {
    match v {
        Some(t) => if t < 0 {
            None
        } else {
            Some(t as u64)
        },
        None => None,
    }
}

/// A row of the cache with its documents, as far as these can be decoded.
pub struct StoredRow {
    pub row: CacheRow,
    pub session_cwd: Option<String>,
    pub parser_state: Option<ParserState>,
    pub daily: Option<StrMap<DailyTotals>>,
    pub model_totals_by_day: Option<ModelsByDay>,
}

/// The entry that a row holds; none where one of its documents could not be decoded.
pub open spec fn entry_of(s: StoredRow) -> Option<CachedFileScanEntry> {
    match (s.parser_state, s.daily, s.model_totals_by_day) {
        (Some(parser_state), Some(daily), Some(model_totals_by_day)) => Some(
            CachedFileScanEntry {
                size: stored_bytes(s.row.file_size),
                modified_epoch_secs: stored_time(s.row.file_mtime),
                file_offset: stored_bytes(s.row.file_offset),
                fully_parsed: s.row.fully_parsed != 0,
                session_cwd: s.session_cwd,
                parser_state,
                daily,
                model_totals_by_day,
                updated_at: s.row.updated_at,
            },
        ),
        _ => None,
    }
}

/// The entry that a row and its decoded documents hold; `None` where one of the documents could
/// not be decoded, and the row has to go.
pub fn entry_from_row(
    row: CacheRow,
    session_cwd: Option<String>,
    parser_state: Option<ParserState>,
    daily: Option<StrMap<DailyTotals>>,
    model_totals_by_day: Option<ModelsByDay>,
) -> (r: Option<CachedFileScanEntry>)
    ensures
        r == entry_of(
            StoredRow { row, session_cwd, parser_state, daily, model_totals_by_day },
        ),
{
    let size: u64 = if row.file_size < 0 {
        0
    } else {
        row.file_size as u64
    };
    let offset: u64 = if row.file_offset < 0 {
        0
    } else {
        row.file_offset as u64
    };
    let modified: Option<u64> = match row.file_mtime {
        Some(t) => if t < 0 {
            None
        } else {
            Some(t as u64)
        },
        None => None,
    };
    match (parser_state, daily, model_totals_by_day) {
        (Some(parser_state), Some(daily), Some(model_totals_by_day)) => Some(
            CachedFileScanEntry {
                size,
                modified_epoch_secs: modified,
                file_offset: offset,
                fully_parsed: row.fully_parsed != 0,
                session_cwd,
                parser_state,
                daily,
                model_totals_by_day,
                updated_at: row.updated_at,
            },
        ),
        _ => None,
    }
}

/// A number as it is stored: at most the largest signed one.
pub open spec fn storable(v: u64) -> i64 {
    if v > i64::MAX {
        i64::MAX
    } else {
        v as i64
    }
}

/// The row of an entry.
pub open spec fn row_of(e: CachedFileScanEntry) -> CacheRow {
    CacheRow {
        file_size: storable(e.size),
        file_mtime: match e.modified_epoch_secs {
            Some(t) => if t > i64::MAX {
                None
            } else {
                Some(t as i64)
            },
            None => None,
        },
        file_offset: storable(e.file_offset),
        fully_parsed: if e.fully_parsed {
            1
        } else {
            0
        },
        updated_at: e.updated_at,
    }
}

fn to_stored(v: u64) -> (r: i64)
    ensures
        r == storable(v),
{
    if v > 0x7fff_ffff_ffff_ffff {
        i64::MAX
    } else {
        v as i64
    }
}

/// The row of an entry.
pub fn row_from_entry(entry: &CachedFileScanEntry) -> (r: CacheRow)
    ensures
        r == row_of(*entry),
{
    CacheRow {
        file_size: to_stored(entry.size),
        file_mtime: match entry.modified_epoch_secs {
            Some(t) => if t > 0x7fff_ffff_ffff_ffff {
                None
            } else {
                Some(t as i64)
            },
            None => None,
        },
        file_offset: to_stored(entry.file_offset),
        fully_parsed: if entry.fully_parsed {
            1
        } else {
            0
        },
        updated_at: entry.updated_at,
    }
}

/// The numbers of an entry can be stored.
pub open spec fn fits_row(e: CachedFileScanEntry) -> bool {
    e.size <= i64::MAX && e.file_offset <= i64::MAX && (e.modified_epoch_secs is Some
        ==> e.modified_epoch_secs->0 <= i64::MAX)
}

/// The row of an entry with its documents.
pub open spec fn stored(e: CachedFileScanEntry) -> StoredRow {
    StoredRow {
        row: row_of(e),
        session_cwd: e.session_cwd,
        parser_state: Some(e.parser_state),
        daily: Some(e.daily),
        model_totals_by_day: Some(e.model_totals_by_day),
    }
}

/// An entry that is stored is read back whole, where its numbers can be stored.
pub proof fn cache_row_round_trip(e: CachedFileScanEntry)
    requires
        fits_row(e),
    ensures
        entry_of(stored(e)) == Some(e),
{
}

/// The rows after a refresh is written: the paths that are to go are taken out first, and then the
/// entries of the paths that have changed are put in.
pub open spec fn rows_after(
    rows: Map<Seq<char>, StoredRow>,
    removed: Set<Seq<char>>,
    dirty: Set<Seq<char>>,
    store: Map<Seq<char>, CachedFileScanEntry>,
) -> Map<Seq<char>, StoredRow> {
    Map::new(
        |k: Seq<char>|
            (dirty.contains(k) && store.dom().contains(k)) || (rows.dom().contains(k)
                && !removed.contains(k)),
        |k: Seq<char>|
            if dirty.contains(k) && store.dom().contains(k) {
                stored(store[k])
            } else {
                rows[k]
            },
    )
}

/// The entries that rows hold.
pub open spec fn loaded(rows: Map<Seq<char>, StoredRow>) -> Map<Seq<char>, CachedFileScanEntry> {
    Map::new(
        |k: Seq<char>| rows.dom().contains(k) && entry_of(rows[k]) is Some,
        |k: Seq<char>| entry_of(rows[k])->0,
    )
}

/// The paths of rows that hold no entry, and have to go.
pub open spec fn unusable(rows: Map<Seq<char>, StoredRow>) -> Set<Seq<char>> {
    Set::new(|k: Seq<char>| rows.dom().contains(k) && entry_of(rows[k]) is None)
}

/// What a refresh writes to the cache is read back: the entries that have changed come back whole,
/// even where their paths were to go; of the other paths those that were to go are gone, and the rest
/// read as before. No path is both read and to go.
pub proof fn written_cache_is_read_back(
    rows: Map<Seq<char>, StoredRow>,
    removed: Set<Seq<char>>,
    dirty: Set<Seq<char>>,
    store: Map<Seq<char>, CachedFileScanEntry>,
)
    requires
        forall|k: Seq<char>|
            dirty.contains(k) && #[trigger] store.dom().contains(k) ==> fits_row(store[k]),
    ensures
        ({
            let after = rows_after(rows, removed, dirty, store);
            &&& forall|k: Seq<char>|
                dirty.contains(k) && #[trigger] store.dom().contains(k) ==> loaded(
                    after,
                ).dom().contains(k) && loaded(after)[k] == store[k]
            &&& forall|k: Seq<char>|
                #![trigger removed.contains(k)]
                removed.contains(k) && !(dirty.contains(k) && store.dom().contains(k)) ==> !loaded(
                    after,
                ).dom().contains(k) && !unusable(after).contains(k)
            &&& forall|k: Seq<char>|
                #![trigger rows.dom().contains(k)]
                !removed.contains(k) && !(dirty.contains(k) && store.dom().contains(k)) ==> {
                    &&& loaded(after).dom().contains(k) == loaded(rows).dom().contains(k)
                    &&& loaded(rows).dom().contains(k) ==> loaded(after)[k] == loaded(rows)[k]
                    &&& unusable(after).contains(k) == unusable(rows).contains(k)
                }
            &&& forall|k: Seq<char>|
                !(#[trigger] loaded(after).dom().contains(k) && unusable(after).contains(k))
        }),
{
    assert forall|k: Seq<char>| dirty.contains(k) && #[trigger] store.dom().contains(k) implies entry_of(
        stored(store[k]),
    ) == Some(store[k]) by {
        cache_row_round_trip(store[k]);
    }
}

/// A cached file and the time of its last scan.
#[derive(Debug)]
pub struct CacheAge {
    pub path: String,
    pub updated_at: i64,
}

impl Precedes for CacheAge {
    /// Oldest scan first, then by path.
    open spec fn before(self, other: Self) -> bool {
        self.updated_at < other.updated_at || (self.updated_at == other.updated_at && text_before(
            self.path@,
            other.path@,
        ))
    }

    proof fn before_asymmetric(a: Self, b: Self) {
        text_before_asymmetric(a.path@, b.path@);
    }

    proof fn before_weak(a: Self, b: Self, c: Self) {
        if !text_before(a.path@, b.path@) && !text_before(b.path@, c.path@) {
            text_before_weak(a.path@, b.path@, c.path@);
        }
    }

    fn comes_before(&self, other: &Self) -> (r: bool) {
        self.updated_at < other.updated_at || (self.updated_at == other.updated_at && text_less(
            self.path.as_str(),
            other.path.as_str(),
        ))
    }
}

/// How many entries have to go.
pub open spec fn surplus(len: nat, max_entries: nat) -> nat {
    if len > max_entries {
        (len - max_entries) as nat
    } else {
        0
    }
}

/// Splits the cached files into those that go, oldest first, and those that stay.
pub fn trim_scan_cache_to_limit(entries: Vec<CacheAge>, max_entries: usize) -> (r: (
    Vec<CacheAge>,
    Vec<CacheAge>,
))
    ensures
        r.0@.len() == surplus(entries@.len(), max_entries as nat),
        is_sorting(entries@, r.0@ + r.1@),
{
    let n: usize = entries.len();
    let ghost all = entries@;
    let mut order = stable_sort(entries);
    let ghost ranked = order@;
    proof {
        crate::sort::sorting_keeps_items(all, ranked);
    }
    let remove: usize = if n > max_entries {
        n - max_entries
    } else {
        0
    };
    let kept = order.split_off(remove);
    assert(order@ + kept@ =~= ranked);
    (order, kept)
}

/// A trimmed cache keeps to its limit, and nothing that went is newer than something that stayed.
pub proof fn trimming_drops_oldest(entries: Seq<CacheAge>, gone: Seq<CacheAge>, kept: Seq<CacheAge>, max_entries: nat)
    requires
        gone.len() == surplus(entries.len(), max_entries),
        is_sorting(entries, gone + kept),
    ensures
        kept.len() <= max_entries || gone.len() == 0,
        kept.len() == (if entries.len() > max_entries {
            max_entries
        } else {
            entries.len()
        }),
        forall|i: int, j: int|
            0 <= i < gone.len() && 0 <= j < kept.len() ==> (#[trigger] gone[i]).updated_at <= (
            #[trigger] kept[j]).updated_at,
{
    crate::sort::sorting_keeps_items(entries, gone + kept);
    assert forall|i: int, j: int| 0 <= i < gone.len() && 0 <= j < kept.len() implies (
    #[trigger] gone[i]).updated_at <= (#[trigger] kept[j]).updated_at by {
        let all = gone + kept;
        assert(all[i] == gone[i]);
        assert(all[gone.len() + j] == kept[j]);
        assert(!all[gone.len() + j].before(all[i]));
    }
}

/// Paths in the order in which the cache is written.
pub fn sorted_paths(paths: Vec<String>) -> (r: Vec<String>)
    ensures
        is_sorting(paths@, r@),
{
    stable_sort(paths)
}

/// A cached file is kept: a regular session log under the sessions directory that is neither empty
/// nor too large.
pub fn is_valid_cached_session_file(
    under_root: bool,
    is_symlink: bool,
    is_file: bool,
    is_jsonl: bool,
    len: u64,
    max_session_file_bytes: u64,
) -> (r: bool)
    ensures
        r == (under_root && !is_symlink && is_file && is_jsonl && 0 < len
            <= max_session_file_bytes),
{
    under_root && !is_symlink && is_file && is_jsonl && len > 0 && len <= max_session_file_bytes
}

/// What an entry of the sessions directory is.
#[derive(Debug, Clone, Copy, PartialEq, Eq, Structural)]
pub enum DirEntryUse {
    Skip,
    Descend,
    Candidate,
}

/// Which entries of the sessions directory are followed: links never, directories always, and of
/// the regular files the session logs that are not empty.
pub fn dir_entry_use(
    is_symlink: bool,
    is_dir: bool,
    is_file: bool,
    is_jsonl: bool,
    len: u64,
) -> (r: DirEntryUse)
    ensures
        r == (if is_symlink {
            DirEntryUse::Skip
        } else if is_dir {
            DirEntryUse::Descend
        } else if is_file && is_jsonl && len > 0 {
            DirEntryUse::Candidate
        } else {
            DirEntryUse::Skip
        }),
{
    if is_symlink {
        DirEntryUse::Skip
    } else if is_dir {
        DirEntryUse::Descend
    } else if is_file && is_jsonl && len > 0 {
        DirEntryUse::Candidate
    } else {
        DirEntryUse::Skip
    }
}

/// The first line of a log opens a forked session.
pub open spec fn opens_fork(line: Json) -> bool {
    text_field(line, "type"@) == Some("session_meta"@) && opt_text(
        sub_field(field(line, "payload"@), "forked_from_id"@),
    ) is Some
}

/// A cached session has to be read again: it was forked, or its first line cannot be read.
pub fn cached_session_needs_v3_reparse(first_line: Option<&str>) -> (r: bool)
    ensures
        r == (match first_line {
            None => true,
            Some(text) => match parsed_json(text@) {
                None => true,
                Some(line) => opens_fork(line),
            },
        }),
{
    match first_line {
        None => true,
        Some(text) => match parse_json(text) {
            None => true,
            Some(line) => needs_reparse(&line),
        },
    }
}

/// The first line of a log opens a forked session.
pub fn needs_reparse(line: &Json) -> (r: bool)
    ensures
        r == opens_fork(*line),
{
    let is_meta = match line.get_str("type") {
        Some(t) => same(t, "session_meta"),
        None => false,
    };
    let forked = match line.get("payload") {
        Some(p) => p.get_str("forked_from_id").is_some(),
        None => false,
    };
    is_meta && forked
}

/// Why the scan cache cannot be used.
#[derive(Debug, Clone, Copy, PartialEq, Eq, Structural)]
pub enum CacheSchemaError {
    Missing,
    Unsupported(i64),
}

/// Steps that bring the scan cache to the current version.
#[derive(Debug, Clone, Copy, PartialEq, Eq, Structural)]
pub struct CacheMigration {
    pub add_columns: bool,
    pub drop_forked_rows: bool,
}

/// The steps for a version: columns where they are missing, and the rows of forked sessions where
/// the version is older.
pub fn cache_migration(schema_version: Option<i64>, has_v2_columns: bool) -> (r: Result<
    CacheMigration,
    CacheSchemaError,
>)
    ensures
        match schema_version {
            None => r == Err::<CacheMigration, CacheSchemaError>(CacheSchemaError::Missing),
            Some(v) => r == Ok::<CacheMigration, CacheSchemaError>(
                CacheMigration {
                    add_columns: v == 1 || !has_v2_columns,
                    drop_forked_rows: v < SCAN_CACHE_DB_SCHEMA_VERSION,
                },
            ),
        },
{
    match schema_version {
        None => Err(CacheSchemaError::Missing),
        Some(v) => Ok(
            CacheMigration {
                add_columns: v == 1 || !has_v2_columns,
                drop_forked_rows: v < SCAN_CACHE_DB_SCHEMA_VERSION,
            },
        ),
    }
}

/// Tests the version after the migration.
pub fn check_cache_version(schema_version: Option<i64>) -> (r: Result<(), CacheSchemaError>)
    ensures
        match schema_version {
            None => r == Err::<(), CacheSchemaError>(CacheSchemaError::Missing),
            Some(v) => if v == SCAN_CACHE_DB_SCHEMA_VERSION {
                r == Ok::<(), CacheSchemaError>(())
            } else {
                r == Err::<(), CacheSchemaError>(CacheSchemaError::Unsupported(v))
            },
        },
{
    match schema_version {
        None => Err(CacheSchemaError::Missing),
        Some(v) => if v == SCAN_CACHE_DB_SCHEMA_VERSION {
            Ok(())
        } else {
            Err(CacheSchemaError::Unsupported(v))
        },
    }
}

/// The days of `more` that `keys` does not hold, in their order.
pub open spec fn missing_days(keys: Seq<Seq<char>>, more: Seq<Seq<char>>) -> Seq<Seq<char>>
    decreases more.len(),
{
    if more.len() == 0 {
        Seq::empty()
    } else {
        let before = missing_days(keys, more.drop_last());
        if (keys + before).contains(more.last()) {
            before
        } else {
            before.push(more.last())
        }
    }
}

fn holds(list: &Vec<String>, text: &str) -> (r: bool)
    ensures
        r == views(list@).contains(text@),
{
    let mut i: usize = 0;
    while i < list.len()
        invariant
            i <= list@.len(),
            forall|j: int| 0 <= j < i ==> (#[trigger] list@[j])@ != text@,
        decreases list@.len() - i,
    {
        if same(list[i].as_str(), text) {
            assert(views(list@)[i as int] == text@);
            return true;
        }
        i += 1;
    }
    assert(!views(list@).contains(text@)) by {
        if views(list@).contains(text@) {
            let j = choose|j: int| 0 <= j < views(list@).len() && views(list@)[j] == text@;
            assert(list@[j]@ == text@);
        }
    }
    false
}

/// The days of which totals are kept: those of the activity view, then those of the chart that are
/// not among them.
pub fn scan_day_keys(activity: &Vec<String>, chart: &Vec<String>) -> (r: Vec<String>)
    ensures
        views(r@) == views(activity@) + missing_days(views(activity@), views(chart@)),
{
    let mut out: Vec<String> = Vec::new();
    let mut i: usize = 0;
    while i < activity.len()
        invariant
            i <= activity@.len(),
            views(out@) == views(activity@).take(i as int),
        decreases activity@.len() - i,
    {
        let ghost before = views(out@);
        out.push(activity[i].clone());
        assert(views(out@) =~= before.push(activity@[i as int]@));
        i += 1;
    }
    let ghost a = views(activity@);
    assert(a.take(i as int) =~= a);
    let mut j: usize = 0;
    assert(a + missing_days(a, views(chart@).take(0)) =~= a);
    while j < chart.len()
        invariant
            j <= chart@.len(),
            a == views(activity@),
            views(out@) == a + missing_days(a, views(chart@).take(j as int)),
        decreases chart@.len() - j,
    {
        assert(views(chart@).take(j + 1).drop_last() =~= views(chart@).take(j as int));
        assert(views(chart@).take(j + 1).last() == chart@[j as int]@);
        if !holds(&out, chart[j].as_str()) {
            let ghost before = views(out@);
            out.push(chart[j].clone());
            assert(views(out@) =~= before.push(chart@[j as int]@));
            assert(views(out@) =~= a + missing_days(a, views(chart@).take(j + 1)));
        }
        j += 1;
    }
    assert(views(chart@).take(j as int) =~= views(chart@));
    out
}

/// The days that are missing are those that the keys do not hold, each once; together with the keys
/// they hold every day that was asked for.
pub proof fn missing_days_complete_the_keys(keys: Seq<Seq<char>>, more: Seq<Seq<char>>)
    ensures
        forall|i: int|
            0 <= i < more.len() ==> (keys + missing_days(keys, more)).contains(#[trigger] more[i]),
        forall|i: int|
            0 <= i < missing_days(keys, more).len() ==> !keys.contains(
                #[trigger] missing_days(keys, more)[i],
            ) && more.contains(missing_days(keys, more)[i]),
        missing_days(keys, more).no_duplicates(),
    decreases more.len(),
{
    if more.len() > 0 {
        let init = more.drop_last();
        missing_days_complete_the_keys(keys, init);
        let before = missing_days(keys, init);
        let all = missing_days(keys, more);
        let last = more.last();
        assert forall|i: int| 0 <= i < more.len() implies (keys + all).contains(
            #[trigger] more[i],
        ) by {
            if i < init.len() {
                assert(init[i] == more[i]);
                let k = choose|k: int|
                    0 <= k < (keys + before).len() && (keys + before)[k] == more[i];
                assert((keys + all)[k] == more[i]);
            } else if all == before {
                assert((keys + before).contains(last));
            } else {
                assert((keys + all)[keys.len() + before.len() as int] == last);
            }
        }
        assert forall|i: int| 0 <= i < all.len() implies !keys.contains(#[trigger] all[i])
            && more.contains(all[i]) by {
            if i < before.len() {
                assert(all[i] == before[i]);
                let k = choose|k: int| 0 <= k < init.len() && init[k] == before[i];
                assert(more[k] == before[i]);
            } else {
                assert(all[i] == last);
                if keys.contains(last) {
                    let k = choose|k: int| 0 <= k < keys.len() && keys[k] == last;
                    assert((keys + before)[k] == last);
                }
                assert(more[more.len() - 1] == last);
            }
        }
        if all != before {
            assert forall|i: int, j: int| 0 <= i < all.len() && 0 <= j < all.len() && i != j implies
            all[i] != all[j] by {
                if i < before.len() && j < before.len() {
                    assert(before[i] != before[j]);
                } else {
                    let k = if i < before.len() {
                        i
                    } else {
                        j
                    };
                    assert((keys + before)[keys.len() + k] == before[k]);
                }
            }
        }
    }
}

/// A log opens a forked session where its header names the session that it was forked from.
pub proof fn forks_name_their_origin(line: Json, payload: Json, id: String)
    ensures
        text_field(line, "type"@) == Some("session_meta"@) && field(line, "payload"@) == Some(
            payload,
        ) && field(payload, "forked_from_id"@) == Some(Json::Text(id)) ==> opens_fork(line),
        text_field(line, "type"@) == Some("session_meta"@) && field(line, "payload"@) == Some(
            payload,
        ) && field(payload, "forked_from_id"@) is None ==> !opens_fork(line),
        text_field(line, "type"@) != Some("session_meta"@) ==> !opens_fork(line),
{
}

} // verus!
