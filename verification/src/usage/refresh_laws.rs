//! What a refresh makes of session files: which it reads, what it keeps and what it counts.

use crate::sort::{is_sorting, Precedes};
use crate::text::trimmed;
use crate::usage::cache::{loaded, rows_after, unusable, StoredRow};
use crate::usage::refresh::{
    bytes_read, is_session_of, paths_of, sessions_of, whole_files, without_gone,
};
use crate::usage::scan::{
    action_for, entry_for, plan, plan_from, resumes, scan_cutoff, too_old, up_to_date, weight,
    CachedFileScanEntry, FileScanSummary, ScanAction, ScanLimits, SessionFileCandidate,
};
use crate::usage::session::{DailyTotals, FileScan};
use crate::usage::snapshot::{
    project_key, with_model_days, with_models, with_session, UsageModel,
};
use vstd::prelude::*;

verus! {

/// The second day has what the first one has and what is added, each count its own.
pub open spec fn is_sum(a: DailyTotals, b: DailyTotals, sum: DailyTotals) -> bool {
    &&& i64::MIN <= a.input + b.input <= i64::MAX ==> sum.input == a.input + b.input
    &&& i64::MIN <= a.cached + b.cached <= i64::MAX ==> sum.cached == a.cached + b.cached
    &&& i64::MIN <= a.output + b.output <= i64::MAX ==> sum.output == a.output + b.output
    &&& i64::MIN <= a.agent_ms + b.agent_ms <= i64::MAX ==> sum.agent_ms == a.agent_ms + b.agent_ms
    &&& i64::MIN <= a.agent_runs + b.agent_runs <= i64::MAX ==> sum.agent_runs == a.agent_runs
        + b.agent_runs
}

/// A session that counts adds its days to those that are shown and to no others; one that does not
/// count changes nothing.
pub proof fn sessions_add_their_days(
    t: UsageModel,
    e: CachedFileScanEntry,
    filtered: bool,
    chart_days: Seq<Seq<char>>,
    day: Seq<char>,
)
    ensures
        with_session(t, e, filtered, false, chart_days) == t,
        ({
            let after = with_session(t, e, filtered, true, chart_days);
            &&& after.daily.dom().contains(day) <==> t.daily.dom().contains(day)
            &&& t.daily.dom().contains(day) && e.daily@.dom().contains(day) ==> is_sum(
                t.daily[day],
                e.daily@[day],
                after.daily[day],
            )
            &&& t.daily.dom().contains(day) && !e.daily@.dom().contains(day) ==> after.daily[day]
                == t.daily[day]
        }),
{
}

/// Sessions are counted where a workspace was named, one by one, and not else.
pub proof fn matches_are_counted(
    t: UsageModel,
    e: CachedFileScanEntry,
    chart_days: Seq<Seq<char>>,
)
    requires
        t.matched < u32::MAX,
    ensures
        with_session(t, e, true, true, chart_days).matched == t.matched + 1,
        with_session(t, e, false, true, chart_days).matched == t.matched,
        with_session(t, e, true, false, chart_days).matched == t.matched,
{
}

/// A session counts for the project of its directory and for no other: on the days that are shown
/// the project has more by what the session has. A session without a directory counts for none.
pub proof fn sessions_count_for_their_project(
    t: UsageModel,
    e: CachedFileScanEntry,
    filtered: bool,
    chart_days: Seq<Seq<char>>,
    day: Seq<char>,
    other: Seq<char>,
)
    ensures
        ({
            let after = with_session(t, e, filtered, true, chart_days);
            &&& e.session_cwd is None ==> after.projects == t.projects
            &&& e.session_cwd is Some && trimmed(e.session_cwd->0@).len() == 0 ==> after.projects
                == t.projects
            &&& e.session_cwd is Some && other != project_key(e.session_cwd->0@) ==> (
            after.projects.dom().contains(other) <==> t.projects.dom().contains(other)) && (
            t.projects.dom().contains(other) ==> after.projects[other] == t.projects[other])
            &&& e.session_cwd is Some && trimmed(e.session_cwd->0@).len() > 0 && project_key(
                e.session_cwd->0@,
            ).len() > 0 ==> {
                let key = project_key(e.session_cwd->0@);
                &&& after.projects.dom().contains(key)
                &&& t.daily.dom().contains(day) && e.daily@.dom().contains(day)
                    && t.projects.dom().contains(key) && t.projects[key].daily.dom().contains(day)
                    ==> is_sum(
                    t.projects[key].daily[day],
                    e.daily@[day],
                    after.projects[key].daily[day],
                )
                &&& t.daily.dom().contains(day) && e.daily@.dom().contains(day)
                    && !t.projects.dom().contains(key) ==> after.projects[key].daily.dom().contains(
                    day,
                ) && after.projects[key].daily[day] == e.daily@[day]
                &&& !t.daily.dom().contains(day) && !t.projects.dom().contains(key)
                    ==> !after.projects[key].daily.dom().contains(day)
            }
        }),
{
    let after = with_session(t, e, filtered, true, chart_days);
    if e.session_cwd is Some && trimmed(e.session_cwd->0@).len() > 0 && project_key(
        e.session_cwd->0@,
    ).len() > 0 {
        let key = project_key(e.session_cwd->0@);
        if t.daily.dom().contains(day) && e.daily@.dom().contains(day) && !t.projects.dom().contains(
            key,
        ) {
            lemma_from_nothing(e.daily@[day]);
        }
    }
}

proof fn lemma_from_nothing(d: DailyTotals)
    ensures
        crate::usage::snapshot::day_sum(crate::usage::session::empty_day(), d) == d,
{
}

/// Tokens of a model count for that model on the days of the chart, and not on other days: a day
/// that the chart does not show adds nothing.
pub proof fn model_tokens_count_on_shown_days(
    m: Map<Seq<char>, i64>,
    list: Seq<(String, crate::strmap::StrMap<i64>)>,
    day: (String, crate::strmap::StrMap<i64>),
    shown: Seq<Seq<char>>,
)
    ensures
        !shown.contains(day.0@) ==> with_model_days(m, list.push(day), shown) == with_model_days(
            m,
            list,
            shown,
        ),
        shown.contains(day.0@) ==> with_model_days(m, list.push(day), shown) == with_models(
            with_model_days(m, list, shown),
            day.1.entries@,
        ),
{
    assert(list.push(day).drop_last() =~= list);
}

/// Tokens are added to the model that they are of, and every other model keeps what it has; where
/// the map has room for the model or knows it, none of them go elsewhere.
pub proof fn tokens_are_added_to_their_model(
    m: Map<Seq<char>, i64>,
    list: Seq<(String, i64)>,
    model: String,
    tokens: i64,
    other: Seq<char>,
)
    requires
        tokens > 0,
        with_models(m, list).dom().len() < crate::usage::session::MAX_DISTINCT_MODELS
            || with_models(m, list).dom().contains(model@),
        other != model@,
    ensures
        ({
            let before = with_models(m, list);
            let after = with_models(m, list.push((model, tokens)));
            &&& after.dom().contains(model@)
            &&& !before.dom().contains(model@) ==> after[model@] == tokens
            &&& before.dom().contains(model@) && before[model@] + tokens <= i64::MAX
                ==> after[model@] == before[model@] + tokens
            &&& after.dom().contains(other) <==> before.dom().contains(other)
            &&& before.dom().contains(other) ==> after[other] == before[other]
        }),
{
    assert(list.push((model, tokens)).drop_last() =~= list);
}

/// Files stand from the one that was changed last to the one that was changed first; one whose time
/// is not known stands behind them.
pub proof fn newest_files_stand_first(
    files: Seq<SessionFileCandidate>,
    ordered: Seq<SessionFileCandidate>,
    i: int,
    j: int,
)
    requires
        is_sorting(files, ordered),
        0 <= i < j < ordered.len(),
    ensures
        ordered[j].modified_epoch_secs is Some ==> ordered[i].modified_epoch_secs is Some
            && ordered[i].modified_epoch_secs->0 >= ordered[j].modified_epoch_secs->0,
        ordered[i].modified_epoch_secs == ordered[j].modified_epoch_secs ==> ordered[i].len
            <= ordered[j].len,
{
    assert(!ordered[j].before(ordered[i]));
}

/// A file is too old where it was changed before the oldest day that counts, and only where both
/// times are known.
pub proof fn old_files_are_left_out(c: SessionFileCandidate, limit: u64, t: u64)
    ensures
        c.modified_epoch_secs == Some(t) ==> (too_old(c, Some(limit)) <==> t < limit),
        c.modified_epoch_secs is None ==> !too_old(c, Some(limit)),
        !too_old(c, None),
{
}

/// What files weigh together.
pub open spec fn weights(cs: Seq<SessionFileCandidate>, from: int, limits: ScanLimits) -> nat
    decreases cs.len() - from,
{
    if from < 0 || from >= cs.len() {
        0
    } else {
        weight(cs[from], limits) + weights(cs, from + 1, limits)
    }
}

proof fn lemma_plan_all(
    cs: Seq<SessionFileCandidate>,
    i: int,
    limits: ScanLimits,
    files: nat,
    bytes: nat,
    k: int,
)
    requires
        0 <= i <= k < cs.len() <= usize::MAX,
        files + (cs.len() - i) <= limits.max_session_files_scanned,
        bytes + weights(cs, i, limits) <= limits.max_session_total_bytes,
        forall|j: int| 0 <= j < cs.len() ==> (#[trigger] cs[j]).len > 0,
    ensures
        plan_from(cs, i, None, limits, files, bytes).contains(k as usize),
    decreases cs.len() - i,
{
    let w = weight(cs[i], limits);
    assert(w >= 1);
    let rest = if limits.full_scan {
        plan_from(cs, i + 1, None, limits, files, bytes)
    } else {
        plan_from(cs, i + 1, None, limits, files + 1, bytes + w)
    };
    let all = plan_from(cs, i, None, limits, files, bytes);
    assert(all == seq![i as usize] + rest);
    if i == k {
        assert(all[0] == k as usize);
    } else {
        if limits.full_scan {
            lemma_plan_all(cs, i + 1, limits, files, bytes, k);
        } else {
            lemma_plan_all(cs, i + 1, limits, files + 1, bytes + w, k);
        }
        let p = choose|p: int| 0 <= p < rest.len() && rest[p] == k as usize;
        assert(all[p + 1] == k as usize);
    }
}

/// Where the limits have room for all files, every file is planned.
pub proof fn files_that_fit_are_planned(
    cs: Seq<SessionFileCandidate>,
    limits: ScanLimits,
    k: int,
)
    requires
        0 <= k < cs.len() <= usize::MAX,
        cs.len() <= limits.max_session_files_scanned,
        weights(cs, 0, limits) <= limits.max_session_total_bytes,
        forall|j: int| 0 <= j < cs.len() ==> (#[trigger] cs[j]).len > 0,
    ensures
        plan(cs, None, limits).contains(k as usize),
{
    lemma_plan_all(cs, 0, limits, 0, 0, k);
}

/// The newest file is planned in every case, however large it is, unless nothing may be read.
pub proof fn newest_file_is_planned(
    cs: Seq<SessionFileCandidate>,
    cutoff: Option<u64>,
    limits: ScanLimits,
)
    requires
        cs.len() > 0,
        !too_old(cs[0], cutoff),
        limits.full_scan || (limits.max_session_files_scanned > 0 && limits.max_session_total_bytes
            > 0),
    ensures
        plan(cs, cutoff, limits).len() > 0,
        plan(cs, cutoff, limits)[0] == 0,
{
}

/// A file is as the cache knows it where it was read to its end and neither its size nor its time
/// has changed; any change to these makes it read again, where it is planned and there is time.
pub proof fn changed_files_are_read_again(
    e: CachedFileScanEntry,
    c: SessionFileCandidate,
    limits: ScanLimits,
)
    ensures
        up_to_date(e, c) ==> e.size == c.len && e.modified_epoch_secs == c.modified_epoch_secs
            && e.fully_parsed && e.file_offset >= c.len,
        e.size != c.len ==> action_for(true, Some(e), c, limits, false) == ScanAction::Parse,
        e.modified_epoch_secs != c.modified_epoch_secs ==> action_for(
            true,
            Some(e),
            c,
            limits,
            false,
        ) == ScanAction::Parse,
        !e.fully_parsed ==> action_for(true, Some(e), c, limits, false) == ScanAction::Parse,
{
}

/// What is not read counts by what the cache knows of it, and not at all where the cache knows
/// nothing: where time is up, and where it is not planned.
pub proof fn files_that_are_not_read_count_by_the_cache(
    e: CachedFileScanEntry,
    c: SessionFileCandidate,
    limits: ScanLimits,
    planned: bool,
    late: bool,
)
    requires
        !planned || late,
    ensures
        action_for(planned, Some(e), c, limits, late) != ScanAction::Parse,
        action_for(planned, Some(e), c, limits, late) != ScanAction::Skip,
        action_for(planned, None, c, limits, late) == ScanAction::Skip,
        action_for(true, None, c, limits, false) == ScanAction::Parse,
{
}

/// Reading goes on where it ended in a file that has grown, and starts anew in one that has shrunk
/// or was replaced by one of the same size.
pub proof fn grown_files_are_resumed(e: CachedFileScanEntry, len: u64, modified: Option<u64>)
    ensures
        0 < e.file_offset <= e.size < len ==> resumes(e, len, modified),
        e.file_offset == 0 ==> !resumes(e, len, modified),
        len < e.file_offset ==> !resumes(e, len, modified),
        len < e.size ==> !resumes(e, len, modified),
        len == e.size && modified != e.modified_epoch_secs ==> !resumes(e, len, modified),
        len == e.size && e.fully_parsed ==> !resumes(e, len, modified),
{
}

/// Files that are gone leave the cache and the others stay as they are.
pub proof fn gone_files_leave_the_cache(
    store: Map<Seq<char>, CachedFileScanEntry>,
    cs: Seq<SessionFileCandidate>,
    i: int,
    path: Seq<char>,
)
    requires
        0 <= i < cs.len(),
        forall|k: int| 0 <= k < cs.len() ==> (#[trigger] cs[k]).path@ != path,
    ensures
        !without_gone(store, cs).dom().contains(path),
        without_gone(store, cs).dom().contains(cs[i].path@) <==> store.dom().contains(cs[i].path@),
        store.dom().contains(cs[i].path@) ==> without_gone(store, cs)[cs[i].path@]
            == store[cs[i].path@],
{
    assert(paths_of(cs)[i] == cs[i].path@);
    if paths_of(cs).contains(path) {
        let k = choose|k: int| 0 <= k < paths_of(cs).len() && paths_of(cs)[k] == path;
        assert(cs[k].path@ == path);
    }
}

/// How far a scan is: one file more counts as read where the cache has it to its end, and adds as
/// many bytes as were read of it.
pub proof fn progress_counts_every_file(
    cs: Seq<SessionFileCandidate>,
    c: SessionFileCandidate,
    store: Map<Seq<char>, CachedFileScanEntry>,
)
    ensures
        store.dom().contains(c.path@) && store[c.path@].fully_parsed ==> whole_files(
            cs.push(c),
            store,
        ) == whole_files(cs, store) + 1,
        store.dom().contains(c.path@) && !store[c.path@].fully_parsed ==> whole_files(
            cs.push(c),
            store,
        ) == whole_files(cs, store),
        !store.dom().contains(c.path@) ==> whole_files(cs.push(c), store) == whole_files(cs, store)
            && bytes_read(cs.push(c), store) == bytes_read(cs, store),
        store.dom().contains(c.path@) ==> bytes_read(cs.push(c), store) == bytes_read(cs, store)
            + store[c.path@].file_offset,
        whole_files(Seq::empty(), store) == 0,
        bytes_read(Seq::empty(), store) == 0,
        whole_files(cs, store) <= cs.len(),
    decreases cs.len(),
{
    assert(cs.push(c).drop_last() =~= cs);
    if cs.len() > 0 {
        progress_counts_every_file(cs.drop_last(), cs.last(), store);
        assert(cs.drop_last().push(cs.last()) =~= cs);
    }
}

/// A project has as many sessions in the cache as files that were read to their ends have its key.
pub proof fn sessions_of_a_project_are_counted(
    entries: Seq<(String, CachedFileScanEntry)>,
    more: (String, CachedFileScanEntry),
    key: Seq<char>,
)
    ensures
        more.1.fully_parsed && more.1.session_cwd is Some && project_key(more.1.session_cwd->0@)
            == key ==> sessions_of(entries.push(more), key) == sessions_of(entries, key) + 1,
        !more.1.fully_parsed || more.1.session_cwd is None || project_key(
            more.1.session_cwd->0@,
        ) != key ==> sessions_of(entries.push(more), key) == sessions_of(entries, key),
        sessions_of(Seq::empty(), key) == 0,
{
    assert(entries.push(more).drop_last() =~= entries);
    let counted = is_session_of(more.1, key);
}

/// What is written to the cache: a file that changed has its new row, one that was removed has none,
/// and every other one keeps the row that it had.
pub proof fn rows_are_written_for_what_changed(
    rows: Map<Seq<char>, StoredRow>,
    removed: Set<Seq<char>>,
    dirty: Set<Seq<char>>,
    store: Map<Seq<char>, CachedFileScanEntry>,
    path: Seq<char>,
)
    ensures
        ({
            let after = rows_after(rows, removed, dirty, store);
            &&& dirty.contains(path) && store.dom().contains(path) ==> after.dom().contains(path)
                && after[path].row.updated_at == store[path].updated_at
                && after[path].parser_state == Some(store[path].parser_state)
            &&& removed.contains(path) && !dirty.contains(path) ==> !after.dom().contains(path)
            &&& !removed.contains(path) && !dirty.contains(path) ==> (after.dom().contains(path)
                <==> rows.dom().contains(path)) && (rows.dom().contains(path) ==> after[path]
                == rows[path])
        }),
{
}

/// Every row is either read or known to be of no use, and never both.
pub proof fn rows_are_read_or_of_no_use(rows: Map<Seq<char>, StoredRow>, path: Seq<char>)
    ensures
        rows.dom().contains(path) ==> (loaded(rows).dom().contains(path) <==> !unusable(
            rows,
        ).contains(path)),
        !rows.dom().contains(path) ==> !loaded(rows).dom().contains(path) && !unusable(
            rows,
        ).contains(path),
        loaded(rows).dom().contains(path) ==> rows[path].parser_state == Some(
            loaded(rows)[path].parser_state,
        ) && rows[path].daily == Some(loaded(rows)[path].daily),
{
}

/// A full scan leaves no file out for its age. Any other goes back to the start of the oldest day
/// that is shown, and where this is not known, a fixed time.
pub proof fn full_scans_leave_nothing_out(
    start: Option<u64>,
    fallback: Option<u64>,
    full: Option<u64>,
    usual: Option<u64>,
    c: SessionFileCandidate,
)
    requires
        call_ensures(scan_cutoff, (true, start, fallback), full),
        call_ensures(scan_cutoff, (false, start, fallback), usual),
    ensures
        !too_old(c, full),
        start is Some && c.modified_epoch_secs is Some ==> (too_old(c, usual) <==>
            c.modified_epoch_secs->0 < start->0),
        start is None ==> usual == fallback,
{
}

/// A scan is complete exactly where it was not cut short and got to the end of the file. What is
/// kept of it is what it found, at the place that it got to, for the file as it was.
pub proof fn scans_keep_what_they_found(
    scan: FileScan,
    offset: u64,
    c: SessionFileCandidate,
    in_time: bool,
    now: i64,
    summary: FileScanSummary,
    entry: CachedFileScanEntry,
)
    requires
        scan.wf(),
        call_ensures(FileScan::finish, (scan, offset, c.len, in_time), summary),
        call_ensures(entry_for, (summary, &c, now), entry),
    ensures
        entry.fully_parsed <==> in_time && offset >= c.len,
        offset <= c.len ==> entry.file_offset == offset,
        entry.file_offset <= c.len,
        entry.fully_parsed ==> entry.file_offset == c.len,
        entry.size == c.len,
        entry.modified_epoch_secs == c.modified_epoch_secs,
        entry.daily == scan.daily,
        entry.model_totals_by_day == scan.model_totals_by_day,
        entry.session_cwd == scan.session_cwd,
        entry.parser_state == scan.parser_state,
        entry.updated_at == now,
{
}

} // verus!
