//! Which session files a refresh reads, and what the scan cache keeps of them.

use crate::sort::{is_sorting, stable_sort, Precedes};
use crate::strmap::StrMap;
use crate::text::opt_view;
use crate::usage::session::{
    fresh_scan, models_view, models_wf, DailyTotals, FileScan, ModelsByDay, ParserState, ScanModel,
};
use std::collections::HashSet;
use vstd::prelude::*;

verus! {

broadcast use vstd::std_specs::hash::group_hash_axioms;

pub const DEFAULT_MAX_SESSION_FILE_BYTES: u64 = 268_435_456;

pub const DEFAULT_MAX_SESSION_TOTAL_BYTES: u64 = 268_435_456;

pub const DEFAULT_MAX_SESSION_FILES_SCANNED: usize = 10_000;

pub const DEFAULT_MAX_JSONL_LINE_BYTES: usize = 524_288;

pub const DEFAULT_SCAN_TIME_BUDGET_MS: u64 = 1_500;

pub const DEFAULT_SCAN_CACHE_MAX_ENTRIES: usize = 50_000;

/// Version of the scan cache's tables.
pub const SCAN_CACHE_DB_SCHEMA_VERSION: i64 = 3;

/// Limits of one refresh.
#[derive(Debug, Clone, Copy)]
pub struct ScanLimits {
    pub max_session_file_bytes: u64,
    pub max_session_total_bytes: u64,
    pub max_session_files_scanned: usize,
    pub max_jsonl_line_bytes: usize,
    pub scan_time_budget_ms: u64,
    pub full_scan: bool,
    pub scan_cache_max_entries: usize,
}

/// The limits that hold where nothing else is configured.
pub open spec fn default_limits() -> ScanLimits {
    ScanLimits {
        max_session_file_bytes: DEFAULT_MAX_SESSION_FILE_BYTES,
        max_session_total_bytes: DEFAULT_MAX_SESSION_TOTAL_BYTES,
        max_session_files_scanned: DEFAULT_MAX_SESSION_FILES_SCANNED,
        max_jsonl_line_bytes: DEFAULT_MAX_JSONL_LINE_BYTES,
        scan_time_budget_ms: DEFAULT_SCAN_TIME_BUDGET_MS,
        full_scan: false,
        scan_cache_max_entries: DEFAULT_SCAN_CACHE_MAX_ENTRIES,
    }
}

impl Default for ScanLimits {
    fn default() -> (r: Self)
        ensures
            r == default_limits(),
    {
        ScanLimits {
            max_session_file_bytes: DEFAULT_MAX_SESSION_FILE_BYTES,
            max_session_total_bytes: DEFAULT_MAX_SESSION_TOTAL_BYTES,
            max_session_files_scanned: DEFAULT_MAX_SESSION_FILES_SCANNED,
            max_jsonl_line_bytes: DEFAULT_MAX_JSONL_LINE_BYTES,
            scan_time_budget_ms: DEFAULT_SCAN_TIME_BUDGET_MS,
            full_scan: false,
            scan_cache_max_entries: DEFAULT_SCAN_CACHE_MAX_ENTRIES,
        }
    }
}

/// A session file as the directory lists it.
#[derive(Debug)]
pub struct SessionFileCandidate {
    pub path: String,
    pub len: u64,
    pub modified_epoch_secs: Option<u64>,
}

/// What the scan cache holds of one session file.
#[derive(Debug)]
pub struct CachedFileScanEntry {
    pub size: u64,
    pub modified_epoch_secs: Option<u64>,
    pub file_offset: u64,
    pub fully_parsed: bool,
    pub session_cwd: Option<String>,
    pub parser_state: ParserState,
    pub daily: StrMap<DailyTotals>,
    pub model_totals_by_day: ModelsByDay,
    pub updated_at: i64,
}

/// What reading a session file gave.
#[derive(Debug)]
pub struct FileScanSummary {
    pub session_cwd: Option<String>,
    pub parser_state: ParserState,
    pub file_offset: u64,
    pub fully_parsed: bool,
    pub daily: StrMap<DailyTotals>,
    pub model_totals_by_day: ModelsByDay,
}

/// The time of the last change; a file without one counts as oldest.
pub open spec fn recency(c: SessionFileCandidate) -> int {
    match c.modified_epoch_secs {
        Some(t) => t as int,
        None => -1,
    }
}

impl Precedes for SessionFileCandidate {
    /// Newest change first, then the smaller file.
    open spec fn before(self, other: Self) -> bool {
        recency(self) > recency(other) || (recency(self) == recency(other) && self.len < other.len)
    }

    proof fn before_asymmetric(a: Self, b: Self) {
    }

    proof fn before_weak(a: Self, b: Self, c: Self) {
    }

    fn comes_before(&self, other: &Self) -> (r: bool) {
        let a: i128 = match self.modified_epoch_secs {
            Some(t) => t as i128,
            None => -1,
        };
        let b: i128 = match other.modified_epoch_secs {
            Some(t) => t as i128,
            None => -1,
        };
        a > b || (a == b && self.len < other.len)
    }
}

/// Orders the files: newest change first, then the smaller one.
pub fn sort_candidates(candidates: Vec<SessionFileCandidate>) -> (r: Vec<SessionFileCandidate>)
    ensures
        is_sorting(candidates@, r@),
{
    stable_sort(candidates)
}

/// The oldest change that a refresh looks at: none in a full scan, else the start of the oldest
/// day shown, and where that has no start, a fixed time ago.
pub fn scan_cutoff(full_scan: bool, day_start: Option<u64>, fallback: Option<u64>) -> (r: Option<
    u64,
>)
    ensures
        r == (if full_scan {
            None
        } else if day_start is Some {
            day_start
        } else {
            fallback
        }),
{
    if full_scan {
        None
    } else if day_start.is_some() {
        day_start
    } else {
        fallback
    }
}

/// The file's last change lies before the cutoff.
pub open spec fn too_old(c: SessionFileCandidate, cutoff: Option<u64>) -> bool {
    match (cutoff, c.modified_epoch_secs) {
        (Some(limit), Some(t)) => t < limit,
        _ => false,
    }
}

/// What a file counts for in the byte budget.
pub open spec fn weight(c: SessionFileCandidate, limits: ScanLimits) -> nat {
    let cap = if limits.max_session_file_bytes < 1 {
        1nat
    } else {
        limits.max_session_file_bytes as nat
    };
    if c.len < cap {
        c.len as nat
    } else {
        cap
    }
}

/// A sum that stays at the largest 64-bit number.
pub open spec fn saturated(n: nat) -> nat {
    if n > u64::MAX {
        u64::MAX as nat
    } else {
        n
    }
}

/// The files from place `i` on that a refresh reads, where `files` files of `bytes` bytes are
/// planned already.
pub open spec fn plan_from(
    cs: Seq<SessionFileCandidate>,
    i: int,
    cutoff: Option<u64>,
    limits: ScanLimits,
    files: nat,
    bytes: nat,
) -> Seq<usize>
    decreases cs.len() - i,
{
    if i < 0 || i >= cs.len() {
        Seq::empty()
    } else if too_old(cs[i], cutoff) {
        plan_from(cs, i + 1, cutoff, limits, files, bytes)
    } else if limits.full_scan {
        seq![i as usize] + plan_from(cs, i + 1, cutoff, limits, files, bytes)
    } else if files >= limits.max_session_files_scanned || bytes >= limits.max_session_total_bytes {
        Seq::empty()
    } else if files > 0 && saturated(bytes + weight(cs[i], limits))
        > limits.max_session_total_bytes {
        plan_from(cs, i + 1, cutoff, limits, files, bytes)
    } else {
        seq![i as usize] + plan_from(
            cs,
            i + 1,
            cutoff,
            limits,
            files + 1,
            saturated(bytes + weight(cs[i], limits)),
        )
    }
}

/// The files that a refresh reads.
pub open spec fn plan(
    cs: Seq<SessionFileCandidate>,
    cutoff: Option<u64>,
    limits: ScanLimits,
) -> Seq<usize> {
    plan_from(cs, 0, cutoff, limits, 0, 0)
}

/// Plans the files that a refresh reads.
pub fn plan_scan(
    candidates: &Vec<SessionFileCandidate>,
    cutoff: Option<u64>,
    limits: ScanLimits,
) -> (r: Vec<usize>)
    ensures
        r@ == plan(candidates@, cutoff, limits),
{
    let mut out: Vec<usize> = Vec::new();
    let mut bytes: u64 = 0;
    let mut files: usize = 0;
    let mut i: usize = 0;
    assert(out@ + plan(candidates@, cutoff, limits) =~= plan(candidates@, cutoff, limits));
    while i < candidates.len()
        invariant
            i <= candidates@.len(),
            files <= i,
            out@ + plan_from(candidates@, i as int, cutoff, limits, files as nat, bytes as nat)
                == plan(candidates@, cutoff, limits),
        decreases candidates@.len() - i,
    {
        let c = &candidates[i];
        let old_file = match (cutoff, c.modified_epoch_secs) {
            (Some(limit), Some(t)) => t < limit,
            _ => false,
        };
        if old_file {
            i += 1;
            continue;
        }
        if limits.full_scan {
            let ghost before = out@;
            out.push(i);
            assert(before.push(i) + plan_from(
                candidates@,
                i + 1,
                cutoff,
                limits,
                files as nat,
                bytes as nat,
            ) =~= before + (seq![i] + plan_from(
                candidates@,
                i + 1,
                cutoff,
                limits,
                files as nat,
                bytes as nat,
            )));
            i += 1;
            continue;
        }
        if files >= limits.max_session_files_scanned || bytes >= limits.max_session_total_bytes {
            assert(out@ + Seq::<usize>::empty() =~= out@);
            return out;
        }
        let cap: u64 = if limits.max_session_file_bytes < 1 {
            1
        } else {
            limits.max_session_file_bytes
        };
        let w: u64 = if c.len < cap {
            c.len
        } else {
            cap
        };
        let sum: u64 = bytes.saturating_add(w);
        if files > 0 && sum > limits.max_session_total_bytes {
            i += 1;
            continue;
        }
        let ghost before = out@;
        out.push(i);
        files += 1;
        bytes = sum;
        proof {
            let tail = plan_from(
                candidates@,
                i + 1,
                cutoff,
                limits,
                files as nat,
                bytes as nat,
            );
            assert(before.push(i) + tail =~= before + (seq![i] + tail));
        }
        i += 1;
    }
    assert(out@ + Seq::<usize>::empty() =~= out@);
    out
}

/// A full scan that nothing cuts off reads every file, whatever the limits are.
pub proof fn full_scan_plans_everything(cs: Seq<SessionFileCandidate>, limits: ScanLimits)
    requires
        limits.full_scan,
        cs.len() <= usize::MAX,
    ensures
        plan(cs, None, limits) == Seq::new(cs.len(), |i: int| i as usize),
{
    full_plan_from(cs, 0, limits);
    assert(Seq::new((cs.len() - 0) as nat, |j: int| (0 + j) as usize) =~= Seq::new(
        cs.len(),
        |i: int| i as usize,
    ));
}

proof fn full_plan_from(cs: Seq<SessionFileCandidate>, i: int, limits: ScanLimits)
    requires
        limits.full_scan,
        cs.len() <= usize::MAX,
        0 <= i <= cs.len(),
    ensures
        plan_from(cs, i, None, limits, 0, 0) == Seq::new(
            (cs.len() - i) as nat,
            |j: int| (i + j) as usize,
        ),
    decreases cs.len() - i,
{
    if i < cs.len() {
        full_plan_from(cs, i + 1, limits);
    }
    assert(plan_from(cs, i, None, limits, 0, 0) =~= Seq::new(
        (cs.len() - i) as nat,
        |j: int| (i + j) as usize,
    ));
}

/// The bytes that a plan counts for.
pub open spec fn plan_bytes(
    cs: Seq<SessionFileCandidate>,
    plan: Seq<usize>,
    limits: ScanLimits,
) -> nat
    decreases plan.len(),
{
    if plan.len() == 0 {
        0
    } else {
        weight(cs[plan[0] as int], limits) + plan_bytes(cs, plan.skip(1), limits)
    }
}

/// Outside a full scan a plan keeps to the file limit, and to the byte limit unless it is one file.
pub proof fn plan_keeps_limits(
    cs: Seq<SessionFileCandidate>,
    cutoff: Option<u64>,
    limits: ScanLimits,
)
    requires
        !limits.full_scan,
        cs.len() <= usize::MAX,
        limits.max_session_total_bytes < u64::MAX,
    ensures
        plan(cs, cutoff, limits).len() <= limits.max_session_files_scanned,
        plan(cs, cutoff, limits).len() <= 1 || plan_bytes(cs, plan(cs, cutoff, limits), limits)
            <= limits.max_session_total_bytes,
{
    plan_limits_from(cs, 0, cutoff, limits, 0, 0);
}

proof fn plan_limits_from(
    cs: Seq<SessionFileCandidate>,
    i: int,
    cutoff: Option<u64>,
    limits: ScanLimits,
    files: nat,
    bytes: nat,
)
    requires
        !limits.full_scan,
        cs.len() <= usize::MAX,
        limits.max_session_total_bytes < u64::MAX,
        0 <= i <= cs.len(),
    ensures
        ({
            let p = plan_from(cs, i, cutoff, limits, files, bytes);
            &&& p.len() == 0 || files + p.len() <= limits.max_session_files_scanned
            &&& p.len() == 0 || (files == 0 && p.len() == 1) || bytes + plan_bytes(cs, p, limits)
                <= limits.max_session_total_bytes
        }),
    decreases cs.len() - i,
{
    let p = plan_from(cs, i, cutoff, limits, files, bytes);
    if i < cs.len() && !too_old(cs[i], cutoff) && files < limits.max_session_files_scanned && bytes
        < limits.max_session_total_bytes && !(files > 0 && saturated(
        bytes + weight(cs[i], limits),
    ) > limits.max_session_total_bytes) {
        let more = saturated(bytes + weight(cs[i], limits));
        plan_limits_from(cs, i + 1, cutoff, limits, files + 1, more);
        let tail = plan_from(cs, i + 1, cutoff, limits, files + 1, more);
        assert(p.skip(1) =~= tail);
        if tail.len() == 0 {
            assert(plan_bytes(cs, tail, limits) == 0);
        }
    } else if i < cs.len() {
        plan_limits_from(cs, i + 1, cutoff, limits, files, bytes);
    }
}

/// A plan names existing files that are recent enough, each once and in order.
pub proof fn plan_in_order(
    cs: Seq<SessionFileCandidate>,
    cutoff: Option<u64>,
    limits: ScanLimits,
)
    requires
        cs.len() <= usize::MAX,
    ensures
        forall|k: int|
            0 <= k < plan(cs, cutoff, limits).len() ==> (#[trigger] plan(cs, cutoff, limits)[k])
                < cs.len() && !too_old(cs[plan(cs, cutoff, limits)[k] as int], cutoff),
        forall|k: int, l: int|
            0 <= k < l < plan(cs, cutoff, limits).len() ==> #[trigger] plan(cs, cutoff, limits)[k]
                < #[trigger] plan(cs, cutoff, limits)[l],
{
    plan_order_from(cs, 0, cutoff, limits, 0, 0);
}

proof fn plan_order_from(
    cs: Seq<SessionFileCandidate>,
    i: int,
    cutoff: Option<u64>,
    limits: ScanLimits,
    files: nat,
    bytes: nat,
)
    requires
        cs.len() <= usize::MAX,
        0 <= i <= cs.len(),
    ensures
        ({
            let p = plan_from(cs, i, cutoff, limits, files, bytes);
            &&& forall|k: int|
                0 <= k < p.len() ==> i <= (#[trigger] p[k]) < cs.len() && !too_old(
                    cs[p[k] as int],
                    cutoff,
                )
            &&& forall|k: int, l: int| 0 <= k < l < p.len() ==> #[trigger] p[k] < #[trigger] p[l]
        }),
    decreases cs.len() - i,
{
    if i < cs.len() {
        let more = saturated(bytes + weight(cs[i], limits));
        plan_order_from(cs, i + 1, cutoff, limits, files, bytes);
        plan_order_from(cs, i + 1, cutoff, limits, files + 1, more);
        let a = plan_from(cs, i + 1, cutoff, limits, files, bytes);
        let b = plan_from(cs, i + 1, cutoff, limits, files + 1, more);
        let p = plan_from(cs, i, cutoff, limits, files, bytes);
        if p == seq![i as usize] + a {
            assert forall|k: int| 0 < k < p.len() implies #[trigger] p[k] == a[k - 1] by {}
        } else if p == seq![i as usize] + b {
            assert forall|k: int| 0 < k < p.len() implies #[trigger] p[k] == b[k - 1] by {}
        }
    }
}

/// What happens to one file in a refresh with a scan cache.
#[derive(Debug, Clone, Copy, PartialEq, Eq, Structural)]
pub enum ScanAction {
    /// The cached totals are those of the file.
    UseCached,
    /// The cached totals are older than the file, and count until it is read.
    UseStale,
    /// Nothing is known of the file.
    Skip,
    /// The file is read.
    Parse,
}

/// The cached totals are those of the file as the directory lists it.
pub open spec fn up_to_date(e: CachedFileScanEntry, c: SessionFileCandidate) -> bool {
    e.fully_parsed && e.size == c.len && e.modified_epoch_secs == c.modified_epoch_secs
        && e.file_offset >= c.len
}

/// Tests whether the cached totals are those of the file.
pub fn cache_entry_matches_candidate(
    entry: &CachedFileScanEntry,
    candidate: &SessionFileCandidate,
) -> (r: bool)
    ensures
        r == up_to_date(*entry, *candidate),
{
    let same_time = match (entry.modified_epoch_secs, candidate.modified_epoch_secs) {
        (Some(a), Some(b)) => a == b,
        (None, None) => true,
        _ => false,
    };
    entry.fully_parsed && entry.size == candidate.len && same_time && entry.file_offset
        >= candidate.len
}

/// A full scan without a time budget reads every file again.
pub open spec fn reparse_all(limits: ScanLimits) -> bool {
    limits.full_scan && limits.scan_time_budget_ms == 0
}

/// What happens to a file, by the plan, the cache and the clock.
pub open spec fn action_for(
    planned: bool,
    entry: Option<CachedFileScanEntry>,
    c: SessionFileCandidate,
    limits: ScanLimits,
    out_of_time: bool,
) -> ScanAction {
    if entry is Some && !reparse_all(limits) && up_to_date(entry->0, c) {
        ScanAction::UseCached
    } else if planned && !out_of_time {
        ScanAction::Parse
    } else if entry is Some {
        ScanAction::UseStale
    } else {
        ScanAction::Skip
    }
}

/// Decides what happens to a file in a refresh with a scan cache.
pub fn scan_action(
    planned: bool,
    entry: Option<&CachedFileScanEntry>,
    candidate: &SessionFileCandidate,
    limits: ScanLimits,
    out_of_time: bool,
) -> (r: ScanAction)
    ensures
        r == action_for(
            planned,
            match entry {
                Some(e) => Some(*e),
                None => None,
            },
            *candidate,
            limits,
            out_of_time,
        ),
{
    let force = limits.full_scan && limits.scan_time_budget_ms == 0;
    if let Some(e) = entry {
        if !force && cache_entry_matches_candidate(e, candidate) {
            return ScanAction::UseCached;
        }
    }
    if planned && !out_of_time {
        ScanAction::Parse
    } else if entry.is_some() {
        ScanAction::UseStale
    } else {
        ScanAction::Skip
    }
}

/// Totals of an unchanged file count in every refresh, planned or not, in time or not, unless
/// everything is read again.
pub proof fn unchanged_files_keep_their_totals(
    planned: bool,
    entry: CachedFileScanEntry,
    c: SessionFileCandidate,
    limits: ScanLimits,
    out_of_time: bool,
)
    requires
        up_to_date(entry, c),
        !reparse_all(limits),
    ensures
        action_for(planned, Some(entry), c, limits, out_of_time) == ScanAction::UseCached,
{
}

/// A full scan without a time budget never trusts the cache for a planned file.
pub proof fn full_reparse_ignores_cache(
    entry: Option<CachedFileScanEntry>,
    c: SessionFileCandidate,
    limits: ScanLimits,
)
    requires
        reparse_all(limits),
    ensures
        action_for(true, entry, c, limits, false) == ScanAction::Parse,
{
}

/// Reading goes on behind the cached part of a file: where the file has grown, or where it is as it
/// was and reading had stopped early.
pub open spec fn resumes(
    e: CachedFileScanEntry,
    file_len: u64,
    modified: Option<u64>,
) -> bool {
    0 < e.file_offset <= file_len && (e.size < file_len || (e.size == file_len && !e.fully_parsed
        && e.modified_epoch_secs == modified))
}

/// Tests whether reading goes on behind the cached part of a file.
pub fn can_resume(entry: &CachedFileScanEntry, file_len: u64, modified: Option<u64>) -> (r: bool)
    ensures
        r == resumes(*entry, file_len, modified),
{
    let same_time = match (entry.modified_epoch_secs, modified) {
        (Some(a), Some(b)) => a == b,
        (None, None) => true,
        _ => false,
    };
    entry.file_offset > 0 && entry.file_offset <= file_len && (entry.size < file_len || (entry.size
        == file_len && !entry.fully_parsed && same_time))
}

fn copy_days(m: &StrMap<DailyTotals>) -> (r: StrMap<DailyTotals>)
    requires
        m.wf(),
    ensures
        r.wf(),
        r@ == m@,
{
    let mut out: StrMap<DailyTotals> = StrMap::new();
    let mut i: usize = 0;
    while i < m.entries.len()
        invariant
            i <= m.entries@.len(),
            m.wf(),
            out.wf(),
            out.entries@.len() == i,
            forall|j: int|
                0 <= j < i ==> (#[trigger] out.entries@[j]).0@ == m.entries@[j].0@
                    && out.entries@[j].1 == m.entries@[j].1,
        decreases m.entries@.len() - i,
    {
        assert(!out@.dom().contains(m.entries@[i as int].0@)) by {
            if out@.dom().contains(m.entries@[i as int].0@) {
                let j = choose|j: int|
                    0 <= j < out.entries@.len() && #[trigger] out.entries@[j].0@
                        == m.entries@[i as int].0@;
                assert(m.entries@[j].0@ == m.entries@[i as int].0@);
            }
        }
        out.add_new(m.entries[i].0.clone(), m.entries[i].1);
        i += 1;
    }
    proof {
        lemma_same_entries(*m, out);
    }
    out
}

/// Lists with the same keys and values in the same places are the same map.
proof fn lemma_same_entries<V>(a: StrMap<V>, b: StrMap<V>)
    requires
        a.wf(),
        b.wf(),
        a.entries@.len() == b.entries@.len(),
        forall|j: int|
            0 <= j < a.entries@.len() ==> (#[trigger] b.entries@[j]).0@ == a.entries@[j].0@
                && b.entries@[j].1 == a.entries@[j].1,
    ensures
        a@ == b@,
{
    assert forall|k: Seq<char>| #[trigger] a@.dom().contains(k) implies b@.dom().contains(k) && b@[k]
        == a@[k] by {
        let j = choose|j: int| 0 <= j < a.entries@.len() && #[trigger] a.entries@[j].0@ == k;
        assert(b.entries@[j].0@ == k);
        a.lemma_entry(j);
        b.lemma_entry(j);
    }
    assert forall|k: Seq<char>| #[trigger] b@.dom().contains(k) implies a@.dom().contains(k) by {
        let j = choose|j: int| 0 <= j < b.entries@.len() && #[trigger] b.entries@[j].0@ == k;
        assert(a.entries@[j].0@ == k);
    }
    assert(a@ =~= b@);
}

fn copy_tokens(m: &StrMap<i64>) -> (r: StrMap<i64>)
    requires
        m.wf(),
    ensures
        r.wf(),
        r@ == m@,
{
    let mut out: StrMap<i64> = StrMap::new();
    let mut i: usize = 0;
    while i < m.entries.len()
        invariant
            i <= m.entries@.len(),
            m.wf(),
            out.wf(),
            out.entries@.len() == i,
            forall|j: int|
                0 <= j < i ==> (#[trigger] out.entries@[j]).0@ == m.entries@[j].0@
                    && out.entries@[j].1 == m.entries@[j].1,
        decreases m.entries@.len() - i,
    {
        assert(!out@.dom().contains(m.entries@[i as int].0@)) by {
            if out@.dom().contains(m.entries@[i as int].0@) {
                let j = choose|j: int|
                    0 <= j < out.entries@.len() && #[trigger] out.entries@[j].0@
                        == m.entries@[i as int].0@;
                assert(m.entries@[j].0@ == m.entries@[i as int].0@);
            }
        }
        out.add_new(m.entries[i].0.clone(), m.entries[i].1);
        i += 1;
    }
    proof {
        lemma_same_entries(*m, out);
    }
    out
}

fn copy_models(m: &ModelsByDay) -> (r: ModelsByDay)
    requires
        models_wf(*m),
    ensures
        models_wf(r),
        models_view(r) == models_view(*m),
{
    let mut out: ModelsByDay = StrMap::new();
    let mut i: usize = 0;
    while i < m.entries.len()
        invariant
            i <= m.entries@.len(),
            models_wf(*m),
            out.wf(),
            out.entries@.len() == i,
            forall|j: int|
                0 <= j < i ==> (#[trigger] out.entries@[j]).0@ == m.entries@[j].0@
                    && out.entries@[j].1@ == m.entries@[j].1@ && out.entries@[j].1.wf(),
        decreases m.entries@.len() - i,
    {
        assert(!out@.dom().contains(m.entries@[i as int].0@)) by {
            if out@.dom().contains(m.entries@[i as int].0@) {
                let j = choose|j: int|
                    0 <= j < out.entries@.len() && #[trigger] out.entries@[j].0@
                        == m.entries@[i as int].0@;
                assert(m.entries@[j].0@ == m.entries@[i as int].0@);
            }
        }
        proof {
            m.lemma_entry(i as int);
        }
        let inner = copy_tokens(&m.entries[i].1);
        out.add_new(m.entries[i].0.clone(), inner);
        i += 1;
    }
    proof {
        assert forall|k: Seq<char>| #[trigger] m@.dom().contains(k) implies out@.dom().contains(k)
            && out@[k]@ == m@[k]@ by {
            let j = choose|j: int| 0 <= j < m.entries@.len() && #[trigger] m.entries@[j].0@ == k;
            assert(out.entries@[j].0@ == k);
            m.lemma_entry(j);
            out.lemma_entry(j);
        }
        assert forall|k: Seq<char>| #[trigger] out@.dom().contains(k) implies m@.dom().contains(k)
            && out@[k].wf() by {
            let j = choose|j: int| 0 <= j < out.entries@.len() && #[trigger] out.entries@[j].0@ == k;
            assert(m.entries@[j].0@ == k);
            out.lemma_entry(j);
        }
        assert(models_view(out) =~= models_view(*m));
    }
    out
}

impl CachedFileScanEntry {
    /// The maps hold no key twice.
    pub open spec fn wf(&self) -> bool {
        self.daily.wf() && models_wf(self.model_totals_by_day)
    }

    /// The scan that the entry was made from, without the runs that it had seen.
    pub open spec fn model(&self) -> ScanModel {
        ScanModel {
            cwd: opt_view(self.session_cwd),
            from_meta: self.parser_state.owner_from_meta,
            previous: self.parser_state.previous_totals,
            model: opt_view(self.parser_state.current_model),
            last_ms: self.parser_state.last_activity_ms,
            meta_seen: self.parser_state.first_session_meta_seen,
            replay: self.parser_state.fork_replay,
            daily: self.daily@,
            models: models_view(self.model_totals_by_day),
            runs: Set::empty(),
        }
    }
}

fn copy_text(o: &Option<String>) -> (r: Option<String>)
    ensures
        opt_view(r) == opt_view(*o),
{
    match o {
        Some(s) => Some(s.clone()),
        None => None,
    }
}

impl FileScan {
    /// Goes on where a cached scan ended.
    pub fn resume(entry: &CachedFileScanEntry) -> (r: Self)
        requires
            entry.wf(),
        ensures
            r.wf(),
            r.model() == entry.model(),
    {
        let r = FileScan {
            session_cwd: copy_text(&entry.session_cwd),
            parser_state: ParserState {
                previous_totals: entry.parser_state.previous_totals,
                current_model: copy_text(&entry.parser_state.current_model),
                last_activity_ms: entry.parser_state.last_activity_ms,
                first_session_meta_seen: entry.parser_state.first_session_meta_seen,
                owner_from_meta: entry.parser_state.owner_from_meta,
                fork_replay: entry.parser_state.fork_replay,
            },
            daily: copy_days(&entry.daily),
            model_totals_by_day: copy_models(&entry.model_totals_by_day),
            seen_runs: HashSet::new(),
        };
        assert(r.model() =~= entry.model());
        r
    }

    /// The scan and the offset that reading a file starts with: those of the cache where reading goes
    /// on behind the cached part, unless everything is read again.
    pub fn open(
        existing: Option<&CachedFileScanEntry>,
        file_len: u64,
        modified: Option<u64>,
        limits: ScanLimits,
    ) -> (r: (Self, u64))
        requires
            match existing {
                Some(e) => e.wf(),
                None => true,
            },
        ensures
            r.0.wf(),
            match existing {
                Some(e) => if !reparse_all(limits) && resumes(*e, file_len, modified) {
                    r.0.model() == e.model() && r.1 == e.file_offset
                } else {
                    r.0.model() == fresh_scan() && r.1 == 0
                },
                None => r.0.model() == fresh_scan() && r.1 == 0,
            },
    {
        let force = limits.full_scan && limits.scan_time_budget_ms == 0;
        if let Some(e) = existing {
            if !force && can_resume(e, file_len, modified) {
                return (FileScan::resume(e), e.file_offset);
            }
        }
        (FileScan::start(), 0)
    }

    /// The summary of a scan that read up to `file_offset`; `in_time` where it was not cut short.
    pub fn finish(self, file_offset: u64, file_len: u64, in_time: bool) -> (r: FileScanSummary)
        requires
            self.wf(),
        ensures
            r.session_cwd == self.session_cwd,
            r.parser_state == self.parser_state,
            r.daily == self.daily,
            r.model_totals_by_day == self.model_totals_by_day,
            r.file_offset == (if file_offset < file_len {
                file_offset
            } else {
                file_len
            }),
            r.fully_parsed == (in_time && file_offset >= file_len),
    {
        FileScanSummary {
            session_cwd: self.session_cwd,
            parser_state: self.parser_state,
            file_offset: if file_offset < file_len {
                file_offset
            } else {
                file_len
            },
            fully_parsed: in_time && file_offset >= file_len,
            daily: self.daily,
            model_totals_by_day: self.model_totals_by_day,
        }
    }
}

/// The cache entry of a file that was just read.
pub fn entry_for(
    summary: FileScanSummary,
    candidate: &SessionFileCandidate,
    now_secs: i64,
) -> (r: CachedFileScanEntry)
    ensures
        r.size == candidate.len,
        r.modified_epoch_secs == candidate.modified_epoch_secs,
        r.file_offset == (if summary.file_offset < candidate.len {
            summary.file_offset
        } else {
            candidate.len
        }),
        r.fully_parsed == summary.fully_parsed,
        r.session_cwd == summary.session_cwd,
        r.parser_state == summary.parser_state,
        r.daily == summary.daily,
        r.model_totals_by_day == summary.model_totals_by_day,
        r.updated_at == now_secs,
{
    CachedFileScanEntry {
        size: candidate.len,
        modified_epoch_secs: candidate.modified_epoch_secs,
        file_offset: if summary.file_offset < candidate.len {
            summary.file_offset
        } else {
            candidate.len
        },
        fully_parsed: summary.fully_parsed,
        session_cwd: summary.session_cwd,
        parser_state: summary.parser_state,
        daily: summary.daily,
        model_totals_by_day: summary.model_totals_by_day,
        updated_at: now_secs,
    }
}

} // verus!
