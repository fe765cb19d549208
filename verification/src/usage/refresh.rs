//! One refresh of the usage: every session file is counted once, from the cache or by reading it.

use crate::app::worker::ScanProgress;
use crate::calendar::Weekday;
use crate::paths::{lies_under, nested, plain_path};
use crate::strmap::StrMap;
use crate::text::{opt_str, opt_view, same, views};
use crate::usage::region::{path_matches_workspace, plausible_path};
use crate::usage::scan::{
    action_for, entry_for, plan, plan_scan, scan_action, CachedFileScanEntry, FileScanSummary,
    ScanAction, ScanLimits, SessionFileCandidate,
};
use crate::usage::session::{empty_day, models_wf};
use crate::usage::snapshot::{
    lookup, normalize_project_key, project_key, with_session, LocalUsageSnapshot, UsageAccumulator, UsageModel,
};
use crate::usage::summary::{build_snapshot, is_snapshot};
use vstd::prelude::*;

verus! {

/// What a machine may say of a session and a workspace: one without a plausible directory is outside
/// every workspace, and one in the directory of the workspace, or in one that plainly continues it, is
/// inside. Where both paths are plain, a session is inside exactly where its directory is plausible
/// and the workspace or one below it.
pub open spec fn machine_agrees(cwd: Option<Seq<char>>, workspace: Seq<char>, inside: bool) -> bool {
    &&& inside ==> cwd is Some && plausible_path(cwd->0)
    &&& cwd == Some(workspace) && plausible_path(workspace) ==> inside
    &&& cwd is Some && nested(cwd->0, workspace) && plausible_path(cwd->0) ==> inside
    &&& cwd is Some && plain_path(cwd->0) && plain_path(workspace) ==> inside == (plausible_path(
        cwd->0,
    ) && lies_under(cwd->0, workspace))
}

/// The texts of the paths decide whether a session lies in a workspace.
pub open spec fn settled(cwd: Option<Seq<char>>, workspace: Seq<char>) -> bool {
    match cwd {
        Some(path) => !plausible_path(path) || path == workspace || nested(path, workspace) || (
        plain_path(path) && plain_path(workspace)),
        None => true,
    }
}

/// The totals with those of one session, where sessions outside a workspace do not count. What the
/// machine says of two paths is left open as far as [`machine_agrees`] leaves it.
pub open spec fn counts(
    before: UsageModel,
    e: CachedFileScanEntry,
    workspace: Option<Seq<char>>,
    chart_days: Seq<Seq<char>>,
    after: UsageModel,
) -> bool {
    match workspace {
        None => after == with_session(before, e, false, true, chart_days),
        Some(w) => exists|inside: bool|
            machine_agrees(opt_view(e.session_cwd), w, inside) && after == #[trigger] with_session(
                before,
                e,
                true,
                inside,
                chart_days,
            ),
    }
}

/// Adds the totals of one session, where it lies in the workspace.
pub fn count_session(
    totals: &mut UsageAccumulator,
    entry: &CachedFileScanEntry,
    workspace: Option<&str>,
    chart_days: &Vec<String>,
)
    requires
        old(totals).wf(),
        entry.wf(),
    ensures
        final(totals).wf(),
        counts(
            old(totals).model(),
            *entry,
            opt_str(workspace),
            views(chart_days@),
            final(totals).model(),
        ),
{
    match workspace {
        None => totals.apply_cached_file_entry(entry, false, true, chart_days),
        Some(path) => {
            let inside = match &entry.session_cwd {
                Some(cwd) => path_matches_workspace(cwd.as_str(), path),
                None => false,
            };
            let ghost before = totals.model();
            totals.apply_cached_file_entry(entry, true, inside, chart_days);
            assert(totals.model() == with_session(
                before,
                *entry,
                true,
                inside,
                views(chart_days@),
            ));
        },
    }
}

/// The entries of the cache by their paths are in order.
pub open spec fn store_wf(store: StrMap<CachedFileScanEntry>) -> bool {
    store.wf() && forall|k: Seq<char>| #[trigger] store@.dom().contains(k) ==> store@[k].wf()
}

/// A refresh under way.
#[derive(Debug)]
pub struct ScanPass {
    pub candidates: Vec<SessionFileCandidate>,
    pub planned: Vec<usize>,
    pub limits: ScanLimits,
    pub workspace: Option<String>,
    pub chart_days: Vec<String>,
    pub cached: bool,
    pub store: StrMap<CachedFileScanEntry>,
    pub dirty: Vec<String>,
    pub removed: Vec<String>,
    pub totals: UsageAccumulator,
    pub next: usize,
}

/// The paths of the files.
pub open spec fn paths_of(cs: Seq<SessionFileCandidate>) -> Seq<Seq<char>> {
    cs.map_values(|c: SessionFileCandidate| c.path@)
}

/// The cache without the files that are gone.
pub open spec fn without_gone(
    store: Map<Seq<char>, CachedFileScanEntry>,
    cs: Seq<SessionFileCandidate>,
) -> Map<Seq<char>, CachedFileScanEntry> {
    store.restrict(Set::new(|k: Seq<char>| paths_of(cs).contains(k)))
}

impl ScanPass {
    /// The refresh is in order.
    pub open spec fn wf(&self) -> bool {
        &&& store_wf(self.store)
        &&& self.totals.wf()
        &&& self.next <= self.candidates@.len()
        &&& !self.cached ==> self.store@.dom().is_empty()
    }

    /// What the cache holds of the next file.
    pub open spec fn known(&self) -> Option<CachedFileScanEntry> {
        lookup(self.store@, self.candidates@[self.next as int].path@)
    }

    /// What happens to the next file.
    pub open spec fn action(&self, out_of_time: bool) -> ScanAction {
        let planned = self.planned@.contains(self.next);
        if self.cached {
            action_for(
                planned,
                self.known(),
                self.candidates@[self.next as int],
                self.limits,
                out_of_time,
            )
        } else if planned {
            ScanAction::Parse
        } else {
            ScanAction::Skip
        }
    }

    /// What a refresh keeps from beginning to end.
    pub open spec fn keeps(&self, other: ScanPass) -> bool {
        &&& self.candidates == other.candidates
        &&& self.planned == other.planned
        &&& self.limits == other.limits
        &&& self.workspace == other.workspace
        &&& self.chart_days == other.chart_days
        &&& self.cached == other.cached
        &&& self.removed == other.removed
    }

    /// The next file counts with the given totals.
    pub open spec fn counted(&self, e: CachedFileScanEntry, after: UsageModel) -> bool {
        counts(
            self.totals.model(),
            e,
            opt_view(self.workspace),
            views(self.chart_days@),
            after,
        )
    }
}

/// How a refresh goes on.
#[derive(Debug, Clone, Copy, PartialEq, Eq, Structural)]
pub enum PassStep {
    /// One file is done with.
    Counted,
    /// This file is to be read.
    Read(usize),
    /// All files are done with.
    Done,
}

fn holds_path(cs: &Vec<SessionFileCandidate>, path: &str) -> (r: bool)
    ensures
        r == paths_of(cs@).contains(path@),
{
    let mut i: usize = 0;
    while i < cs.len()
        invariant
            i <= cs@.len(),
            forall|j: int| 0 <= j < i ==> (#[trigger] cs@[j]).path@ != path@,
        decreases cs@.len() - i,
    {
        if same(cs[i].path.as_str(), path) {
            assert(paths_of(cs@)[i as int] == path@);
            return true;
        }
        i += 1;
    }
    assert(!paths_of(cs@).contains(path@)) by {
        if paths_of(cs@).contains(path@) {
            let j = choose|j: int| 0 <= j < paths_of(cs@).len() && paths_of(cs@)[j] == path@;
            assert(cs@[j].path@ == path@);
        }
    }
    false
}

fn holds_index(list: &Vec<usize>, index: usize) -> (r: bool)
    ensures
        r == list@.contains(index),
{
    let mut i: usize = 0;
    while i < list.len()
        invariant
            i <= list@.len(),
            forall|j: int| 0 <= j < i ==> list@[j] != index,
        decreases list@.len() - i,
    {
        if list[i] == index {
            return true;
        }
        i += 1;
    }
    false
}

/// Takes the files that are gone out of the cache and notes their paths.
fn drop_gone(
    store: StrMap<CachedFileScanEntry>,
    candidates: &Vec<SessionFileCandidate>,
    removed: &mut Vec<String>,
) -> (r: StrMap<CachedFileScanEntry>)
    requires
        store_wf(store),
    ensures
        store_wf(r),
        r@ == without_gone(store@, candidates@),
        forall|k: Seq<char>| #[trigger]
            views(final(removed)@).contains(k) <==> views(old(removed)@).contains(k) || (
            store@.dom().contains(k) && !paths_of(candidates@).contains(k)),
{
    let ghost all = store;
    let ghost before = views(removed@);
    let mut rest = store;
    let mut kept: StrMap<CachedFileScanEntry> = StrMap::new();
    let ghost paths = paths_of(candidates@);
    assert(rest.entries@ =~= all.entries@.take(rest.entries@.len() as int));
    while rest.entries.len() > 0
        invariant
            store_wf(all),
            store_wf(kept),
            paths == paths_of(candidates@),
            rest.entries@.len() <= all.entries@.len(),
            rest.entries@ == all.entries@.take(rest.entries@.len() as int),
            forall|k: Seq<char>| #[trigger]
                kept@.dom().contains(k) <==> paths.contains(k) && (exists|j: int|
                    rest.entries@.len() <= j < all.entries@.len()
                        && #[trigger] all.entries@[j].0@ == k),
            forall|k: Seq<char>| #[trigger] kept@.dom().contains(k) ==> kept@[k] == all@[k],
            forall|k: Seq<char>| #[trigger]
                views(removed@).contains(k) <==> before.contains(k) || (!paths.contains(k) && exists|
                    j: int,
                |
                    rest.entries@.len() <= j < all.entries@.len()
                        && #[trigger] all.entries@[j].0@ == k),
        decreases rest.entries@.len(),
    {
        let ghost n = rest.entries@.len() - 1;
        let ghost kept_before = kept@;
        let ghost gone_before = views(removed@);
        match rest.entries.pop() {
            Some((path, entry)) => {
                let ghost key = path@;
                let ghost value = entry;
                proof {
                    assert(all.entries@[n] == (path, entry));
                    all.lemma_entry(n);
                    assert(rest.entries@ =~= all.entries@.take(n));
                    assert(!kept@.dom().contains(key)) by {
                        if kept@.dom().contains(key) {
                            let j = choose|j: int|
                                n + 1 <= j < all.entries@.len()
                                    && #[trigger] all.entries@[j].0@ == key;
                            assert(all.entries@[n].0@ != all.entries@[j].0@);
                        }
                    }
                }
                if holds_path(candidates, path.as_str()) {
                    kept.add_new(path, entry);
                    assert(kept@ =~= kept_before.insert(key, value));
                } else {
                    let ghost list = removed@;
                    removed.push(path);
                    assert(views(removed@) =~= views(list).push(key));
                    assert(views(removed@)[list.len() as int] == key);
                }
                proof {
                    assert forall|k: Seq<char>| #[trigger] kept@.dom().contains(k)
                        <==> paths.contains(k) && (exists|j: int|
                        n <= j < all.entries@.len() && #[trigger] all.entries@[j].0@ == k) by {
                        assert(all.entries@[n].0@ == key);
                        assert(kept_before.dom().contains(k) <==> paths.contains(k) && (exists|
                            j: int,
                        |
                            n + 1 <= j < all.entries@.len()
                                && #[trigger] all.entries@[j].0@ == k));
                    }
                    assert forall|k: Seq<char>| #[trigger] views(removed@).contains(k)
                        <==> before.contains(k) || (!paths.contains(k) && exists|j: int|
                        n <= j < all.entries@.len() && #[trigger] all.entries@[j].0@ == k) by {
                        assert(all.entries@[n].0@ == key);
                        assert(gone_before.contains(k) <==> before.contains(k) || (
                        !paths.contains(k) && exists|j: int|
                            n + 1 <= j < all.entries@.len()
                                && #[trigger] all.entries@[j].0@ == k));
                        if gone_before.contains(k) {
                            let j = choose|j: int|
                                0 <= j < gone_before.len() && gone_before[j] == k;
                            assert(views(removed@)[j] == k);
                        }
                        if views(removed@).contains(k) {
                            let j = choose|j: int|
                                0 <= j < views(removed@).len() && views(removed@)[j] == k;
                            if j < gone_before.len() {
                                assert(gone_before[j] == k);
                            }
                        }
                    }
                }
            },
            None => {},
        }
    }
    proof {
        assert forall|k: Seq<char>| #[trigger] all@.dom().contains(k) <==> (exists|j: int|
            0 <= j < all.entries@.len() && #[trigger] all.entries@[j].0@ == k) by {}
        assert(kept@ =~= without_gone(all@, candidates@));
    }
    kept
}

/// How many of some files were read to their ends.
pub open spec fn whole_files(
    cs: Seq<SessionFileCandidate>,
    store: Map<Seq<char>, CachedFileScanEntry>,
) -> nat
    decreases cs.len(),
{
    if cs.len() == 0 {
        0
    } else {
        let path = cs.last().path@;
        whole_files(cs.drop_last(), store) + if store.dom().contains(path)
            && store[path].fully_parsed {
            1nat
        } else {
            0nat
        }
    }
}

/// How many bytes of some files were read.
pub open spec fn bytes_read(
    cs: Seq<SessionFileCandidate>,
    store: Map<Seq<char>, CachedFileScanEntry>,
) -> nat
    decreases cs.len(),
{
    if cs.len() == 0 {
        0
    } else {
        let path = cs.last().path@;
        bytes_read(cs.drop_last(), store) + if store.dom().contains(path) {
            store[path].file_offset as nat
        } else {
            0nat
        }
    }
}

/// A session of a project, by the key of the project, that was read to its end.
pub open spec fn is_session_of(e: CachedFileScanEntry, key: Seq<char>) -> bool {
    e.fully_parsed && e.session_cwd is Some && project_key(e.session_cwd->0@) == key
}

/// How many sessions of a project were read to their ends.
pub open spec fn sessions_of(entries: Seq<(String, CachedFileScanEntry)>, key: Seq<char>) -> nat
    decreases entries.len(),
{
    if entries.len() == 0 {
        0
    } else {
        sessions_of(entries.drop_last(), key) + if is_session_of(entries.last().1, key) {
            1nat
        } else {
            0nat
        }
    }
}

/// What the cache holds: its entries by their paths, and the paths of rows that are no use.
#[derive(Debug)]
pub struct ScanCacheStore {
    pub entries: StrMap<CachedFileScanEntry>,
    pub removed: Vec<String>,
}

impl ScanCacheStore {
    /// A cache without rows.
    pub fn new() -> (r: Self)
        ensures
            store_wf(r.entries),
            r.entries@ == Map::<Seq<char>, CachedFileScanEntry>::empty(),
            r.removed@.len() == 0,
    {
        ScanCacheStore { entries: StrMap::new(), removed: Vec::new() }
    }

    /// Takes one row: its entry, or its path where it has none.
    pub fn note_row(&mut self, path: &str, entry: Option<CachedFileScanEntry>)
        requires
            store_wf(old(self).entries),
            entry is Some ==> entry->0.wf(),
        ensures
            store_wf(final(self).entries),
            match entry {
                Some(e) => final(self).entries@ == old(self).entries@.insert(path@, e) && final(self).removed == old(self).removed,
                None => final(self).entries == old(self).entries && views(final(self).removed@)
                    == views(old(self).removed@).push(path@),
            },
    {
        match entry {
            Some(e) => {
                self.entries.set(path, e);
            },
            None => {
                let ghost before = self.removed@;
                self.removed.push(path.to_owned());
                assert(views(self.removed@) =~= views(before).push(path@));
            },
        }
    }
}

/// Begins a refresh. The files come in the order in which they are looked at. Without a cache only
/// the files that are planned count.
pub fn begin_pass(
    candidates: Vec<SessionFileCandidate>,
    cutoff: Option<u64>,
    limits: ScanLimits,
    workspace: Option<String>,
    chart_days: Vec<String>,
    scan_days: &Vec<String>,
    cache: Option<ScanCacheStore>,
) -> (r: ScanPass)
    requires
        cache is Some ==> store_wf(cache->0.entries),
    ensures
        r.wf(),
        r.candidates == candidates,
        r.planned@ == plan(candidates@, cutoff, limits),
        r.limits == limits,
        r.workspace == workspace,
        r.chart_days == chart_days,
        r.cached == (cache is Some),
        r.store@ == (match cache {
            Some(c) => without_gone(c.entries@, candidates@),
            None => Map::empty(),
        }),
        r.dirty@.len() == 0,
        match cache {
            Some(c) => forall|k: Seq<char>| #[trigger]
                views(r.removed@).contains(k) <==> views(c.removed@).contains(k) || (
                c.entries@.dom().contains(k) && !paths_of(candidates@).contains(k)),
            None => r.removed@.len() == 0,
        },
        r.totals.model() == (UsageModel {
            daily: Map::new(
                |k: Seq<char>| views(scan_days@).contains(k),
                |k: Seq<char>| empty_day(),
            ),
            models: Map::empty(),
            projects: Map::empty(),
            matched: 0,
        }),
        r.next == 0,
{
    let planned = plan_scan(&candidates, cutoff, limits);
    let cached = cache.is_some();
    let (store, removed) = match cache {
        Some(c) => {
            let mut removed = c.removed;
            let kept = drop_gone(c.entries, &candidates, &mut removed);
            (kept, removed)
        },
        None => (StrMap::new(), Vec::new()),
    };
    ScanPass {
        candidates,
        planned,
        limits,
        workspace,
        chart_days,
        cached,
        store,
        dirty: Vec::new(),
        removed,
        totals: UsageAccumulator::for_days(scan_days),
        next: 0,
    }
}

fn path_text(o: &Option<String>) -> (r: Option<&str>)
    ensures
        opt_str(r) == opt_view(*o),
{
    match o {
        Some(s) => Some(s.as_str()),
        None => None,
    }
}

impl ScanPass {
    /// Goes to the next file. One that the cache knows counts from it; one that is to be read is
    /// left to the caller.
    pub fn advance(&mut self, out_of_time: bool) -> (r: PassStep)
        requires
            old(self).wf(),
        ensures
            final(self).wf(),
            final(self).keeps(*old(self)),
            final(self).store == old(self).store,
            final(self).dirty == old(self).dirty,
            match r {
                PassStep::Done => old(self).next == old(self).candidates@.len() && *final(self)
                    == *old(self),
                PassStep::Read(i) => i == old(self).next < old(self).candidates@.len() && old(self).action(out_of_time) == ScanAction::Parse && *final(self) == *old(self),
                PassStep::Counted => old(self).next < old(self).candidates@.len() && final(self).next == old(self).next + 1 && match old(self).action(out_of_time) {
                    ScanAction::UseCached | ScanAction::UseStale => old(self).known() is Some
                        && old(self).counted(old(self).known()->0, final(self).totals.model()),
                    ScanAction::Skip => final(self).totals == old(self).totals,
                    ScanAction::Parse => false,
                },
            },
    {
        if self.next >= self.candidates.len() {
            return PassStep::Done;
        }
        let planned = holds_index(&self.planned, self.next);
        if !self.cached {
            if planned {
                return PassStep::Read(self.next);
            }
            self.next += 1;
            return PassStep::Counted;
        }
        let known = self.store.get(self.candidates[self.next].path.as_str());
        let action = scan_action(
            planned,
            known,
            &self.candidates[self.next],
            self.limits,
            out_of_time,
        );
        match action {
            ScanAction::Parse => {
                return PassStep::Read(self.next);
            },
            ScanAction::Skip => {},
            _ => {
                if let Some(entry) = known {
                    count_session(
                        &mut self.totals,
                        entry,
                        path_text(&self.workspace),
                        &self.chart_days,
                    );
                }
            },
        }
        self.next += 1;
        PassStep::Counted
    }

    /// Takes what came of reading the next file. Where it could not be read, what the cache knows of
    /// it counts on; without a cache the refresh fails.
    pub fn note_read(&mut self, parsed: Option<FileScanSummary>, now_secs: i64) -> (r: bool)
        requires
            old(self).wf(),
            old(self).next < old(self).candidates@.len(),
            parsed is Some ==> parsed->0.daily.wf() && models_wf(parsed->0.model_totals_by_day),
        ensures
            final(self).wf(),
            final(self).keeps(*old(self)),
            r == (parsed is Some || old(self).cached),
            !r ==> *final(self) == *old(self),
            r ==> final(self).next == old(self).next + 1,
            match parsed {
                Some(s) => exists|e: CachedFileScanEntry|
                    #![trigger old(self).counted(e, final(self).totals.model())]
                    is_entry(e, s, old(self).candidates@[old(self).next as int], now_secs)
                        && old(self).counted(e, final(self).totals.model()) && (if old(self).cached {
                        final(self).store@ == old(self).store@.insert(
                            old(self).candidates@[old(self).next as int].path@,
                            e,
                        ) && views(final(self).dirty@) == views(old(self).dirty@).push(
                            old(self).candidates@[old(self).next as int].path@,
                        )
                    } else {
                        final(self).store == old(self).store && final(self).dirty == old(self).dirty
                    }),
                None => final(self).store == old(self).store && final(self).dirty == old(self).dirty && (match old(self).known() {
                    Some(e) => old(self).counted(e, final(self).totals.model()),
                    None => final(self).totals == old(self).totals,
                }),
            },
    {
        let ghost before = *self;
        let total: usize = self.candidates.len();
        assert(self.next < total);
        match parsed {
            Some(summary) => {
                let entry = entry_for(summary, &self.candidates[self.next], now_secs);
                let ghost e = entry;
                assert(is_entry(e, summary, self.candidates@[self.next as int], now_secs));
                count_session(
                    &mut self.totals,
                    &entry,
                    path_text(&self.workspace),
                    &self.chart_days,
                );
                if self.cached {
                    let path = self.candidates[self.next].path.as_str().to_owned();
                    let ghost list = self.dirty@;
                    self.store.set(path.as_str(), entry);
                    self.dirty.push(path);
                    assert(views(self.dirty@) =~= views(list).push(path@));
                }
                self.next += 1;
                assert(before.counted(e, self.totals.model()));
                true
            },
            None => {
                if !self.cached {
                    return false;
                }
                if let Some(entry) = self.store.get(self.candidates[self.next].path.as_str()) {
                    count_session(
                        &mut self.totals,
                        entry,
                        path_text(&self.workspace),
                        &self.chart_days,
                    );
                }
                self.next += 1;
                true
            },
        }
    }

    /// How much of the session files the cache holds.
    pub fn progress(&self) -> (r: ScanProgress)
        requires
            self.wf(),
        ensures
            r.indexed_files == whole_files(self.candidates@, self.store@),
            r.pending_files + r.indexed_files == self.candidates@.len(),
            r.processed_bytes == (if bytes_read(self.candidates@, self.store@) > u64::MAX {
                u64::MAX as nat
            } else {
                bytes_read(self.candidates@, self.store@)
            }),
    {
        let mut indexed: usize = 0;
        let mut pending: usize = 0;
        let mut bytes: u64 = 0;
        let mut i: usize = 0;
        let total: usize = self.candidates.len();
        assert(self.candidates@.take(0).len() == 0);
        while i < total
            invariant
                self.wf(),
                i <= total,
                total == self.candidates@.len(),
                indexed == whole_files(self.candidates@.take(i as int), self.store@),
                indexed + pending == i,
                bytes == (if bytes_read(self.candidates@.take(i as int), self.store@) > u64::MAX {
                    u64::MAX as nat
                } else {
                    bytes_read(self.candidates@.take(i as int), self.store@)
                }),
            decreases total - i,
        {
            assert(self.candidates@.take(i + 1).drop_last() =~= self.candidates@.take(i as int));
            assert(self.candidates@.take(i + 1).last() == self.candidates@[i as int]);
            match self.store.get(self.candidates[i].path.as_str()) {
                Some(entry) => {
                    bytes = bytes.saturating_add(entry.file_offset);
                    if entry.fully_parsed {
                        indexed += 1;
                    } else {
                        pending += 1;
                    }
                },
                None => {
                    pending += 1;
                },
            }
            i += 1;
        }
        assert(self.candidates@.take(total as int) =~= self.candidates@);
        ScanProgress { pending_files: pending, indexed_files: indexed, processed_bytes: bytes }
    }

    /// How many sessions of each project were read to their ends, by the keys of the projects.
    pub fn sessions_by_project(&self) -> (r: StrMap<usize>)
        ensures
            r.wf(),
            forall|key: Seq<char>| #[trigger]
                r@.dom().contains(key) <==> sessions_of(self.store.entries@, key) > 0,
            forall|key: Seq<char>|
                r@.dom().contains(key) ==> (#[trigger] r@[key]) == sessions_of(
                    self.store.entries@,
                    key,
                ),
    {
        let mut counts: StrMap<usize> = StrMap::new();
        let mut i: usize = 0;
        let total: usize = self.store.entries.len();
        let ghost entries = self.store.entries@;
        assert(entries.take(0).len() == 0);
        while i < total
            invariant
                entries == self.store.entries@,
                total == entries.len(),
                i <= total,
                counts.wf(),
                forall|key: Seq<char>| #[trigger]
                    counts@.dom().contains(key) <==> sessions_of(entries.take(i as int), key) > 0,
                forall|key: Seq<char>|
                    counts@.dom().contains(key) ==> (#[trigger] counts@[key]) == sessions_of(
                        entries.take(i as int),
                        key,
                    ),
                forall|key: Seq<char>| #[trigger] sessions_of(entries.take(i as int), key) <= i,
            decreases total - i,
        {
            let entry = &self.store.entries[i].1;
            let ghost before = entries.take(i as int);
            let ghost held = counts@;
            assert(entries.take(i + 1).drop_last() =~= before);
            assert(entries.take(i + 1).last() == entries[i as int]);
            if entry.fully_parsed {
                if let Some(cwd) = &entry.session_cwd {
                    let key = normalize_project_key(cwd.as_str());
                    let count: usize = match counts.get(key.as_str()) {
                        Some(n) => *n,
                        None => 0,
                    };
                    assert(count == sessions_of(before, key@));
                    counts.set(key.as_str(), count + 1);
                    assert(counts@ == held.insert(key@, (count + 1) as usize));
                }
            }
            proof {
                assert forall|key: Seq<char>| #[trigger]
                    counts@.dom().contains(key) <==> sessions_of(entries.take(i + 1), key) > 0 by {
                    assert(held.dom().contains(key) <==> sessions_of(before, key) > 0);
                }
                assert forall|key: Seq<char>| counts@.dom().contains(key) implies (
                #[trigger] counts@[key]) == sessions_of(entries.take(i + 1), key) by {
                    assert(held.dom().contains(key) ==> held[key] == sessions_of(before, key));
                    assert(held.dom().contains(key) <==> sessions_of(before, key) > 0);
                }
                assert forall|key: Seq<char>| #[trigger]
                    sessions_of(entries.take(i + 1), key) <= i + 1 by {
                    assert(sessions_of(before, key) <= i);
                }
            }
            i += 1;
        }
        assert(entries.take(total as int) =~= entries);
        counts
    }

    /// The snapshot of a refresh.
    pub fn snapshot(&self, first_weekday: Weekday, activity_days: &Vec<String>) -> (r: LocalUsageSnapshot)
        requires
            self.wf(),
        ensures
            is_snapshot(
                r,
                self.totals,
                views(self.chart_days@),
                first_weekday,
                views(activity_days@),
            ),
    {
        build_snapshot(&self.totals, &self.chart_days, first_weekday, activity_days)
    }
}

/// The entry of the cache for a file that was read.
pub open spec fn is_entry(
    e: CachedFileScanEntry,
    s: FileScanSummary,
    c: SessionFileCandidate,
    now_secs: i64,
) -> bool {
    &&& e.size == c.len
    &&& e.modified_epoch_secs == c.modified_epoch_secs
    &&& e.file_offset == if s.file_offset < c.len {
        s.file_offset
    } else {
        c.len
    }
    &&& e.fully_parsed == s.fully_parsed
    &&& e.session_cwd == s.session_cwd
    &&& e.parser_state == s.parser_state
    &&& e.daily == s.daily
    &&& e.model_totals_by_day == s.model_totals_by_day
    &&& e.updated_at == now_secs
}

} // verus!
