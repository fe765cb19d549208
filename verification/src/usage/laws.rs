//! What holds of refreshes one after the other.

use crate::clock::line_ms;
use crate::json::Json;
use crate::text::{opt_view, views};
use crate::usage::models::{items_ignore_the_order_of_lists, model_items};
use crate::usage::order::{same_items_same_models, session_items, told_apart, with_sessions};
use crate::usage::refresh::{counts, machine_agrees, settled, ScanPass};
use crate::usage::scan::{
    action_for, full_scan_plans_everything, plan, reparse_all, resumes, up_to_date,
    CachedFileScanEntry, ScanAction, ScanLimits, SessionFileCandidate,
};
use crate::usage::session::{
    forget_runs, fresh_scan, models_view, resumed_scan_equals_full_scan, same_but_runs, scan_lines,
};
use crate::usage::snapshot::{lookup, with_session, UsageModel};
use vstd::prelude::*;
use vstd::seq_lib::*;

verus! {

/// One refresh with a scan cache: the files in the order in which they are looked at, those that are
/// planned, for which of them time had run out, and what reading each of them gives. `admits` is what
/// the machine says of the directories of sessions and the workspace.
pub struct Refresh {
    pub files: Seq<SessionFileCandidate>,
    pub planned: Seq<usize>,
    pub limits: ScanLimits,
    pub late: Seq<bool>,
    pub reads: Seq<CachedFileScanEntry>,
    pub workspace: Option<Seq<char>>,
    pub admits: spec_fn(Seq<char>) -> bool,
    pub chart_days: Seq<Seq<char>>,
}

/// The totals with those of a session, where it has any.
pub open spec fn with_entry(
    t: UsageModel,
    e: Option<CachedFileScanEntry>,
    workspace: Option<Seq<char>>,
    admits: spec_fn(Seq<char>) -> bool,
    chart_days: Seq<Seq<char>>,
) -> UsageModel {
    match e {
        Some(e) => with_session(
            t,
            e,
            workspace is Some,
            workspace is None || (e.session_cwd is Some && admits(e.session_cwd->0@)),
            chart_days,
        ),
        None => t,
    }
}

impl Refresh {
    /// Each file has its place in the lists, and no file is listed twice.
    pub open spec fn wf(self) -> bool {
        &&& self.files.len() <= usize::MAX
        &&& self.late.len() == self.files.len()
        &&& self.reads.len() == self.files.len()
        &&& forall|i: int, j: int|
            0 <= i < j < self.files.len() ==> (#[trigger] self.files[i]).path@ != (
            #[trigger] self.files[j]).path@
    }

    /// What the cache holds of a file.
    pub open spec fn known(self, cache: Map<Seq<char>, CachedFileScanEntry>, i: int) -> Option<
        CachedFileScanEntry,
    > {
        lookup(cache, self.files[i].path@)
    }

    /// What happens to a file.
    pub open spec fn action(
        self,
        cache: Map<Seq<char>, CachedFileScanEntry>,
        i: int,
    ) -> ScanAction {
        action_for(
            self.planned.contains(i as usize),
            self.known(cache, i),
            self.files[i],
            self.limits,
            self.late[i],
        )
    }

    /// What a file counts with.
    pub open spec fn entry(self, cache: Map<Seq<char>, CachedFileScanEntry>, i: int) -> Option<
        CachedFileScanEntry,
    > {
        if self.action(cache, i) == ScanAction::Parse {
            Some(self.reads[i])
        } else {
            self.known(cache, i)
        }
    }

    /// The totals after the first files.
    pub open spec fn totals_of(
        self,
        start: UsageModel,
        cache: Map<Seq<char>, CachedFileScanEntry>,
        count: int,
    ) -> UsageModel
        decreases count,
    {
        if count <= 0 {
            start
        } else {
            with_entry(
                self.totals_of(start, cache, count - 1),
                self.entry(cache, count - 1),
                self.workspace,
                self.admits,
                self.chart_days,
            )
        }
    }

    /// The totals of the refresh.
    pub open spec fn totals(
        self,
        start: UsageModel,
        cache: Map<Seq<char>, CachedFileScanEntry>,
    ) -> UsageModel {
        self.totals_of(start, cache, self.files.len() as int)
    }

    /// The place of a file that is read.
    pub open spec fn read_at(
        self,
        cache: Map<Seq<char>, CachedFileScanEntry>,
        path: Seq<char>,
        i: int,
    ) -> bool {
        0 <= i < self.files.len() && self.files[i].path@ == path && self.action(cache, i)
            == ScanAction::Parse
    }

    /// A file with this path is read.
    pub open spec fn is_read(
        self,
        cache: Map<Seq<char>, CachedFileScanEntry>,
        path: Seq<char>,
    ) -> bool {
        exists|i: int| #[trigger] self.read_at(cache, path, i)
    }

    /// What reading the file with this path gives.
    pub open spec fn reading(
        self,
        cache: Map<Seq<char>, CachedFileScanEntry>,
        path: Seq<char>,
    ) -> CachedFileScanEntry {
        self.reads[choose|i: int| #[trigger] self.read_at(cache, path, i)]
    }

    /// The cache after the refresh: what was read replaces what the cache held.
    pub open spec fn cache_after(self, cache: Map<Seq<char>, CachedFileScanEntry>) -> Map<
        Seq<char>,
        CachedFileScanEntry,
    > {
        Map::new(
            |k: Seq<char>| cache.dom().contains(k) || self.is_read(cache, k),
            |k: Seq<char>|
                if self.is_read(cache, k) {
                    self.reading(cache, k)
                } else {
                    cache[k]
                },
        )
    }

    /// A pass that has counted the first files as this refresh does.
    pub open spec fn reached_by(
        self,
        start: UsageModel,
        cache: Map<Seq<char>, CachedFileScanEntry>,
        pass: ScanPass,
    ) -> bool {
        &&& pass.cached
        &&& pass.candidates@ == self.files
        &&& pass.planned@ == self.planned
        &&& pass.limits == self.limits
        &&& opt_view(pass.workspace) == self.workspace
        &&& views(pass.chart_days@) == self.chart_days
        &&& pass.next <= self.files.len()
        &&& pass.totals.model() == self.totals_of(start, cache, pass.next as int)
        &&& forall|j: int|
            pass.next <= j < self.files.len() ==> lookup(
                pass.store@,
                (#[trigger] self.files[j]).path@,
            ) == self.known(cache, j)
    }
}

/// A pass counts a session as its refresh does. Without a workspace every session counts. With one,
/// `admits` is what the machine says: it agrees with what the texts of paths decide, and where they
/// decide nothing it is what the machine said of this session.
pub open spec fn counts_as(
    r: Refresh,
    before: ScanPass,
    e: CachedFileScanEntry,
    after: UsageModel,
) -> bool {
    &&& before.counted(e, after)
    &&& r.workspace is None || settled(opt_view(e.session_cwd), r.workspace->0) || after
        == with_entry(before.totals.model(), Some(e), r.workspace, r.admits, r.chart_days)
}

/// What a pass counts for a file is what its refresh counts: a pass that goes on to the next file, as
/// a pass does, is still the same refresh.
pub proof fn pass_is_refresh(
    r: Refresh,
    start: UsageModel,
    cache: Map<Seq<char>, CachedFileScanEntry>,
    before: ScanPass,
    after: ScanPass,
)
    requires
        r.wf(),
        r.workspace is Some ==> forall|cwd: Seq<char>|
            machine_agrees(Some(cwd), r.workspace->0, #[trigger] (r.admits)(cwd)),
        r.reached_by(start, cache, before),
        before.next < r.files.len(),
        after.keeps(before),
        after.next == before.next + 1,
        match before.action(r.late[before.next as int]) {
            ScanAction::Skip => after.totals == before.totals && after.store == before.store,
            ScanAction::Parse => counts_as(
                r,
                before,
                r.reads[before.next as int],
                after.totals.model(),
            ) && after.store@ == before.store@.insert(
                r.files[before.next as int].path@,
                r.reads[before.next as int],
            ),
            _ => counts_as(r, before, before.known()->0, after.totals.model()) && after.store
                == before.store,
        },
    ensures
        r.reached_by(start, cache, after),
{
    let i = before.next as int;
    assert(r.files[i].path@ == before.candidates@[i].path@);
    assert(before.known() == r.known(cache, i));
    assert(before.action(r.late[i]) == r.action(cache, i));
    if r.action(cache, i) == ScanAction::Parse {
        counted_as_refreshed(r, before, r.reads[i], after.totals.model());
    } else if r.action(cache, i) != ScanAction::Skip {
        counted_as_refreshed(r, before, before.known()->0, after.totals.model());
    }
    assert forall|j: int| after.next <= j < r.files.len() implies lookup(
        after.store@,
        (#[trigger] r.files[j]).path@,
    ) == r.known(cache, j) by {
        assert(r.files[i].path@ != r.files[j].path@);
        assert(lookup(before.store@, r.files[j].path@) == r.known(cache, j));
    }
}

proof fn counted_as_refreshed(
    r: Refresh,
    before: ScanPass,
    e: CachedFileScanEntry,
    after: UsageModel,
)
    requires
        opt_view(before.workspace) == r.workspace,
        views(before.chart_days@) == r.chart_days,
        r.workspace is Some ==> forall|cwd: Seq<char>|
            machine_agrees(Some(cwd), r.workspace->0, #[trigger] (r.admits)(cwd)),
        counts_as(r, before, e, after),
    ensures
        after == with_entry(before.totals.model(), Some(e), r.workspace, r.admits, r.chart_days),
{
    if r.workspace is Some && settled(opt_view(e.session_cwd), r.workspace->0) {
        let w = r.workspace->0;
        let t = before.totals.model();
        let inside = choose|inside: bool|
            machine_agrees(opt_view(e.session_cwd), w, inside) && after == #[trigger] with_session(
                t,
                e,
                true,
                inside,
                r.chart_days,
            );
        if e.session_cwd is Some {
            let cwd = e.session_cwd->0@;
            assert(machine_agrees(Some(cwd), w, (r.admits)(cwd)));
            assert(inside == (r.admits)(cwd));
        }
    }
}

/// What a refresh counts for a session is what [`counts`] allows, whatever the machine says of paths.
pub proof fn refresh_counts_sessions(
    t: UsageModel,
    e: CachedFileScanEntry,
    workspace: Option<Seq<char>>,
    admits: spec_fn(Seq<char>) -> bool,
    chart_days: Seq<Seq<char>>,
)
    requires
        workspace is Some ==> forall|cwd: Seq<char>|
            machine_agrees(Some(cwd), workspace->0, #[trigger] admits(cwd)),
    ensures
        counts(
            t,
            e,
            workspace,
            chart_days,
            with_entry(t, Some(e), workspace, admits, chart_days),
        ),
{
    if workspace is Some {
        let inside = e.session_cwd is Some && admits(e.session_cwd->0@);
        assert(machine_agrees(opt_view(e.session_cwd), workspace->0, inside));
        assert(with_entry(t, Some(e), workspace, admits, chart_days) == with_session(
            t,
            e,
            true,
            inside,
            chart_days,
        ));
    }
}

/// After a refresh the cache holds of each file what the file counted with.
proof fn cache_holds_entries(
    r: Refresh,
    cache: Map<Seq<char>, CachedFileScanEntry>,
    i: int,
)
    requires
        r.wf(),
        0 <= i < r.files.len(),
    ensures
        lookup(r.cache_after(cache), r.files[i].path@) == r.entry(cache, i),
{
    let path = r.files[i].path@;
    if r.action(cache, i) == ScanAction::Parse {
        assert(r.read_at(cache, path, i));
        let j = choose|j: int| #[trigger] r.read_at(cache, path, j);
        assert(j == i) by {
            if j < i {
                assert(r.files[j].path@ != r.files[i].path@);
            } else if i < j {
                assert(r.files[i].path@ != r.files[j].path@);
            }
        }
    } else {
        assert forall|j: int| !#[trigger] r.read_at(cache, path, j) by {
            if r.read_at(cache, path, j) {
                if j < i {
                    assert(r.files[j].path@ != r.files[i].path@);
                } else if i < j {
                    assert(r.files[i].path@ != r.files[j].path@);
                }
            }
        }
    }
}

/// Two refreshes that count the same for each file have the same totals.
proof fn same_entries_same_totals(
    a: Refresh,
    b: Refresh,
    start: UsageModel,
    cache_a: Map<Seq<char>, CachedFileScanEntry>,
    cache_b: Map<Seq<char>, CachedFileScanEntry>,
    count: int,
)
    requires
        a.workspace == b.workspace,
        a.admits == b.admits,
        a.chart_days == b.chart_days,
        forall|i: int| 0 <= i < count ==> #[trigger] a.entry(cache_a, i) == b.entry(cache_b, i),
    ensures
        a.totals_of(start, cache_a, count) == b.totals_of(start, cache_b, count),
    decreases count,
{
    if count > 0 {
        same_entries_same_totals(a, b, start, cache_a, cache_b, count - 1);
        assert(a.entry(cache_a, count - 1) == b.entry(cache_b, count - 1));
    }
}

/// Two refreshes of the same files that ask for the same.
pub open spec fn same_request(a: Refresh, b: Refresh) -> bool {
    &&& a.files == b.files
    &&& a.workspace == b.workspace
    &&& a.admits == b.admits
    &&& a.chart_days == b.chart_days
}

/// An unchanged file keeps contributing: a refresh after one that read every file to its end has the
/// same totals, whichever files it plans and however little time it has.
pub proof fn unchanged_files_keep_contributing(
    first: Refresh,
    second: Refresh,
    start: UsageModel,
    cache: Map<Seq<char>, CachedFileScanEntry>,
)
    requires
        first.wf(),
        second.wf(),
        same_request(first, second),
        !reparse_all(second.limits),
        forall|i: int|
            0 <= i < first.files.len() ==> (#[trigger] first.entry(cache, i)) is Some && up_to_date(
                first.entry(cache, i)->0,
                first.files[i],
            ),
    ensures
        second.totals(start, first.cache_after(cache)) == first.totals(start, cache),
        forall|i: int|
            0 <= i < first.files.len() ==> #[trigger] second.action(first.cache_after(cache), i)
                == ScanAction::UseCached,
{
    let held = first.cache_after(cache);
    assert forall|i: int| 0 <= i < first.files.len() implies #[trigger] second.action(held, i)
        == ScanAction::UseCached && second.entry(held, i) == first.entry(cache, i) by {
        cache_holds_entries(first, cache, i);
        assert(first.entry(cache, i) is Some);
    }
    assert forall|i: int| 0 <= i < first.files.len() implies #[trigger] second.entry(held, i)
        == first.entry(cache, i) by {
        assert(second.action(held, i) == ScanAction::UseCached);
    }
    same_entries_same_totals(second, first, start, held, cache, first.files.len() as int);
}

/// A refresh that reads every file: a full scan that nothing cuts off, without a time budget.
pub open spec fn reads_all(r: Refresh) -> bool {
    &&& reparse_all(r.limits)
    &&& r.planned == plan(r.files, None, r.limits)
    &&& forall|i: int| 0 <= i < r.files.len() ==> !#[trigger] r.late[i]
}

/// A full scan without a time budget counts what reading each file gives.
proof fn full_scan_counts_readings(
    r: Refresh,
    cache: Map<Seq<char>, CachedFileScanEntry>,
    i: int,
)
    requires
        r.wf(),
        reads_all(r),
        0 <= i < r.files.len(),
    ensures
        r.action(cache, i) == ScanAction::Parse,
        r.entry(cache, i) == Some(r.reads[i]),
{
    full_scan_plans_everything(r.files, r.limits);
    assert(r.planned[i] == i as usize);
    assert(!r.late[i]);
}

/// A full scan without a time budget gives the totals that it gives without a cache, whatever the
/// cache holds of the files.
pub proof fn full_scan_totals_ignore_cache(
    r: Refresh,
    start: UsageModel,
    cache: Map<Seq<char>, CachedFileScanEntry>,
)
    requires
        r.wf(),
        reads_all(r),
    ensures
        r.totals(start, cache) == r.totals(start, Map::empty()),
{
    assert forall|i: int| 0 <= i < r.files.len() implies #[trigger] r.entry(cache, i) == r.entry(
        Map::empty(),
        i,
    ) by {
        full_scan_counts_readings(r, cache, i);
        full_scan_counts_readings(r, Map::empty(), i);
    }
    same_entries_same_totals(r, r, start, cache, Map::empty(), r.files.len() as int);
}

/// Caps on files and bytes do not change the totals of a full scan that nothing cuts off: two that
/// differ in their caps alone have the same totals.
pub proof fn caps_do_not_change_a_full_scan(
    a: Refresh,
    b: Refresh,
    start: UsageModel,
    cache: Map<Seq<char>, CachedFileScanEntry>,
)
    requires
        a.wf(),
        b.wf(),
        same_request(a, b),
        a.late == b.late,
        a.reads == b.reads,
        a.limits.full_scan,
        b.limits.full_scan,
        a.limits.scan_time_budget_ms == b.limits.scan_time_budget_ms,
        a.planned == plan(a.files, None, a.limits),
        b.planned == plan(b.files, None, b.limits),
    ensures
        a.totals(start, cache) == b.totals(start, cache),
        a.cache_after(cache) == b.cache_after(cache),
{
    full_scan_plans_everything(a.files, a.limits);
    full_scan_plans_everything(b.files, b.limits);
    assert(a.planned =~= b.planned);
    assert forall|i: int| a.action(cache, i) == #[trigger] b.action(cache, i) by {}
    assert forall|i: int| 0 <= i < a.files.len() implies #[trigger] a.entry(cache, i) == b.entry(
        cache,
        i,
    ) by {
        assert(a.action(cache, i) == b.action(cache, i));
    }
    same_entries_same_totals(a, b, start, cache, cache, a.files.len() as int);
    assert forall|k: Seq<char>, i: int| #[trigger] a.read_at(cache, k, i) == b.read_at(
        cache,
        k,
        i,
    ) by {
        assert(a.action(cache, i) == b.action(cache, i));
    }
    same_reads_same_cache(a, b, cache);
}

proof fn same_reads_same_cache(
    a: Refresh,
    b: Refresh,
    cache: Map<Seq<char>, CachedFileScanEntry>,
)
    requires
        a.wf(),
        b.wf(),
        a.files == b.files,
        a.reads == b.reads,
        forall|k: Seq<char>, i: int| #[trigger]
            a.read_at(cache, k, i) == b.read_at(cache, k, i),
    ensures
        a.cache_after(cache) == b.cache_after(cache),
{
    assert forall|k: Seq<char>| #[trigger] a.is_read(cache, k) == b.is_read(cache, k) by {
        if a.is_read(cache, k) {
            let i = choose|i: int| #[trigger] a.read_at(cache, k, i);
            assert(b.read_at(cache, k, i));
        }
        if b.is_read(cache, k) {
            let i = choose|i: int| #[trigger] b.read_at(cache, k, i);
            assert(a.read_at(cache, k, i));
        }
    }
    assert forall|k: Seq<char>| #[trigger] a.is_read(cache, k) implies a.reading(cache, k)
        == b.reading(cache, k) by {
        let i = choose|i: int| #[trigger] a.read_at(cache, k, i);
        assert(b.read_at(cache, k, i));
        let j = choose|j: int| #[trigger] b.read_at(cache, k, j);
        assert(a.read_at(cache, k, j));
        if i < j {
            assert(a.files[i].path@ != a.files[j].path@);
        } else if j < i {
            assert(a.files[j].path@ != a.files[i].path@);
        }
    }
    assert(a.cache_after(cache) =~= b.cache_after(cache));
}

/// A row of the cache that looks like its file but holds wrong totals counts on in an ordinary
/// refresh. A full scan without a time budget repairs it: the file counts with what reading it gives,
/// and so it does in every refresh after that in which the file is unchanged.
pub proof fn full_scan_repairs_stale_rows(
    normal: Refresh,
    full: Refresh,
    cache: Map<Seq<char>, CachedFileScanEntry>,
    i: int,
)
    requires
        normal.wf(),
        full.wf(),
        same_request(normal, full),
        !reparse_all(normal.limits),
        reads_all(full),
        0 <= i < full.files.len(),
        normal.known(cache, i) is Some,
        up_to_date(normal.known(cache, i)->0, normal.files[i]),
    ensures
        normal.entry(cache, i) == normal.known(cache, i),
        lookup(normal.cache_after(cache), normal.files[i].path@) == normal.known(cache, i),
        full.entry(cache, i) == Some(full.reads[i]),
        lookup(full.cache_after(cache), full.files[i].path@) == Some(full.reads[i]),
        up_to_date(full.reads[i], full.files[i]) ==> normal.entry(full.cache_after(cache), i)
            == Some(full.reads[i]),
{
    cache_holds_entries(normal, cache, i);
    cache_holds_entries(full, cache, i);
    full_scan_counts_readings(full, cache, i);
}

/// Two entries stand for the same usage.
pub open spec fn alike(a: CachedFileScanEntry, b: CachedFileScanEntry) -> bool {
    same_but_runs(a.model(), b.model())
}

/// The totals agree on the days, the projects and the number of sessions.
pub open spec fn same_usage(a: UsageModel, b: UsageModel) -> bool {
    a.daily == b.daily && a.projects == b.projects && a.matched == b.matched
}

/// Two refreshes that count the same usage for each file agree in their totals.
proof fn alike_entries_alike_totals(
    a: Refresh,
    b: Refresh,
    start: UsageModel,
    cache_a: Map<Seq<char>, CachedFileScanEntry>,
    cache_b: Map<Seq<char>, CachedFileScanEntry>,
    count: int,
)
    requires
        a.workspace == b.workspace,
        a.admits == b.admits,
        forall|i: int|
            0 <= i < count ==> (#[trigger] a.entry(cache_a, i)) is Some && b.entry(
                cache_b,
                i,
            ) is Some && alike(a.entry(cache_a, i)->0, b.entry(cache_b, i)->0),
    ensures
        same_usage(a.totals_of(start, cache_a, count), b.totals_of(start, cache_b, count)),
    decreases count,
{
    if count > 0 {
        alike_entries_alike_totals(a, b, start, cache_a, cache_b, count - 1);
        let x = a.entry(cache_a, count - 1)->0;
        let y = b.entry(cache_b, count - 1)->0;
        assert(alike(x, y));
        assert(x.daily@ == x.model().daily && y.daily@ == y.model().daily);
        assert(opt_view(x.session_cwd) == x.model().cwd && opt_view(y.session_cwd)
            == y.model().cwd);
    }
}

/// The sessions that a refresh counts, where every file counts.
pub open spec fn sessions_of(
    r: Refresh,
    cache: Map<Seq<char>, CachedFileScanEntry>,
    count: int,
) -> Seq<CachedFileScanEntry>
    decreases count,
{
    if count <= 0 {
        Seq::empty()
    } else {
        sessions_of(r, cache, count - 1).push(r.entry(cache, count - 1)->0)
    }
}

/// Which sessions a refresh counts.
pub open spec fn inside_of(r: Refresh) -> spec_fn(CachedFileScanEntry) -> bool {
    |e: CachedFileScanEntry|
        r.workspace is None || (e.session_cwd is Some && (r.admits)(e.session_cwd->0@))
}

proof fn totals_are_of_sessions(
    r: Refresh,
    start: UsageModel,
    cache: Map<Seq<char>, CachedFileScanEntry>,
    count: int,
)
    requires
        forall|i: int| 0 <= i < count ==> (#[trigger] r.entry(cache, i)) is Some,
    ensures
        r.totals_of(start, cache, count) == with_sessions(
            start,
            sessions_of(r, cache, count),
            r.workspace is Some,
            inside_of(r),
            r.chart_days,
        ),
    decreases count,
{
    if count > 0 {
        totals_are_of_sessions(r, start, cache, count - 1);
        assert(sessions_of(r, cache, count).drop_last() =~= sessions_of(r, cache, count - 1));
        assert(r.entry(cache, count - 1) is Some);
    }
}

proof fn alike_sessions_bring_the_same_items(
    a: Refresh,
    b: Refresh,
    cache_a: Map<Seq<char>, CachedFileScanEntry>,
    cache_b: Map<Seq<char>, CachedFileScanEntry>,
    count: int,
)
    requires
        a.workspace == b.workspace,
        a.admits == b.admits,
        a.chart_days == b.chart_days,
        forall|i: int|
            0 <= i < count ==> (#[trigger] a.entry(cache_a, i)) is Some && b.entry(
                cache_b,
                i,
            ) is Some && alike(a.entry(cache_a, i)->0, b.entry(cache_b, i)->0) && a.entry(
                cache_a,
                i,
            )->0.wf() && b.entry(cache_b, i)->0.wf(),
    ensures
        session_items(
            sessions_of(a, cache_a, count),
            inside_of(a),
            a.chart_days,
        ).to_multiset() == session_items(
            sessions_of(b, cache_b, count),
            inside_of(b),
            b.chart_days,
        ).to_multiset(),
    decreases count,
{
    if count > 0 {
        alike_sessions_bring_the_same_items(a, b, cache_a, cache_b, count - 1);
        let x = a.entry(cache_a, count - 1)->0;
        let y = b.entry(cache_b, count - 1)->0;
        assert(alike(x, y));
        let xs = sessions_of(a, cache_a, count - 1);
        let ys = sessions_of(b, cache_b, count - 1);
        assert(xs.push(x).drop_last() =~= xs);
        assert(ys.push(y).drop_last() =~= ys);
        assert(models_view(x.model_totals_by_day) == x.model().models);
        assert(models_view(y.model_totals_by_day) == y.model().models);
        assert(opt_view(x.session_cwd) == x.model().cwd && opt_view(y.session_cwd)
            == y.model().cwd);
        items_ignore_the_order_of_lists(
            x.model_totals_by_day,
            y.model_totals_by_day,
            a.chart_days,
        );
        let head_x = session_items(xs, inside_of(a), a.chart_days);
        let head_y = session_items(ys, inside_of(b), b.chart_days);
        let tail_x = if inside_of(a)(x) {
            model_items(x.model_totals_by_day.entries@, a.chart_days)
        } else {
            Seq::empty()
        };
        let tail_y = if inside_of(b)(y) {
            model_items(y.model_totals_by_day.entries@, b.chart_days)
        } else {
            Seq::empty()
        };
        lemma_multiset_commutative(head_x, tail_x);
        lemma_multiset_commutative(head_y, tail_y);
        assert(session_items(xs.push(x), inside_of(a), a.chart_days) == head_x + tail_x);
        assert(session_items(ys.push(y), inside_of(b), b.chart_days) == head_y + tail_y);
    }
}

/// What a scan that is done with leaves in the cache for a file of these lines.
pub open spec fn holds_lines(
    e: CachedFileScanEntry,
    lines: Seq<(Json, Option<Seq<char>>)>,
) -> bool {
    e.model() == forget_runs(scan_lines(fresh_scan(), lines))
}

/// Since a cached scan read a file to its end, the file has grown by some lines, and a refresh reads
/// on behind the part that the cache knows. No new line is of a point in time at which an old line
/// already counted a run.
pub open spec fn grown_by(
    r: Refresh,
    i: int,
    known: CachedFileScanEntry,
    old_part: Seq<(Json, Option<Seq<char>>)>,
    new_part: Seq<(Json, Option<Seq<char>>)>,
) -> bool {
    &&& 0 < known.file_offset == known.size < r.files[i].len
    &&& r.planned.contains(i as usize) && !r.late[i]
    &&& r.reads[i].model() == forget_runs(scan_lines(known.model(), new_part))
    &&& up_to_date(r.reads[i], r.files[i])
    &&& r.reads[i].wf()
    &&& forall|k: int|
        0 <= k < new_part.len() && line_ms((#[trigger] new_part[k]).0) is Some ==> !scan_lines(
            fresh_scan(),
            old_part,
        ).runs.contains(line_ms(new_part[k].0)->0)
}

/// Usage that is appended to files counts once. Where the cache holds every file read to its end, and
/// since then each is unchanged or has grown, a refresh reads the grown ones on behind the parts that
/// the cache knows and gives the days, the projects and the number of sessions of a refresh that reads
/// all files whole: old and new lines count once each. So it does for the totals of the models, where
/// no more models are named than are told apart. A third refresh, in which the files are unchanged,
/// gives the same totals again, whatever it plans and however little time it has.
pub proof fn appended_usage_counts_once(
    second: Refresh,
    third: Refresh,
    whole: Refresh,
    start: UsageModel,
    cache: Map<Seq<char>, CachedFileScanEntry>,
    old_parts: Seq<Seq<(Json, Option<Seq<char>>)>>,
    new_parts: Seq<Seq<(Json, Option<Seq<char>>)>>,
)
    requires
        second.wf(),
        third.wf(),
        whole.wf(),
        same_request(second, third),
        same_request(second, whole),
        !reparse_all(second.limits),
        !reparse_all(third.limits),
        forall|i: int|
            0 <= i < second.files.len() ==> (#[trigger] second.known(cache, i)) is Some
                && second.known(cache, i)->0.wf() && holds_lines(
                second.known(cache, i)->0,
                old_parts[i],
            ) && (up_to_date(
                second.known(cache, i)->0,
                second.files[i],
            ) && new_parts[i].len() == 0 || grown_by(
                second,
                i,
                second.known(cache, i)->0,
                old_parts[i],
                new_parts[i],
            )),
        forall|i: int|
            0 <= i < whole.files.len() ==> (#[trigger] whole.entry(Map::empty(), i)) is Some
                && whole.entry(Map::empty(), i)->0.wf() && holds_lines(whole.entry(Map::empty(), i)->0, old_parts[i] + new_parts[i]),
    ensures
        same_usage(second.totals(start, cache), whole.totals(start, Map::empty())),
        told_apart(
            start.models,
            session_items(
                sessions_of(second, cache, second.files.len() as int),
                inside_of(second),
                second.chart_days,
            ),
        ) ==> second.totals(start, cache).models == whole.totals(start, Map::empty()).models,
        forall|i: int|
            0 <= i < second.files.len() && new_parts[i].len() > 0 ==> #[trigger] second.action(
                cache,
                i,
            ) == ScanAction::Parse && resumes(
                second.known(cache, i)->0,
                second.files[i].len,
                second.files[i].modified_epoch_secs,
            ),
        third.totals(start, second.cache_after(cache)) == second.totals(start, cache),
{
    assert forall|i: int| 0 <= i < second.files.len() implies (#[trigger] second.entry(cache, i)) is Some
        && holds_lines(second.entry(cache, i)->0, old_parts[i] + new_parts[i]) && up_to_date(
        second.entry(cache, i)->0,
        second.files[i],
    ) && second.entry(cache, i)->0.wf() by {
        let known = second.known(cache, i)->0;
        if new_parts[i].len() == 0 && up_to_date(known, second.files[i]) {
            assert(old_parts[i] + new_parts[i] =~= old_parts[i]);
            assert(second.action(cache, i) == ScanAction::UseCached);
        } else {
            assert(grown_by(second, i, known, old_parts[i], new_parts[i]));
            resumed_scan_equals_full_scan(old_parts[i], new_parts[i]);
            assert(second.action(cache, i) == ScanAction::Parse);
        }
    }
    assert forall|i: int| 0 <= i < second.files.len() implies (#[trigger] second.entry(cache, i)) is Some
        && whole.entry(Map::empty(), i) is Some && alike(
        second.entry(cache, i)->0,
        whole.entry(Map::empty(), i)->0,
    ) && second.entry(cache, i)->0.wf() && whole.entry(Map::empty(), i)->0.wf() by {
        assert(holds_lines(second.entry(cache, i)->0, old_parts[i] + new_parts[i]));
        assert(whole.entry(Map::empty(), i) is Some);
    }
    alike_entries_alike_totals(
        second,
        whole,
        start,
        cache,
        Map::empty(),
        second.files.len() as int,
    );
    let count = second.files.len() as int;
    alike_sessions_bring_the_same_items(second, whole, cache, Map::empty(), count);
    totals_are_of_sessions(second, start, cache, count);
    totals_are_of_sessions(whole, start, Map::empty(), count);
    assert(inside_of(second) =~= inside_of(whole));
    let items = session_items(
        sessions_of(second, cache, count),
        inside_of(second),
        second.chart_days,
    );
    if told_apart(start.models, items) {
        same_items_same_models(
            start,
            sessions_of(second, cache, count),
            sessions_of(whole, Map::empty(), count),
            second.workspace is Some,
            inside_of(second),
            second.chart_days,
        );
    }
    assert forall|i: int|
        0 <= i < second.files.len() && new_parts[i].len() > 0 implies #[trigger] second.action(
        cache,
        i,
    ) == ScanAction::Parse && resumes(
        second.known(cache, i)->0,
        second.files[i].len,
        second.files[i].modified_epoch_secs,
    ) by {
        assert(second.known(cache, i) is Some);
    }
    unchanged_files_keep_contributing(second, third, start, cache);
}

} // verus!
