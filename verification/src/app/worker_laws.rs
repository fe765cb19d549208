//! What the workers do, whatever wakes them.

use crate::app::persist::{accept_state_store, StateStore, STATE_STORE_SCHEMA_VERSION};
use crate::app::worker::{
    after_pass, limits_wake, note_catalog_scan, should_redraw, CatalogScan, CatalogWorker,
    LimitsSignal, LimitsWake, ScanProgress, UsageWorker, CATCH_UP_WAIT_MS, MIN_REDRAW_MS,
};
use vstd::prelude::*;

verus! {

/// The worker of the limits asks for them at each tick, where a refresh is asked for and where it
/// is told that they changed; other news leave it waiting, and it stops only where it is told to or
/// where nobody can tell it anything any more.
pub proof fn limits_are_asked_for_when_they_may_have_changed(
    tick: LimitsWake,
    asked: LimitsWake,
    changed: LimitsWake,
    other: LimitsWake,
    ended: LimitsWake,
)
    requires
        call_ensures(limits_wake, (LimitsSignal::Tick,), tick),
        call_ensures(limits_wake, (LimitsSignal::Refresh(true),), asked),
        call_ensures(limits_wake, (LimitsSignal::Notification(true),), changed),
        call_ensures(limits_wake, (LimitsSignal::Notification(false),), other),
        call_ensures(limits_wake, (LimitsSignal::Shutdown,), ended) || call_ensures(
            limits_wake,
            (LimitsSignal::Refresh(false),),
            ended,
        ) || call_ensures(limits_wake, (LimitsSignal::NotificationsEnded,), ended),
    ensures
        tick is Poll,
        asked is Poll,
        changed is Poll,
        other is Wait,
        ended is Stop,
{
}

/// A scan of the catalog is continued at once exactly where sessions are left; only a scan that was
/// called off ends the worker.
pub proof fn catalog_scans_go_on_until_all_sessions_are_read(
    done: usize,
    all: usize,
    cancelled: bool,
    after: (CatalogWorker, bool),
    failed: (CatalogWorker, bool),
)
    requires
        call_ensures(
            note_catalog_scan,
            (CatalogScan::Done { sessions_scanned: done, sessions_total: all },),
            after,
        ),
        call_ensures(note_catalog_scan, (CatalogScan::Failed { cancelled },), failed),
    ensures
        after.1,
        after.0.catch_up <==> done < all,
        after.0.reuse_cached_repositories <==> done < all,
        failed.1 <==> !cancelled,
        !failed.0.catch_up && !failed.0.reuse_cached_repositories,
{
}

/// The first pass comes at once. After a pass the worker waits as long as is asked for, unless files
/// are left and the pass got further than the one before: then it goes on after a short while. A
/// pass that failed is not hurried after.
pub proof fn passes_follow_quickly_while_they_get_further(
    w: UsageWorker,
    p: ScanProgress,
    refresh_ms: u64,
    first: Option<u64>,
    next: Option<u64>,
    failed: Option<u64>,
)
    requires
        w.first_run ==> call_ensures(UsageWorker::wait_ms, (&w, refresh_ms), first),
        call_ensures(UsageWorker::wait_ms, (&after_pass(w, Some(p)), refresh_ms), next),
        call_ensures(UsageWorker::wait_ms, (&after_pass(w, None), refresh_ms), failed),
    ensures
        w.first_run ==> first is None,
        p.pending_files == 0 ==> next == Some(refresh_ms),
        p.pending_files > 0 && w.previous is None ==> next == Some(CATCH_UP_WAIT_MS),
        p.pending_files > 0 && w.previous is Some && (p.indexed_files > (w.previous->0).0
            || p.processed_bytes > (w.previous->0).1) ==> next == Some(CATCH_UP_WAIT_MS),
        w.previous is Some && p.indexed_files <= (w.previous->0).0 && p.processed_bytes
            <= (w.previous->0).1 ==> next == Some(refresh_ms),
        failed == Some(refresh_ms),
{
}

/// Two passes that get equally far do not hurry on: a scan that is stuck comes to rest.
pub proof fn scans_that_are_stuck_come_to_rest(w: UsageWorker, p: ScanProgress)
    ensures
        !after_pass(after_pass(w, Some(p)), Some(p)).rapid_catch_up,
        after_pass(after_pass(w, None), Some(p)).rapid_catch_up <==> p.pending_files > 0,
{
}

/// Nothing is drawn where nothing changed, and nothing twice within the shortest time between two
/// drawings; after that time a change is drawn.
pub proof fn changes_are_drawn_in_time(idle: bool, early: bool, late: bool, a: u64, b: u64, c: u64)
    requires
        call_ensures(should_redraw, (false, a), idle),
        call_ensures(should_redraw, (true, b), early),
        b < MIN_REDRAW_MS,
        call_ensures(should_redraw, (true, c), late),
        c >= MIN_REDRAW_MS,
    ensures
        !idle,
        !early,
        late,
{
}

/// A store is taken exactly where it is not of a later version, with everything that it holds; it
/// is then of this version, and taking it again changes nothing.
pub proof fn stores_of_later_versions_are_refused(
    store: StateStore,
    taken: Result<StateStore, u32>,
    again: Result<StateStore, u32>,
)
    requires
        call_ensures(accept_state_store, (store,), taken),
        taken is Ok ==> call_ensures(accept_state_store, (taken->Ok_0,), again),
    ensures
        taken is Ok <==> store.schema_version <= STATE_STORE_SCHEMA_VERSION,
        taken is Ok ==> taken->Ok_0.global == store.global && taken->Ok_0.workspaces
            == store.workspaces && again == taken,
        taken is Err ==> taken->Err_0 == store.schema_version,
        store.schema_version == STATE_STORE_SCHEMA_VERSION ==> taken == Ok::<StateStore, u32>(
            store,
        ),
{
}

} // verus!
