//! Sessions count the same in every order.

use crate::usage::laws::same_usage;
use crate::usage::models::{
    few_models_are_told_apart, lemma_fold_concat, lemma_plain_grows, model_items, plain_add,
    plain_adds_commute,
};
use crate::usage::scan::CachedFileScanEntry;
use crate::usage::session::{DailyTotals, MAX_DISTINCT_MODELS};
use crate::usage::snapshot::{
    day_sums_commute, projects_commute, projects_with, with_days, with_session, ProjectModel,
    UsageModel,
};
use vstd::multiset::Multiset;
use vstd::prelude::*;
use vstd::seq_lib::*;

verus! {

/// The totals with those of sessions, one after the other; `inside` says which lie in the workspace.
pub open spec fn with_sessions(
    t: UsageModel,
    sessions: Seq<CachedFileScanEntry>,
    filtered: bool,
    inside: spec_fn(CachedFileScanEntry) -> bool,
    chart_days: Seq<Seq<char>>,
) -> UsageModel
    decreases sessions.len(),
{
    if sessions.len() == 0 {
        t
    } else {
        with_session(
            with_sessions(t, sessions.drop_last(), filtered, inside, chart_days),
            sessions.last(),
            filtered,
            inside(sessions.last()),
            chart_days,
        )
    }
}

proof fn days_commute(
    daily: Map<Seq<char>, DailyTotals>,
    x: Map<Seq<char>, DailyTotals>,
    y: Map<Seq<char>, DailyTotals>,
)
    ensures
        with_days(with_days(daily, x), y) == with_days(with_days(daily, y), x),
{
    assert forall|k: Seq<char>| #[trigger] daily.dom().contains(k) implies with_days(
        with_days(daily, x),
        y,
    )[k] == with_days(with_days(daily, y), x)[k] by {
        day_sums_commute(daily[k], x[k], y[k]);
    }
    assert(with_days(with_days(daily, x), y) =~= with_days(with_days(daily, y), x));
}

/// What sessions add to besides the models.
#[verifier::ext_equal]
pub struct Shown {
    pub daily: Map<Seq<char>, DailyTotals>,
    pub projects: Map<Seq<char>, ProjectModel>,
    pub matched: u32,
}

spec fn shown_of(t: UsageModel) -> Shown {
    Shown { daily: t.daily, projects: t.projects, matched: t.matched }
}

spec fn shown_step(
    filtered: bool,
    inside: spec_fn(CachedFileScanEntry) -> bool,
) -> spec_fn(Shown, CachedFileScanEntry) -> Shown {
    |s: Shown, e: CachedFileScanEntry|
        if !inside(e) {
            s
        } else {
            let daily = with_days(s.daily, e.daily@);
            Shown {
                daily,
                projects: match e.session_cwd {
                    Some(cwd) => projects_with(s.projects, cwd@, e.daily@, daily.dom()),
                    None => s.projects,
                },
                matched: if filtered && s.matched < u32::MAX {
                    (s.matched + 1) as u32
                } else {
                    s.matched
                },
            }
        }
}

proof fn steps_commute(
    s: Shown,
    x: CachedFileScanEntry,
    y: CachedFileScanEntry,
    filtered: bool,
    inside: spec_fn(CachedFileScanEntry) -> bool,
)
    ensures
        ({
            let f = shown_step(filtered, inside);
            f(f(s, x), y) == f(f(s, y), x)
        }),
{
    let f = shown_step(filtered, inside);
    if inside(x) && inside(y) {
        days_commute(s.daily, x.daily@, y.daily@);
        assert(with_days(s.daily, x.daily@).dom() =~= s.daily.dom());
        assert(with_days(s.daily, y.daily@).dom() =~= s.daily.dom());
        assert(with_days(with_days(s.daily, x.daily@), y.daily@).dom() =~= s.daily.dom());
        if x.session_cwd is Some && y.session_cwd is Some {
            projects_commute(
                s.projects,
                (x.session_cwd->0@, x.daily@),
                (y.session_cwd->0@, y.daily@),
                s.daily.dom(),
            );
        }
        assert(f(f(s, x), y) =~= f(f(s, y), x));
    }
}

proof fn sessions_are_steps(
    t: UsageModel,
    sessions: Seq<CachedFileScanEntry>,
    filtered: bool,
    inside: spec_fn(CachedFileScanEntry) -> bool,
    chart_days: Seq<Seq<char>>,
)
    ensures
        shown_of(with_sessions(t, sessions, filtered, inside, chart_days)) == sessions.fold_left(
            shown_of(t),
            shown_step(filtered, inside),
        ),
    decreases sessions.len(),
{
    if sessions.len() > 0 {
        sessions_are_steps(t, sessions.drop_last(), filtered, inside, chart_days);
    }
}

/// The models of the sessions in the workspace with their tokens, session by session.
pub open spec fn session_items(
    sessions: Seq<CachedFileScanEntry>,
    inside: spec_fn(CachedFileScanEntry) -> bool,
    chart_days: Seq<Seq<char>>,
) -> Seq<(Seq<char>, i64)>
    decreases sessions.len(),
{
    if sessions.len() == 0 {
        Seq::empty()
    } else {
        session_items(sessions.drop_last(), inside, chart_days) + if inside(sessions.last()) {
            model_items(sessions.last().model_totals_by_day.entries@, chart_days)
        } else {
            Seq::empty()
        }
    }
}

/// With these items there are no more models than are told apart.
pub open spec fn told_apart(m: Map<Seq<char>, i64>, items: Seq<(Seq<char>, i64)>) -> bool {
    m.dom().finite() && items.fold_left(m, plain_add()).dom().len() <= MAX_DISTINCT_MODELS
}

/// Where no more models are named than are told apart, each has its own total.
pub proof fn session_models_are_told_apart(
    t: UsageModel,
    sessions: Seq<CachedFileScanEntry>,
    filtered: bool,
    inside: spec_fn(CachedFileScanEntry) -> bool,
    chart_days: Seq<Seq<char>>,
)
    requires
        told_apart(t.models, session_items(sessions, inside, chart_days)),
    ensures
        with_sessions(t, sessions, filtered, inside, chart_days).models == session_items(
            sessions,
            inside,
            chart_days,
        ).fold_left(t.models, plain_add()),
    decreases sessions.len(),
{
    if sessions.len() > 0 {
        let init = sessions.drop_last();
        let head = session_items(init, inside, chart_days);
        let tail = if inside(sessions.last()) {
            model_items(sessions.last().model_totals_by_day.entries@, chart_days)
        } else {
            Seq::empty()
        };
        lemma_fold_concat(head, tail, t.models, plain_add());
        let before = head.fold_left(t.models, plain_add());
        lemma_plain_grows(t.models, head);
        lemma_plain_grows(before, tail);
        session_models_are_told_apart(t, init, filtered, inside, chart_days);
        if inside(sessions.last()) {
            few_models_are_told_apart(
                before,
                sessions.last().model_totals_by_day.entries@,
                chart_days,
            );
        }
    }
}

/// The same items give the same totals of models, in whichever order the sessions bring them.
pub proof fn same_items_same_models(
    t: UsageModel,
    a: Seq<CachedFileScanEntry>,
    b: Seq<CachedFileScanEntry>,
    filtered: bool,
    inside: spec_fn(CachedFileScanEntry) -> bool,
    chart_days: Seq<Seq<char>>,
)
    requires
        session_items(a, inside, chart_days).to_multiset() == session_items(
            b,
            inside,
            chart_days,
        ).to_multiset(),
        told_apart(t.models, session_items(a, inside, chart_days)),
    ensures
        with_sessions(t, a, filtered, inside, chart_days).models == with_sessions(
            t,
            b,
            filtered,
            inside,
            chart_days,
        ).models,
{
    plain_adds_commute();
    lemma_fold_left_permutation(
        session_items(a, inside, chart_days),
        session_items(b, inside, chart_days),
        plain_add(),
        t.models,
    );
    session_models_are_told_apart(t, a, filtered, inside, chart_days);
    session_models_are_told_apart(t, b, filtered, inside, chart_days);
}

spec fn gather(
    inside: spec_fn(CachedFileScanEntry) -> bool,
    chart_days: Seq<Seq<char>>,
) -> spec_fn(Multiset<(Seq<char>, i64)>, CachedFileScanEntry) -> Multiset<(Seq<char>, i64)> {
    |s: Multiset<(Seq<char>, i64)>, e: CachedFileScanEntry|
        if inside(e) {
            s.add(model_items(e.model_totals_by_day.entries@, chart_days).to_multiset())
        } else {
            s
        }
}

proof fn items_are_gathered(
    sessions: Seq<CachedFileScanEntry>,
    inside: spec_fn(CachedFileScanEntry) -> bool,
    chart_days: Seq<Seq<char>>,
)
    ensures
        session_items(sessions, inside, chart_days).to_multiset() == sessions.fold_left(
            Multiset::empty(),
            gather(inside, chart_days),
        ),
    decreases sessions.len(),
{
    if sessions.len() == 0 {
        session_items(sessions, inside, chart_days).to_multiset_ensures();
        assert(session_items(sessions, inside, chart_days).to_multiset() =~= Multiset::empty());
    } else {
        let init = sessions.drop_last();
        items_are_gathered(init, inside, chart_days);
        let head = session_items(init, inside, chart_days);
        if inside(sessions.last()) {
            lemma_multiset_commutative(
                head,
                model_items(sessions.last().model_totals_by_day.entries@, chart_days),
            );
        } else {
            assert(session_items(sessions, inside, chart_days) =~= head);
        }
        let g = gather(inside, chart_days);
        assert(sessions.fold_left(Multiset::empty(), g) == g(
            init.fold_left(Multiset::empty(), g),
            sessions.last(),
        ));
    }
}

/// The days, the activity of the projects and the number of sessions do not depend on the order in
/// which the sessions count, and neither do the totals of the models, where no more models are named
/// than are told apart.
pub proof fn session_order_does_not_matter(
    t: UsageModel,
    a: Seq<CachedFileScanEntry>,
    b: Seq<CachedFileScanEntry>,
    filtered: bool,
    inside: spec_fn(CachedFileScanEntry) -> bool,
    chart_days: Seq<Seq<char>>,
)
    requires
        a.to_multiset() == b.to_multiset(),
    ensures
        same_usage(
            with_sessions(t, a, filtered, inside, chart_days),
            with_sessions(t, b, filtered, inside, chart_days),
        ),
        told_apart(t.models, session_items(a, inside, chart_days)) ==> with_sessions(
            t,
            a,
            filtered,
            inside,
            chart_days,
        ).models == with_sessions(t, b, filtered, inside, chart_days).models,
{
    let f = shown_step(filtered, inside);
    assert(commutative_foldl(f)) by {
        assert forall|x: CachedFileScanEntry, y: CachedFileScanEntry, s: Shown| #[trigger]
            f(f(s, x), y) == f(f(s, y), x) by {
            steps_commute(s, x, y, filtered, inside);
        }
    }
    sessions_are_steps(t, a, filtered, inside, chart_days);
    sessions_are_steps(t, b, filtered, inside, chart_days);
    lemma_fold_left_permutation(a, b, f, shown_of(t));
    if told_apart(t.models, session_items(a, inside, chart_days)) {
        let g = gather(inside, chart_days);
        assert(commutative_foldl(g)) by {
            assert forall|
                x: CachedFileScanEntry,
                y: CachedFileScanEntry,
                s: Multiset<(Seq<char>, i64)>,
            | #[trigger]
                g(g(s, x), y) == g(g(s, y), x) by {
                assert(g(g(s, x), y) =~= g(g(s, y), x));
            }
        }
        items_are_gathered(a, inside, chart_days);
        items_are_gathered(b, inside, chart_days);
        lemma_fold_left_permutation(a, b, g, Multiset::empty());
        same_items_same_models(t, a, b, filtered, inside, chart_days);
    }
}

} // verus!
