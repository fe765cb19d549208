//! What a snapshot says of the days, the models and the projects that it sums up.

use crate::rounding::{means_are_near, shares_are_near};
use crate::sort::{is_sorting, sorted, sorting_keeps_items, text_before, Precedes};
use crate::text::opt_view;
use crate::usage::session::DailyTotals;
use crate::usage::snapshot::{
    LocalUsageModel, ProjectActivity, ProjectActivityBuilder, UsageDay,
    UsageMetric, UsageTotalsTokens,
};
use crate::usage::summary::{
    are_activities, are_days, are_top_models, are_totals, column_sum, is_activity,
    known_models, last_active, last_of, metric_column, models_text, peak_is_largest, share, shown,
    DayColumn,
};
use vstd::prelude::*;

verus! {

/// A day of a snapshot has the counts that were made for it: its total is input and output
/// together, cached input is part of the input and adds nothing, and a day without counts has
/// none.
pub proof fn days_show_what_was_counted(
    days: Seq<UsageDay>,
    keys: Seq<Seq<char>>,
    daily: Map<Seq<char>, DailyTotals>,
    i: int,
)
    requires
        are_days(days, keys, daily),
        0 <= i < keys.len(),
    ensures
        days.len() == keys.len(),
        days[i].day@ == keys[i],
        daily.dom().contains(keys[i]) ==> {
            let t = daily[keys[i]];
            &&& i64::MIN <= t.input + t.output <= i64::MAX ==> days[i].total_tokens == t.input
                + t.output
            &&& days[i].input_tokens == t.input
            &&& days[i].cached_input_tokens == t.cached
            &&& days[i].agent_time_ms == t.agent_ms
            &&& days[i].agent_runs == t.agent_runs
        },
        !daily.dom().contains(keys[i]) ==> days[i].total_tokens == 0 && days[i].input_tokens == 0
            && days[i].cached_input_tokens == 0 && days[i].agent_time_ms == 0
            && days[i].agent_runs == 0,
{
    let d = days[i];
}

/// The value of a day under a metric.
pub open spec fn metric_value(d: UsageDay, metric: UsageMetric) -> i64 {
    match metric {
        UsageMetric::Tokens => d.total_tokens,
        UsageMetric::Time => d.agent_time_ms,
        UsageMetric::Runs => d.agent_runs,
    }
}

/// A sum over days is that of its parts, and the sum of one day is what that day has: of no days
/// it is zero.
pub proof fn sums_add_up(a: Seq<UsageDay>, d: UsageDay)
    ensures
        column_sum(Seq::empty(), DayColumn::Total) == 0,
        column_sum(Seq::empty(), DayColumn::Input) == 0,
        column_sum(Seq::empty(), DayColumn::Cached) == 0,
        column_sum(Seq::empty(), DayColumn::Time) == 0,
        column_sum(Seq::empty(), DayColumn::Runs) == 0,
        fits(column_sum(a, DayColumn::Total) + d.total_tokens) ==> column_sum(
            a.push(d),
            DayColumn::Total,
        ) == column_sum(a, DayColumn::Total) + d.total_tokens,
        fits(column_sum(a, DayColumn::Input) + d.input_tokens) ==> column_sum(
            a.push(d),
            DayColumn::Input,
        ) == column_sum(a, DayColumn::Input) + d.input_tokens,
        fits(column_sum(a, DayColumn::Cached) + d.cached_input_tokens) ==> column_sum(
            a.push(d),
            DayColumn::Cached,
        ) == column_sum(a, DayColumn::Cached) + d.cached_input_tokens,
        fits(column_sum(a, DayColumn::Time) + d.agent_time_ms) ==> column_sum(
            a.push(d),
            DayColumn::Time,
        ) == column_sum(a, DayColumn::Time) + d.agent_time_ms,
        fits(column_sum(a, DayColumn::Runs) + d.agent_runs) ==> column_sum(
            a.push(d),
            DayColumn::Runs,
        ) == column_sum(a, DayColumn::Runs) + d.agent_runs,
        forall|m: UsageMetric|
            fits(column_sum(a, #[trigger] metric_column(m)) + metric_value(d, m)) ==> column_sum(
                a.push(d),
                metric_column(m),
            ) == column_sum(a, metric_column(m)) + metric_value(d, m),
{
    assert(a.push(d).drop_last() =~= a);
    assert(a.push(d).last() == d);
}

/// The number is one of 64 bits.
pub open spec fn fits(n: int) -> bool {
    i64::MIN <= n <= i64::MAX
}

/// The totals of a snapshot: those of the last seven days do not hold what lies before them, those
/// of all days hold every day, the average is a seventh of the seven days, the rate of cached input
/// is that of the seven days, and no day has more tokens than the peak.
pub proof fn totals_are_of_their_days(
    t: UsageTotalsTokens,
    before: Seq<UsageDay>,
    week: Seq<UsageDay>,
)
    requires
        are_totals(t, before + week),
        week.len() == 7,
    ensures
        t.last7_days_tokens == column_sum(week, DayColumn::Total),
        t.last30_days_tokens == column_sum(before + week, DayColumn::Total),
        0 <= t.last7_days_tokens < 0x20_0000_0000_0000 ==> t.last7_days_tokens - 7 <= 7
            * t.average_daily_tokens <= t.last7_days_tokens + 7,
        0 <= t.last7_days_tokens < 0x20_0000_0000_0000 && t.last7_days_tokens % 7 == 0 ==> 7
            * t.average_daily_tokens == t.last7_days_tokens,
        ({
            let input = column_sum(week, DayColumn::Input);
            let cached = column_sum(week, DayColumn::Cached);
            &&& input == 0 ==> t.cache_hit_rate_tenths == 0
            &&& 0 < cached <= input < 0x20_0000_0000_0000 ==> 1000 * cached - input <= input
                * t.cache_hit_rate_tenths <= 1000 * cached + input
        }),
        forall|i: int|
            0 <= i < (before + week).len() && (#[trigger] (before + week)[i]).total_tokens > 0
                ==> (before + week)[i].total_tokens <= t.peak_day_tokens && t.peak_day is Some,
        t.peak_day is Some ==> exists|i: int|
            0 <= i < (before + week).len() && (#[trigger] (before + week)[i]).day@
                == t.peak_day->0@ && (before + week)[i].total_tokens == t.peak_day_tokens
                && t.peak_day_tokens > 0,
{
    let days = before + week;
    assert(days.skip(days.len() - 7) =~= week);
    if before.len() == 0 {
        assert(days =~= week);
    }
    assert(last_of(days, 7) =~= week);
    let sum = column_sum(week, DayColumn::Total) as int;
    if 0 <= sum < 0x20_0000_0000_0000 {
        means_are_near(sum, 7);
    }
    let input = column_sum(week, DayColumn::Input) as int;
    let cached = column_sum(week, DayColumn::Cached) as int;
    if 0 < cached <= input < 0x20_0000_0000_0000 {
        lemma_share_near(cached, input);
    }
    peak_is_largest(days, DayColumn::Total);
    let p = crate::usage::summary::peak_place(days, DayColumn::Total);
    assert(opt_view(t.peak_day) is Some ==> days[p].total_tokens > 0);
}

/// A share in tenths of a percent is less than one tenth off, and all of a whole is all of it.
pub proof fn lemma_share_near(part: int, whole: int)
    requires
        0 < part <= whole < 0x20_0000_0000_0000,
    ensures
        1000 * part - whole <= whole * share(part, whole) <= 1000 * part + whole,
        0 <= share(part, whole) <= 1001,
{
    shares_are_near(1000, part as nat, whole as nat);
    let t = crate::double::rounded(
        crate::double::product(1000, crate::double::quotient(part as nat, whole as nat)),
    );
    assert(t <= 1001) by (nonlinear_arith)
        requires
            whole * t <= 1000 * part + whole,
            part <= whole,
            whole > 0,
            t >= 0,
    ;
}

/// An entry is a model with a name and tokens.
pub open spec fn counts_as_model(e: (String, i64)) -> bool {
    e.0@ != "unknown"@ && e.1 > 0
}

/// What the list of known models says of the entry at a place.
pub open spec fn entry_at(
    entries: Seq<(String, i64)>,
    total: i64,
    i: int,
) -> (Seq<char>, i64, int) {
    (entries[i].0@, entries[i].1, share(entries[i].1 as int, total as int))
}

/// Tokens were counted for a model.
pub open spec fn counted(entries: Seq<(String, i64)>, model: Seq<char>, tokens: i64) -> bool {
    exists|i: int|
        0 <= i < entries.len() && (#[trigger] entries[i]).0@ == model && entries[i].1 == tokens
}

/// A model is listed with its tokens.
pub open spec fn listed_with(
    top: Seq<LocalUsageModel>,
    model: Seq<char>,
    tokens: i64,
) -> bool {
    exists|k: int|
        0 <= k < top.len() && (#[trigger] top[k]).model@ == model && top[k].tokens == tokens
}

proof fn lemma_known_entry(entries: Seq<(String, i64)>, total: i64, k: int) -> (i: int)
    requires
        0 <= k < known_models(entries, total).len(),
    ensures
        0 <= i < entries.len(),
        counts_as_model(entries[i]),
        known_models(entries, total)[k] == entry_at(entries, total, i),
    decreases entries.len(),
{
    let s = entries.drop_last();
    let rest = known_models(s, total);
    if k < rest.len() {
        let i = lemma_known_entry(s, total, k);
        assert(s[i] == entries[i]);
        i
    } else {
        entries.len() - 1
    }
}

proof fn lemma_entry_known(entries: Seq<(String, i64)>, total: i64, i: int) -> (k: int)
    requires
        0 <= i < entries.len(),
        counts_as_model(entries[i]),
    ensures
        0 <= k < known_models(entries, total).len(),
        known_models(entries, total)[k] == entry_at(entries, total, i),
    decreases entries.len(),
{
    let s = entries.drop_last();
    if i < s.len() {
        assert(s[i] == entries[i]);
        lemma_entry_known(s, total, i)
    } else {
        known_models(entries, total).len() - 1
    }
}

/// Whatever a sorting lists comes from the entries.
proof fn lemma_ranked_entry(
    all: Seq<LocalUsageModel>,
    ranked: Seq<LocalUsageModel>,
    entries: Seq<(String, i64)>,
    total: i64,
    k: int,
)
    requires
        models_text(all) == known_models(entries, total),
        is_sorting(all, ranked),
        0 <= k < ranked.len(),
    ensures
        counted(entries, ranked[k].model@, ranked[k].tokens),
        ranked[k].tokens > 0,
        ranked[k].model@ != "unknown"@,
        ranked[k].share_tenths == share(ranked[k].tokens as int, total as int),
{
    sorting_keeps_items(all, ranked);
    assert(all.contains(ranked[k]));
    let a = choose|a: int| 0 <= a < all.len() && all[a] == ranked[k];
    assert(models_text(all)[a] == (
        all[a].model@,
        all[a].tokens,
        all[a].share_tenths as int,
    ));
    let i = lemma_known_entry(entries, total, a);
    assert(entries[i].0@ == ranked[k].model@);
}

/// Whatever counts as a model stands in the sorting.
proof fn lemma_entry_ranked(
    all: Seq<LocalUsageModel>,
    ranked: Seq<LocalUsageModel>,
    entries: Seq<(String, i64)>,
    total: i64,
    i: int,
) -> (k: int)
    requires
        models_text(all) == known_models(entries, total),
        is_sorting(all, ranked),
        0 <= i < entries.len(),
        counts_as_model(entries[i]),
    ensures
        0 <= k < ranked.len(),
        ranked[k].model@ == entries[i].0@,
        ranked[k].tokens == entries[i].1,
{
    sorting_keeps_items(all, ranked);
    let a = lemma_entry_known(entries, total, i);
    assert(models_text(all).len() == all.len());
    assert(models_text(all)[a] == (
        all[a].model@,
        all[a].tokens,
        all[a].share_tenths as int,
    ));
    assert(ranked.contains(all[a]));
    choose|k: int| 0 <= k < ranked.len() && ranked[k] == all[a]
}

proof fn lemma_ranked_order(ranked: Seq<LocalUsageModel>, i: int, j: int)
    requires
        sorted(ranked),
        0 <= i < j < ranked.len(),
    ensures
        ranked[i].tokens >= ranked[j].tokens,
{
    assert(!ranked[j].before(ranked[i]));
}

/// The models that a snapshot lists: at most four, most tokens first, each with the tokens that
/// were counted for it and its share of them all; none is called unknown, and a model that is not
/// listed has no more tokens than any that is.
pub proof fn top_models_have_the_most_tokens(
    top: Seq<LocalUsageModel>,
    entries: Seq<(String, i64)>,
    total: i64,
)
    requires
        are_top_models(top, entries, total),
    ensures
        top.len() <= 4,
        forall|i: int, j: int|
            0 <= i < j < top.len() ==> (#[trigger] top[i]).tokens >= (#[trigger] top[j]).tokens,
        forall|k: int|
            0 <= k < top.len() ==> counted(
                entries,
                (#[trigger] top[k]).model@,
                top[k].tokens,
            ) && top[k].tokens > 0 && top[k].model@ != "unknown"@,
        forall|k: int|
            0 <= k < top.len() && (#[trigger] top[k]).tokens <= total < 0x20_0000_0000_0000
                ==> 1000 * top[k].tokens - total <= total * top[k].share_tenths <= 1000
                * top[k].tokens + total,
        forall|i: int|
            0 <= i < entries.len() && (#[trigger] entries[i]).1 > 0 && entries[i].0@
                != "unknown"@ ==> listed_with(top, entries[i].0@, entries[i].1) || (top.len() == 4
                && top[3].tokens >= entries[i].1),
{
    let (all, ranked) = choose|all: Seq<LocalUsageModel>, ranked: Seq<LocalUsageModel>|
        #![trigger is_sorting(all, ranked)]
        models_text(all) == known_models(entries, total) && is_sorting(all, ranked) && top == (if
        ranked.len() <= 4 {
            ranked
        } else {
            ranked.take(4)
        });
    assert forall|i: int, j: int| 0 <= i < j < top.len() implies (#[trigger] top[i]).tokens >= (
    #[trigger] top[j]).tokens by {
        lemma_ranked_order(ranked, i, j);
    }
    assert forall|k: int| 0 <= k < top.len() implies counted(
        entries,
        (#[trigger] top[k]).model@,
        top[k].tokens,
    ) && top[k].tokens > 0 && top[k].model@ != "unknown"@ by {
        lemma_ranked_entry(all, ranked, entries, total, k);
    }
    assert forall|k: int|
        0 <= k < top.len() && (#[trigger] top[k]).tokens <= total < 0x20_0000_0000_0000 implies 1000
        * top[k].tokens - total <= total * top[k].share_tenths <= 1000 * top[k].tokens + total by {
        lemma_ranked_entry(all, ranked, entries, total, k);
        lemma_share_near(top[k].tokens as int, total as int);
    }
    assert forall|i: int|
        0 <= i < entries.len() && (#[trigger] entries[i]).1 > 0 && entries[i].0@
            != "unknown"@ implies listed_with(top, entries[i].0@, entries[i].1) || (top.len() == 4
        && top[3].tokens >= entries[i].1) by {
        let k = lemma_entry_ranked(all, ranked, entries, total, i);
        if k < 4 {
            assert(top[k].model@ == entries[i].0@);
        } else {
            if k > 3 {
                lemma_ranked_order(ranked, 3, k);
            }
            assert(top[3] == ranked[3]);
        }
    }
}

/// A day shows that something was done on it.
pub open spec fn was_active(daily: Map<Seq<char>, DailyTotals>, day: Seq<char>) -> bool {
    daily.dom().contains(day) && (daily[day].input > 0 || daily[day].output > 0
        || daily[day].agent_ms > 0 || daily[day].agent_runs > 0)
}

/// The day of the last activity is one of the days, something was done on it, and nothing was done
/// on any day after it; without one nothing was done on any.
pub proof fn last_activity_is_the_last(keys: Seq<Seq<char>>, daily: Map<Seq<char>, DailyTotals>)
    ensures
        last_active(keys, daily) is None <==> (forall|i: int|
            0 <= i < keys.len() ==> !was_active(daily, #[trigger] keys[i])),
        last_active(keys, daily) is Some ==> exists|i: int|
            0 <= i < keys.len() && #[trigger] keys[i] == last_active(keys, daily)->0
                && was_active(daily, keys[i]) && (forall|j: int|
                i < j < keys.len() ==> !was_active(daily, #[trigger] keys[j])),
    decreases keys.len(),
{
    if keys.len() > 0 {
        let n = keys.len() - 1;
        let s = keys.drop_last();
        last_activity_is_the_last(s, daily);
        assert(keys[n] == keys.last());
        assert(forall|i: int| 0 <= i < n ==> #[trigger] s[i] == keys[i]);
        if was_active(daily, keys[n]) {
            assert(last_active(keys, daily) == Some(keys[n]));
        } else {
            assert(last_active(keys, daily) == last_active(s, daily));
            if last_active(s, daily) is Some {
                let i = choose|i: int|
                    0 <= i < s.len() && #[trigger] s[i] == last_active(s, daily)->0 && was_active(
                        daily,
                        s[i],
                    ) && (forall|j: int| i < j < s.len() ==> !was_active(daily, #[trigger] s[j]));
                assert(keys[i] == s[i]);
                assert forall|j: int| i < j < keys.len() implies !was_active(
                    daily,
                    #[trigger] keys[j],
                ) by {
                    if j < n {
                        assert(s[j] == keys[j]);
                    }
                }
            } else {
                assert forall|i: int| 0 <= i < keys.len() implies !was_active(
                    daily,
                    #[trigger] keys[i],
                ) by {
                    if i < n {
                        assert(s[i] == keys[i]);
                    }
                }
            }
        }
    }
}

/// An activity is that of one of the projects.
pub open spec fn of_a_project(
    a: ProjectActivity,
    list: Seq<(String, ProjectActivityBuilder)>,
    keys: Seq<Seq<char>>,
) -> bool {
    exists|i: int| 0 <= i < list.len() && is_activity(a, (#[trigger] list[i]).1, keys)
}

/// The activity of a project is among those that are listed.
pub open spec fn has_activity_of(
    listed: Seq<ProjectActivity>,
    b: ProjectActivityBuilder,
    keys: Seq<Seq<char>>,
) -> bool {
    exists|k: int| 0 <= k < listed.len() && is_activity(#[trigger] listed[k], b, keys)
}

proof fn lemma_activity_project(
    all: Seq<ProjectActivity>,
    list: Seq<(String, ProjectActivityBuilder)>,
    keys: Seq<Seq<char>>,
    k: int,
) -> (i: int)
    requires
        are_activities(all, list, keys),
        0 <= k < all.len(),
    ensures
        0 <= i < list.len(),
        shown(list[i].1, keys),
        is_activity(all[k], list[i].1, keys),
    decreases list.len(),
{
    let s = list.drop_last();
    if !shown(list.last().1, keys) {
        let i = lemma_activity_project(all, s, keys, k);
        assert(s[i] == list[i]);
        i
    } else if k < all.len() - 1 {
        let i = lemma_activity_project(all.drop_last(), s, keys, k);
        assert(s[i] == list[i]);
        i
    } else {
        list.len() - 1
    }
}

proof fn lemma_project_activity(
    all: Seq<ProjectActivity>,
    list: Seq<(String, ProjectActivityBuilder)>,
    keys: Seq<Seq<char>>,
    i: int,
) -> (k: int)
    requires
        are_activities(all, list, keys),
        0 <= i < list.len(),
        shown(list[i].1, keys),
    ensures
        0 <= k < all.len(),
        is_activity(all[k], list[i].1, keys),
    decreases list.len(),
{
    let s = list.drop_last();
    if i == list.len() - 1 {
        all.len() - 1
    } else {
        assert(s[i] == list[i]);
        if shown(list.last().1, keys) {
            let k = lemma_project_activity(all.drop_last(), s, keys, i);
            assert(all.drop_last()[k] == all[k]);
            k
        } else {
            lemma_project_activity(all, s, keys, i)
        }
    }
}

/// The first of two activities was no earlier than the second; where both were on the same day its
/// path does not come after.
pub open spec fn stands_rightly_before(a: ProjectActivity, b: ProjectActivity) -> bool {
    &&& a.last_activity_day is Some && b.last_activity_day is Some
    &&& !text_before(a.last_activity_day->0@, b.last_activity_day->0@)
    &&& a.last_activity_day->0@ == b.last_activity_day->0@ ==> !text_before(
        b.display_path@,
        a.display_path@,
    )
}

/// The projects that a snapshot lists are those that were active on one of the days, each with its
/// own counts, and the one that was active last stands first; of two that were last active on the
/// same day the one whose path comes first does.
pub proof fn projects_are_listed_latest_first(
    all: Seq<ProjectActivity>,
    listed: Seq<ProjectActivity>,
    list: Seq<(String, ProjectActivityBuilder)>,
    keys: Seq<Seq<char>>,
)
    requires
        are_activities(all, list, keys),
        is_sorting(all, listed),
    ensures
        forall|i: int, j: int|
            0 <= i < j < listed.len() ==> stands_rightly_before(
                #[trigger] listed[i],
                #[trigger] listed[j],
            ),
        forall|k: int| 0 <= k < listed.len() ==> of_a_project(#[trigger] listed[k], list, keys),
        forall|i: int, d: int|
            0 <= i < list.len() && 0 <= d < keys.len() && was_active(
                (#[trigger] list[i]).1.daily@,
                #[trigger] keys[d],
            ) ==> has_activity_of(listed, list[i].1, keys),
{
    sorting_keeps_items(all, listed);
    assert forall|k: int| 0 <= k < listed.len() implies of_a_project(
        #[trigger] listed[k],
        list,
        keys,
    ) && listed[k].last_activity_day is Some by {
        assert(all.contains(listed[k]));
        let a = choose|a: int| 0 <= a < all.len() && all[a] == listed[k];
        let i = lemma_activity_project(all, list, keys, a);
        assert(is_activity(listed[k], list[i].1, keys));
    }
    assert forall|i: int, j: int| 0 <= i < j < listed.len() implies stands_rightly_before(
        #[trigger] listed[i],
        #[trigger] listed[j],
    ) by {
        let a = listed[i];
        let b = listed[j];
        assert(!b.before(a));
        crate::sort::text_before_asymmetric(
            a.last_activity_day->0@,
            b.last_activity_day->0@,
        );
    }
    assert forall|i: int, d: int|
        0 <= i < list.len() && 0 <= d < keys.len() && was_active(
            (#[trigger] list[i]).1.daily@,
            #[trigger] keys[d],
        ) implies has_activity_of(listed, list[i].1, keys) by {
        last_activity_is_the_last(keys, list[i].1.daily@);
        assert(shown(list[i].1, keys));
        let a = lemma_project_activity(all, list, keys, i);
        assert(listed.contains(all[a]));
        let k = choose|k: int| 0 <= k < listed.len() && listed[k] == all[a];
        assert(is_activity(listed[k], list[i].1, keys));
    }
}

/// A project of a snapshot has the counts of its own days and no others.
pub proof fn projects_show_their_own_days(
    a: ProjectActivity,
    b: ProjectActivityBuilder,
    keys: Seq<Seq<char>>,
    i: int,
)
    requires
        is_activity(a, b, keys),
        0 <= i < keys.len(),
    ensures
        a.display_path@ == b.display_path@,
        a.days@.len() == keys.len(),
        a.days@[i].day@ == keys[i],
        b.daily@.dom().contains(keys[i]) && fits(
            b.daily@[keys[i]].input + b.daily@[keys[i]].output,
        ) ==> a.days@[i].total_tokens == b.daily@[keys[i]].input + b.daily@[keys[i]].output
            && a.days@[i].agent_time_ms == b.daily@[keys[i]].agent_ms && a.days@[i].agent_runs
            == b.daily@[keys[i]].agent_runs,
        a.total_tokens == column_sum(a.days@, DayColumn::Total),
        a.cached_input_tokens == column_sum(a.days@, DayColumn::Cached),
        a.agent_time_ms == column_sum(a.days@, DayColumn::Time),
        a.agent_runs == column_sum(a.days@, DayColumn::Runs),
{
    days_show_what_was_counted(a.days@, keys, b.daily@, i);
}

/// The last days of a row are its end, in their order, all of them where there are fewer.
pub proof fn last_days_are_the_end<T>(s: Seq<T>, n: nat)
    ensures
        last_of(s, n).len() == if s.len() < n {
            s.len()
        } else {
            n
        },
        forall|i: int|
            0 <= i < last_of(s, n).len() ==> #[trigger] last_of(s, n)[i] == s[s.len() - last_of(
                s,
                n,
            ).len() + i],
{
}

} // verus!
