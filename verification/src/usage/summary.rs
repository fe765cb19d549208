//! The snapshot of a refresh and the labels of its totals.

use crate::calendar::Weekday;
use crate::double::{
    divide_small, magnitude, mean, multiply, product, quotient, round, rounded, rounded_mean,
};
use crate::locale::{localized, number_text, tenths_text, DisplayFormatter};
use crate::sort::{
    is_sorting, stable_sort, text_before, text_before_asymmetric, text_before_weak, text_less,
    Precedes,
};
use crate::strmap::StrMap;
use crate::text::{opt_view, same, views};
use crate::usage::format::{
    at_least_zero, format_duration, format_duration_compact, long_duration, short_duration,
};
use crate::usage::labels::{day_key_cuts, styled_day_label, tokens_text};
use crate::usage::session::{on_day, DailyTotals};
use crate::usage::snapshot::{
    LocalUsageModel, LocalUsageSnapshot, ProjectActivity, ProjectActivityBuilder, UsageAccumulator,
    UsageDay, UsageMetric, UsageTotalsTokens,
};
use vstd::prelude::*;

verus! {

/// The day with a key and its totals.
pub open spec fn is_day(d: UsageDay, key: Seq<char>, t: DailyTotals) -> bool {
    &&& d.day@ == key
    &&& d.input_tokens == t.input
    &&& d.cached_input_tokens == t.cached
    &&& d.total_tokens == t.input.wrapping_add(t.output)
    &&& d.agent_time_ms == t.agent_ms
    &&& d.agent_runs == t.agent_runs
}

/// The days with the given keys and their totals, in the order of the keys.
pub open spec fn are_days(
    days: Seq<UsageDay>,
    keys: Seq<Seq<char>>,
    daily: Map<Seq<char>, DailyTotals>,
) -> bool {
    days.len() == keys.len() && forall|i: int|
        0 <= i < keys.len() ==> is_day(#[trigger] days[i], keys[i], on_day(daily, keys[i]))
}

/// What is added up over days.
#[derive(Debug, Clone, Copy, PartialEq, Eq, Structural)]
pub enum DayColumn {
    Total,
    Input,
    Cached,
    Time,
    Runs,
}

/// A column of a day.
pub open spec fn column(d: UsageDay, c: DayColumn) -> i64 {
    match c {
        DayColumn::Total => d.total_tokens,
        DayColumn::Input => d.input_tokens,
        DayColumn::Cached => d.cached_input_tokens,
        DayColumn::Time => d.agent_time_ms,
        DayColumn::Runs => d.agent_runs,
    }
}

fn column_of(d: &UsageDay, c: DayColumn) -> (r: i64)
    ensures
        r == column(*d, c),
{
    match c {
        DayColumn::Total => d.total_tokens,
        DayColumn::Input => d.input_tokens,
        DayColumn::Cached => d.cached_input_tokens,
        DayColumn::Time => d.agent_time_ms,
        DayColumn::Runs => d.agent_runs,
    }
}

/// A column added up over days.
pub open spec fn column_sum(days: Seq<UsageDay>, c: DayColumn) -> i64
    decreases days.len(),
{
    if days.len() == 0 {
        0
    } else {
        column_sum(days.drop_last(), c).wrapping_add(column(days.last(), c))
    }
}

/// A column added up over days.
pub fn sum_column(days: &Vec<UsageDay>, c: DayColumn) -> (r: i64)
    ensures
        r == column_sum(days@, c),
{
    let mut sum: i64 = 0;
    let mut i: usize = 0;
    while i < days.len()
        invariant
            i <= days@.len(),
            sum == column_sum(days@.take(i as int), c),
        decreases days@.len() - i,
    {
        assert(days@.take(i + 1).drop_last() =~= days@.take(i as int));
        sum = sum.wrapping_add(column_of(&days[i], c));
        i += 1;
    }
    assert(days@.take(i as int) =~= days@);
    sum
}

/// The last `n` items, or all where there are fewer.
pub open spec fn last_of<T>(s: Seq<T>, n: nat) -> Seq<T> {
    if s.len() <= n {
        s
    } else {
        s.skip(s.len() - n)
    }
}

/// The place of the largest value of a column, the last one where several are equal.
pub open spec fn peak_place(days: Seq<UsageDay>, c: DayColumn) -> int
    decreases days.len(),
{
    if days.len() <= 1 {
        0
    } else {
        let p = peak_place(days.drop_last(), c);
        if column(days.last(), c) >= column(days[p], c) {
            days.len() - 1
        } else {
            p
        }
    }
}

/// The day with the largest value of a column, where that is above zero.
pub open spec fn peak(days: Seq<UsageDay>, c: DayColumn) -> Option<UsageDay> {
    let p = peak_place(days, c);
    if days.len() > 0 && column(days[p], c) > 0 {
        Some(days[p])
    } else {
        None
    }
}

/// No day has a larger value than the peak, and no later day has the same.
pub proof fn peak_is_largest(days: Seq<UsageDay>, c: DayColumn)
    requires
        days.len() > 0,
    ensures
        0 <= peak_place(days, c) < days.len(),
        forall|i: int|
            0 <= i < days.len() ==> column(#[trigger] days[i], c) <= column(
                days[peak_place(days, c)],
                c,
            ),
        forall|i: int|
            peak_place(days, c) < i < days.len() ==> column(#[trigger] days[i], c) < column(
                days[peak_place(days, c)],
                c,
            ),
    decreases days.len(),
{
    if days.len() > 1 {
        let s = days.drop_last();
        peak_is_largest(s, c);
        assert forall|i: int| 0 <= i < days.len() - 1 implies #[trigger] days[i] == s[i] by {}
    }
}

fn peak_day(days: &Vec<UsageDay>, c: DayColumn) -> (r: Option<usize>)
    ensures
        match r {
            Some(i) => i < days@.len() && peak(days@, c) == Some(days@[i as int]),
            None => peak(days@, c) is None,
        },
{
    if days.len() == 0 {
        return None;
    }
    let mut best: usize = 0;
    let mut i: usize = 1;
    assert(days@.take(1).len() == 1);
    while i < days.len()
        invariant
            1 <= i <= days@.len(),
            best < i,
            best == peak_place(days@.take(i as int), c),
        decreases days@.len() - i,
    {
        assert(days@.take(i + 1).drop_last() =~= days@.take(i as int));
        if column_of(&days[i], c) >= column_of(&days[best], c) {
            best = i;
        }
        i += 1;
    }
    assert(days@.take(i as int) =~= days@);
    if column_of(&days[best], c) > 0 {
        Some(best)
    } else {
        None
    }
}

/// `part` of `whole` in tenths of a percent, as a double rounded to the nearest integer; zero where
/// there is no whole.
pub open spec fn share(part: int, whole: int) -> int {
    if whole <= 0 {
        0
    } else {
        let t = rounded(product(1000, quotient(magnitude(part), whole as nat)));
        let v = if part < 0 {
            -(t as int)
        } else {
            t as int
        };
        if v > i64::MAX {
            i64::MAX as int
        } else if v < i64::MIN {
            i64::MIN as int
        } else {
            v
        }
    }
}

/// `part` of `whole` in tenths of a percent.
pub fn share_tenths(part: i64, whole: i64) -> (r: i64)
    ensures
        r == share(part as int, whole as int),
{
    if whole <= 0 {
        return 0;
    }
    let size: u64 = if part < 0 {
        (-(part as i128)) as u64
    } else {
        part as u64
    };
    let x = multiply(1000, divide_small(size, whole as u64));
    let t: u128 = round(x);
    if part < 0 {
        if t > 0x8000_0000_0000_0000 {
            i64::MIN
        } else {
            (-(t as i128)) as i64
        }
    } else if t > 0x7fff_ffff_ffff_ffff {
        i64::MAX
    } else {
        t as i64
    }
}

impl LocalUsageSnapshot {
    /// The last seven days.
    pub fn last7_days(&self) -> (r: Vec<UsageDay>)
        ensures
            r@ == last_of(self.days@, 7),
    {
        last_days(&self.days, 7)
    }

    /// The last `n` days.
    pub fn last_n_days(&self, n: usize) -> (r: Vec<UsageDay>)
        ensures
            r@ == last_of(self.days@, n as nat),
    {
        last_days(&self.days, n)
    }
}

fn last_days(days: &Vec<UsageDay>, n: usize) -> (r: Vec<UsageDay>)
    ensures
        r@ == last_of(days@, n as nat),
{
    let start: usize = if days.len() <= n {
        0
    } else {
        days.len() - n
    };
    let mut out: Vec<UsageDay> = Vec::new();
    let mut i: usize = start;
    while i < days.len()
        invariant
            start <= i <= days@.len(),
            out@ == days@.subrange(start as int, i as int),
        decreases days@.len() - i,
    {
        out.push(days[i].duplicate());
        assert(out@ =~= days@.subrange(start as int, i + 1));
        i += 1;
    }
    assert(days@.subrange(start as int, i as int) =~= last_of(days@, n as nat));
    out
}

fn days_for(keys: &Vec<String>, daily: &StrMap<DailyTotals>) -> (r: Vec<UsageDay>)
    requires
        daily.wf(),
    ensures
        are_days(r@, views(keys@), daily@),
{
    let mut out: Vec<UsageDay> = Vec::new();
    let mut i: usize = 0;
    while i < keys.len()
        invariant
            i <= keys@.len(),
            daily.wf(),
            out@.len() == i,
            forall|j: int|
                0 <= j < i ==> is_day(#[trigger] out@[j], keys@[j]@, on_day(daily@, keys@[j]@)),
        decreases keys@.len() - i,
    {
        let key = keys[i].as_str();
        let t: DailyTotals = match daily.get(key) {
            Some(t) => *t,
            None => DailyTotals { input: 0, cached: 0, output: 0, agent_ms: 0, agent_runs: 0 },
        };
        out.push(
            UsageDay {
                day: keys[i].clone(),
                input_tokens: t.input,
                cached_input_tokens: t.cached,
                total_tokens: t.input.wrapping_add(t.output),
                agent_time_ms: t.agent_ms,
                agent_runs: t.agent_runs,
            },
        );
        i += 1;
    }
    out
}

impl Precedes for LocalUsageModel {
    /// More tokens first.
    open spec fn before(self, other: Self) -> bool {
        self.tokens > other.tokens
    }

    proof fn before_asymmetric(a: Self, b: Self) {
    }

    proof fn before_weak(a: Self, b: Self, c: Self) {
    }

    fn comes_before(&self, other: &Self) -> (r: bool) {
        self.tokens > other.tokens
    }
}

/// The models that are known by name and have tokens, with their shares of `total`.
pub open spec fn known_models(
    entries: Seq<(String, i64)>,
    total: i64,
) -> Seq<(Seq<char>, i64, int)>
    decreases entries.len(),
{
    if entries.len() == 0 {
        Seq::empty()
    } else {
        let rest = known_models(entries.drop_last(), total);
        let e = entries.last();
        if e.0@ != "unknown"@ && e.1 > 0 {
            rest.push((e.0@, e.1, share(e.1 as int, total as int)))
        } else {
            rest
        }
    }
}

/// The plain contents of models.
pub open spec fn models_text(ms: Seq<LocalUsageModel>) -> Seq<(Seq<char>, i64, int)> {
    ms.map_values(|m: LocalUsageModel| (m.model@, m.tokens, m.share_tenths as int))
}

/// The four models with the most tokens, most first; which of several with the same number of
/// tokens is taken is left open.
pub open spec fn are_top_models(
    top: Seq<LocalUsageModel>,
    entries: Seq<(String, i64)>,
    total: i64,
) -> bool {
    exists|all: Seq<LocalUsageModel>, ranked: Seq<LocalUsageModel>|
        #![trigger is_sorting(all, ranked)]
        models_text(all) == known_models(entries, total) && is_sorting(all, ranked) && top == (if
        ranked.len() <= 4 {
            ranked
        } else {
            ranked.take(4)
        })
}

fn top_models(entries: &Vec<(String, i64)>, total: i64) -> (r: Vec<LocalUsageModel>)
    ensures
        are_top_models(r@, entries@, total),
{
    let mut all: Vec<LocalUsageModel> = Vec::new();
    let mut i: usize = 0;
    assert(models_text(all@) =~= known_models(entries@.take(0), total));
    while i < entries.len()
        invariant
            i <= entries@.len(),
            models_text(all@) == known_models(entries@.take(i as int), total),
        decreases entries@.len() - i,
    {
        assert(entries@.take(i + 1).drop_last() =~= entries@.take(i as int));
        let tokens: i64 = entries[i].1;
        if !same(entries[i].0.as_str(), "unknown") && tokens > 0 {
            let ghost before = all@;
            all.push(
                LocalUsageModel {
                    model: entries[i].0.clone(),
                    tokens,
                    share_tenths: share_tenths(tokens, total),
                },
            );
            assert(models_text(all@) =~= models_text(before).push(
                (entries@[i as int].0@, tokens, share(tokens as int, total as int)),
            ));
        }
        i += 1;
    }
    assert(entries@.take(i as int) =~= entries@);
    let ghost listed = all@;
    let mut ranked = stable_sort(all);
    let ghost sorted = ranked@;
    ranked.truncate(4);
    assert(is_sorting(listed, sorted));
    assert(ranked@ == (if sorted.len() <= 4 {
        sorted
    } else {
        sorted.take(4)
    }));
    ranked
}

/// A day shows activity.
pub open spec fn active(t: DailyTotals) -> bool {
    t.input > 0 || t.output > 0 || t.agent_ms > 0 || t.agent_runs > 0
}

/// A day shows activity.
pub fn daily_has_activity(totals: DailyTotals) -> (r: bool)
    ensures
        r == active(totals),
{
    totals.input > 0 || totals.output > 0 || totals.agent_ms > 0 || totals.agent_runs > 0
}

/// The last of the given days on which there is activity.
pub open spec fn last_active(
    keys: Seq<Seq<char>>,
    daily: Map<Seq<char>, DailyTotals>,
) -> Option<Seq<char>>
    decreases keys.len(),
{
    if keys.len() == 0 {
        None
    } else if active(on_day(daily, keys.last())) {
        Some(keys.last())
    } else {
        last_active(keys.drop_last(), daily)
    }
}

/// The activity of a project over the given days.
pub open spec fn is_activity(
    a: ProjectActivity,
    b: ProjectActivityBuilder,
    keys: Seq<Seq<char>>,
) -> bool {
    &&& a.display_path@ == b.display_path@
    &&& are_days(a.days@, keys, b.daily@)
    &&& opt_view(a.last_activity_day) == last_active(keys, b.daily@)
    &&& a.total_tokens == column_sum(a.days@, DayColumn::Total)
    &&& a.cached_input_tokens == column_sum(a.days@, DayColumn::Cached)
    &&& a.agent_time_ms == column_sum(a.days@, DayColumn::Time)
    &&& a.agent_runs == column_sum(a.days@, DayColumn::Runs)
}

/// The project has been active on one of the days.
pub open spec fn shown(b: ProjectActivityBuilder, keys: Seq<Seq<char>>) -> bool {
    last_active(keys, b.daily@) is Some
}

/// The activities of the projects that were active, in the order of the list.
pub open spec fn are_activities(
    all: Seq<ProjectActivity>,
    list: Seq<(String, ProjectActivityBuilder)>,
    keys: Seq<Seq<char>>,
) -> bool
    decreases list.len(),
{
    if list.len() == 0 {
        all.len() == 0
    } else if shown(list.last().1, keys) {
        all.len() > 0 && is_activity(all.last(), list.last().1, keys) && are_activities(
            all.drop_last(),
            list.drop_last(),
            keys,
        )
    } else {
        are_activities(all, list.drop_last(), keys)
    }
}

/// The day key of the last activity; empty where there is none.
pub open spec fn last_day(a: ProjectActivity) -> Seq<char> {
    match a.last_activity_day {
        Some(d) => d@,
        None => Seq::empty(),
    }
}

/// An option orders before every text where it holds none.
pub open spec fn later_day(a: ProjectActivity, b: ProjectActivity) -> bool {
    (a.last_activity_day is Some && b.last_activity_day is None) || (a.last_activity_day is Some
        && b.last_activity_day is Some && text_before(last_day(b), last_day(a)))
}

impl Precedes for ProjectActivity {
    /// Latest activity first, then by path.
    open spec fn before(self, other: Self) -> bool {
        later_day(self, other) || (!later_day(other, self) && text_before(
            self.display_path@,
            other.display_path@,
        ))
    }

    proof fn before_asymmetric(a: Self, b: Self) {
        text_before_asymmetric(last_day(a), last_day(b));
        text_before_asymmetric(last_day(b), last_day(a));
        text_before_asymmetric(a.display_path@, b.display_path@);
    }

    proof fn before_weak(a: Self, b: Self, c: Self) {
        text_before_asymmetric(last_day(a), last_day(b));
        text_before_asymmetric(last_day(b), last_day(c));
        text_before_asymmetric(last_day(a), last_day(c));
        if !text_before(last_day(a), last_day(b)) && !text_before(last_day(b), last_day(c)) {
            text_before_weak(last_day(a), last_day(b), last_day(c));
        }
        if !text_before(last_day(b), last_day(a)) && !text_before(last_day(c), last_day(b)) {
            text_before_weak(last_day(c), last_day(b), last_day(a));
        }
        if !text_before(last_day(a), last_day(c)) && !text_before(last_day(c), last_day(b)) {
            text_before_weak(last_day(a), last_day(c), last_day(b));
        }
        if !text_before(last_day(b), last_day(a)) && !text_before(last_day(a), last_day(c)) {
            text_before_weak(last_day(b), last_day(a), last_day(c));
        }
        if !text_before(a.display_path@, b.display_path@) && !text_before(
            b.display_path@,
            c.display_path@,
        ) {
            text_before_weak(a.display_path@, b.display_path@, c.display_path@);
        }
    }

    fn comes_before(&self, other: &Self) -> (r: bool) {
        let (later, earlier) = match (&self.last_activity_day, &other.last_activity_day) {
            (Some(a), Some(b)) => (
                text_less(b.as_str(), a.as_str()),
                text_less(a.as_str(), b.as_str()),
            ),
            (Some(_), None) => (true, false),
            (None, Some(_)) => (false, true),
            (None, None) => (false, false),
        };
        later || (!earlier && text_less(self.display_path.as_str(), other.display_path.as_str()))
    }
}

fn last_active_day(keys: &Vec<String>, daily: &StrMap<DailyTotals>) -> (r: Option<String>)
    requires
        daily.wf(),
    ensures
        opt_view(r) == last_active(views(keys@), daily@),
{
    let mut n: usize = keys.len();
    assert(views(keys@).take(n as int) =~= views(keys@));
    while n > 0
        invariant
            n <= keys@.len(),
            daily.wf(),
            last_active(views(keys@), daily@) == last_active(views(keys@).take(n as int), daily@),
        decreases n,
    {
        let key = keys[n - 1].as_str();
        assert(views(keys@).take(n as int).last() == key@);
        assert(views(keys@).take(n as int).drop_last() =~= views(keys@).take(n - 1));
        let t: DailyTotals = match daily.get(key) {
            Some(t) => *t,
            None => DailyTotals { input: 0, cached: 0, output: 0, agent_ms: 0, agent_runs: 0 },
        };
        if daily_has_activity(t) {
            return Some(keys[n - 1].clone());
        }
        n -= 1;
    }
    None
}

/// The activities of the projects, latest activity first, then by path.
pub fn build_project_activity(
    day_keys: &Vec<String>,
    projects: &StrMap<ProjectActivityBuilder>,
) -> (r: Vec<ProjectActivity>)
    requires
        forall|i: int| 0 <= i < projects.entries@.len() ==> (#[trigger] projects.entries@[i]).1.daily.wf(),
    ensures
        exists|all: Seq<ProjectActivity>|
            #![trigger is_sorting(all, r@)]
            are_activities(all, projects.entries@, views(day_keys@)) && is_sorting(all, r@),
{
    let mut out: Vec<ProjectActivity> = Vec::new();
    let mut i: usize = 0;
    while i < projects.entries.len()
        invariant
            i <= projects.entries@.len(),
            forall|j: int|
                0 <= j < projects.entries@.len() ==> (
                #[trigger] projects.entries@[j]).1.daily.wf(),
            are_activities(out@, projects.entries@.take(i as int), views(day_keys@)),
        decreases projects.entries@.len() - i,
    {
        assert(projects.entries@.take(i + 1).drop_last() =~= projects.entries@.take(i as int));
        let b = &projects.entries[i].1;
        let last = last_active_day(day_keys, &b.daily);
        if last.is_some() {
            let days = days_for(day_keys, &b.daily);
            let total: i64 = sum_column(&days, DayColumn::Total);
            let cached: i64 = sum_column(&days, DayColumn::Cached);
            let time: i64 = sum_column(&days, DayColumn::Time);
            let runs: i64 = sum_column(&days, DayColumn::Runs);
            let ghost before = out@;
            out.push(
                ProjectActivity {
                    display_path: b.display_path.clone(),
                    days,
                    last_activity_day: last,
                    total_tokens: total,
                    cached_input_tokens: cached,
                    agent_time_ms: time,
                    agent_runs: runs,
                },
            );
            assert(out@.drop_last() =~= before);
            assert(is_activity(out@.last(), *b, views(day_keys@)));
        }
        i += 1;
    }
    assert(projects.entries@.take(i as int) =~= projects.entries@);
    let ghost listed = out@;
    let r = stable_sort(out);
    assert(is_sorting(listed, r@));
    r
}

/// The totals of a row of days.
pub open spec fn are_totals(t: UsageTotalsTokens, days: Seq<UsageDay>) -> bool {
    let last7 = last_of(days, 7);
    &&& t.last7_days_tokens == column_sum(last7, DayColumn::Total)
    &&& t.last30_days_tokens == column_sum(days, DayColumn::Total)
    &&& t.average_daily_tokens == mean_of(last7, DayColumn::Total)
    &&& t.cache_hit_rate_tenths == share(
        column_sum(last7, DayColumn::Cached) as int,
        column_sum(last7, DayColumn::Input) as int,
    )
    &&& opt_view(t.peak_day) == (match peak(days, DayColumn::Total) {
        Some(d) => Some(d.day@),
        None => None,
    })
    &&& t.peak_day_tokens == (match peak(days, DayColumn::Total) {
        Some(d) => d.total_tokens as int,
        None => 0int,
    })
}

/// The rounded mean of a column; zero where there are no days.
pub open spec fn mean_of(days: Seq<UsageDay>, c: DayColumn) -> int {
    if days.len() == 0 {
        0
    } else {
        rounded_mean(column_sum(days, c) as int, days.len())
    }
}

/// The rounded mean of a column.
pub fn mean_column(days: &Vec<UsageDay>, c: DayColumn) -> (r: i64)
    ensures
        r == mean_of(days@, c),
{
    if days.len() == 0 {
        0
    } else {
        mean(sum_column(days, c), days.len() as u64)
    }
}

/// The snapshot of the totals over the given days.
pub open spec fn is_snapshot(
    s: LocalUsageSnapshot,
    t: UsageAccumulator,
    day_keys: Seq<Seq<char>>,
    first_weekday: Weekday,
    activity_keys: Seq<Seq<char>>,
) -> bool {
    &&& are_days(s.days@, day_keys, t.daily@)
    &&& are_totals(s.totals, s.days@)
    &&& are_top_models(
        s.top_models@,
        t.models.entries@,
        column_sum(s.days@, DayColumn::Total),
    )
    &&& s.activity_first_weekday == first_weekday
    &&& s.matched_session_files == t.matched_session_files
    &&& exists|all: Seq<ProjectActivity>|
        #![trigger is_sorting(all, s.project_activity@)]
        are_activities(all, t.projects.entries@, activity_keys) && is_sorting(
            all,
            s.project_activity@,
        )
}

/// The snapshot of the totals over the given days.
pub fn build_snapshot(
    totals: &UsageAccumulator,
    day_keys: &Vec<String>,
    activity_first_weekday: Weekday,
    activity_day_keys: &Vec<String>,
) -> (r: LocalUsageSnapshot)
    requires
        totals.wf(),
    ensures
        is_snapshot(
            r,
            *totals,
            views(day_keys@),
            activity_first_weekday,
            views(activity_day_keys@),
        ),
{
    let days = days_for(day_keys, &totals.daily);
    let total_tokens: i64 = sum_column(&days, DayColumn::Total);
    let last7 = last_days(&days, 7);
    let last7_tokens: i64 = sum_column(&last7, DayColumn::Total);
    let last7_input: i64 = sum_column(&last7, DayColumn::Input);
    let last7_cached: i64 = sum_column(&last7, DayColumn::Cached);
    let average: i64 = mean_column(&last7, DayColumn::Total);
    let peak = peak_day(&days, DayColumn::Total);
    let (peak_key, peak_tokens) = match peak {
        Some(i) => (Some(days[i].day.clone()), days[i].total_tokens),
        None => (None, 0),
    };
    let top = top_models(&totals.models.entries, total_tokens);
    proof {
        assert forall|i: int| 0 <= i < totals.projects.entries@.len() implies (
        #[trigger] totals.projects.entries@[i]).1.daily.wf() by {
            totals.projects.lemma_entry(i);
        }
    }
    let project_activity = build_project_activity(activity_day_keys, &totals.projects);
    let ghost listed = choose|all: Seq<ProjectActivity>|
        #![trigger is_sorting(all, project_activity@)]
        are_activities(all, totals.projects.entries@, views(activity_day_keys@)) && is_sorting(
            all,
            project_activity@,
        );
    let r = LocalUsageSnapshot {
        days,
        totals: UsageTotalsTokens {
            last7_days_tokens: last7_tokens,
            last30_days_tokens: total_tokens,
            average_daily_tokens: average,
            cache_hit_rate_tenths: share_tenths(last7_cached, last7_input),
            peak_day: peak_key,
            peak_day_tokens: peak_tokens,
        },
        top_models: top,
        activity_first_weekday,
        project_activity,
        matched_session_files: totals.matched_session_files,
    };
    assert(is_sorting(listed, r.project_activity@));
    r
}

/// Labels of the totals of a snapshot.
#[derive(Debug)]
pub struct UsageTotalsView {
    pub last7_primary_label: String,
    pub last30_primary_label: String,
    pub avg_primary_label: String,
    pub cache_label: String,
    pub total_label: String,
    pub runs_label: String,
    pub peak_day_label: String,
    pub peak_sub_label: String,
}

/// The column that a metric shows.
pub open spec fn metric_column(metric: UsageMetric) -> DayColumn {
    match metric {
        UsageMetric::Tokens => DayColumn::Total,
        UsageMetric::Time => DayColumn::Time,
        UsageMetric::Runs => DayColumn::Runs,
    }
}

/// A count of runs.
pub open spec fn runs_text(f: DisplayFormatter, runs: int) -> Seq<char> {
    number_text(f, at_least_zero(runs)) + " runs"@
}

/// The label of the peak day, dashes where there is none.
pub open spec fn peak_label(f: DisplayFormatter, p: Option<UsageDay>) -> Seq<char> {
    match p {
        Some(d) => styled_day_label(f, d.day@),
        None => "--"@,
    }
}

/// A column of the peak day, zero where there is none.
pub open spec fn peak_value(p: Option<UsageDay>, c: DayColumn) -> int {
    match p {
        Some(d) => column(d, c) as int,
        None => 0,
    }
}

/// The labels of the totals under a metric.
pub open spec fn are_labels(
    v: UsageTotalsView,
    s: LocalUsageSnapshot,
    metric: UsageMetric,
    f: DisplayFormatter,
) -> bool {
    let last7 = last_of(s.days@, 7);
    let runs7 = column_sum(last7, DayColumn::Runs) as int;
    let p = peak(s.days@, metric_column(metric));
    &&& v.runs_label@ == runs_text(f, runs7)
    &&& match metric {
        UsageMetric::Tokens => {
            &&& v.last7_primary_label@ == tokens_text(f, s.totals.last7_days_tokens as int)
                + " tokens"@
            &&& v.last30_primary_label@ == tokens_text(f, s.totals.last30_days_tokens as int)
                + " tokens"@
            &&& v.avg_primary_label@ == tokens_text(f, s.totals.average_daily_tokens as int)
            &&& v.cache_label@ == localized(f, tenths_text(s.totals.cache_hit_rate_tenths as int))
                + "%"@
            &&& v.total_label@ == number_text(
                f,
                at_least_zero(s.totals.last30_days_tokens as int),
            )
            &&& v.peak_day_label@ == (match s.totals.peak_day {
                Some(d) => d@,
                None => "--"@,
            })
            &&& v.peak_sub_label@ == tokens_text(f, s.totals.peak_day_tokens as int) + " tokens"@
        },
        UsageMetric::Time => {
            &&& v.last7_primary_label@ == short_duration(column_sum(last7, DayColumn::Time) as int)
            &&& v.last30_primary_label@ == short_duration(
                column_sum(s.days@, DayColumn::Time) as int,
            )
            &&& v.avg_primary_label@ == short_duration(mean_of(last7, DayColumn::Time))
            &&& v.cache_label@ == "--"@
            &&& v.total_label@ == long_duration(column_sum(s.days@, DayColumn::Time) as int)
            &&& v.peak_day_label@ == peak_label(f, p)
            &&& v.peak_sub_label@ == short_duration(peak_value(p, DayColumn::Time))
                + " agent time"@
        },
        UsageMetric::Runs => {
            &&& v.last7_primary_label@ == runs_text(f, runs7)
            &&& v.last30_primary_label@ == runs_text(
                f,
                column_sum(s.days@, DayColumn::Runs) as int,
            )
            &&& v.avg_primary_label@ == number_text(
                f,
                at_least_zero(mean_of(last7, DayColumn::Runs)),
            )
            &&& v.cache_label@ == "--"@
            &&& v.total_label@ == number_text(
                f,
                at_least_zero(column_sum(s.days@, DayColumn::Runs) as int),
            )
            &&& v.peak_day_label@ == peak_label(f, p)
            &&& v.peak_sub_label@ == runs_text(f, peak_value(p, DayColumn::Runs))
        },
    }
}

/// The keys of the days can be cut into month and day.
pub open spec fn keys_cut(days: Seq<UsageDay>) -> bool {
    forall|i: int| 0 <= i < days.len() ==> day_key_cuts((#[trigger] days[i]).day@)
}

fn with_suffix(s: String, suffix: &str) -> (r: String)
    ensures
        r@ == s@ + suffix@,
{
    let mut out = s;
    out.append(suffix);
    out
}

fn peak_labels(days: &Vec<UsageDay>, c: DayColumn, f: DisplayFormatter) -> (r: (String, i64))
    requires
        keys_cut(days@),
    ensures
        r.0@ == peak_label(f, peak(days@, c)),
        r.1 == peak_value(peak(days@, c), c),
{
    match peak_day(days, c) {
        Some(i) => (f.short_day(days[i].day.as_str()), column_of(&days[i], c)),
        None => ("--".to_owned(), 0),
    }
}

impl LocalUsageSnapshot {
    /// The labels of the totals under a metric.
    pub fn totals_view(&self, metric: UsageMetric, formatter: DisplayFormatter) -> (r:
        UsageTotalsView)
        requires
            keys_cut(self.days@),
        ensures
            are_labels(r, *self, metric, formatter),
    {
        let f = formatter;
        let last7 = self.last7_days();
        let runs7: i64 = sum_column(&last7, DayColumn::Runs);
        let runs_label = with_suffix(f.format_count(runs7), " runs");
        match metric {
            UsageMetric::Tokens => UsageTotalsView {
                last7_primary_label: with_suffix(
                    f.tokens_compact(self.totals.last7_days_tokens),
                    " tokens",
                ),
                last30_primary_label: with_suffix(
                    f.tokens_compact(self.totals.last30_days_tokens),
                    " tokens",
                ),
                avg_primary_label: f.tokens_compact(self.totals.average_daily_tokens),
                cache_label: with_suffix(
                    f.format_one_decimal(self.totals.cache_hit_rate_tenths),
                    "%",
                ),
                total_label: f.format_count(self.totals.last30_days_tokens),
                runs_label,
                peak_day_label: match &self.totals.peak_day {
                    Some(d) => d.clone(),
                    None => "--".to_owned(),
                },
                peak_sub_label: with_suffix(
                    f.tokens_compact(self.totals.peak_day_tokens),
                    " tokens",
                ),
            },
            UsageMetric::Time => {
                let (peak_day_label, peak_ms) = peak_labels(&self.days, DayColumn::Time, f);
                let ms7: i64 = sum_column(&last7, DayColumn::Time);
                let ms30: i64 = sum_column(&self.days, DayColumn::Time);
                UsageTotalsView {
                    last7_primary_label: format_duration_compact(ms7),
                    last30_primary_label: format_duration_compact(ms30),
                    avg_primary_label: format_duration_compact(
                        mean_column(&last7, DayColumn::Time),
                    ),
                    cache_label: "--".to_owned(),
                    total_label: format_duration(ms30),
                    runs_label,
                    peak_day_label,
                    peak_sub_label: with_suffix(format_duration_compact(peak_ms), " agent time"),
                }
            },
            UsageMetric::Runs => {
                let (peak_day_label, peak_runs) = peak_labels(&self.days, DayColumn::Runs, f);
                let runs30: i64 = sum_column(&self.days, DayColumn::Runs);
                UsageTotalsView {
                    last7_primary_label: with_suffix(f.format_count(runs7), " runs"),
                    last30_primary_label: with_suffix(f.format_count(runs30), " runs"),
                    avg_primary_label: f.format_count(mean_column(&last7, DayColumn::Runs)),
                    cache_label: "--".to_owned(),
                    total_label: f.format_count(runs30),
                    runs_label,
                    peak_day_label,
                    peak_sub_label: with_suffix(f.format_count(peak_runs), " runs"),
                }
            },
        }
    }
}

} // verus!
