//! Totals over all sessions, and the snapshot that the dashboard shows.

use crate::calendar::Weekday;
use crate::sort::{
    text_before, text_before_asymmetric, text_before_total, text_before_weak, text_less,
};
use crate::strmap::StrMap;
use crate::text::{byte_len, chars_of, same, trim, trimmed, views};
use crate::usage::labels::{day_key_cuts, day_label};
use crate::usage::scan::CachedFileScanEntry;
use crate::usage::session::{
    add_model_tokens_limited, add_tokens, empty_day, on_day, DailyTotals, ModelsByDay,
};
use vstd::prelude::*;
use vstd::seq_lib::*;

verus! {

/// Usage of one day.
#[derive(Debug)]
pub struct UsageDay {
    pub day: String,
    pub input_tokens: i64,
    pub cached_input_tokens: i64,
    pub total_tokens: i64,
    pub agent_time_ms: i64,
    pub agent_runs: i64,
}

/// What the dashboard shows.
#[derive(Debug, Clone, Copy, PartialEq, Eq, Structural)]
pub enum UsageMetric {
    Tokens,
    Time,
    Runs,
}

impl UsageDay {
    /// The month and day of the day's key.
    pub fn short_label(&self) -> (r: String)
        requires
            day_key_cuts(self.day@),
        ensures
            r@ == day_label(self.day@),
    {
        crate::usage::labels::label_of_day(self.day.as_str())
    }

    /// A copy of the day.
    pub fn duplicate(&self) -> (r: Self)
        ensures
            r == *self,
    {
        UsageDay {
            day: self.day.clone(),
            input_tokens: self.input_tokens,
            cached_input_tokens: self.cached_input_tokens,
            total_tokens: self.total_tokens,
            agent_time_ms: self.agent_time_ms,
            agent_runs: self.agent_runs,
        }
    }
}

/// Token totals of the days shown; the hit rate in tenths of a percent.
#[derive(Debug)]
pub struct UsageTotalsTokens {
    pub last7_days_tokens: i64,
    pub last30_days_tokens: i64,
    pub average_daily_tokens: i64,
    pub cache_hit_rate_tenths: i64,
    pub peak_day: Option<String>,
    pub peak_day_tokens: i64,
}

/// A model and its share of all tokens, in tenths of a percent.
#[derive(Debug)]
pub struct LocalUsageModel {
    pub model: String,
    pub tokens: i64,
    pub share_tenths: i64,
}

/// Activity in one project.
#[derive(Debug)]
pub struct ProjectActivity {
    pub display_path: String,
    pub days: Vec<UsageDay>,
    pub last_activity_day: Option<String>,
    pub total_tokens: i64,
    pub cached_input_tokens: i64,
    pub agent_time_ms: i64,
    pub agent_runs: i64,
}

/// What one refresh found.
#[derive(Debug)]
pub struct LocalUsageSnapshot {
    pub days: Vec<UsageDay>,
    pub totals: UsageTotalsTokens,
    pub top_models: Vec<LocalUsageModel>,
    pub activity_first_weekday: Weekday,
    pub project_activity: Vec<ProjectActivity>,
    pub matched_session_files: u32,
}

/// Two days' totals added up.
pub open spec fn day_sum(a: DailyTotals, b: DailyTotals) -> DailyTotals {
    DailyTotals {
        input: a.input.wrapping_add(b.input),
        cached: a.cached.wrapping_add(b.cached),
        output: a.output.wrapping_add(b.output),
        agent_ms: a.agent_ms.wrapping_add(b.agent_ms),
        agent_runs: a.agent_runs.wrapping_add(b.agent_runs),
    }
}

fn add_day(a: DailyTotals, b: DailyTotals) -> (r: DailyTotals)
    ensures
        r == day_sum(a, b),
{
    DailyTotals {
        input: a.input.wrapping_add(b.input),
        cached: a.cached.wrapping_add(b.cached),
        output: a.output.wrapping_add(b.output),
        agent_ms: a.agent_ms.wrapping_add(b.agent_ms),
        agent_runs: a.agent_runs.wrapping_add(b.agent_runs),
    }
}

/// The totals of the days that `daily` has, with those of `more` added.
pub open spec fn with_days(
    daily: Map<Seq<char>, DailyTotals>,
    more: Map<Seq<char>, DailyTotals>,
) -> Map<Seq<char>, DailyTotals> {
    Map::new(
        |k: Seq<char>| daily.dom().contains(k),
        |k: Seq<char>|
            if more.dom().contains(k) {
                day_sum(daily[k], more[k])
            } else {
                daily[k]
            },
    )
}

/// The totals of a project with those of `more` added on the days of `shown`.
pub open spec fn with_shown_days(
    daily: Map<Seq<char>, DailyTotals>,
    more: Map<Seq<char>, DailyTotals>,
    shown: Set<Seq<char>>,
) -> Map<Seq<char>, DailyTotals> {
    Map::new(
        |k: Seq<char>| daily.dom().contains(k) || (more.dom().contains(k) && shown.contains(k)),
        |k: Seq<char>|
            if more.dom().contains(k) && shown.contains(k) {
                day_sum(on_day(daily, k), more[k])
            } else {
                daily[k]
            },
    )
}

/// A project on its way into the snapshot.
#[derive(Debug)]
pub struct ProjectActivityBuilder {
    pub display_path: String,
    pub daily: StrMap<DailyTotals>,
}

/// The contents of a [`ProjectActivityBuilder`].
#[verifier::ext_equal]
pub struct ProjectModel {
    pub path: Seq<char>,
    pub daily: Map<Seq<char>, DailyTotals>,
}

impl ProjectActivityBuilder {
    /// What has been added up so far.
    pub open spec fn model(&self) -> ProjectModel {
        ProjectModel { path: self.display_path@, daily: self.daily@ }
    }
}

/// The path that stands for a project: the shortest that was seen, and of these the first.
pub open spec fn prefers(path: Seq<char>, current: Seq<char>) -> bool {
    current.len() == 0 || byte_len(path) < byte_len(current) || (byte_len(path) == byte_len(current)
        && text_before(path, current))
}

/// The lower-case form of a text.
pub uninterp spec fn lower_case(text: Seq<char>) -> Seq<char>;

/// `str::to_lowercase`: the text with every character mapped to lower case.
#[verifier::external_body]
pub(crate) fn to_lower_case(text: &str) -> (r: String)
    ensures
        r@ == lower_case(text@),
{
    text.to_lowercase()
}

/// The key of a project: its path without surrounding white space, in lower case.
pub open spec fn project_key(path: Seq<char>) -> Seq<char> {
    lower_case(trimmed(path))
}

/// The key of a project.
pub fn normalize_project_key(path: &str) -> (r: String)
    ensures
        r@ == project_key(path@),
{
    let t = trim(path);
    to_lower_case(t.as_str())
}

/// A project with the days of one session added.
pub open spec fn project_with(
    p: Option<ProjectModel>,
    cwd: Seq<char>,
    more: Map<Seq<char>, DailyTotals>,
    shown: Set<Seq<char>>,
) -> ProjectModel {
    let before = match p {
        Some(b) => b,
        None => ProjectModel { path: Seq::empty(), daily: Map::empty() },
    };
    ProjectModel {
        path: if prefers(cwd, before.path) {
            cwd
        } else {
            before.path
        },
        daily: with_shown_days(before.daily, more, shown),
    }
}

/// The value at a key of a map, where it has one.
pub open spec fn lookup<V>(m: Map<Seq<char>, V>, k: Seq<char>) -> Option<V> {
    if m.dom().contains(k) {
        Some(m[k])
    } else {
        None
    }
}

/// The projects with the days of one session added; a blank path names no project.
pub open spec fn projects_with(
    projects: Map<Seq<char>, ProjectModel>,
    cwd: Seq<char>,
    more: Map<Seq<char>, DailyTotals>,
    shown: Set<Seq<char>>,
) -> Map<Seq<char>, ProjectModel> {
    let key = project_key(cwd);
    if trimmed(cwd).len() == 0 || key.len() == 0 {
        projects
    } else {
        projects.insert(key, project_with(lookup(projects, key), cwd, more, shown))
    }
}

/// Token totals with those of a list of models added.
pub open spec fn with_models(m: Map<Seq<char>, i64>, list: Seq<(String, i64)>) -> Map<Seq<char>, i64>
    decreases list.len(),
{
    if list.len() == 0 {
        m
    } else {
        add_tokens(with_models(m, list.drop_last()), list.last().0@, list.last().1)
    }
}

/// Token totals with those of the models of the days in `shown` added.
pub open spec fn with_model_days(
    m: Map<Seq<char>, i64>,
    list: Seq<(String, StrMap<i64>)>,
    shown: Seq<Seq<char>>,
) -> Map<Seq<char>, i64>
    decreases list.len(),
{
    if list.len() == 0 {
        m
    } else {
        let before = with_model_days(m, list.drop_last(), shown);
        if shown.contains(list.last().0@) {
            with_models(before, list.last().1.entries@)
        } else {
            before
        }
    }
}

/// Totals over sessions.
#[derive(Debug)]
pub struct UsageAccumulator {
    pub daily: StrMap<DailyTotals>,
    pub models: StrMap<i64>,
    pub projects: StrMap<ProjectActivityBuilder>,
    pub matched_session_files: u32,
}

/// The contents of a [`UsageAccumulator`].
#[verifier::ext_equal]
pub struct UsageModel {
    pub daily: Map<Seq<char>, DailyTotals>,
    pub models: Map<Seq<char>, i64>,
    pub projects: Map<Seq<char>, ProjectModel>,
    pub matched: u32,
}

/// The projects behind their builders.
pub open spec fn projects_view(m: StrMap<ProjectActivityBuilder>) -> Map<Seq<char>, ProjectModel> {
    m@.map_values(|b: ProjectActivityBuilder| b.model())
}

/// The maps of the projects are well formed.
pub open spec fn projects_wf(m: StrMap<ProjectActivityBuilder>) -> bool {
    m.wf() && forall|k: Seq<char>| #[trigger] m@.dom().contains(k) ==> m@[k].daily.wf()
}

impl UsageAccumulator {
    /// The maps hold no key twice.
    pub open spec fn wf(&self) -> bool {
        self.daily.wf() && self.models.wf() && projects_wf(self.projects)
    }

    /// What has been added up so far.
    pub open spec fn model(&self) -> UsageModel {
        UsageModel {
            daily: self.daily@,
            models: self.models@,
            projects: projects_view(self.projects),
            matched: self.matched_session_files,
        }
    }
}

/// The totals with those of one session added. A session outside the workspace counts for nothing.
pub open spec fn with_session(
    t: UsageModel,
    e: CachedFileScanEntry,
    filtered: bool,
    admitted: bool,
    chart_days: Seq<Seq<char>>,
) -> UsageModel {
    if !admitted {
        t
    } else {
        let daily = with_days(t.daily, e.daily@);
        UsageModel {
            daily,
            models: with_model_days(t.models, e.model_totals_by_day.entries@, chart_days),
            projects: match e.session_cwd {
                Some(cwd) => projects_with(t.projects, cwd@, e.daily@, daily.dom()),
                None => t.projects,
            },
            matched: if filtered && t.matched < u32::MAX {
                (t.matched + 1) as u32
            } else {
                t.matched
            },
        }
    }
}

fn count_bytes(s: &str) -> (r: u128)
    ensures
        r == byte_len(s@),
{
    let chars = chars_of(s);
    let mut used: u128 = 0;
    let mut i: usize = 0;
    while i < chars.len()
        invariant
            i <= chars@.len(),
            used == byte_len(chars@.take(i as int)),
            used <= 4 * i,
        decreases chars@.len() - i,
    {
        assert(chars@.take(i + 1).drop_last() =~= chars@.take(i as int));
        let n: u32 = chars[i] as u32;
        let w: u128 = if n < 0x80 {
            1
        } else if n < 0x800 {
            2
        } else if n < 0x10000 {
            3
        } else {
            4
        };
        used = used + w;
        i += 1;
    }
    assert(chars@.take(i as int) =~= chars@);
    used
}

fn prefers_path(path: &str, current: &str) -> (r: bool)
    ensures
        r == prefers(path@, current@),
{
    if current.is_empty() {
        return true;
    }
    let a: u128 = count_bytes(path);
    let b: u128 = count_bytes(current);
    a < b || (a == b && text_less(path, current))
}

fn contains_text(list: &Vec<String>, text: &str) -> (r: bool)
    ensures
        r == views(list@).contains(text@),
{
    let mut i: usize = 0;
    while i < list.len()
        invariant
            i <= list@.len(),
            forall|j: int| 0 <= j < i ==> (#[trigger] list@[j])@ != text@,
        decreases list@.len() - i,
    {
        if same(list[i].as_str(), text) {
            assert(views(list@)[i as int] == text@);
            return true;
        }
        i += 1;
    }
    assert(!views(list@).contains(text@)) by {
        if views(list@).contains(text@) {
            let j = choose|j: int| 0 <= j < views(list@).len() && views(list@)[j] == text@;
            assert(list@[j]@ == text@);
        }
    }
    false
}

fn merge_days(daily: &mut StrMap<DailyTotals>, more: &StrMap<DailyTotals>)
    requires
        old(daily).wf(),
        more.wf(),
    ensures
        final(daily).wf(),
        final(daily)@ == with_days(old(daily)@, more@),
{
    let ghost before = daily@;
    let mut i: usize = 0;
    while i < more.entries.len()
        invariant
            i <= more.entries@.len(),
            daily.wf(),
            more.wf(),
            daily@.dom() == before.dom(),
            forall|k: Seq<char>| #[trigger]
                before.dom().contains(k) ==> daily@[k] == (if exists|j: int|
                    0 <= j < i && #[trigger] more.entries@[j].0@ == k {
                    day_sum(before[k], more@[k])
                } else {
                    before[k]
                }),
        decreases more.entries@.len() - i,
    {
        let key = more.entries[i].0.as_str();
        let ghost now = daily@;
        proof {
            more.lemma_entry(i as int);
        }
        let current: Option<DailyTotals> = match daily.get(key) {
            Some(t) => Some(*t),
            None => None,
        };
        if let Some(t) = current {
            assert(!(exists|j: int| 0 <= j < i && #[trigger] more.entries@[j].0@ == key@));
            let sum = add_day(t, more.entries[i].1);
            daily.set(key, sum);
            assert(daily@.dom() =~= before.dom());
        }
        proof {
            assert forall|k: Seq<char>| #[trigger] before.dom().contains(k) implies daily@[k] == (if exists|
                j: int,
            |
                0 <= j < i + 1 && #[trigger] more.entries@[j].0@ == k {
                day_sum(before[k], more@[k])
            } else {
                before[k]
            }) by {
                if k == key@ {
                    assert(more.entries@[i as int].0@ == k);
                } else if exists|j: int| 0 <= j < i + 1 && #[trigger] more.entries@[j].0@ == k {
                    let j = choose|j: int| 0 <= j < i + 1 && #[trigger] more.entries@[j].0@ == k;
                    assert(j < i);
                    assert(daily@[k] == now[k]);
                }
            }
        }
        i += 1;
    }
    proof {
        assert forall|k: Seq<char>| #[trigger] before.dom().contains(k) implies daily@[k] == with_days(
            before,
            more@,
        )[k] by {
            if more@.dom().contains(k) {
                let j = choose|j: int|
                    0 <= j < more.entries@.len() && #[trigger] more.entries@[j].0@ == k;
                assert(0 <= j < i && more.entries@[j].0@ == k);
            } else {
                if exists|j: int| 0 <= j < i && #[trigger] more.entries@[j].0@ == k {
                    let j = choose|j: int| 0 <= j < i && #[trigger] more.entries@[j].0@ == k;
                    more.lemma_entry(j);
                }
            }
        }
        assert(daily@ =~= with_days(before, more@));
    }
}

fn merge_shown_days(
    daily: &mut StrMap<DailyTotals>,
    more: &StrMap<DailyTotals>,
    shown: &StrMap<DailyTotals>,
)
    requires
        old(daily).wf(),
        more.wf(),
        shown.wf(),
    ensures
        final(daily).wf(),
        final(daily)@ == with_shown_days(old(daily)@, more@, shown@.dom()),
{
    let ghost before = daily@;
    let mut i: usize = 0;
    while i < more.entries.len()
        invariant
            i <= more.entries@.len(),
            daily.wf(),
            more.wf(),
            shown.wf(),
            forall|k: Seq<char>| #[trigger]
                daily@.dom().contains(k) <==> (before.dom().contains(k) || (shown@.dom().contains(k)
                    && exists|j: int| 0 <= j < i && #[trigger] more.entries@[j].0@ == k)),
            forall|k: Seq<char>| #[trigger]
                daily@.dom().contains(k) ==> daily@[k] == (if shown@.dom().contains(k) && exists|
                    j: int,
                |
                    0 <= j < i && #[trigger] more.entries@[j].0@ == k {
                    day_sum(on_day(before, k), more@[k])
                } else {
                    before[k]
                }),
        decreases more.entries@.len() - i,
    {
        let key = more.entries[i].0.as_str();
        let ghost now = daily@;
        proof {
            more.lemma_entry(i as int);
        }
        assert(!(exists|j: int| 0 <= j < i && #[trigger] more.entries@[j].0@ == key@));
        if shown.find(key).is_some() {
            let t: DailyTotals = match daily.get(key) {
                Some(t) => *t,
                None => DailyTotals { input: 0, cached: 0, output: 0, agent_ms: 0, agent_runs: 0 },
            };
            assert(t == on_day(before, key@));
            let sum = add_day(t, more.entries[i].1);
            daily.set(key, sum);
        }
        proof {
            assert forall|k: Seq<char>| #[trigger] daily@.dom().contains(k) <==> (before.dom().contains(k)
                || (shown@.dom().contains(k) && exists|j: int|
                0 <= j < i + 1 && #[trigger] more.entries@[j].0@ == k)) by {
                if k == key@ {
                    assert(more.entries@[i as int].0@ == k);
                }
                assert(now.dom().contains(k) <==> (before.dom().contains(k) || (
                shown@.dom().contains(k) && exists|j: int|
                    0 <= j < i && #[trigger] more.entries@[j].0@ == k)));
            }
            assert forall|k: Seq<char>| #[trigger] daily@.dom().contains(k) implies daily@[k] == (if
                shown@.dom().contains(k) && exists|j: int|
                0 <= j < i + 1 && #[trigger] more.entries@[j].0@ == k {
                day_sum(on_day(before, k), more@[k])
            } else {
                before[k]
            }) by {
                if k == key@ {
                    assert(more.entries@[i as int].0@ == k);
                    if !shown@.dom().contains(k) {
                        assert(now.dom().contains(k));
                    }
                } else {
                    assert(now.dom().contains(k));
                    assert(daily@[k] == now[k]);
                }
            }
        }
        i += 1;
    }
    proof {
        let want = with_shown_days(before, more@, shown@.dom());
        assert forall|k: Seq<char>| #[trigger] more@.dom().contains(k) <==> (exists|j: int|
            0 <= j < i && #[trigger] more.entries@[j].0@ == k) by {
            if exists|j: int| 0 <= j < i && #[trigger] more.entries@[j].0@ == k {
                let j = choose|j: int| 0 <= j < i && #[trigger] more.entries@[j].0@ == k;
                more.lemma_entry(j);
            }
        }
        assert forall|k: Seq<char>| #[trigger] daily@.dom().contains(k) <==> want.dom().contains(k) by {
            assert(more@.dom().contains(k) <==> (exists|j: int|
                0 <= j < i && #[trigger] more.entries@[j].0@ == k));
        }
        assert forall|k: Seq<char>| #[trigger] daily@.dom().contains(k) implies daily@[k] == want[k] by {
            assert(more@.dom().contains(k) <==> (exists|j: int|
                0 <= j < i && #[trigger] more.entries@[j].0@ == k));
        }
        assert(daily@ =~= want);
    }
}

fn merge_models(models: &mut StrMap<i64>, list: &StrMap<i64>)
    requires
        old(models).wf(),
    ensures
        final(models).wf(),
        final(models)@ == with_models(old(models)@, list.entries@),
{
    let ghost before = models@;
    let mut i: usize = 0;
    while i < list.entries.len()
        invariant
            i <= list.entries@.len(),
            models.wf(),
            models@ == with_models(before, list.entries@.take(i as int)),
        decreases list.entries@.len() - i,
    {
        assert(list.entries@.take(i + 1).drop_last() =~= list.entries@.take(i as int));
        add_model_tokens_limited(models, list.entries[i].0.as_str(), list.entries[i].1);
        i += 1;
    }
    assert(list.entries@.take(i as int) =~= list.entries@);
}

fn merge_model_days(models: &mut StrMap<i64>, by_day: &ModelsByDay, chart_days: &Vec<String>)
    requires
        old(models).wf(),
    ensures
        final(models).wf(),
        final(models)@ == with_model_days(old(models)@, by_day.entries@, views(chart_days@)),
{
    let ghost before = models@;
    let mut i: usize = 0;
    while i < by_day.entries.len()
        invariant
            i <= by_day.entries@.len(),
            models.wf(),
            models@ == with_model_days(before, by_day.entries@.take(i as int), views(chart_days@)),
        decreases by_day.entries@.len() - i,
    {
        assert(by_day.entries@.take(i + 1).drop_last() =~= by_day.entries@.take(i as int));
        if contains_text(chart_days, by_day.entries[i].0.as_str()) {
            merge_models(models, &by_day.entries[i].1);
        }
        i += 1;
    }
    assert(by_day.entries@.take(i as int) =~= by_day.entries@);
}

impl UsageAccumulator {
    /// Totals of zero for the given days.
    pub fn for_days(day_keys: &Vec<String>) -> (r: Self)
        ensures
            r.wf(),
            r.model() == (UsageModel {
                daily: Map::new(
                    |k: Seq<char>| views(day_keys@).contains(k),
                    |k: Seq<char>| empty_day(),
                ),
                models: Map::empty(),
                projects: Map::empty(),
                matched: 0,
            }),
    {
        let mut daily: StrMap<DailyTotals> = StrMap::new();
        let mut i: usize = 0;
        while i < day_keys.len()
            invariant
                i <= day_keys@.len(),
                daily.wf(),
                forall|k: Seq<char>| #[trigger]
                    daily@.dom().contains(k) <==> (exists|j: int|
                        0 <= j < i && (#[trigger] day_keys@[j])@ == k),
                forall|k: Seq<char>| #[trigger] daily@.dom().contains(k) ==> daily@[k] == empty_day(),
            decreases day_keys@.len() - i,
        {
            let ghost now = daily@;
            let key = day_keys[i].as_str();
            daily.set(
                key,
                DailyTotals { input: 0, cached: 0, output: 0, agent_ms: 0, agent_runs: 0 },
            );
            proof {
                assert forall|k: Seq<char>| #[trigger] daily@.dom().contains(k) <==> (exists|j: int|
                    0 <= j < i + 1 && (#[trigger] day_keys@[j])@ == k) by {
                    if k == key@ {
                        assert(day_keys@[i as int]@ == k);
                    }
                    assert(now.dom().contains(k) <==> (exists|j: int|
                        0 <= j < i && (#[trigger] day_keys@[j])@ == k));
                }
            }
            i += 1;
        }
        let r = UsageAccumulator {
            daily,
            models: StrMap::new(),
            projects: StrMap::new(),
            matched_session_files: 0,
        };
        proof {
            let want: Map<Seq<char>, DailyTotals> = Map::new(
                |k: Seq<char>| views(day_keys@).contains(k),
                |k: Seq<char>| empty_day(),
            );
            assert forall|k: Seq<char>| #[trigger] r.daily@.dom().contains(k) <==> want.dom().contains(
                k,
            ) by {
                if r.daily@.dom().contains(k) {
                    let j = choose|j: int| 0 <= j < i && (#[trigger] day_keys@[j])@ == k;
                    assert(views(day_keys@)[j] == k);
                }
                if want.dom().contains(k) {
                    let j = choose|j: int|
                        0 <= j < views(day_keys@).len() && views(day_keys@)[j] == k;
                    assert(day_keys@[j]@ == k);
                }
            }
            assert(r.daily@ =~= want);
            assert(projects_view(r.projects) =~= Map::empty());
        }
        r
    }

    fn apply_project_activity(&mut self, cwd: &str, entry_daily: &StrMap<DailyTotals>)
        requires
            old(self).wf(),
            entry_daily.wf(),
        ensures
            final(self).wf(),
            final(self).daily == old(self).daily,
            final(self).models == old(self).models,
            final(self).matched_session_files == old(self).matched_session_files,
            projects_view(final(self).projects) == projects_with(
                projects_view(old(self).projects),
                cwd@,
                entry_daily@,
                old(self).daily@.dom(),
            ),
    {
        if crate::text::is_blank(cwd) {
            return;
        }
        let key = normalize_project_key(cwd);
        if key.as_str().is_empty() {
            return;
        }
        let ghost before = self.projects@;
        let ghost pv = projects_view(self.projects);
        let mut builder = match self.projects.take(key.as_str()) {
            Some(b) => b,
            None => ProjectActivityBuilder { display_path: String::new(), daily: StrMap::new() },
        };
        assert(builder.daily.wf());
        let ghost b0 = builder.model();
        proof {
            if before.dom().contains(key@) {
                assert(pv[key@] == b0);
            }
        }
        if prefers_path(cwd, builder.display_path.as_str()) {
            builder.display_path = cwd.to_owned();
        }
        merge_shown_days(&mut builder.daily, entry_daily, &self.daily);
        let ghost k0 = key@;
        self.projects.add_new(key, builder);
        proof {
            let want = project_with(lookup(pv, k0), cwd@, entry_daily@, self.daily@.dom());
            assert(builder.model() =~= want);
            assert(self.projects@ =~= before.insert(k0, builder));
            assert(projects_view(self.projects) =~= pv.insert(k0, want));
        }
    }

    /// Adds the totals of one session. `filtered` where sessions are filtered by workspace,
    /// `admitted` where this one passes the filter.
    pub fn apply_cached_file_entry(
        &mut self,
        entry: &CachedFileScanEntry,
        filtered: bool,
        admitted: bool,
        chart_days: &Vec<String>,
    )
        requires
            old(self).wf(),
            entry.wf(),
        ensures
            final(self).wf(),
            final(self).model() == with_session(
                old(self).model(),
                *entry,
                filtered,
                admitted,
                views(chart_days@),
            ),
    {
        let ghost before = self.model();
        if !admitted {
            return;
        }
        if filtered {
            self.matched_session_files = self.matched_session_files.saturating_add(1);
        }
        merge_days(&mut self.daily, &entry.daily);
        merge_model_days(&mut self.models, &entry.model_totals_by_day, chart_days);
        if let Some(cwd) = &entry.session_cwd {
            self.apply_project_activity(cwd.as_str(), &entry.daily);
        }
        assert(self.model() =~= with_session(
            before,
            *entry,
            filtered,
            admitted,
            views(chart_days@),
        ));
    }
}

/// Adding up totals of a day gives the same in every order.
pub proof fn day_sums_commute(a: DailyTotals, b: DailyTotals, c: DailyTotals)
    ensures
        day_sum(day_sum(a, b), c) == day_sum(day_sum(a, c), b),
{
}

proof fn shown_days_commute(
    daily: Map<Seq<char>, DailyTotals>,
    x: Map<Seq<char>, DailyTotals>,
    y: Map<Seq<char>, DailyTotals>,
    shown: Set<Seq<char>>,
)
    ensures
        with_shown_days(with_shown_days(daily, x, shown), y, shown) == with_shown_days(
            with_shown_days(daily, y, shown),
            x,
            shown,
        ),
{
    let a = with_shown_days(with_shown_days(daily, x, shown), y, shown);
    let b = with_shown_days(with_shown_days(daily, y, shown), x, shown);
    assert(a.dom() =~= b.dom());
    assert forall|k: Seq<char>| #[trigger] a.dom().contains(k) implies a[k] == b[k] by {
        day_sums_commute(on_day(daily, k), x[k], y[k]);
    }
    assert(a =~= b);
}

/// The path that stands for a project of which one more path is seen.
pub open spec fn preferred(path: Seq<char>, current: Seq<char>) -> Seq<char> {
    if prefers(path, current) {
        path
    } else {
        current
    }
}

/// Of paths that are as good as each other there is only one.
proof fn preference_is_total(x: Seq<char>, y: Seq<char>)
    requires
        x.len() > 0,
        y.len() > 0,
    ensures
        !(prefers(x, y) && prefers(y, x)),
        !prefers(x, y) && !prefers(y, x) ==> x == y,
{
    text_before_asymmetric(x, y);
    if !prefers(x, y) && !prefers(y, x) {
        text_before_total(x, y);
    }
}

proof fn preference_is_transitive(x: Seq<char>, y: Seq<char>, z: Seq<char>)
    requires
        x.len() > 0,
        y.len() > 0,
        z.len() > 0,
        !prefers(x, y),
        !prefers(y, z),
    ensures
        !prefers(x, z),
{
    if byte_len(x) == byte_len(y) && byte_len(y) == byte_len(z) {
        text_before_weak(x, y, z);
    }
}

proof fn preferences_commute(x: Seq<char>, y: Seq<char>, current: Seq<char>)
    requires
        x.len() > 0,
        y.len() > 0,
    ensures
        preferred(y, preferred(x, current)) == preferred(x, preferred(y, current)),
{
    preference_is_total(x, y);
    if current.len() > 0 {
        preference_is_total(x, current);
        preference_is_total(y, current);
        if prefers(x, current) && !prefers(y, current) && prefers(y, x) {
            preference_is_transitive(x, y, current);
        }
        if prefers(y, current) && !prefers(x, current) && prefers(x, y) {
            preference_is_transitive(y, x, current);
        }
    }
}

/// The projects come out the same whichever of two sessions counts first.
pub proof fn projects_commute(
    projects: Map<Seq<char>, ProjectModel>,
    x: (Seq<char>, Map<Seq<char>, DailyTotals>),
    y: (Seq<char>, Map<Seq<char>, DailyTotals>),
    shown: Set<Seq<char>>,
)
    ensures
        projects_with(projects_with(projects, x.0, x.1, shown), y.0, y.1, shown) == projects_with(
            projects_with(projects, y.0, y.1, shown),
            x.0,
            x.1,
            shown,
        ),
{
    let kx = project_key(x.0);
    let ky = project_key(y.0);
    let a = projects_with(projects_with(projects, x.0, x.1, shown), y.0, y.1, shown);
    let b = projects_with(projects_with(projects, y.0, y.1, shown), x.0, x.1, shown);
    if trimmed(x.0).len() > 0 && trimmed(y.0).len() > 0 && kx.len() > 0 && ky.len() > 0 {
        if kx == ky {
            let start = match lookup(projects, kx) {
                Some(p) => p,
                None => ProjectModel { path: Seq::empty(), daily: Map::empty() },
            };
            assert(x.0.len() > 0 && y.0.len() > 0);
            preferences_commute(x.0, y.0, start.path);
            shown_days_commute(start.daily, x.1, y.1, shown);
            assert(a[kx] =~= b[kx]);
        }
    }
    assert(a =~= b);
}

/// The path that stands for a project is the shortest in bytes of those that were seen, and of these
/// the first: counting a session leaves a path that neither its directory nor the path before it is
/// preferred to.
pub proof fn project_path_is_the_best(
    p: ProjectModel,
    cwd: Seq<char>,
    more: Map<Seq<char>, DailyTotals>,
    shown: Set<Seq<char>>,
)
    requires
        cwd.len() > 0,
    ensures
        ({
            let after = project_with(Some(p), cwd, more, shown).path;
            &&& after == cwd || after == p.path
            &&& after.len() > 0
            &&& !prefers(cwd, after)
            &&& p.path.len() > 0 ==> !prefers(p.path, after)
        }),
{
    text_before_asymmetric(cwd, cwd);
    text_before_asymmetric(p.path, p.path);
    if p.path.len() > 0 {
        preference_is_total(cwd, p.path);
    }
}

/// The projects after sessions, each with its directory and its days, were added one by one.
pub open spec fn projects_after(
    projects: Map<Seq<char>, ProjectModel>,
    sessions: Seq<(Seq<char>, Map<Seq<char>, DailyTotals>)>,
    shown: Set<Seq<char>>,
) -> Map<Seq<char>, ProjectModel>
    decreases sessions.len(),
{
    if sessions.len() == 0 {
        projects
    } else {
        let last = sessions.last();
        projects_with(
            projects_after(projects, sessions.drop_last(), shown),
            last.0,
            last.1,
            shown,
        )
    }
}

spec fn project_step(shown: Set<Seq<char>>) -> spec_fn(
    Map<Seq<char>, ProjectModel>,
    (Seq<char>, Map<Seq<char>, DailyTotals>),
) -> Map<Seq<char>, ProjectModel> {
    |m: Map<Seq<char>, ProjectModel>, s: (Seq<char>, Map<Seq<char>, DailyTotals>)|
        projects_with(m, s.0, s.1, shown)
}

proof fn lemma_projects_are_folded(
    projects: Map<Seq<char>, ProjectModel>,
    sessions: Seq<(Seq<char>, Map<Seq<char>, DailyTotals>)>,
    shown: Set<Seq<char>>,
)
    ensures
        projects_after(projects, sessions, shown) == sessions.fold_left(
            projects,
            project_step(shown),
        ),
    decreases sessions.len(),
{
    if sessions.len() > 0 {
        lemma_projects_are_folded(projects, sessions.drop_last(), shown);
    }
}

/// What is reported for projects does not depend on the order in which sessions are added.
pub proof fn project_activity_ignores_order(
    projects: Map<Seq<char>, ProjectModel>,
    a: Seq<(Seq<char>, Map<Seq<char>, DailyTotals>)>,
    b: Seq<(Seq<char>, Map<Seq<char>, DailyTotals>)>,
    shown: Set<Seq<char>>,
)
    requires
        a.to_multiset() == b.to_multiset(),
    ensures
        projects_after(projects, a, shown) == projects_after(projects, b, shown),
{
    let f = project_step(shown);
    assert(commutative_foldl(f)) by {
        assert forall|
            x: (Seq<char>, Map<Seq<char>, DailyTotals>),
            y: (Seq<char>, Map<Seq<char>, DailyTotals>),
            m: Map<Seq<char>, ProjectModel>,
        | #[trigger]
            f(f(m, x), y) == f(f(m, y), x) by {
            projects_commute(m, x, y, shown);
        }
    }
    lemma_projects_are_folded(projects, a, shown);
    lemma_projects_are_folded(projects, b, shown);
    lemma_fold_left_permutation(a, b, f, projects);
}

/// The totals of sessions on a day added up.
pub open spec fn sum_on_day(
    sessions: Seq<(Seq<char>, Map<Seq<char>, DailyTotals>)>,
    day: Seq<char>,
) -> DailyTotals
    decreases sessions.len(),
{
    if sessions.len() == 0 {
        empty_day()
    } else {
        let before = sum_on_day(sessions.drop_last(), day);
        if sessions.last().1.dom().contains(day) {
            day_sum(before, sessions.last().1[day])
        } else {
            before
        }
    }
}

/// A session has totals on a day.
pub open spec fn has_day(s: (Seq<char>, Map<Seq<char>, DailyTotals>), day: Seq<char>) -> bool {
    s.1.dom().contains(day)
}

/// Sessions in directories with one key are one project. Its path is the shortest of their
/// directories in bytes, and of these the first; on the days that are shown, and on no others, it has
/// the sums over all of them. The order in which they are added does not matter.
pub proof fn sessions_of_one_key_are_one_project(
    sessions: Seq<(Seq<char>, Map<Seq<char>, DailyTotals>)>,
    key: Seq<char>,
    shown: Set<Seq<char>>,
)
    requires
        sessions.len() > 0,
        key.len() > 0,
        forall|i: int|
            0 <= i < sessions.len() ==> trimmed((#[trigger] sessions[i]).0).len() > 0
                && project_key(sessions[i].0) == key,
    ensures
        ({
            let after = projects_after(Map::empty(), sessions, shown);
            &&& after.dom() == set![key]
            &&& exists|i: int|
                0 <= i < sessions.len() && after[key].path == (#[trigger] sessions[i]).0
            &&& forall|i: int|
                0 <= i < sessions.len() ==> !prefers((#[trigger] sessions[i]).0, after[key].path)
            &&& forall|day: Seq<char>| #[trigger]
                after[key].daily.dom().contains(day) <==> shown.contains(day) && exists|i: int|
                    0 <= i < sessions.len() && #[trigger] has_day(sessions[i], day)
            &&& forall|day: Seq<char>| #[trigger]
                after[key].daily.dom().contains(day) ==> after[key].daily[day] == sum_on_day(
                    sessions,
                    day,
                )
        }),
        forall|other: Seq<(Seq<char>, Map<Seq<char>, DailyTotals>)>| #[trigger]
            other.to_multiset() == sessions.to_multiset() ==> projects_after(
                Map::empty(),
                other,
                shown,
            ) == projects_after(Map::empty(), sessions, shown),
    decreases sessions.len(),
{
    let init = sessions.drop_last();
    let last = sessions.last();
    let n = sessions.len() - 1;
    assert(sessions[n] == last);
    assert(last.0.len() > 0);
    let start = Map::<Seq<char>, ProjectModel>::empty();
    let before = projects_after(start, init, shown);
    let after = projects_after(start, sessions, shown);
    assert forall|i: int| 0 <= i < init.len() implies #[trigger] init[i] == sessions[i] by {}
    if n > 0 {
        sessions_of_one_key_are_one_project(init, key, shown);
        assert(before.dom().contains(key));
        let j = choose|j: int| 0 <= j < init.len() && before[key].path == (#[trigger] init[j]).0;
        assert(init[j] == sessions[j]);
        assert(sessions[j].0.len() > 0);
        project_path_is_the_best(before[key], last.0, last.1, shown);
        assert forall|i: int| 0 <= i < sessions.len() implies !prefers(
            (#[trigger] sessions[i]).0,
            after[key].path,
        ) by {
            if i < n {
                assert(init[i] == sessions[i]);
                assert(sessions[i].0.len() > 0);
                preference_is_transitive(sessions[i].0, before[key].path, after[key].path);
            }
        }
        if after[key].path == last.0 {
            assert(after[key].path == sessions[n].0);
        } else {
            assert(after[key].path == sessions[j].0);
        }
    } else {
        text_before_asymmetric(last.0, last.0);
        assert(init.len() == 0);
        assert(after[key].path == sessions[0].0);
    }
    assert(after.dom() =~= set![key]);
    assert forall|day: Seq<char>| #[trigger] after[key].daily.dom().contains(day) <==> shown.contains(
        day,
    ) && exists|i: int| 0 <= i < sessions.len() && #[trigger] has_day(sessions[i], day) by {
        if after[key].daily.dom().contains(day) {
            if last.1.dom().contains(day) {
                assert(has_day(sessions[n], day));
            } else {
                assert(before[key].daily.dom().contains(day));
                let i = choose|i: int| 0 <= i < init.len() && #[trigger] has_day(init[i], day);
                assert(has_day(sessions[i], day));
            }
        }
        if shown.contains(day) && exists|i: int|
            0 <= i < sessions.len() && #[trigger] has_day(sessions[i], day) {
            let i = choose|i: int| 0 <= i < sessions.len() && #[trigger] has_day(sessions[i], day);
            if i < n {
                assert(has_day(init[i], day));
                assert(before[key].daily.dom().contains(day));
            }
        }
    }
    assert forall|day: Seq<char>| #[trigger] after[key].daily.dom().contains(
        day,
    ) implies after[key].daily[day] == sum_on_day(sessions, day) by {
        if n == 0 {
            assert(sum_on_day(init, day) == empty_day());
        } else {
            if before[key].daily.dom().contains(day) {
                assert(before[key].daily[day] == sum_on_day(init, day));
            } else {
                assert(shown.contains(day));
                assert forall|i: int| 0 <= i < init.len() implies !#[trigger] has_day(init[i], day) by {
                    if has_day(init[i], day) {
                        assert(before[key].daily.dom().contains(day));
                    }
                }
                lemma_no_day_no_sum(init, day);
            }
        }
    }
    assert forall|other: Seq<(Seq<char>, Map<Seq<char>, DailyTotals>)>| #[trigger]
        other.to_multiset() == sessions.to_multiset() implies projects_after(start, other, shown)
        == after by {
        project_activity_ignores_order(start, other, sessions, shown);
    }
}

proof fn lemma_no_day_no_sum(
    sessions: Seq<(Seq<char>, Map<Seq<char>, DailyTotals>)>,
    day: Seq<char>,
)
    requires
        forall|i: int| 0 <= i < sessions.len() ==> !#[trigger] has_day(sessions[i], day),
    ensures
        sum_on_day(sessions, day) == empty_day(),
    decreases sessions.len(),
{
    if sessions.len() > 0 {
        let init = sessions.drop_last();
        assert forall|i: int| 0 <= i < init.len() implies !#[trigger] has_day(init[i], day) by {
            assert(init[i] == sessions[i]);
            assert(!has_day(sessions[i], day));
        }
        lemma_no_day_no_sum(init, day);
        assert(!has_day(sessions[sessions.len() - 1], day));
    }
}

} // verus!
