//! The sessions of the history, grouped into projects.

use crate::paths::is_separator;
use crate::read::session::SessionSummary;
use crate::sort::{
    is_sorting, keeps_ties, rearranges, sorted, sorting_keeps_items, stable_sort, text_before, text_before_asymmetric,
    text_before_weak, text_less, Precedes,
};
use crate::strset::{collect_names, name_set, name_set_keeps_names};
use crate::text::{chars_of, same, string_of, views};
use crate::usage::snapshot::{normalize_project_key, project_key};
use vstd::prelude::*;

verus! {

/// A project of the history and its sessions, the newest first.
#[derive(Debug)]
pub struct ProjectRecord {
    pub display_path: String,
    pub sessions: Vec<SessionSummary>,
}

/// The history: its projects by their paths, and how many files were read and skipped.
#[derive(Debug)]
pub struct Catalog {
    pub sessions_dir: String,
    pub projects: Vec<ProjectRecord>,
    pub files_scanned: usize,
    pub files_skipped: usize,
}

/// A path with its separators before every other character, so that the parts of paths are compared
/// one by one. A backslash separates as a slash does.
pub open spec fn separators_first(path: Seq<char>) -> Seq<char> {
    path.map_values(
        |c: char|
            if is_separator(c) {
                '\u{0}'
            } else {
                c
            },
    )
}

/// One path comes before another: by their parts from left to right.
pub open spec fn path_before(a: Seq<char>, b: Seq<char>) -> bool {
    text_before(separators_first(a), separators_first(b))
}

fn with_separators_first(path: &str) -> (r: String)
    ensures
        r@ == separators_first(path@),
{
    let chars = chars_of(path);
    let mut out: Vec<char> = Vec::new();
    let mut i: usize = 0;
    while i < chars.len()
        invariant
            i <= chars@.len(),
            chars@ == path@,
            out@ == separators_first(path@).take(i as int),
        decreases chars@.len() - i,
    {
        let c: char = chars[i];
        out.push(
            if c == '/' || c == '\\' {
                '\u{0}'
            } else {
                c
            },
        );
        assert(out@ =~= separators_first(path@).take(i + 1));
        i += 1;
    }
    assert(out@ =~= separators_first(path@));
    string_of(&out)
}

impl Precedes for SessionSummary {
    /// The newest first, those of one time by the paths of their files.
    open spec fn before(self, other: Self) -> bool {
        self.started_at_sort_key_ms > other.started_at_sort_key_ms || (self.started_at_sort_key_ms
            == other.started_at_sort_key_ms && path_before(self.file_path@, other.file_path@))
    }

    proof fn before_asymmetric(a: Self, b: Self) {
        text_before_asymmetric(separators_first(a.file_path@), separators_first(b.file_path@));
    }

    proof fn before_weak(a: Self, b: Self, c: Self) {
        if !path_before(a.file_path@, b.file_path@) && !path_before(b.file_path@, c.file_path@) {
            text_before_weak(
                separators_first(a.file_path@),
                separators_first(b.file_path@),
                separators_first(c.file_path@),
            );
        }
    }

    fn comes_before(&self, other: &Self) -> (r: bool) {
        self.started_at_sort_key_ms > other.started_at_sort_key_ms || (self.started_at_sort_key_ms
            == other.started_at_sort_key_ms && text_less(
            with_separators_first(self.file_path.as_str()).as_str(),
            with_separators_first(other.file_path.as_str()).as_str(),
        ))
    }
}

impl Precedes for ProjectRecord {
    open spec fn before(self, other: Self) -> bool {
        text_before(self.display_path@, other.display_path@)
    }

    proof fn before_asymmetric(a: Self, b: Self) {
        text_before_asymmetric(a.display_path@, b.display_path@);
    }

    proof fn before_weak(a: Self, b: Self, c: Self) {
        text_before_weak(a.display_path@, b.display_path@, c.display_path@);
    }

    fn comes_before(&self, other: &Self) -> (r: bool) {
        text_less(self.display_path.as_str(), other.display_path.as_str())
    }
}

/// The key of the project of a session.
pub open spec fn key_of(s: SessionSummary) -> Seq<char> {
    project_key(s.cwd@)
}

/// The keys of the projects of some sessions.
pub open spec fn keys_of(sessions: Seq<SessionSummary>) -> Seq<Seq<char>> {
    sessions.map_values(|s: SessionSummary| key_of(s))
}

/// The sessions of a project, in their order.
pub open spec fn of_project(sessions: Seq<SessionSummary>, key: Seq<char>) -> Seq<SessionSummary>
    decreases sessions.len(),
{
    if sessions.len() == 0 {
        Seq::empty()
    } else {
        let before = of_project(sessions.drop_last(), key);
        if key_of(sessions.last()) == key {
            before.push(sessions.last())
        } else {
            before
        }
    }
}

/// The project holds the given sessions, the newest first and those of one time by the paths of their
/// files, and shows the directory of the first.
pub open spec fn is_project(p: ProjectRecord, sessions: Seq<SessionSummary>) -> bool {
    &&& is_sorting(sessions, p.sessions@)
    &&& p.display_path@ == if p.sessions@.len() > 0 {
        p.sessions@[0].cwd@
    } else {
        "<unknown>"@
    }
}

/// One project for each key, in the order of the keys.
pub open spec fn are_groups(groups: Seq<ProjectRecord>, sessions: Seq<SessionSummary>) -> bool {
    let keys = name_set(keys_of(sessions));
    &&& groups.len() == keys.len()
    &&& forall|i: int|
        0 <= i < groups.len() ==> is_project(
            #[trigger] groups[i],
            of_project(sessions, keys[i]),
        )
}

/// The projects of the sessions by their paths; those of one path in the order of their keys.
pub open spec fn are_projects(
    projects: Seq<ProjectRecord>,
    sessions: Seq<SessionSummary>,
) -> bool {
    exists|groups: Seq<ProjectRecord>| #[trigger]
        are_groups(groups, sessions) && is_sorting(groups, projects)
}

fn backwards<T>(v: Vec<T>) -> (r: Vec<T>)
    ensures
        r@ == v@.reverse(),
{
    let ghost all = v@;
    let mut rest = v;
    let mut out: Vec<T> = Vec::new();
    assert(all.take(rest@.len() as int) =~= rest@);
    while rest.len() > 0
        invariant
            rest@.len() <= all.len(),
            rest@ == all.take(rest@.len() as int),
            out@.len() == all.len() - rest@.len(),
            forall|i: int| 0 <= i < out@.len() ==> #[trigger] out@[i] == all[all.len() - 1 - i],
        decreases rest@.len(),
    {
        let ghost k = rest@.len() - 1;
        match rest.pop() {
            Some(x) => {
                assert(x == all[k]);
                out.push(x);
            },
            None => {},
        }
        assert(rest@ =~= all.take(k));
    }
    assert(out@ =~= all.reverse());
    out
}

fn project_keys(sessions: &Vec<SessionSummary>) -> (r: Vec<String>)
    ensures
        views(r@) == name_set(keys_of(sessions@)),
{
    let mut names: Vec<String> = Vec::new();
    let mut i: usize = 0;
    while i < sessions.len()
        invariant
            i <= sessions@.len(),
            names@.len() == i,
            forall|j: int| 0 <= j < i ==> #[trigger] names@[j]@ == key_of(sessions@[j]),
        decreases sessions@.len() - i,
    {
        names.push(normalize_project_key(sessions[i].cwd.as_str()));
        i += 1;
    }
    assert(views(names@) =~= keys_of(sessions@));
    collect_names(&names)
}

fn position(keys: &Vec<String>, key: &str) -> (r: usize)
    requires
        views(keys@).contains(key@),
    ensures
        r < keys@.len(),
        keys@[r as int]@ == key@,
{
    let mut i: usize = 0;
    while i < keys.len()
        invariant
            i <= keys@.len(),
            forall|j: int| 0 <= j < i ==> #[trigger] keys@[j]@ != key@,
        decreases keys@.len() - i,
    {
        if same(keys[i].as_str(), key) {
            return i;
        }
        i += 1;
    }
    proof {
        let j = choose|j: int| 0 <= j < views(keys@).len() && views(keys@)[j] == key@;
        assert(keys@[j]@ == key@);
        assert(false);
    }
    0
}

fn split(sessions: Vec<SessionSummary>, keys: &Vec<String>) -> (r: Vec<Vec<SessionSummary>>)
    requires
        views(keys@) == name_set(keys_of(sessions@)),
    ensures
        r@.len() == keys@.len(),
        forall|j: int|
            0 <= j < r@.len() ==> (#[trigger] r@[j])@ == of_project(sessions@, keys@[j]@),
{
    let ghost all = sessions@;
    let mut groups: Vec<Vec<SessionSummary>> = Vec::new();
    while groups.len() < keys.len()
        invariant
            groups@.len() <= keys@.len(),
            forall|j: int|
                0 <= j < groups@.len() ==> (#[trigger] groups@[j])@ == of_project(
                    all.take(0),
                    keys@[j]@,
                ),
        decreases keys@.len() - groups@.len(),
    {
        groups.push(Vec::new());
    }
    let mut rest = backwards(sessions);
    let ghost mut done: int = 0;
    proof {
        name_set_keeps_names(keys_of(all));
        assert(rest@ =~= all.skip(0).reverse());
        assert forall|i: int, j: int| 0 <= i < j < keys@.len() implies #[trigger] keys@[i]@
            != #[trigger] keys@[j]@ by {
            assert(views(keys@)[i] == keys@[i]@);
            assert(views(keys@)[j] == keys@[j]@);
            text_before_asymmetric(keys@[i]@, keys@[j]@);
        }
    }
    while rest.len() > 0
        invariant
            0 <= done <= all.len(),
            rest@ == all.skip(done).reverse(),
            views(keys@) == name_set(keys_of(all)),
            forall|x: Seq<char>| #[trigger]
                name_set(keys_of(all)).contains(x) <==> keys_of(all).contains(x),
            groups@.len() == keys@.len(),
            forall|j: int|
                0 <= j < groups@.len() ==> (#[trigger] groups@[j])@ == of_project(
                    all.take(done),
                    keys@[j]@,
                ),
            forall|i: int, j: int|
                0 <= i < j < keys@.len() ==> #[trigger] keys@[i]@ != #[trigger] keys@[j]@,
        decreases rest@.len(),
    {
        let ghost before = groups@;
        match rest.pop() {
            Some(x) => {
                assert(x == all[done]);
                assert(rest@ =~= all.skip(done + 1).reverse());
                let key = normalize_project_key(x.cwd.as_str());
                assert(keys_of(all)[done] == key@);
                let at: usize = position(keys, key.as_str());
                groups[at].push(x);
                proof {
                    assert(all.take(done + 1).drop_last() =~= all.take(done));
                    assert(all.take(done + 1).last() == x);
                    assert forall|j: int| 0 <= j < groups@.len() implies (
                    #[trigger] groups@[j])@ == of_project(all.take(done + 1), keys@[j]@) by {
                        assert(before[j]@ == of_project(all.take(done), keys@[j]@));
                        if j != at {
                            assert(groups@[j] == before[j]);
                            assert(keys@[j]@ != keys@[at as int]@);
                        }
                    }
                    done = done + 1;
                }
            },
            None => {},
        }
    }
    assert(all.take(done) =~= all);
    groups
}

/// Groups the sessions of a directory into projects, whatever order the sessions come in.
pub fn build_catalog(
    sessions_dir: String,
    sessions: Vec<SessionSummary>,
    files_skipped: usize,
) -> (r: Catalog)
    ensures
        r.sessions_dir@ == sessions_dir@,
        r.files_scanned == sessions@.len(),
        r.files_skipped == files_skipped,
        are_projects(r.projects@, sessions@),
{
    let ghost all = sessions@;
    let files_scanned: usize = sessions.len();
    let keys = project_keys(&sessions);
    let groups = split(sessions, &keys);
    let ghost lists = groups@;
    let mut rest = backwards(groups);
    let mut projects: Vec<ProjectRecord> = Vec::new();
    assert(rest@ =~= lists.skip(0).reverse());
    while rest.len() > 0
        invariant
            projects@.len() <= lists.len(),
            rest@ == lists.skip(projects@.len() as int).reverse(),
            forall|i: int|
                0 <= i < projects@.len() ==> is_project(#[trigger] projects@[i], lists[i]@),
        decreases rest@.len(),
    {
        let ghost done = projects@.len() as int;
        match rest.pop() {
            Some(list) => {
                assert(list == lists[done]);
                assert(rest@ =~= lists.skip(done + 1).reverse());
                let sorted_list = stable_sort(list);
                let display_path = if sorted_list.len() > 0 {
                    sorted_list[0].cwd.as_str().to_owned()
                } else {
                    "<unknown>".to_owned()
                };
                projects.push(ProjectRecord { display_path, sessions: sorted_list });
            },
            None => {},
        }
    }
    assert(are_groups(projects@, all)) by {
        let names = name_set(keys_of(all));
        assert(views(keys@) == names);
        assert forall|i: int| 0 <= i < projects@.len() implies is_project(
            #[trigger] projects@[i],
            of_project(all, names[i]),
        ) by {
            assert(names[i] == keys@[i]@);
        }
    }
    Catalog { sessions_dir, projects: stable_sort(projects), files_scanned, files_skipped }
}

proof fn lemma_of_project(sessions: Seq<SessionSummary>, key: Seq<char>)
    ensures
        forall|i: int|
            0 <= i < of_project(sessions, key).len() ==> key_of(
                #[trigger] of_project(sessions, key)[i],
            ) == key && sessions.contains(of_project(sessions, key)[i]),
        forall|i: int|
            0 <= i < sessions.len() && key_of(#[trigger] sessions[i]) == key ==> of_project(
                sessions,
                key,
            ).contains(sessions[i]),
    decreases sessions.len(),
{
    if sessions.len() > 0 {
        let init = sessions.drop_last();
        let before = of_project(init, key);
        let all = of_project(sessions, key);
        lemma_of_project(init, key);
        assert forall|i: int| 0 <= i < all.len() implies key_of(#[trigger] all[i]) == key
            && sessions.contains(all[i]) by {
            if i < before.len() {
                assert(all[i] == before[i]);
                let j = choose|j: int| 0 <= j < init.len() && init[j] == before[i];
                assert(sessions[j] == all[i]);
            } else {
                assert(all[i] == sessions[sessions.len() - 1]);
            }
        }
        assert forall|i: int| 0 <= i < sessions.len() && key_of(#[trigger] sessions[i])
            == key implies all.contains(sessions[i]) by {
            if i < init.len() {
                assert(sessions[i] == init[i]);
                let j = choose|j: int| 0 <= j < before.len() && before[j] == init[i];
                assert(all[j] == sessions[i]);
            } else {
                assert(all[all.len() - 1] == sessions[i]);
            }
        }
    }
}

/// Projects come in the order of their paths and their sessions from the newest to the oldest.
/// Every session is listed, nothing else is, and two sessions share a project exactly where their
/// directories have one key.
pub proof fn every_session_has_one_project(
    projects: Seq<ProjectRecord>,
    sessions: Seq<SessionSummary>,
)
    requires
        are_projects(projects, sessions),
    ensures
        sorted(projects),
        forall|i: int| 0 <= i < projects.len() ==> sorted((#[trigger] projects[i]).sessions@),
        forall|i: int, k: int|
            0 <= i < projects.len() && 0 <= k < projects[i].sessions@.len() ==> sessions.contains(
                #[trigger] projects[i].sessions@[k],
            ),
        forall|s: int|
            0 <= s < sessions.len() ==> exists|i: int, k: int|
                0 <= i < projects.len() && 0 <= k < projects[i].sessions@.len()
                    && #[trigger] projects[i].sessions@[k] == #[trigger] sessions[s],
        forall|i: int, j: int, k: int, l: int|
            0 <= i < projects.len() && 0 <= j < projects.len() && 0 <= k
                < projects[i].sessions@.len() && 0 <= l < projects[j].sessions@.len() ==> (i == j
                <==> key_of(#[trigger] projects[i].sessions@[k]) == key_of(
                #[trigger] projects[j].sessions@[l],
            )),
{
    let groups = choose|groups: Seq<ProjectRecord>| #[trigger]
        are_groups(groups, sessions) && is_sorting(groups, projects);
    let keys = name_set(keys_of(sessions));
    let p = choose|p: Seq<int>| #[trigger]
        rearranges(groups, projects, p) && keeps_ties(projects, p);
    name_set_keeps_names(keys_of(sessions));
    sorting_keeps_items(groups, projects);
    assert forall|i: int| 0 <= i < projects.len() implies is_sorting(
        of_project(sessions, keys[p[i]]),
        (#[trigger] projects[i]).sessions@,
    ) by {
        assert(projects[i] == groups[p[i]]);
    }
    assert forall|i: int, k: int|
        0 <= i < projects.len() && 0 <= k < projects[i].sessions@.len() implies sessions.contains(
        #[trigger] projects[i].sessions@[k],
    ) && key_of(projects[i].sessions@[k]) == keys[p[i]] by {
        let list = of_project(sessions, keys[p[i]]);
        lemma_of_project(sessions, keys[p[i]]);
        sorting_keeps_items(list, projects[i].sessions@);
        let n = choose|n: int| 0 <= n < list.len() && list[n] == projects[i].sessions@[k];
        assert(list[n] == projects[i].sessions@[k]);
    }
    assert forall|s: int| 0 <= s < sessions.len() implies exists|i: int, k: int|
        0 <= i < projects.len() && 0 <= k < projects[i].sessions@.len()
            && #[trigger] projects[i].sessions@[k] == #[trigger] sessions[s] by {
        let key = key_of(sessions[s]);
        assert(keys_of(sessions)[s] == key);
        assert(keys.contains(key));
        let g = choose|g: int| 0 <= g < keys.len() && keys[g] == key;
        assert(projects.contains(groups[g]));
        let i = choose|i: int| 0 <= i < projects.len() && projects[i] == groups[g];
        let list = of_project(sessions, key);
        lemma_of_project(sessions, key);
        assert(is_project(groups[g], list));
        sorting_keeps_items(list, projects[i].sessions@);
        let n = choose|n: int| 0 <= n < list.len() && list[n] == sessions[s];
        assert(projects[i].sessions@.contains(list[n]));
        let k = choose|k: int|
            0 <= k < projects[i].sessions@.len() && projects[i].sessions@[k] == list[n];
        assert(projects[i].sessions@[k] == sessions[s]);
    }
    assert forall|i: int, j: int, k: int, l: int|
        0 <= i < projects.len() && 0 <= j < projects.len() && 0 <= k < projects[i].sessions@.len()
            && 0 <= l < projects[j].sessions@.len() implies (i == j <==> key_of(
        #[trigger] projects[i].sessions@[k],
    ) == key_of(#[trigger] projects[j].sessions@[l])) by {
        if i != j {
            assert(p[i] != p[j]);
            if p[i] < p[j] {
                text_before_asymmetric(keys[p[i]], keys[p[j]]);
            } else {
                text_before_asymmetric(keys[p[j]], keys[p[i]]);
            }
        }
    }
}

} // verus!
