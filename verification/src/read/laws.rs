//! What is read of sessions, and how they are listed.

use crate::clock::{rfc3339_ms, Moment};
use crate::json::{field, parsed_json, text_field, Json};
use crate::read::catalog::{are_groups, are_projects, is_project, of_project, ProjectRecord};
use crate::read::detail::{is_meaningful, part_texts, parts_of};
use crate::read::session::{
    as_title, best_is_unique, chosen_cwd, is_best, outranks, probe_with, summary_of,
    tool_directory, with_candidate, with_entry, BuilderModel,
    CandidateModel, ProbeModel, SessionSummary,
};
use crate::sort::{is_sorting, keeps_ties, rearranges, sorted, text_before, Precedes};
use crate::usage::snapshot::project_key;
use vstd::prelude::*;

verus! {

/// An entry of a session file of a kind, with its payload.
pub open spec fn is_entry(v: Json, kind: Seq<char>, payload: Json) -> bool {
    text_field(v, "type"@) == Some(kind) && field(v, "payload"@) == Some(payload) && payload
        is Object
}

/// What is kept of two texts: the one that was there, else the one that comes.
pub open spec fn first_of(old_text: Option<Seq<char>>, new_text: Option<Seq<char>>, kept: Option<
    Seq<char>,
>) -> bool {
    &&& old_text is Some ==> kept == old_text
    &&& old_text is None ==> kept == new_text
}

proof fn lemma_kinds()
    ensures
        "session_meta"@ != "turn_context"@,
        "session_meta"@ != "response_item"@,
        "turn_context"@ != "response_item"@,
{
    reveal_strlit("session_meta");
    reveal_strlit("turn_context");
    reveal_strlit("response_item");
    assert("session_meta"@[0] == 's');
    assert("turn_context"@[0] == 't');
    assert("response_item"@[0] == 'r');
}

/// The header of a session gives its id, its directory, its start, its repository and the provider
/// of its model, each under its own name, unless something was said of them before.
pub proof fn headers_are_read_by_name(b: BuilderModel, v: Json, payload: Json, git: Json)
    requires
        is_entry(v, "session_meta"@, payload),
    ensures
        ({
            let t = with_entry(b, v);
            &&& first_of(b.session_id, text_field(payload, "id"@), t.session_id)
            &&& first_of(b.cwd, text_field(payload, "cwd"@), t.cwd)
            &&& first_of(b.started_at_raw, text_field(payload, "timestamp"@), t.started_at_raw)
            &&& first_of(
                b.model_provider,
                text_field(payload, "model_provider"@),
                t.model_provider,
            )
            &&& field(payload, "git"@) == Some(git) && git is Object ==> first_of(
                b.git_branch,
                text_field(git, "branch"@),
                t.git_branch,
            ) && first_of(b.git_commit, text_field(git, "commit_hash"@), t.git_commit) && first_of(
                b.repo_url,
                text_field(git, "repository_url"@),
                t.repo_url,
            )
            &&& t.model == b.model
            &&& t.first_user_text == b.first_user_text
            &&& t.meaningful_title == b.meaningful_title
        }),
{
}

/// The context of a turn gives the model, and the directory where none was given.
pub proof fn contexts_are_read_by_name(b: BuilderModel, v: Json, payload: Json)
    requires
        is_entry(v, "turn_context"@, payload),
    ensures
        ({
            let t = with_entry(b, v);
            &&& first_of(b.model, text_field(payload, "model"@), t.model)
            &&& first_of(b.cwd, text_field(payload, "cwd"@), t.cwd)
            &&& t == (BuilderModel { model: t.model, cwd: t.cwd, ..b })
        }),
{
    lemma_kinds();
}

/// A message of the user gives the titles: the first text of the first message, and the first text
/// that is the user's own. Messages of others give none.
pub proof fn titles_come_from_the_user(
    b: BuilderModel,
    v: Json,
    payload: Json,
    texts: Seq<Seq<char>>,
    i: int,
)
    requires
        is_entry(v, "response_item"@, payload),
        text_field(payload, "type"@) == Some("message"@),
        texts == part_texts(parts_of(payload), "input_text"@),
    ensures
        ({
            let t = with_entry(b, v);
            &&& text_field(payload, "role"@) != Some("user"@) ==> t == b
            &&& text_field(payload, "role"@) == Some("user"@) && texts.len() > 0 ==> first_of(
                b.first_user_text,
                as_title(Some(texts[0])),
                t.first_user_text,
            )
            &&& text_field(payload, "role"@) == Some("user"@) && 0 <= i < texts.len()
                && is_meaningful(texts[i]) && (forall|k: int|
                0 <= k < i ==> !is_meaningful(#[trigger] texts[k])) ==> first_of(
                b.meaningful_title,
                as_title(Some(texts[i])),
                t.meaningful_title,
            )
            &&& t == (BuilderModel {
                first_user_text: t.first_user_text,
                meaningful_title: t.meaningful_title,
                ..b
            })
        }),
{
    lemma_kinds();
    if 0 <= i < texts.len() && is_meaningful(texts[i]) && (forall|k: int|
        0 <= k < i ==> !is_meaningful(#[trigger] texts[k])) {
        lemma_first_meaningful(texts, i);
    }
}

proof fn lemma_first_meaningful(texts: Seq<Seq<char>>, i: int)
    requires
        0 <= i < texts.len(),
        is_meaningful(texts[i]),
        forall|k: int| 0 <= k < i ==> !is_meaningful(#[trigger] texts[k]),
    ensures
        crate::read::session::first_meaningful(texts) == Some(texts[i]),
    decreases i,
{
    if i > 0 {
        assert(!is_meaningful(texts[0]));
        let rest = texts.skip(1);
        assert forall|k: int| 0 <= k < i - 1 implies !is_meaningful(#[trigger] rest[k]) by {
            assert(rest[k] == texts[k + 1]);
        }
        lemma_first_meaningful(rest, i - 1);
    }
}

/// The session that a reading gives: the user's own words are its title before any others and its
/// id where there are none; it is sorted by its start, and by the last change of its file only where
/// it does not tell its start.
pub proof fn sessions_are_named_and_dated(
    p: ProbeModel,
    file_path: Seq<char>,
    cwd_project: Option<Seq<char>>,
    modified_ms: Option<i64>,
    at: Option<Moment>,
)
    ensures
        ({
            let s = summary_of(p, file_path, cwd_project, modified_ms, at);
            &&& p.said.session_id is Some ==> s.session_id == p.said.session_id->0
            &&& p.said.session_id is None ==> s.session_id == file_path
            &&& p.said.meaningful_title is Some ==> s.title == p.said.meaningful_title->0
            &&& p.said.meaningful_title is None && p.said.first_user_text is Some ==> s.title
                == p.said.first_user_text->0
            &&& p.said.meaningful_title is None && p.said.first_user_text is None ==> s.title
                == "Session "@ + s.session_id
            &&& p.said.started_at_raw is Some && rfc3339_ms(p.said.started_at_raw->0) is Some
                ==> s.started_at_sort_key_ms == rfc3339_ms(p.said.started_at_raw->0)->0
            &&& p.said.started_at_raw is None && modified_ms is Some ==> s.started_at_sort_key_ms
                == modified_ms->0
            &&& s.file_path == file_path
            &&& s.model == p.said.model && s.model_provider == p.said.model_provider
            &&& s.git_branch == p.said.git_branch && s.git_commit == p.said.git_commit
                && s.repo_url == p.said.repo_url
        }),
{
}

/// The project of a session is the directory in which its tools worked most; without one the
/// repository of its directory, and without that the directory.
pub proof fn tools_tell_the_project(
    p: ProbeModel,
    cwd_project: Option<Seq<char>>,
    k: Seq<char>,
    other: Seq<char>,
)
    ensures
        is_best(p.projects, k) ==> chosen_cwd(p, cwd_project) == Some(p.projects[k].path),
        is_best(p.projects, k) && p.projects.dom().contains(other) ==> p.projects[other].count
            <= p.projects[k].count,
        is_best(p.projects, k) && p.projects.dom().contains(other) && p.projects[other].count
            == p.projects[k].count ==> p.projects[other].depth <= p.projects[k].depth,
        p.projects == Map::<Seq<char>, CandidateModel>::empty() && p.said.cwd is Some
            && cwd_project is Some ==> chosen_cwd(p, cwd_project) == cwd_project,
        p.projects == Map::<Seq<char>, CandidateModel>::empty() && p.said.cwd is Some
            && cwd_project is None ==> chosen_cwd(p, cwd_project) == p.said.cwd,
        p.projects == Map::<Seq<char>, CandidateModel>::empty() && p.said.cwd is None
            ==> chosen_cwd(p, cwd_project) is None,
{
    if is_best(p.projects, k) {
        best_is_unique(p.projects, k, k);
        if p.projects.dom().contains(other) && other != k {
            assert(outranks(p.projects, k, other));
        }
    }
}

/// Seeing a directory counts it once more and no other one; the first spelling of it stays.
pub proof fn directories_are_counted(
    m: Map<Seq<char>, CandidateModel>,
    path: Seq<char>,
    depth: usize,
    other: Seq<char>,
)
    requires
        other != project_key(path),
    ensures
        ({
            let n = with_candidate(m, path, depth);
            let k = project_key(path);
            &&& n.dom().contains(k)
            &&& m.dom().contains(k) && m[k].count < u32::MAX ==> n[k].count == m[k].count + 1
            &&& m.dom().contains(k) && m[k].path.len() > 0 ==> n[k].path == m[k].path && n[k].depth
                == m[k].depth
            &&& !m.dom().contains(k) ==> n[k].count == 1 && n[k].path == path && n[k].depth == depth
            &&& n.dom().contains(other) <==> m.dom().contains(other)
            &&& m.dom().contains(other) ==> n[other] == m[other]
        }),
{
}

/// The directory of a tool call is the one that its arguments name.
pub proof fn tool_calls_name_their_directory(v: Json, payload: Json, arguments: Json)
    requires
        is_entry(v, "response_item"@, payload),
        text_field(payload, "type"@) == Some("function_call"@),
        text_field(payload, "arguments"@) is Some,
    ensures
        parsed_json(text_field(payload, "arguments"@)->0) == Some(arguments) ==> tool_directory(v)
            == text_field(arguments, "workdir"@),
{
}

/// Lines are read until the session is identified, and never fewer than the first 127 of them; a
/// line that cannot be read says nothing.
pub proof fn reading_goes_on_until_identified(p: ProbeModel, line: Seq<char>)
    requires
        !p.done,
    ensures
        ({
            let t = probe_with(p, line);
            &&& p.lines_seen < usize::MAX ==> t.lines_seen == p.lines_seen + 1
            &&& t.done ==> t.lines_seen >= 128 && t.said.session_id is Some && t.said.cwd is Some
            &&& parsed_json(line) is None ==> t.said == p.said && !t.done
            &&& parsed_json(line) is Some && t.lines_seen >= 128 && t.said.session_id is Some
                && t.said.cwd is Some ==> t.done
            &&& parsed_json(line) is Some ==> t.said == with_entry(p.said, parsed_json(line)->0)
            &&& t.projects == p.projects
        }),
{
}

/// The sessions of a project stand from the newest to the oldest, the project shows the directory
/// of the newest, and projects stand in the order of their paths.
pub proof fn newest_sessions_stand_first(
    projects: Seq<ProjectRecord>,
    sessions: Seq<SessionSummary>,
)
    requires
        are_projects(projects, sessions),
    ensures
        forall|i: int, k: int, l: int|
            0 <= i < projects.len() && 0 <= k < l < projects[i].sessions@.len() ==> (
            #[trigger] projects[i].sessions@[k]).started_at_sort_key_ms >= (
            #[trigger] projects[i].sessions@[l]).started_at_sort_key_ms,
        forall|i: int|
            0 <= i < projects.len() && (#[trigger] projects[i]).sessions@.len() > 0
                ==> projects[i].display_path@ == projects[i].sessions@[0].cwd@,
        forall|i: int, j: int|
            0 <= i < j < projects.len() ==> !text_before(
                (#[trigger] projects[j]).display_path@,
                (#[trigger] projects[i]).display_path@,
            ),
{
    let groups = choose|groups: Seq<ProjectRecord>| #[trigger]
        are_groups(groups, sessions) && is_sorting(groups, projects);
    let keys = crate::strset::name_set(crate::read::catalog::keys_of(sessions));
    let p = choose|p: Seq<int>| #[trigger]
        rearranges(groups, projects, p) && keeps_ties(projects, p);
    assert forall|i: int| 0 <= i < projects.len() implies is_project(
        #[trigger] projects[i],
        of_project(sessions, keys[p[i]]),
    ) by {
        assert(projects[i] == groups[p[i]]);
    }
    assert forall|i: int, k: int, l: int|
        0 <= i < projects.len() && 0 <= k < l < projects[i].sessions@.len() implies (
    #[trigger] projects[i].sessions@[k]).started_at_sort_key_ms >= (
    #[trigger] projects[i].sessions@[l]).started_at_sort_key_ms by {
        let list = projects[i].sessions@;
        assert(sorted(list));
        assert(!list[l].before(list[k]));
    }
    assert forall|i: int, j: int| 0 <= i < j < projects.len() implies !text_before(
        (#[trigger] projects[j]).display_path@,
        (#[trigger] projects[i]).display_path@,
    ) by {
        assert(!projects[j].before(projects[i]));
    }
}

} // verus!
