//! Summaries of session files, made from their first lines.

use crate::clock::{
    parse_rfc3339_ms, rfc3339_ms, stamp_fits, stamp_moment, Moment,
};
use crate::json::{field, opt_object, or, parse_json, parsed_json, text_field, Json};
use crate::locale::{clock_time, iso_date, push_clock_time, push_iso_date, spaced};
use crate::paths::{path_depth, plain_path};
use crate::read::detail::{
    extract_message_texts, is_meaningful, is_meaningful_user_text, more, part_texts, parts_of, says,
};
use crate::sort::{
    text_before, text_before_asymmetric, text_before_total, text_before_weak, text_less,
};
use crate::strmap::StrMap;
use crate::text::{
    opt_str, opt_view, own_opt, single_line, string_of, truncate_single_line, views,
};
use crate::usage::snapshot::{normalize_project_key, project_key};
use vstd::prelude::*;

verus! {

/// A title is cut to this many characters.
pub const MAX_TITLE_CHARS: usize = 96;

/// A session that is identified is read up to this line.
pub const PROJECT_IDENTITY_LINE_LIMIT: usize = 128;

/// A path that may be the project of a session: how it is shown, how many components it has and
/// how often it was seen.
#[derive(Debug)]
pub struct ProjectPathCandidate {
    pub display_path: String,
    pub depth: usize,
    pub count: u32,
}

/// A candidate as plain values.
pub struct CandidateModel {
    pub path: Seq<char>,
    pub depth: usize,
    pub count: u32,
}

impl View for ProjectPathCandidate {
    type V = CandidateModel;

    open spec fn view(&self) -> CandidateModel {
        CandidateModel { path: self.display_path@, depth: self.depth, count: self.count }
    }
}

/// The candidates by their keys.
pub open spec fn candidates(m: Map<Seq<char>, ProjectPathCandidate>) -> Map<
    Seq<char>,
    CandidateModel,
> {
    m.map_values(|c: ProjectPathCandidate| c@)
}

/// What the first lines of a session file have said so far.
#[derive(Debug)]
pub struct SessionSummaryBuilder {
    pub session_id: Option<String>,
    pub cwd: Option<String>,
    pub first_user_text: Option<String>,
    pub meaningful_title: Option<String>,
    pub started_at_raw: Option<String>,
    pub git_branch: Option<String>,
    pub git_commit: Option<String>,
    pub repo_url: Option<String>,
    pub model_provider: Option<String>,
    pub model: Option<String>,
}

/// What the first lines have said, as plain values.
#[verifier::ext_equal]
pub struct BuilderModel {
    pub session_id: Option<Seq<char>>,
    pub cwd: Option<Seq<char>>,
    pub first_user_text: Option<Seq<char>>,
    pub meaningful_title: Option<Seq<char>>,
    pub started_at_raw: Option<Seq<char>>,
    pub git_branch: Option<Seq<char>>,
    pub git_commit: Option<Seq<char>>,
    pub repo_url: Option<Seq<char>>,
    pub model_provider: Option<Seq<char>>,
    pub model: Option<Seq<char>>,
}

impl View for SessionSummaryBuilder {
    type V = BuilderModel;

    open spec fn view(&self) -> BuilderModel {
        BuilderModel {
            session_id: opt_view(self.session_id),
            cwd: opt_view(self.cwd),
            first_user_text: opt_view(self.first_user_text),
            meaningful_title: opt_view(self.meaningful_title),
            started_at_raw: opt_view(self.started_at_raw),
            git_branch: opt_view(self.git_branch),
            git_commit: opt_view(self.git_commit),
            repo_url: opt_view(self.repo_url),
            model_provider: opt_view(self.model_provider),
            model: opt_view(self.model),
        }
    }
}

/// Nothing is known of a session.
pub open spec fn nothing_said() -> BuilderModel {
    BuilderModel {
        session_id: None,
        cwd: None,
        first_user_text: None,
        meaningful_title: None,
        started_at_raw: None,
        git_branch: None,
        git_commit: None,
        repo_url: None,
        model_provider: None,
        model: None,
    }
}

/// The text of a member of an optional object.
pub open spec fn text_in(j: Option<Json>, key: Seq<char>) -> Option<Seq<char>> {
    match j {
        Some(v) => text_field(v, key),
        None => None,
    }
}

/// What the header of a session says; what was said before stands.
pub open spec fn with_meta(b: BuilderModel, payload: Json) -> BuilderModel {
    let git = opt_object(field(payload, "git"@));
    BuilderModel {
        session_id: or(b.session_id, text_field(payload, "id"@)),
        cwd: or(b.cwd, text_field(payload, "cwd"@)),
        started_at_raw: or(b.started_at_raw, text_field(payload, "timestamp"@)),
        git_branch: or(b.git_branch, text_in(git, "branch"@)),
        git_commit: or(b.git_commit, text_in(git, "commit_hash"@)),
        repo_url: or(b.repo_url, text_in(git, "repository_url"@)),
        model_provider: or(b.model_provider, text_field(payload, "model_provider"@)),
        ..b
    }
}

/// What the context of a turn says; what was said before stands.
pub open spec fn with_context(b: BuilderModel, payload: Json) -> BuilderModel {
    BuilderModel {
        cwd: or(b.cwd, text_field(payload, "cwd"@)),
        model: or(b.model, text_field(payload, "model"@)),
        ..b
    }
}

/// The first of the texts that is the user's own.
pub open spec fn first_meaningful(texts: Seq<Seq<char>>) -> Option<Seq<char>>
    decreases texts.len(),
{
    if texts.len() == 0 {
        None
    } else if is_meaningful(texts[0]) {
        Some(texts[0])
    } else {
        first_meaningful(texts.skip(1))
    }
}

/// A text as a title.
pub open spec fn as_title(text: Option<Seq<char>>) -> Option<Seq<char>> {
    match text {
        Some(t) => Some(single_line(t, MAX_TITLE_CHARS as nat)),
        None => None,
    }
}

/// The titles that the texts of a user offer; what was said before stands.
pub open spec fn with_titles(b: BuilderModel, texts: Seq<Seq<char>>) -> BuilderModel {
    BuilderModel {
        first_user_text: or(
            b.first_user_text,
            as_title(
                if texts.len() > 0 {
                    Some(texts[0])
                } else {
                    None
                },
            ),
        ),
        meaningful_title: or(b.meaningful_title, as_title(first_meaningful(texts))),
        ..b
    }
}

/// What a response item says of the title.
pub open spec fn with_item(b: BuilderModel, payload: Json) -> BuilderModel {
    if text_field(payload, "type"@) == Some("message"@) && text_field(payload, "role"@) == Some(
        "user"@,
    ) {
        with_titles(b, part_texts(parts_of(payload), "input_text"@))
    } else {
        b
    }
}

/// What is known with one more entry.
pub open spec fn with_entry(b: BuilderModel, v: Json) -> BuilderModel {
    let kind = text_field(v, "type"@);
    match opt_object(field(v, "payload"@)) {
        Some(payload) => if kind == Some("session_meta"@) {
            with_meta(b, payload)
        } else if kind == Some("turn_context"@) {
            with_context(b, payload)
        } else if kind == Some("response_item"@) {
            with_item(b, payload)
        } else {
            b
        },
        None => b,
    }
}

/// The session is identified.
pub open spec fn identified(b: BuilderModel) -> bool {
    b.cwd is Some && b.session_id is Some
}

fn keep(slot: &mut Option<String>, more: Option<&str>)
    ensures
        opt_view(*final(slot)) == or(opt_view(*old(slot)), opt_str(more)),
{
    if slot.is_none() {
        *slot = own_opt(more);
    }
}

impl SessionSummaryBuilder {
    /// Nothing is known yet.
    pub fn new() -> (r: Self)
        ensures
            r@ == nothing_said(),
    {
        SessionSummaryBuilder {
            session_id: None,
            cwd: None,
            first_user_text: None,
            meaningful_title: None,
            started_at_raw: None,
            git_branch: None,
            git_commit: None,
            repo_url: None,
            model_provider: None,
            model: None,
        }
    }

    /// Tests whether the session is identified.
    pub fn has_minimum_fields(&self) -> (r: bool)
        ensures
            r == identified(self@),
    {
        self.cwd.is_some() && self.session_id.is_some()
    }

    /// Takes the header of a session into account.
    pub fn extract_session_meta(&mut self, payload: &Json)
        ensures
            final(self)@ == with_meta(old(self)@, *payload),
    {
        keep(&mut self.session_id, payload.get_str("id"));
        keep(&mut self.cwd, payload.get_str("cwd"));
        keep(&mut self.model_provider, payload.get_str("model_provider"));
        keep(&mut self.started_at_raw, payload.get_str("timestamp"));
        if let Some(git) = payload.get_object("git") {
            keep(&mut self.git_branch, git.get_str("branch"));
            keep(&mut self.git_commit, git.get_str("commit_hash"));
            keep(&mut self.repo_url, git.get_str("repository_url"));
        }
        assert(self@ =~= with_meta(old(self)@, *payload));
    }

    /// Takes the context of a turn into account.
    pub fn extract_turn_context(&mut self, payload: &Json)
        ensures
            final(self)@ == with_context(old(self)@, *payload),
    {
        keep(&mut self.cwd, payload.get_str("cwd"));
        keep(&mut self.model, payload.get_str("model"));
        assert(self@ =~= with_context(old(self)@, *payload));
    }

    /// Takes the texts of a user into account.
    pub fn extract_title_candidate(&mut self, payload: &Json)
        ensures
            final(self)@ == with_item(old(self)@, *payload),
    {
        if !says(payload, "type", "message") || !says(payload, "role", "user") {
            return ;
        }
        let texts = extract_message_texts(payload, "input_text");
        let ghost all = views(texts@);
        if texts.len() > 0 {
            assert(all[0] == texts@[0]@);
            if self.first_user_text.is_none() {
                self.first_user_text = Some(
                    truncate_single_line(texts[0].as_str(), MAX_TITLE_CHARS),
                );
            }
        }
        if self.meaningful_title.is_none() {
            self.meaningful_title = first_title(&texts);
        }
        assert(self@ =~= with_item(old(self)@, *payload));
    }

    /// Takes one more entry into account.
    pub fn note_entry(&mut self, v: &Json)
        ensures
            final(self)@ == with_entry(old(self)@, *v),
    {
        proof {
            reveal_strlit("session_meta");
            reveal_strlit("turn_context");
            reveal_strlit("response_item");
        }
        if let Some(payload) = v.get_object("payload") {
            if says(v, "type", "session_meta") {
                self.extract_session_meta(payload);
            } else if says(v, "type", "turn_context") {
                self.extract_turn_context(payload);
            } else if says(v, "type", "response_item") {
                self.extract_title_candidate(payload);
            }
        }
    }
}

fn first_title(texts: &Vec<String>) -> (r: Option<String>)
    ensures
        opt_view(r) == as_title(first_meaningful(views(texts@))),
{
    let ghost all = views(texts@);
    let mut i: usize = 0;
    assert(all.skip(0) =~= all);
    while i < texts.len()
        invariant
            i <= texts@.len(),
            all == views(texts@),
            first_meaningful(all) == first_meaningful(all.skip(i as int)),
        decreases texts@.len() - i,
    {
        assert(all.skip(i as int)[0] == texts@[i as int]@);
        assert(all.skip(i as int).skip(1) =~= all.skip(i + 1));
        if is_meaningful_user_text(texts[i].as_str()) {
            return Some(truncate_single_line(texts[i].as_str(), MAX_TITLE_CHARS));
        }
        i += 1;
    }
    None
}

/// The directory in which a tool call works, where it names one.
pub open spec fn tool_directory(v: Json) -> Option<Seq<char>> {
    let payload = opt_object(field(v, "payload"@));
    if text_field(v, "type"@) == Some("response_item"@) && text_in(payload, "type"@) == Some(
        "function_call"@,
    ) {
        match text_in(payload, "arguments"@) {
            Some(arguments) => text_in(parsed_json(arguments), "workdir"@),
            None => None,
        }
    } else {
        None
    }
}

/// The directory in which a tool call works.
pub fn tool_workdir(v: &Json) -> (r: Option<String>)
    ensures
        opt_view(r) == tool_directory(*v),
{
    if !says(v, "type", "response_item") {
        return None;
    }
    match v.get_object("payload") {
        Some(payload) => if says(payload, "type", "function_call") {
            match payload.get_str("arguments") {
                Some(arguments) => match parse_json(arguments) {
                    Some(call) => own_opt(call.get_str("workdir")),
                    None => None,
                },
                None => None,
            }
        } else {
            None
        },
        None => None,
    }
}

/// A candidate seen once more; the first path that is not empty is the one that is shown.
pub open spec fn seen_again(c: Option<CandidateModel>, path: Seq<char>, depth: usize) -> CandidateModel {
    match c {
        Some(c) => CandidateModel {
            path: if c.path.len() == 0 {
                path
            } else {
                c.path
            },
            depth: if c.path.len() == 0 {
                depth
            } else {
                c.depth
            },
            count: if c.count == u32::MAX {
                u32::MAX
            } else {
                (c.count + 1) as u32
            },
        },
        None => CandidateModel { path, depth, count: 1 },
    }
}

/// The candidates with one that was seen.
pub open spec fn with_candidate(
    m: Map<Seq<char>, CandidateModel>,
    path: Seq<char>,
    depth: usize,
) -> Map<Seq<char>, CandidateModel> {
    let key = project_key(path);
    m.insert(
        key,
        seen_again(
            if m.dom().contains(key) {
                Some(m[key])
            } else {
                None
            },
            path,
            depth,
        ),
    )
}

/// A candidate goes before another one: it was seen more often, or it is as frequent and deeper, or
/// it ties with the other and its key comes later.
pub open spec fn outranks(m: Map<Seq<char>, CandidateModel>, a: Seq<char>, b: Seq<char>) -> bool {
    ||| m[a].count > m[b].count
    ||| m[a].count == m[b].count && m[a].depth > m[b].depth
    ||| m[a].count == m[b].count && m[a].depth == m[b].depth && text_before(b, a)
}

/// The candidate goes before every other one.
pub open spec fn is_best(m: Map<Seq<char>, CandidateModel>, k: Seq<char>) -> bool {
    m.dom().contains(k) && forall|o: Seq<char>| #[trigger]
        m.dom().contains(o) && o != k ==> outranks(m, k, o)
}

/// The path of the best candidate.
pub open spec fn best_path(m: Map<Seq<char>, CandidateModel>) -> Option<Seq<char>> {
    if exists|k: Seq<char>| is_best(m, k) {
        Some(m[choose|k: Seq<char>| is_best(m, k)].path)
    } else {
        None
    }
}

/// At most one candidate goes before every other one.
pub proof fn best_is_unique(m: Map<Seq<char>, CandidateModel>, a: Seq<char>, b: Seq<char>)
    requires
        is_best(m, a),
        is_best(m, b),
    ensures
        a == b,
        best_path(m) == Some(m[a].path),
{
    if a != b {
        assert(outranks(m, a, b));
        assert(outranks(m, b, a));
        text_before_asymmetric(a, b);
    }
    let k = choose|k: Seq<char>| is_best(m, k);
    assert(is_best(m, k));
    if k != a {
        assert(outranks(m, a, k));
        assert(outranks(m, k, a));
        text_before_asymmetric(a, k);
    }
}

/// `std::path::Path::components`, counted: the number of parts of a path. How a path falls into parts
/// depends on the platform; a plain one has a part for each name and one for the root.
#[verifier::external_body]
fn project_path_depth(path: &str) -> (r: usize)
    ensures
        plain_path(path@) ==> r == path_depth(path@),
{
    std::path::Path::new(path).components().count()
}

/// The first lines of a session file, read one by one.
#[derive(Debug)]
pub struct SessionProbe {
    pub said: SessionSummaryBuilder,
    pub projects: StrMap<ProjectPathCandidate>,
    pub lines_seen: usize,
    pub done: bool,
}

/// The reading of a session file, as plain values.
#[verifier::ext_equal]
pub struct ProbeModel {
    pub said: BuilderModel,
    pub projects: Map<Seq<char>, CandidateModel>,
    pub lines_seen: usize,
    pub done: bool,
}

impl View for SessionProbe {
    type V = ProbeModel;

    open spec fn view(&self) -> ProbeModel {
        ProbeModel {
            said: self.said@,
            projects: candidates(self.projects@),
            lines_seen: self.lines_seen,
            done: self.done,
        }
    }
}

/// The reading with one more line. A line that is no JSON says nothing and ends nothing.
pub open spec fn probe_with(p: ProbeModel, line: Seq<char>) -> ProbeModel {
    if p.done {
        p
    } else {
        let seen = more(p.lines_seen, 1);
        match parsed_json(line) {
            Some(v) => {
                let said = with_entry(p.said, v);
                ProbeModel {
                    said,
                    lines_seen: seen,
                    done: seen >= PROJECT_IDENTITY_LINE_LIMIT && identified(said),
                    ..p
                }
            },
            None => ProbeModel { lines_seen: seen, ..p },
        }
    }
}

impl SessionProbe {
    /// The reading is in order.
    pub open spec fn wf(&self) -> bool {
        self.projects.wf()
    }

    /// Nothing has been read.
    pub fn new() -> (r: Self)
        ensures
            r.wf(),
            r@ == (ProbeModel {
                said: nothing_said(),
                projects: Map::empty(),
                lines_seen: 0,
                done: false,
            }),
    {
        let r = SessionProbe {
            said: SessionSummaryBuilder::new(),
            projects: StrMap::new(),
            lines_seen: 0,
            done: false,
        };
        assert(candidates(r.projects@) =~= Map::empty());
        r
    }

    /// Reads one more line. The result is the directory of a tool call, whose project is to be
    /// noted.
    pub fn feed(&mut self, line: &str) -> (r: Option<String>)
        requires
            old(self).wf(),
        ensures
            final(self).wf(),
            final(self)@ == probe_with(old(self)@, line@),
            opt_view(r) == if old(self).done {
                None
            } else {
                match parsed_json(line@) {
                    Some(v) => tool_directory(v),
                    None => None,
                }
            },
    {
        if self.done {
            return None;
        }
        self.lines_seen = self.lines_seen.saturating_add(1);
        match parse_json(line) {
            Some(v) => {
                self.said.note_entry(&v);
                if self.lines_seen >= PROJECT_IDENTITY_LINE_LIMIT && self.said.has_minimum_fields() {
                    self.done = true;
                }
                tool_workdir(&v)
            },
            None => None,
        }
    }

    /// Notes a path, with the number of its components, as a candidate for the project.
    pub fn note_project_at(&mut self, display_path: &str, depth: usize)
        requires
            old(self).wf(),
        ensures
            final(self).wf(),
            final(self)@ == (ProbeModel {
                projects: with_candidate(old(self)@.projects, display_path@, depth),
                ..old(self)@
            }),
    {
        let ghost before = self.projects@;
        let key = normalize_project_key(display_path);
        let next = match self.projects.take(key.as_str()) {
            Some(c) => {
                let empty = c.display_path.as_str().is_empty();
                ProjectPathCandidate {
                    display_path: if empty {
                        display_path.to_owned()
                    } else {
                        c.display_path
                    },
                    depth: if empty {
                        depth
                    } else {
                        c.depth
                    },
                    count: c.count.saturating_add(1),
                }
            },
            None => ProjectPathCandidate {
                display_path: display_path.to_owned(),
                depth,
                count: 1,
            },
        };
        let ghost k = key@;
        let ghost n = next;
        self.projects.add_new(key, next);
        assert(self.projects@ =~= before.insert(k, n));
        assert(candidates(self.projects@) =~= with_candidate(
            candidates(before),
            display_path@,
            depth,
        ));
        assert(self@ =~= (ProbeModel {
            projects: with_candidate(old(self)@.projects, display_path@, depth),
            ..old(self)@
        }));
    }

    /// Notes a path as a candidate for the project, with the number of its parts. How many a path has
    /// that is not plain is left to the platform.
    pub fn note_project_cwd(&mut self, display_path: &str)
        requires
            old(self).wf(),
        ensures
            final(self).wf(),
            exists|depth: usize|
                (plain_path(display_path@) ==> depth == path_depth(display_path@)) && final(self)@
                    == (ProbeModel {
                    projects: #[trigger] with_candidate(
                        old(self)@.projects,
                        display_path@,
                        depth,
                    ),
                    ..old(self)@
                }),
    {
        let depth: usize = project_path_depth(display_path);
        let ghost before = self@.projects;
        self.note_project_at(display_path, depth);
        assert(self@.projects == with_candidate(before, display_path@, depth));
    }

    /// The path of the best candidate.
    pub fn inferred_project_cwd(&self) -> (r: Option<&str>)
        requires
            self.wf(),
        ensures
            opt_str(r) == best_path(self@.projects),
            r is None <==> self@.projects.dom().is_empty(),
    {
        let ghost m = self@.projects;
        let entries = &self.projects.entries;
        if entries.len() == 0 {
            assert(m.dom() =~= Set::empty());
            assert forall|k: Seq<char>| !is_best(m, k) by {}
            return None;
        }
        let mut best: usize = 0;
        let mut i: usize = 1;
        while i < entries.len()
            invariant
                self.wf(),
                *entries == self.projects.entries,
                m == self@.projects,
                best < i <= entries@.len(),
                forall|j: int|
                    0 <= j < i && j != best ==> outranks(
                        m,
                        entries@[best as int].0@,
                        #[trigger] entries@[j].0@,
                    ),
            decreases entries@.len() - i,
        {
            proof {
                self.projects.lemma_entry(i as int);
                self.projects.lemma_entry(best as int);
                lemma_ranked(m, entries@[i as int].0@, entries@[best as int].0@);
            }
            let ghost a = entries@[i as int].0@;
            let ghost b = entries@[best as int].0@;
            let above = outranks_at(&entries[i], &entries[best]);
            assert(above == outranks(m, a, b));
            if above {
                proof {
                    assert forall|j: int| 0 <= j < i + 1 && j != i implies outranks(
                        m,
                        a,
                        #[trigger] entries@[j].0@,
                    ) by {
                        if j != best {
                            lemma_outranks_transitive(m, a, b, entries@[j].0@);
                        }
                    }
                }
                best = i;
            }
            i += 1;
        }
        proof {
            self.projects.lemma_entry(best as int);
            let k = entries@[best as int].0@;
            assert(m.dom().contains(k));
            assert forall|o: Seq<char>| #[trigger] m.dom().contains(o) && o != k implies outranks(
                m,
                k,
                o,
            ) by {
                assert(self.projects@.dom().contains(o));
                let j = choose|j: int|
                    0 <= j < self.projects.entries@.len() && #[trigger] self.projects.entries@[j].0@
                        == o;
                assert(entries@[j].0@ == o);
            }
            assert(is_best(m, k));
            best_is_unique(m, k, k);
        }
        Some(entries[best].1.display_path.as_str())
    }
}

proof fn lemma_ranked(m: Map<Seq<char>, CandidateModel>, a: Seq<char>, b: Seq<char>)
    requires
        a != b,
    ensures
        outranks(m, a, b) != outranks(m, b, a),
{
    text_before_asymmetric(a, b);
    if !text_before(a, b) && !text_before(b, a) {
        text_before_total(a, b);
    }
}

proof fn lemma_outranks_transitive(
    m: Map<Seq<char>, CandidateModel>,
    a: Seq<char>,
    b: Seq<char>,
    c: Seq<char>,
)
    requires
        outranks(m, a, b),
        outranks(m, b, c),
    ensures
        outranks(m, a, c),
{
    if text_before(b, a) && text_before(c, b) && !text_before(c, a) {
        text_before_asymmetric(b, a);
        text_before_weak(c, a, b);
    }
}

fn outranks_at(a: &(String, ProjectPathCandidate), b: &(String, ProjectPathCandidate)) -> (r: bool)
    ensures
        r == ({
            ||| a.1.count > b.1.count
            ||| a.1.count == b.1.count && a.1.depth > b.1.depth
            ||| a.1.count == b.1.count && a.1.depth == b.1.depth && text_before(b.0@, a.0@)
        }),
{
    if a.1.count != b.1.count {
        return a.1.count > b.1.count;
    }
    if a.1.depth != b.1.depth {
        return a.1.depth > b.1.depth;
    }
    text_less(b.0.as_str(), a.0.as_str())
}

/// A session as the history lists it.
#[derive(Debug)]
pub struct SessionSummary {
    pub file_path: String,
    pub session_id: String,
    pub cwd: String,
    pub title: String,
    pub started_at_raw: Option<String>,
    pub started_at_label: String,
    pub started_at_sort_key_ms: i64,
    pub git_branch: Option<String>,
    pub git_commit: Option<String>,
    pub repo_url: Option<String>,
    pub model_provider: Option<String>,
    pub model: Option<String>,
}

/// A session as plain values.
#[verifier::ext_equal]
pub struct SummaryModel {
    pub file_path: Seq<char>,
    pub session_id: Seq<char>,
    pub cwd: Seq<char>,
    pub title: Seq<char>,
    pub started_at_raw: Option<Seq<char>>,
    pub started_at_label: Seq<char>,
    pub started_at_sort_key_ms: i64,
    pub git_branch: Option<Seq<char>>,
    pub git_commit: Option<Seq<char>>,
    pub repo_url: Option<Seq<char>>,
    pub model_provider: Option<Seq<char>>,
    pub model: Option<Seq<char>>,
}

impl View for SessionSummary {
    type V = SummaryModel;

    open spec fn view(&self) -> SummaryModel {
        SummaryModel {
            file_path: self.file_path@,
            session_id: self.session_id@,
            cwd: self.cwd@,
            title: self.title@,
            started_at_raw: opt_view(self.started_at_raw),
            started_at_label: self.started_at_label@,
            started_at_sort_key_ms: self.started_at_sort_key_ms,
            git_branch: opt_view(self.git_branch),
            git_commit: opt_view(self.git_commit),
            repo_url: opt_view(self.repo_url),
            model_provider: opt_view(self.model_provider),
            model: opt_view(self.model),
        }
    }
}

/// The start of a session as it is shown: its date and time where its timestamp can be read and the
/// machine's calendar has it, else the timestamp as it stands.
pub open spec fn start_label(raw: Seq<char>, at: Option<Moment>) -> Seq<char> {
    match at {
        Some(m) => if rfc3339_ms(raw) is Some {
            spaced(iso_date(m.date), clock_time(m.time))
        } else {
            raw
        },
        None => raw,
    }
}

/// The start of a session as it is shown, where its moment is known.
pub fn timestamp_label_at(raw: &str, at: Option<Moment>) -> (r: String)
    ensures
        r@ == start_label(raw@, at),
{
    if parse_rfc3339_ms(raw).is_some() {
        if let Some(m) = at {
            let mut out: Vec<char> = Vec::new();
            push_iso_date(&mut out, m.date);
            out.push(' ');
            push_clock_time(&mut out, m.time);
            assert(out@ =~= spaced(iso_date(m.date), clock_time(m.time)));
            return string_of(&out);
        }
    }
    raw.to_owned()
}

/// The start of a session as it is shown, in the machine's time zone. Which zone that is, is left
/// open.
pub fn format_timestamp_label(raw: &str) -> (r: String)
    ensures
        exists|at: Option<Moment>|
            stamp_fits(Some(raw@), at) && r@ == #[trigger] start_label(raw@, at),
{
    let at = stamp_moment(Some(raw));
    let r = timestamp_label_at(raw, at);
    assert(r@ == start_label(raw@, at));
    r
}

/// The path of the project of a session: the best candidate, else the project of its working
/// directory, else that directory.
pub open spec fn chosen_cwd(p: ProbeModel, cwd_project: Option<Seq<char>>) -> Option<Seq<char>> {
    or(
        best_path(p.projects),
        match p.said.cwd {
            Some(cwd) => or(cwd_project, Some(cwd)),
            None => None,
        },
    )
}

/// The session that a reading gives.
pub open spec fn summary_of(
    p: ProbeModel,
    file_path: Seq<char>,
    cwd_project: Option<Seq<char>>,
    modified_ms: Option<i64>,
    at: Option<Moment>,
) -> SummaryModel {
    let id = match p.said.session_id {
        Some(id) => id,
        None => file_path,
    };
    SummaryModel {
        file_path,
        session_id: id,
        cwd: chosen_cwd(p, cwd_project)->0,
        title: match or(p.said.meaningful_title, p.said.first_user_text) {
            Some(title) => title,
            None => "Session "@ + id,
        },
        started_at_raw: p.said.started_at_raw,
        started_at_label: match p.said.started_at_raw {
            Some(raw) => start_label(raw, at),
            None => "--"@,
        },
        started_at_sort_key_ms: match p.said.started_at_raw {
            Some(raw) => match rfc3339_ms(raw) {
                Some(ms) => ms,
                None => 0,
            },
            None => match modified_ms {
                Some(ms) => ms,
                None => 0,
            },
        },
        git_branch: p.said.git_branch,
        git_commit: p.said.git_commit,
        repo_url: p.said.repo_url,
        model_provider: p.said.model_provider,
        model: p.said.model,
    }
}

impl SessionProbe {
    /// The session that has been read; none where nothing says in which project it worked. Where
    /// the file says nothing of its start, the time of its last change stands in.
    pub fn finish(
        self,
        file_path: &str,
        cwd_project: Option<&str>,
        modified_ms: Option<i64>,
    ) -> (r: Option<SessionSummary>)
        requires
            self.wf(),
        ensures
            r is Some <==> chosen_cwd(self@, opt_str(cwd_project)) is Some,
            r is Some ==> exists|at: Option<Moment>|
                stamp_fits(self@.said.started_at_raw, at) && r->0@ == #[trigger] summary_of(
                    self@,
                    file_path@,
                    opt_str(cwd_project),
                    modified_ms,
                    at,
                ),
    {
        let ghost p = self@;
        let cwd = match self.inferred_project_cwd() {
            Some(path) => path.to_owned(),
            None => match &self.said.cwd {
                Some(cwd) => match cwd_project {
                    Some(project) => project.to_owned(),
                    None => cwd.as_str().to_owned(),
                },
                None => {
                    return None;
                },
            },
        };
        let said = self.said;
        let session_id = match said.session_id {
            Some(id) => id,
            None => file_path.to_owned(),
        };
        let title = match said.meaningful_title {
            Some(title) => title,
            None => match said.first_user_text {
                Some(title) => title,
                None => {
                    let mut title = "Session ".to_owned();
                    title.append(session_id.as_str());
                    title
                },
            },
        };
        let started_at_label = match &said.started_at_raw {
            Some(raw) => format_timestamp_label(raw.as_str()),
            None => "--".to_owned(),
        };
        let started_at_sort_key_ms: i64 = match &said.started_at_raw {
            Some(raw) => match parse_rfc3339_ms(raw.as_str()) {
                Some(ms) => ms,
                None => 0,
            },
            None => match modified_ms {
                Some(ms) => ms,
                None => 0,
            },
        };
        let r = SessionSummary {
            file_path: file_path.to_owned(),
            session_id,
            cwd,
            title,
            started_at_raw: said.started_at_raw,
            started_at_label,
            started_at_sort_key_ms,
            git_branch: said.git_branch,
            git_commit: said.git_commit,
            repo_url: said.repo_url,
            model_provider: said.model_provider,
            model: said.model,
        };
        proof {
            let at: Option<Moment> = match p.said.started_at_raw {
                Some(raw) => choose|at: Option<Moment>|
                    stamp_fits(Some(raw), at) && r.started_at_label@ == #[trigger] start_label(
                        raw,
                        at,
                    ),
                None => None,
            };
            assert(stamp_fits(p.said.started_at_raw, at));
            assert(r@ =~= summary_of(p, file_path@, opt_str(cwd_project), modified_ms, at));
        }
        Some(r)
    }
}

/// What the first lines say of a session stands: a later line changes nothing that an earlier one
/// has said of its id, its directory, its start or its title.
pub proof fn first_word_stands(p: ProbeModel, line: Seq<char>)
    ensures
        p.said.session_id is Some ==> probe_with(p, line).said.session_id == p.said.session_id,
        p.said.cwd is Some ==> probe_with(p, line).said.cwd == p.said.cwd,
        p.said.started_at_raw is Some ==> probe_with(p, line).said.started_at_raw
            == p.said.started_at_raw,
        p.said.meaningful_title is Some ==> probe_with(p, line).said.meaningful_title
            == p.said.meaningful_title,
{
}

} // verus!
