//! What the session history shows.

use crate::app::state::{sat16, Rect};
use crate::clock::{parse_rfc3339_ms, rfc3339_ms, stamp_fits, stamp_moment, Moment};
use crate::json::or;
use crate::locale::{
    full_date, number_text, spaced, style_label_text, time_text, DisplayFormatter, DisplayStyle,
};
use crate::read::browser::ViewMode;
use crate::read::catalog::{Catalog, ProjectRecord};
use crate::read::detail::{DetailModel, SessionDetail};
use crate::read::session::{SessionSummary, SummaryModel};
use crate::strmap::StrMap;
use crate::text::{opt_str, opt_view, same, single_line, truncate_single_line, views};
use crate::ui::wrap::{display_width, text_width};
use crate::usage::format::{at_least_zero, format_duration, long_duration};
use crate::usage::labels::compact_text;
use crate::usage::snapshot::{
    normalize_project_key, project_key, LocalUsageSnapshot, ProjectActivity,
};
use vstd::prelude::*;

verus! {

/// How a line looks: a text, a heading, or a label and a text, of which one may be bold.
#[derive(Debug, Clone, Copy, PartialEq, Eq, Structural)]
pub enum LineLook {
    Text,
    Heading,
    Field,
    BoldText,
    BoldLabel,
}

/// A line of the history. Label and text stand two spaces apart.
#[derive(Debug)]
pub struct HistoryLine {
    pub look: LineLook,
    pub label: String,
    pub text: String,
}

/// A line as plain values.
pub struct LineModel {
    pub look: LineLook,
    pub label: Seq<char>,
    pub text: Seq<char>,
}

impl View for HistoryLine {
    type V = LineModel;

    open spec fn view(&self) -> LineModel {
        LineModel { look: self.look, label: self.label@, text: self.text@ }
    }
}

/// The lines as plain values.
pub open spec fn line_models(lines: Seq<HistoryLine>) -> Seq<LineModel> {
    lines.map_values(|l: HistoryLine| l@)
}

/// A label and a text.
pub open spec fn field(label: Seq<char>, text: Seq<char>) -> LineModel {
    LineModel { look: LineLook::Field, label, text }
}

/// A text alone.
pub open spec fn plain(text: Seq<char>) -> LineModel {
    LineModel { look: LineLook::Text, label: ""@, text }
}

/// A heading.
pub open spec fn heading(label: Seq<char>) -> LineModel {
    LineModel { look: LineLook::Heading, label, text: ""@ }
}

/// A label and a text, where there is one.
pub open spec fn opt_field(label: Seq<char>, text: Option<Seq<char>>) -> Seq<LineModel> {
    match text {
        Some(t) => seq![field(label, t)],
        None => Seq::empty(),
    }
}

/// A text in a single line, where there is one.
pub open spec fn opt_line(text: Option<Seq<char>>, max: nat) -> Option<Seq<char>> {
    match text {
        Some(t) => Some(single_line(t, max)),
        None => None,
    }
}

/// A count, where there is one.
pub open spec fn opt_count(f: DisplayFormatter, n: Option<i64>) -> Option<Seq<char>> {
    match n {
        Some(n) => Some(number_text(f, at_least_zero(n as int))),
        None => None,
    }
}

/// The text, or two dashes.
pub open spec fn or_dashes(text: Option<Seq<char>>) -> Seq<char> {
    match text {
        Some(t) => t,
        None => "--"@,
    }
}

/// The start of a session in a style. The style of the machine needs a timestamp that can be read.
pub open spec fn started(f: DisplayFormatter, s: SummaryModel, at: Option<Moment>) -> Seq<char> {
    if f.style != DisplayStyle::Classic && s.started_at_raw is Some && rfc3339_ms(
        s.started_at_raw->0,
    ) is Some && at is Some {
        spaced(full_date(f, at->0.date), time_text(f, at->0.time))
    } else {
        s.started_at_label
    }
}

/// The start of a session in a style, where its moment is known.
pub fn started_label_at(
    session: &SessionSummary,
    at: Option<Moment>,
    formatter: DisplayFormatter,
) -> (r: String)
    ensures
        r@ == started(formatter, session@, at),
{
    if formatter.style() != DisplayStyle::Classic {
        if let Some(raw) = &session.started_at_raw {
            if parse_rfc3339_ms(raw.as_str()).is_some() {
                if let Some(m) = at {
                    return formatter.format_session_datetime(m.date, m.time);
                }
            }
        }
    }
    session.started_at_label.as_str().to_owned()
}

/// The moments at which sessions started, as some time zone has them.
pub open spec fn are_moments(sessions: Seq<SessionSummary>, moments: Seq<Option<Moment>>) -> bool {
    moments.len() == sessions.len() && forall|i: int|
        0 <= i < moments.len() ==> stamp_fits(
            opt_view(sessions[i].started_at_raw),
            #[trigger] moments[i],
        )
}

fn moment_of(session: &SessionSummary) -> (r: Option<Moment>)
    ensures
        stamp_fits(session@.started_at_raw, r),
{
    match &session.started_at_raw {
        Some(raw) => stamp_moment(Some(raw.as_str())),
        None => None,
    }
}

fn moments_of(sessions: &Vec<SessionSummary>) -> (r: Vec<Option<Moment>>)
    ensures
        are_moments(sessions@, r@),
{
    let mut out: Vec<Option<Moment>> = Vec::new();
    let mut i: usize = 0;
    while i < sessions.len()
        invariant
            i <= sessions@.len(),
            out@.len() == i,
            forall|k: int|
                0 <= k < i ==> stamp_fits(
                    opt_view(sessions@[k].started_at_raw),
                    #[trigger] out@[k],
                ),
        decreases sessions@.len() - i,
    {
        out.push(moment_of(&sessions[i]));
        i += 1;
    }
    out
}

/// The start of a session in a style, in the machine's time zone. Which zone that is, is left open.
pub fn session_started_label(session: &SessionSummary, formatter: DisplayFormatter) -> (r: String)
    ensures
        exists|at: Option<Moment>|
            stamp_fits(session@.started_at_raw, at) && r@ == #[trigger] started(
                formatter,
                session@,
                at,
            ),
{
    let at = moment_of(session);
    let r = started_label_at(session, at, formatter);
    assert(r@ == started(formatter, session@, at));
    r
}

fn push_line(lines: &mut Vec<HistoryLine>, look: LineLook, label: &str, text: &str)
    ensures
        line_models(final(lines)@) == line_models(old(lines)@).push(
            LineModel { look, label: label@, text: text@ },
        ),
{
    let ghost before = lines@;
    lines.push(HistoryLine { look, label: label.to_owned(), text: text.to_owned() });
    assert(line_models(lines@) =~= line_models(before).push(
        LineModel { look, label: label@, text: text@ },
    ));
}

fn push_opt(lines: &mut Vec<HistoryLine>, label: &str, text: Option<String>)
    ensures
        line_models(final(lines)@) == line_models(old(lines)@) + opt_field(label@, opt_view(text)),
{
    match text {
        Some(t) => {
            push_line(lines, LineLook::Field, label, t.as_str());
            assert(line_models(lines@) =~= line_models(old(lines)@) + opt_field(label@, Some(t@)));
        },
        None => {
            assert(line_models(lines@) =~= line_models(old(lines)@) + opt_field(label@, None));
        },
    }
}

fn cut_opt(text: &Option<String>, max: usize) -> (r: Option<String>)
    ensures
        opt_view(r) == opt_line(opt_view(*text), max as nat),
{
    match text {
        Some(t) => Some(truncate_single_line(t.as_str(), max)),
        None => None,
    }
}

fn count_opt(formatter: DisplayFormatter, n: Option<i64>) -> (r: Option<String>)
    ensures
        opt_view(r) == opt_count(formatter, n),
{
    match n {
        Some(n) => Some(formatter.format_count(n)),
        None => None,
    }
}

fn dashed<'a>(text: &'a Option<String>) -> (r: &'a str)
    ensures
        r@ == or_dashes(opt_view(*text)),
{
    match text {
        Some(t) => t.as_str(),
        None => "--",
    }
}

/// The counts of a session.
pub open spec fn counts_text(f: DisplayFormatter, d: DetailModel) -> Seq<char> {
    "users="@ + number_text(f, d.turns.len()) + " assistant="@ + number_text(
        f,
        d.assistant_messages as nat,
    ) + " calls="@ + number_text(f, d.tool_calls as nat) + " outputs="@ + number_text(
        f,
        d.tool_outputs as nat,
    ) + " images="@ + number_text(f, d.input_images as nat)
}

/// The first turns, each in its line.
pub open spec fn turn_lines(turns: Seq<Seq<char>>) -> Seq<LineModel> {
    if turns.len() == 0 {
        seq![plain("--"@)]
    } else {
        turns.take(
            if turns.len() < 16 {
                turns.len() as int
            } else {
                16
            },
        ).map_values(|t: Seq<char>| plain("- "@ + t))
    }
}

/// The lines on what a session file says.
pub open spec fn content_lines(f: DisplayFormatter, d: DetailModel) -> Seq<LineModel> {
    seq![
        plain(""@),
        LineModel { look: LineLook::BoldLabel, label: "COUNTS"@, text: counts_text(f, d) },
    ] + opt_field("TOKENS"@, opt_count(f, d.total_tokens)) + opt_field(
        "INPUT"@,
        opt_count(f, d.input_tokens),
    ) + opt_field("OUTPUT"@, opt_count(f, d.output_tokens)) + opt_field(
        "REASONING"@,
        if d.reasoning_encrypted {
            Some("encrypted"@)
        } else {
            None
        },
    ) + seq![plain(""@), heading("USER TURNS"@)] + turn_lines(
        if d.meaningful.len() == 0 {
            d.turns
        } else {
            d.meaningful
        },
    )
}

/// What a session file says, where it has been read.
pub open spec fn opt_detail(detail: Option<&SessionDetail>) -> Option<DetailModel> {
    match detail {
        Some(d) => Some(d@),
        None => None,
    }
}

/// The lines on a session.
pub open spec fn session_lines(
    f: DisplayFormatter,
    s: SummaryModel,
    at: Option<Moment>,
    detail: Option<DetailModel>,
) -> Seq<LineModel> {
    seq![
        LineModel { look: LineLook::BoldText, label: "TITLE"@, text: s.title },
        field("STARTED"@, started(f, s, at)),
        field("SESSION"@, s.session_id),
        field("PATH"@, single_line(s.file_path, 96)),
        field("MODEL"@, or_dashes(or(s.model, s.model_provider))),
        field("BRANCH"@, or_dashes(s.git_branch)),
    ] + opt_field("COMMIT"@, opt_line(s.git_commit, 24)) + opt_field(
        "REMOTE"@,
        opt_line(s.repo_url, 72),
    ) + opt_field("TIMESTAMP"@, s.started_at_raw) + match detail {
        Some(d) => content_lines(f, d),
        None => Seq::empty(),
    }
}

fn counts_of(detail: &SessionDetail, formatter: DisplayFormatter) -> (r: String)
    ensures
        r@ == counts_text(formatter, detail@),
{
    let mut text = "users=".to_owned();
    text.append(formatter.format_usize(detail.all_user_turns.len()).as_str());
    text.append(" assistant=");
    text.append(formatter.format_usize(detail.assistant_messages).as_str());
    text.append(" calls=");
    text.append(formatter.format_usize(detail.tool_calls).as_str());
    text.append(" outputs=");
    text.append(formatter.format_usize(detail.tool_outputs).as_str());
    text.append(" images=");
    text.append(formatter.format_usize(detail.input_images).as_str());
    text
}

fn push_turns(lines: &mut Vec<HistoryLine>, turns: &Vec<String>)
    ensures
        line_models(final(lines)@) == line_models(old(lines)@) + turn_lines(views(turns@)),
{
    let ghost before = line_models(lines@);
    let ghost want = turn_lines(views(turns@));
    if turns.len() == 0 {
        push_line(lines, LineLook::Text, "", "--");
        assert(line_models(lines@) =~= before + want);
        return ;
    }
    let mut i: usize = 0;
    assert(before + want.take(0) =~= before);
    while i < turns.len() && i < 16
        invariant
            i <= turns@.len(),
            i <= 16,
            turns@.len() > 0,
            want == turn_lines(views(turns@)),
            line_models(lines@) == before + want.take(i as int),
        decreases turns@.len() - i,
    {
        let mut text = "- ".to_owned();
        text.append(turns[i].as_str());
        push_line(lines, LineLook::Text, "", text.as_str());
        assert(want[i as int] == plain("- "@ + turns@[i as int]@));
        assert((before + want.take(i as int)).push(want[i as int]) =~= before + want.take(i + 1));
        i += 1;
    }
    assert(want.take(i as int) =~= want);
}

#[verifier::spinoff_prover]
#[verifier::rlimit(40)]
fn push_content(lines: &mut Vec<HistoryLine>, detail: &SessionDetail, formatter: DisplayFormatter)
    ensures
        line_models(final(lines)@) == line_models(old(lines)@) + content_lines(formatter, detail@),
{
    let ghost before = line_models(lines@);
    let ghost d = detail@;
    push_line(lines, LineLook::Text, "", "");
    push_line(lines, LineLook::BoldLabel, "COUNTS", counts_of(detail, formatter).as_str());
    push_opt(lines, "TOKENS", count_opt(formatter, detail.total_tokens));
    push_opt(lines, "INPUT", count_opt(formatter, detail.input_tokens));
    push_opt(lines, "OUTPUT", count_opt(formatter, detail.output_tokens));
    let reasoning = if detail.reasoning_encrypted {
        Some("encrypted".to_owned())
    } else {
        None
    };
    push_opt(lines, "REASONING", reasoning);
    push_line(lines, LineLook::Text, "", "");
    push_line(lines, LineLook::Heading, "USER TURNS", "");
    if detail.meaningful_user_turns.len() == 0 {
        push_turns(lines, &detail.all_user_turns);
    } else {
        push_turns(lines, &detail.meaningful_user_turns);
    }
    assert(line_models(lines@) =~= before + content_lines(formatter, d));
}

/// The lines on a session, where the moment of its start is known.
pub fn session_detail_lines(
    session: &SessionSummary,
    at: Option<Moment>,
    detail: Option<&SessionDetail>,
    formatter: DisplayFormatter,
) -> (r: Vec<HistoryLine>)
    ensures
        line_models(r@) == session_lines(
            formatter,
            session@,
            at,
            opt_detail(detail),
        ),
{
    let ghost s = session@;
    let mut lines: Vec<HistoryLine> = Vec::new();
    assert(line_models(lines@) =~= Seq::<LineModel>::empty());
    push_line(&mut lines, LineLook::BoldText, "TITLE", session.title.as_str());
    push_line(
        &mut lines,
        LineLook::Field,
        "STARTED",
        started_label_at(session, at, formatter).as_str(),
    );
    push_line(&mut lines, LineLook::Field, "SESSION", session.session_id.as_str());
    push_line(
        &mut lines,
        LineLook::Field,
        "PATH",
        truncate_single_line(session.file_path.as_str(), 96).as_str(),
    );
    let model = if session.model.is_some() {
        dashed(&session.model)
    } else {
        dashed(&session.model_provider)
    };
    push_line(&mut lines, LineLook::Field, "MODEL", model);
    push_line(&mut lines, LineLook::Field, "BRANCH", dashed(&session.git_branch));
    push_opt(&mut lines, "COMMIT", cut_opt(&session.git_commit, 24));
    push_opt(&mut lines, "REMOTE", cut_opt(&session.repo_url, 72));
    let raw = match &session.started_at_raw {
        Some(raw) => Some(raw.as_str().to_owned()),
        None => None,
    };
    push_opt(&mut lines, "TIMESTAMP", raw);
    match detail {
        Some(d) => {
            push_content(&mut lines, d, formatter);
            assert(line_models(lines@) =~= session_lines(formatter, s, at, Some(d@)));
        },
        None => {
            assert(line_models(lines@) =~= session_lines(formatter, s, at, None));
        },
    }
    lines
}

/// The lines on the session that is selected, with its start in the machine's time zone. Which zone
/// that is, is left open.
pub fn render_session_detail(
    session: Option<&SessionSummary>,
    detail: Option<&SessionDetail>,
    formatter: DisplayFormatter,
) -> (r: Vec<HistoryLine>)
    ensures
        match session {
            Some(s) => exists|at: Option<Moment>|
                stamp_fits(s@.started_at_raw, at) && line_models(r@) == #[trigger] session_lines(
                    formatter,
                    s@,
                    at,
                    opt_detail(detail),
                ),
            None => line_models(r@) == seq![plain("No sessions in this project."@)],
        },
{
    match session {
        Some(s) => {
            let at = moment_of(s);
            let lines = session_detail_lines(s, at, detail, formatter);
            assert(line_models(lines@) == session_lines(formatter, s@, at, opt_detail(detail)));
            lines
        },
        None => {
            let mut lines: Vec<HistoryLine> = Vec::new();
            push_line(&mut lines, LineLook::Text, "", "No sessions in this project.");
            assert(line_models(lines@) =~= seq![plain("No sessions in this project."@)]);
            lines
        },
    }
}

/// What the usage says of a project.
#[derive(Debug, Clone, Copy, PartialEq, Eq, Structural)]
pub struct ProjectUsage {
    pub indexed_files: usize,
    pub total_tokens: i64,
    pub cached_input_tokens: i64,
    pub agent_runs: i64,
    pub agent_time_ms: i64,
}

/// The first project that has a key.
pub open spec fn activity_of(projects: Seq<ProjectActivity>, key: Seq<char>) -> Option<
    ProjectActivity,
>
    decreases projects.len(),
{
    if projects.len() == 0 {
        None
    } else if project_key(projects[0].display_path@) == key {
        Some(projects[0])
    } else {
        activity_of(projects.skip(1), key)
    }
}

/// What the usage says of a project: its activity, and how many of its sessions were read to their
/// ends; none where it has no activity.
pub open spec fn usage_of(
    projects: Seq<ProjectActivity>,
    indexed: Map<Seq<char>, usize>,
    path: Seq<char>,
) -> Option<ProjectUsage> {
    let key = project_key(path);
    match activity_of(projects, key) {
        Some(a) => Some(
            ProjectUsage {
                indexed_files: if indexed.dom().contains(key) {
                    indexed[key]
                } else {
                    0
                },
                total_tokens: a.total_tokens,
                cached_input_tokens: a.cached_input_tokens,
                agent_runs: a.agent_runs,
                agent_time_ms: a.agent_time_ms,
            },
        ),
        None => None,
    }
}

/// What the usage says of a project.
pub fn project_usage_for_path(
    snapshot: &LocalUsageSnapshot,
    indexed: &StrMap<usize>,
    path: &str,
) -> (r: Option<ProjectUsage>)
    requires
        indexed.wf(),
    ensures
        r == usage_of(snapshot.project_activity@, indexed@, path@),
{
    let key = normalize_project_key(path);
    let projects = &snapshot.project_activity;
    let mut i: usize = 0;
    assert(projects@.skip(0) =~= projects@);
    while i < projects.len()
        invariant
            indexed.wf(),
            projects@ == snapshot.project_activity@,
            key@ == project_key(path@),
            i <= projects@.len(),
            activity_of(projects@.skip(i as int), key@) == activity_of(projects@, key@),
        decreases projects@.len() - i,
    {
        let activity = &projects[i];
        assert(projects@.skip(i as int)[0] == projects@[i as int]);
        assert(projects@.skip(i as int).skip(1) =~= projects@.skip(i + 1));
        if same(normalize_project_key(activity.display_path.as_str()).as_str(), key.as_str()) {
            return Some(
                ProjectUsage {
                    indexed_files: match indexed.get(key.as_str()) {
                        Some(n) => *n,
                        None => 0,
                    },
                    total_tokens: activity.total_tokens,
                    cached_input_tokens: activity.cached_input_tokens,
                    agent_runs: activity.agent_runs,
                    agent_time_ms: activity.agent_time_ms,
                },
            );
        }
        i += 1;
    }
    None
}

/// How far the usage of a project is known.
#[derive(Debug, Clone, Copy, PartialEq, Eq, Structural)]
pub struct UsageStatus {
    pub usage: Option<ProjectUsage>,
    pub failed: bool,
    pub scan_complete: bool,
}

/// The usage covers every session of the project.
pub open spec fn usage_ready(u: UsageStatus, sessions: nat) -> bool {
    !u.failed && u.usage is Some && u.usage->0.indexed_files >= sessions
}

/// The state of the scan of a project.
pub open spec fn scan_text(f: DisplayFormatter, u: UsageStatus, sessions: nat) -> Seq<char> {
    if u.failed {
        "ERROR"@
    } else if usage_ready(u, sessions) {
        "READY"@
    } else if u.scan_complete {
        "NO DATA"@
    } else {
        let indexed: nat = match u.usage {
            Some(p) => p.indexed_files as nat,
            None => 0,
        };
        "SCANNING "@ + number_text(f, indexed) + "/"@ + number_text(f, sessions)
    }
}

/// A count of tokens.
pub open spec fn project_count(f: DisplayFormatter, value: int) -> Seq<char> {
    if f.style == DisplayStyle::SystemCompact {
        compact_text(f, at_least_zero(value), 16)
    } else {
        number_text(f, at_least_zero(value))
    }
}

/// The number, within the range of 64-bit integers.
pub open spec fn sat64(n: int) -> int {
    if n > i64::MAX {
        i64::MAX as int
    } else if n < i64::MIN {
        i64::MIN as int
    } else {
        n
    }
}

/// The tokens of a project, all and without those from the cache.
pub open spec fn consumed_text(f: DisplayFormatter, u: UsageStatus, sessions: nat) -> Seq<char> {
    if usage_ready(u, sessions) {
        let p = u.usage->0;
        project_count(f, p.total_tokens as int) + " total / "@ + project_count(
            f,
            sat64(p.total_tokens - p.cached_input_tokens),
        ) + " non-cached"@
    } else {
        "--"@
    }
}

/// The runs of a project and the time that they took.
pub open spec fn activity_text(f: DisplayFormatter, u: UsageStatus, sessions: nat) -> Seq<char> {
    if usage_ready(u, sessions) {
        number_text(f, at_least_zero(u.usage->0.agent_runs as int)) + " runs / "@ + long_duration(
            u.usage->0.agent_time_ms as int,
        )
    } else {
        "--"@
    }
}

/// A session in one line.
pub open spec fn session_row(
    f: DisplayFormatter,
    s: SummaryModel,
    at: Option<Moment>,
    title_width: nat,
) -> Seq<char> {
    started(f, s, at) + "  "@ + single_line(s.title, title_width)
}

/// The first sessions of a project, each in its line.
pub open spec fn session_rows(
    f: DisplayFormatter,
    sessions: Seq<SessionSummary>,
    moments: Seq<Option<Moment>>,
    title_width: nat,
    count: int,
) -> Seq<Seq<char>> {
    Seq::new(
        count as nat,
        |i: int| session_row(f, sessions[i]@, moments[i], title_width),
    )
}

/// The lines on a project.
pub open spec fn project_lines(
    f: DisplayFormatter,
    p: ProjectRecord,
    moments: Seq<Option<Moment>>,
    u: UsageStatus,
) -> Seq<LineModel> {
    let sessions = p.sessions@.len();
    seq![
        LineModel { look: LineLook::BoldText, label: "PATH"@, text: p.display_path@ },
        field("SESSIONS"@, number_text(f, sessions)),
        field(
            "LATEST"@,
            if sessions > 0 {
                started(f, p.sessions@[0]@, moments[0])
            } else {
                "--"@
            },
        ),
        plain(""@),
        LineModel {
            look: LineLook::BoldText,
            label: "CURRENT_CONSUMED_TOKENS"@,
            text: consumed_text(f, u, sessions),
        },
        field("PROJECT_SCAN"@, scan_text(f, u, sessions)),
        field("ACTIVITY"@, activity_text(f, u, sessions)),
        plain(""@),
        heading("RECENT"@),
    ] + session_rows(
        f,
        p.sessions@,
        moments,
        72,
        if sessions < 10 {
            sessions as int
        } else {
            10
        },
    ).map_values(|t: Seq<char>| plain(t))
}

fn format_project_count(value: i64, formatter: DisplayFormatter) -> (r: String)
    ensures
        r@ == project_count(formatter, value as int),
{
    if formatter.style() == DisplayStyle::SystemCompact {
        let n: u64 = if value < 0 {
            0
        } else {
            value as u64
        };
        formatter.compact_kmb(n, 16)
    } else {
        formatter.format_count(value)
    }
}

fn is_ready(u: UsageStatus, sessions: usize) -> (r: bool)
    ensures
        r == usage_ready(u, sessions as nat),
{
    match u.usage {
        Some(p) => !u.failed && p.indexed_files >= sessions,
        None => false,
    }
}

fn scan_label(u: UsageStatus, sessions: usize, formatter: DisplayFormatter) -> (r: String)
    ensures
        r@ == scan_text(formatter, u, sessions as nat),
{
    if u.failed {
        return "ERROR".to_owned();
    }
    if is_ready(u, sessions) {
        return "READY".to_owned();
    }
    if u.scan_complete {
        return "NO DATA".to_owned();
    }
    let indexed: usize = match u.usage {
        Some(p) => p.indexed_files,
        None => 0,
    };
    let mut text = "SCANNING ".to_owned();
    text.append(formatter.format_usize(indexed).as_str());
    text.append("/");
    text.append(formatter.format_usize(sessions).as_str());
    text
}

fn consumed_label(u: UsageStatus, sessions: usize, formatter: DisplayFormatter) -> (r: String)
    ensures
        r@ == consumed_text(formatter, u, sessions as nat),
{
    if is_ready(u, sessions) {
        if let Some(p) = u.usage {
            let rest: i128 = p.total_tokens as i128 - p.cached_input_tokens as i128;
            let non_cached: i64 = if rest > i64::MAX as i128 {
                i64::MAX
            } else if rest < i64::MIN as i128 {
                i64::MIN
            } else {
                rest as i64
            };
            let mut text = format_project_count(p.total_tokens, formatter);
            text.append(" total / ");
            text.append(format_project_count(non_cached, formatter).as_str());
            text.append(" non-cached");
            return text;
        }
    }
    "--".to_owned()
}

fn activity_label(u: UsageStatus, sessions: usize, formatter: DisplayFormatter) -> (r: String)
    ensures
        r@ == activity_text(formatter, u, sessions as nat),
{
    if is_ready(u, sessions) {
        if let Some(p) = u.usage {
            let mut text = formatter.format_count(p.agent_runs);
            text.append(" runs / ");
            text.append(format_duration(p.agent_time_ms).as_str());
            return text;
        }
    }
    "--".to_owned()
}

fn row_of(
    session: &SessionSummary,
    at: Option<Moment>,
    title_width: usize,
    formatter: DisplayFormatter,
) -> (r: String)
    ensures
        r@ == session_row(formatter, session@, at, title_width as nat),
{
    let mut text = started_label_at(session, at, formatter);
    text.append("  ");
    text.append(truncate_single_line(session.title.as_str(), title_width).as_str());
    text
}

/// The lines on a project, where the moments at which its sessions started are known.
pub fn project_detail_lines(
    project: &ProjectRecord,
    moments: &Vec<Option<Moment>>,
    usage: UsageStatus,
    formatter: DisplayFormatter,
) -> (r: Vec<HistoryLine>)
    requires
        moments@.len() == project.sessions@.len(),
    ensures
        line_models(r@) == project_lines(formatter, *project, moments@, usage),
{
    let total: usize = project.sessions.len();
    let latest = if total > 0 {
        started_label_at(&project.sessions[0], moments[0], formatter)
    } else {
        "--".to_owned()
    };
    let mut lines: Vec<HistoryLine> = Vec::new();
    assert(line_models(lines@) =~= Seq::<LineModel>::empty());
    push_line(&mut lines, LineLook::BoldText, "PATH", project.display_path.as_str());
    push_line(&mut lines, LineLook::Field, "SESSIONS", formatter.format_usize(total).as_str());
    push_line(&mut lines, LineLook::Field, "LATEST", latest.as_str());
    push_line(&mut lines, LineLook::Text, "", "");
    push_line(
        &mut lines,
        LineLook::BoldText,
        "CURRENT_CONSUMED_TOKENS",
        consumed_label(usage, total, formatter).as_str(),
    );
    push_line(
        &mut lines,
        LineLook::Field,
        "PROJECT_SCAN",
        scan_label(usage, total, formatter).as_str(),
    );
    push_line(
        &mut lines,
        LineLook::Field,
        "ACTIVITY",
        activity_label(usage, total, formatter).as_str(),
    );
    push_line(&mut lines, LineLook::Text, "", "");
    push_line(&mut lines, LineLook::Heading, "RECENT", "");
    let ghost want = project_lines(formatter, *project, moments@, usage);
    let ghost head = line_models(lines@);
    assert(head =~= want.take(9));
    let count: usize = if total < 10 {
        total
    } else {
        10
    };
    let mut i: usize = 0;
    while i < count
        invariant
            i <= count <= total,
            total == project.sessions@.len(),
            total == moments@.len(),
            want == project_lines(formatter, *project, moments@, usage),
            want.len() == 9 + count,
            count == if total < 10 {
                total
            } else {
                10
            },
            line_models(lines@) == want.take(9 + i),
        decreases count - i,
    {
        let text = row_of(&project.sessions[i], moments[i], 72, formatter);
        push_line(&mut lines, LineLook::Text, "", text.as_str());
        assert(want[9 + i] == plain(
            session_row(formatter, project.sessions@[i as int]@, moments@[i as int], 72),
        ));
        assert(want.take(9 + i).push(want[9 + i]) =~= want.take(9 + i + 1));
        i += 1;
    }
    assert(want.take(9 + i) =~= want);
    lines
}

/// The lines on the project that is selected, with the starts of its sessions in the machine's time
/// zone. Which zone that is, is left open.
pub fn render_project_detail(
    project: Option<&ProjectRecord>,
    usage: UsageStatus,
    formatter: DisplayFormatter,
) -> (r: Vec<HistoryLine>)
    ensures
        match project {
            Some(p) => exists|moments: Seq<Option<Moment>>|
                are_moments(p.sessions@, moments) && line_models(r@)
                    == #[trigger] project_lines(formatter, *p, moments, usage),
            None => line_models(r@) == seq![plain("No projects found."@)],
        },
{
    match project {
        Some(p) => {
            let moments = moments_of(&p.sessions);
            let lines = project_detail_lines(p, &moments, usage, formatter);
            assert(line_models(lines@) == project_lines(formatter, *p, moments@, usage));
            lines
        },
        None => {
            let mut lines: Vec<HistoryLine> = Vec::new();
            push_line(&mut lines, LineLook::Text, "", "No projects found.");
            assert(line_models(lines@) =~= seq![plain("No projects found."@)]);
            lines
        },
    }
}

/// The rows of the list of sessions: one that leads back and one for each session.
pub open spec fn list_rows(
    f: DisplayFormatter,
    sessions: Seq<SessionSummary>,
    moments: Seq<Option<Moment>>,
) -> Seq<Seq<char>> {
    seq![".."@] + session_rows(f, sessions, moments, 64, sessions.len() as int)
}

/// The rows of the list of sessions, where the moments at which they started are known.
pub fn session_list_at(
    sessions: &Vec<SessionSummary>,
    moments: &Vec<Option<Moment>>,
    formatter: DisplayFormatter,
) -> (r: Vec<String>)
    requires
        moments@.len() == sessions@.len(),
    ensures
        views(r@) == list_rows(formatter, sessions@, moments@),
{
    let ghost want = list_rows(formatter, sessions@, moments@);
    let mut rows: Vec<String> = Vec::new();
    rows.push("..".to_owned());
    assert(views(rows@) =~= want.take(1));
    let mut i: usize = 0;
    while i < sessions.len()
        invariant
            i <= sessions@.len(),
            moments@.len() == sessions@.len(),
            want == list_rows(formatter, sessions@, moments@),
            views(rows@) == want.take(1 + i),
        decreases sessions@.len() - i,
    {
        let ghost before = rows@;
        let row = row_of(&sessions[i], moments[i], 64, formatter);
        rows.push(row);
        assert(want[1 + i] == row@);
        assert(views(rows@) =~= views(before).push(row@));
        assert(want.take(1 + i).push(want[1 + i]) =~= want.take(1 + i + 1));
        i += 1;
    }
    assert(want.take(1 + i) =~= want);
    rows
}

/// The rows of the list of sessions of the project that is selected, with their starts in the
/// machine's time zone. Which zone that is, is left open.
pub fn session_list(project: Option<&ProjectRecord>, formatter: DisplayFormatter) -> (r: Vec<String>)
    ensures
        match project {
            Some(p) => exists|moments: Seq<Option<Moment>>|
                are_moments(p.sessions@, moments) && views(r@)
                    == #[trigger] list_rows(formatter, p.sessions@, moments),
            None => r@.len() == 0,
        },
{
    match project {
        Some(p) => {
            let moments = moments_of(&p.sessions);
            let rows = session_list_at(&p.sessions, &moments, formatter);
            assert(views(rows@) == list_rows(formatter, p.sessions@, moments@));
            rows
        },
        None => Vec::new(),
    }
}

/// The line of the header within its area.
pub open spec fn header_line(area: Rect) -> Rect {
    Rect {
        x: area.x,
        y: if area.height >= 2 {
            sat16(area.y + 1) as u16
        } else {
            area.y
        },
        width: area.width,
        height: if area.height >= 1 {
            1
        } else {
            0
        },
    }
}

/// The line of the header within its area.
pub fn header_line_area(area: Rect) -> (r: Rect)
    ensures
        r == header_line(area),
{
    Rect {
        x: area.x,
        y: if area.height >= 2 {
            area.y.saturating_add(1)
        } else {
            area.y
        },
        width: area.width,
        height: if area.height >= 1 {
            1
        } else {
            0
        },
    }
}

/// The controls of the style take this many cells.
pub const STYLE_CONTROLS_WIDTH: u16 = 30;

/// The controls of the style stand at the right of the header line, where there is room.
pub open spec fn style_controls(area: Rect) -> Rect {
    let line = header_line(area);
    if line.width < STYLE_CONTROLS_WIDTH {
        Rect { x: 0, y: 0, width: 0, height: 0 }
    } else {
        Rect {
            x: sat16(line.x + (line.width - STYLE_CONTROLS_WIDTH)) as u16,
            y: line.y,
            width: STYLE_CONTROLS_WIDTH,
            height: 1,
        }
    }
}

/// The controls of the style stand at the right of the header line, where there is room.
pub fn history_style_controls_area(area: Rect) -> (r: Rect)
    ensures
        r == style_controls(area),
{
    let line = header_line_area(area);
    if line.width < STYLE_CONTROLS_WIDTH {
        return Rect { x: 0, y: 0, width: 0, height: 0 };
    }
    Rect {
        x: line.x.saturating_add(line.width - STYLE_CONTROLS_WIDTH),
        y: line.y,
        width: STYLE_CONTROLS_WIDTH,
        height: 1,
    }
}

/// The header of the history: its directory, and the numbers with their width where there is room.
#[derive(Debug)]
pub struct HistoryHeader {
    pub area: Rect,
    pub scope: String,
    pub summary: Option<String>,
    pub summary_width: u16,
}

/// The numbers of the history.
pub open spec fn summary_text(f: DisplayFormatter, c: Catalog) -> Seq<char> {
    number_text(f, c.projects@.len()) + " projects  "@ + number_text(f, c.files_scanned as nat)
        + " files  "@ + number_text(f, c.files_skipped as nat) + " skipped"@
}

/// What the header has room for: the header line but for the controls of the style.
pub open spec fn header_content(area: Rect) -> Rect {
    let line = header_line(area);
    Rect { width: (line.width - style_controls(area).width) as u16, ..line }
}

/// The header of the history.
pub fn history_header(catalog: &Catalog, area: Rect, formatter: DisplayFormatter) -> (r: HistoryHeader)
    ensures
        r.area == header_content(area),
        r.scope@ == "SESSION_HISTORY "@ + single_line(catalog.sessions_dir@, 64),
        r.summary_width == sat16(display_width(summary_text(formatter, *catalog)) as int),
        opt_view(r.summary) == if header_content(area).width >= sat16(32 + r.summary_width) {
            Some(summary_text(formatter, *catalog))
        } else {
            None
        },
{
    let line = header_line_area(area);
    let controls = history_style_controls_area(area);
    let content = Rect { width: line.width - controls.width, ..line };
    let mut summary = formatter.format_usize(catalog.projects.len());
    summary.append(" projects  ");
    summary.append(formatter.format_usize(catalog.files_scanned).as_str());
    summary.append(" files  ");
    summary.append(formatter.format_usize(catalog.files_skipped).as_str());
    summary.append(" skipped");
    let width: usize = text_width(summary.as_str());
    let summary_width: u16 = if width > u16::MAX as usize {
        u16::MAX
    } else {
        width as u16
    };
    let shown = content.width >= summary_width.saturating_add(32);
    let mut scope = "SESSION_HISTORY ".to_owned();
    scope.append(truncate_single_line(catalog.sessions_dir.as_str(), 64).as_str());
    HistoryHeader {
        area: content,
        scope,
        summary: if shown {
            Some(summary)
        } else {
            None
        },
        summary_width,
    }
}

/// The hint of the footer.
pub open spec fn hint_text(view: ViewMode) -> Seq<char> {
    match view {
        ViewMode::Projects =>
            "Projects: up/down or wheel, double-click/enter open, s/F2 switch, r/F5 rescan, q quit"@,
        ViewMode::Sessions =>
            "Sessions: up/down or wheel, double-click .. / backspace / left / esc back, q quit"@,
    }
}

/// The footer of the history: a hint, the style, and an error where there is one.
#[derive(Debug)]
pub struct HistoryFooter {
    pub hint: &'static str,
    pub style: String,
    pub error: Option<String>,
}

/// The footer of the history. An error that is blank is not shown.
pub fn history_footer(
    view: ViewMode,
    error: Option<&str>,
    formatter: DisplayFormatter,
) -> (r: HistoryFooter)
    ensures
        r.hint@ == hint_text(view),
        r.style@ == "style [n]: "@ + style_label_text(formatter),
        opt_view(r.error) == match opt_str(error) {
            Some(e) => if single_line(e, 100).len() > 0 {
                Some(single_line(e, 100))
            } else {
                None
            },
            None => None,
        },
{
    let hint = match view {
        ViewMode::Projects =>
            "Projects: up/down or wheel, double-click/enter open, s/F2 switch, r/F5 rescan, q quit",
        ViewMode::Sessions =>
            "Sessions: up/down or wheel, double-click .. / backspace / left / esc back, q quit",
    };
    let mut style = "style [n]: ".to_owned();
    style.append(formatter.style_label().as_str());
    let error = match error {
        Some(e) => {
            let text = truncate_single_line(e, 100);
            if text.as_str().is_empty() {
                None
            } else {
                Some(text)
            }
        },
        None => None,
    };
    HistoryFooter { hint, style, error }
}

} // verus!
