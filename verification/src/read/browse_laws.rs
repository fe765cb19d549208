//! How the session history is browsed and what its pages say.

use crate::app::input::{Event, KeyCode, KeyInput, MouseInput, MouseKind};
use crate::app::state::{inside, Rect};
use crate::clock::{rfc3339_ms, Moment};
use crate::locale::{
    clock_time, full_date, iso_date, number_text, spaced, time_text, DisplayFormatter,
    DisplayStyle,
};
use crate::read::browser::{
    event_step, item_at, project_click, rows, session_at, session_click, synced, Effect, Place, ViewMode, DOUBLE_CLICK_WINDOW,
};
use crate::read::catalog::{Catalog, ProjectRecord};
use crate::read::detail::DetailModel;
use crate::read::session::{start_label, SummaryModel};
use crate::read::view::{
    activity_of, activity_text, consumed_text, counts_text, field, list_rows, opt_field,
    project_count, project_lines, scan_text, session_lines, started, turn_lines, usage_of,
    header_content, header_line, style_controls, LineLook, LineModel, ProjectUsage, UsageStatus,
    STYLE_CONTROLS_WIDTH,
};
use crate::text::single_line;
use crate::ui::limit_laws::{closes_with, opens_with};
use crate::usage::format::{at_least_zero, long_duration};
use crate::usage::snapshot::{project_key, ProjectActivity};
use vstd::prelude::*;

verus! {

/// A key is pressed.
pub open spec fn key(code: KeyCode) -> Event {
    Event::Key(KeyInput { code, control: false, press: true })
}

/// Up and down select the row above and the row below, as far as the list goes; Home and End the
/// first and the last one. On the list of projects the project moves, on the list of sessions the
/// session does and its project stays.
pub proof fn arrows_move_the_selection(p: Place, sizes: Seq<usize>, i: usize, now: u64)
    requires
        sizes.len() <= isize::MAX,
        i <= isize::MAX,
    ensures
        p.view == ViewMode::Projects && p.project == Some(i) && i < sizes.len() ==> {
            &&& i + 1 < sizes.len() ==> event_step(p, sizes, key(KeyCode::Down), now).place.project
                == Some((i + 1) as usize)
            &&& i + 1 == sizes.len() ==> event_step(
                p,
                sizes,
                key(KeyCode::Down),
                now,
            ).place.project == Some(i)
            &&& i > 0 ==> event_step(p, sizes, key(KeyCode::Up), now).place.project == Some(
                (i - 1) as usize,
            )
            &&& i == 0 ==> event_step(p, sizes, key(KeyCode::Up), now).place.project == Some(i)
            &&& event_step(p, sizes, key(KeyCode::Home), now).place.project == Some(0usize)
            &&& event_step(p, sizes, key(KeyCode::End), now).place.project == Some(
                (sizes.len() - 1) as usize,
            )
            &&& event_step(p, sizes, key(KeyCode::Down), now).place.view == ViewMode::Projects
        },
        p.view == ViewMode::Sessions && p.session == Some(i) && i < rows(p, sizes) ==> {
            &&& i + 1 < rows(p, sizes) ==> event_step(
                p,
                sizes,
                key(KeyCode::Down),
                now,
            ).place.session == Some((i + 1) as usize)
            &&& i + 1 == rows(p, sizes) ==> event_step(
                p,
                sizes,
                key(KeyCode::Down),
                now,
            ).place.session == Some(i)
            &&& i > 0 ==> event_step(p, sizes, key(KeyCode::Up), now).place.session == Some(
                (i - 1) as usize,
            )
            &&& event_step(p, sizes, key(KeyCode::Home), now).place.session == Some(0usize)
            &&& event_step(p, sizes, key(KeyCode::Down), now).place.project == p.project
            &&& event_step(p, sizes, key(KeyCode::Down), now).effect == Effect::Load
        },
{
}

/// The keys `j` and `k` do what Down and Up do, and so does the wheel.
pub proof fn other_ways_to_move(p: Place, sizes: Seq<usize>, m: MouseInput, now: u64)
    ensures
        event_step(p, sizes, key(KeyCode::Char('j')), now) == event_step(
            p,
            sizes,
            key(KeyCode::Down),
            now,
        ),
        event_step(p, sizes, key(KeyCode::Char('k')), now) == event_step(
            p,
            sizes,
            key(KeyCode::Up),
            now,
        ),
        m.kind == MouseKind::ScrollDown ==> event_step(p, sizes, Event::Mouse(m), now)
            == event_step(p, sizes, key(KeyCode::Down), now),
        m.kind == MouseKind::ScrollUp ==> event_step(p, sizes, Event::Mouse(m), now) == event_step(
            p,
            sizes,
            key(KeyCode::Up),
            now,
        ),
{
}

/// Enter opens the project that is selected at its newest session, whose detail is loaded; Escape
/// leads back to that project. On the first row of the sessions Enter leads back too.
pub proof fn enter_opens_and_escape_closes(p: Place, sizes: Seq<usize>, i: usize, now: u64)
    requires
        p.view == ViewMode::Projects,
        p.project == Some(i),
        i < sizes.len(),
    ensures
        ({
            let opened = event_step(p, sizes, key(KeyCode::Enter), now);
            let back = event_step(opened.place, sizes, key(KeyCode::Esc), now);
            &&& opened.place.view == ViewMode::Sessions
            &&& opened.place.project == Some(i)
            &&& sizes[i as int] > 0 ==> opened.place.session == Some(1usize)
            &&& sizes[i as int] == 0 ==> opened.place.session == Some(0usize)
            &&& opened.effect == Effect::Load
            &&& back.place.view == ViewMode::Projects
            &&& back.place.project == Some(i)
            &&& back.effect == Effect::Forget
            &&& opened == event_step(p, sizes, key(KeyCode::Right), now)
            &&& back == event_step(opened.place, sizes, key(KeyCode::Backspace), now)
            &&& sizes[i as int] == 0 ==> event_step(
                opened.place,
                sizes,
                key(KeyCode::Enter),
                now,
            ).place.view == ViewMode::Projects
        }),
{
}

/// The rows of the sessions are the way back and then the sessions of the project in their order.
pub proof fn rows_are_the_sessions(c: Catalog, p: Place, i: int, k: int)
    requires
        0 <= i < c.projects@.len() <= usize::MAX,
        p.project == Some(i as usize),
        0 <= k < c.projects@[i].sessions@.len() < usize::MAX,
    ensures
        session_at(c, Place { session: Some((k + 1) as usize), ..p }) == Some(
            c.projects@[i].sessions@[k],
        ),
        session_at(c, Place { session: Some(0usize), ..p }) is None,
{
}

/// A click on a list takes the item that stands there: the first row inside the border shows the
/// first item that is visible.
pub proof fn clicks_take_the_item_under_the_mouse(area: Rect, offset: usize, len: int, row: u16)
    requires
        area.y + area.height <= u16::MAX,
        area.y < row < area.y + area.height - 1,
        len <= usize::MAX,
    ensures
        offset + (row - area.y - 1) < len ==> item_at(area, offset, len, row) == Some(
            (offset + (row - area.y - 1)) as usize,
        ),
        offset + (row - area.y - 1) >= len ==> item_at(area, offset, len, row) is None,
        item_at(area, offset, len, area.y) is None,
{
}

/// A click on a project selects it, one on a session selects that, and what is not clicked stays.
pub proof fn clicks_select_what_they_hit(
    p: Place,
    sizes: Seq<usize>,
    m: MouseInput,
    now: u64,
    index: usize,
)
    requires
        m.kind == MouseKind::LeftDown,
        p.last_click is None,
    ensures
        inside(p.layout.project_list_area, m.column, m.row) && item_at(
            p.layout.project_list_area,
            p.project_offset,
            sizes.len() as int,
            m.row,
        ) == Some(index) ==> event_step(p, sizes, Event::Mouse(m), now).place.project == Some(index)
            && event_step(p, sizes, Event::Mouse(m), now).place.view == p.view,
        !inside(p.layout.project_list_area, m.column, m.row) && inside(
            p.layout.session_list_area,
            m.column,
            m.row,
        ) && item_at(
            p.layout.session_list_area,
            p.session_offset,
            rows(p, sizes),
            m.row,
        ) == Some(index) ==> event_step(p, sizes, Event::Mouse(m), now).place.session == Some(index)
            && event_step(p, sizes, Event::Mouse(m), now).place.project == p.project && event_step(
            p,
            sizes,
            Event::Mouse(m),
            now,
        ).effect == Effect::Load,
        !inside(p.layout.project_list_area, m.column, m.row) && !inside(
            p.layout.session_list_area,
            m.column,
            m.row,
        ) ==> event_step(p, sizes, Event::Mouse(m), now).place == p,
{
}

/// A page has a line with a label and a text.
pub open spec fn tells(lines: Seq<LineModel>, label: Seq<char>, text: Seq<char>) -> bool {
    lines.contains(field(label, text))
}

proof fn lemma_in_sum(a: Seq<LineModel>, b: Seq<LineModel>, l: LineModel)
    requires
        a.contains(l) || b.contains(l),
    ensures
        (a + b).contains(l),
{
    if a.contains(l) {
        let k = choose|k: int| 0 <= k < a.len() && a[k] == l;
        assert((a + b)[k] == l);
    } else {
        let k = choose|k: int| 0 <= k < b.len() && b[k] == l;
        assert((a + b)[a.len() + k] == l);
    }
}

/// The page of a session tells its own id, its title, its model or else the provider of it, its
/// branch, and of its commit and its repository what is known.
pub proof fn session_pages_tell_the_session(
    f: DisplayFormatter,
    s: SummaryModel,
    at: Option<Moment>,
    detail: Option<DetailModel>,
)
    ensures
        ({
            let lines = session_lines(f, s, at, detail);
            &&& lines[0].text == s.title && lines[0].label == "TITLE"@
            &&& tells(lines, "STARTED"@, started(f, s, at))
            &&& tells(lines, "SESSION"@, s.session_id)
            &&& tells(lines, "PATH"@, single_line(s.file_path, 96))
            &&& s.model is Some ==> tells(lines, "MODEL"@, s.model->0)
            &&& s.model is None && s.model_provider is Some ==> tells(
                lines,
                "MODEL"@,
                s.model_provider->0,
            )
            &&& s.git_branch is Some ==> tells(lines, "BRANCH"@, s.git_branch->0)
            &&& s.git_commit is Some ==> tells(lines, "COMMIT"@, single_line(s.git_commit->0, 24))
            &&& s.repo_url is Some ==> tells(lines, "REMOTE"@, single_line(s.repo_url->0, 72))
            &&& s.started_at_raw is Some ==> tells(lines, "TIMESTAMP"@, s.started_at_raw->0)
        }),
{
    let head = seq![
        LineModel { look: LineLook::BoldText, label: "TITLE"@, text: s.title },
        field("STARTED"@, started(f, s, at)),
        field("SESSION"@, s.session_id),
        field("PATH"@, single_line(s.file_path, 96)),
        field(
            "MODEL"@,
            crate::read::view::or_dashes(crate::json::or(s.model, s.model_provider)),
        ),
        field("BRANCH"@, crate::read::view::or_dashes(s.git_branch)),
    ];
    let commit = opt_field("COMMIT"@, crate::read::view::opt_line(s.git_commit, 24));
    let remote = opt_field("REMOTE"@, crate::read::view::opt_line(s.repo_url, 72));
    let stamp = opt_field("TIMESTAMP"@, s.started_at_raw);
    let rest = match detail {
        Some(d) => crate::read::view::content_lines(f, d),
        None => Seq::empty(),
    };
    let lines = session_lines(f, s, at, detail);
    assert(lines == head + commit + remote + stamp + rest);
    assert(lines[0] == head[0]);
    assert(lines[1] == head[1]);
    assert(lines[2] == head[2]);
    assert(lines[3] == head[3]);
    assert(lines[4] == head[4]);
    assert(lines[5] == head[5]);
    if s.git_commit is Some {
        assert(commit[0] == field("COMMIT"@, single_line(s.git_commit->0, 24)));
        assert(commit.contains(commit[0]));
        lemma_in_sum(head, commit, commit[0]);
        lemma_in_sum(head + commit, remote, commit[0]);
        lemma_in_sum(head + commit + remote, stamp, commit[0]);
        lemma_in_sum(head + commit + remote + stamp, rest, commit[0]);
    }
    if s.repo_url is Some {
        assert(remote[0] == field("REMOTE"@, single_line(s.repo_url->0, 72)));
        assert(remote.contains(remote[0]));
        lemma_in_sum(head + commit, remote, remote[0]);
        lemma_in_sum(head + commit + remote, stamp, remote[0]);
        lemma_in_sum(head + commit + remote + stamp, rest, remote[0]);
    }
    if s.started_at_raw is Some {
        assert(stamp[0] == field("TIMESTAMP"@, s.started_at_raw->0));
        assert(stamp.contains(stamp[0]));
        lemma_in_sum(head + commit + remote, stamp, stamp[0]);
        lemma_in_sum(head + commit + remote + stamp, rest, stamp[0]);
    }
}

/// What the page of a session tells of its contents: the numbers of its turns, messages, calls,
/// outputs and images, and its tokens under their own labels.
pub proof fn session_pages_tell_the_counts(f: DisplayFormatter, d: DetailModel)
    ensures
        ({
            let lines = crate::read::view::content_lines(f, d);
            &&& lines[1].label == "COUNTS"@ && lines[1].text == "users="@ + number_text(
                f,
                d.turns.len(),
            ) + " assistant="@ + number_text(f, d.assistant_messages as nat) + " calls="@
                + number_text(f, d.tool_calls as nat) + " outputs="@ + number_text(
                f,
                d.tool_outputs as nat,
            ) + " images="@ + number_text(f, d.input_images as nat)
            &&& d.total_tokens is Some ==> tells(
                lines,
                "TOKENS"@,
                number_text(f, at_least_zero(d.total_tokens->0 as int)),
            )
            &&& d.input_tokens is Some ==> tells(
                lines,
                "INPUT"@,
                number_text(f, at_least_zero(d.input_tokens->0 as int)),
            )
            &&& d.output_tokens is Some ==> tells(
                lines,
                "OUTPUT"@,
                number_text(f, at_least_zero(d.output_tokens->0 as int)),
            )
            &&& d.reasoning_encrypted ==> tells(lines, "REASONING"@, "encrypted"@)
        }),
{
    let a = seq![
        crate::read::view::plain(""@),
        LineModel { look: LineLook::BoldLabel, label: "COUNTS"@, text: counts_text(f, d) },
    ];
    let b = opt_field("TOKENS"@, crate::read::view::opt_count(f, d.total_tokens));
    let c = opt_field("INPUT"@, crate::read::view::opt_count(f, d.input_tokens));
    let e = opt_field("OUTPUT"@, crate::read::view::opt_count(f, d.output_tokens));
    let g = opt_field(
        "REASONING"@,
        if d.reasoning_encrypted {
            Some("encrypted"@)
        } else {
            None
        },
    );
    let h = seq![crate::read::view::plain(""@), crate::read::view::heading("USER TURNS"@)];
    let t = turn_lines(
        if d.meaningful.len() == 0 {
            d.turns
        } else {
            d.meaningful
        },
    );
    let lines = crate::read::view::content_lines(f, d);
    assert(lines == a + b + c + e + g + h + t);
    assert(lines[1] == a[1]);
    if d.total_tokens is Some {
        assert(b.contains(b[0]));
        lemma_in_sum(a, b, b[0]);
        lemma_in_sum(a + b, c, b[0]);
        lemma_in_sum(a + b + c, e, b[0]);
        lemma_in_sum(a + b + c + e, g, b[0]);
        lemma_in_sum(a + b + c + e + g, h, b[0]);
        lemma_in_sum(a + b + c + e + g + h, t, b[0]);
    }
    if d.input_tokens is Some {
        assert(c.contains(c[0]));
        lemma_in_sum(a + b, c, c[0]);
        lemma_in_sum(a + b + c, e, c[0]);
        lemma_in_sum(a + b + c + e, g, c[0]);
        lemma_in_sum(a + b + c + e + g, h, c[0]);
        lemma_in_sum(a + b + c + e + g + h, t, c[0]);
    }
    if d.output_tokens is Some {
        assert(e.contains(e[0]));
        lemma_in_sum(a + b + c, e, e[0]);
        lemma_in_sum(a + b + c + e, g, e[0]);
        lemma_in_sum(a + b + c + e + g, h, e[0]);
        lemma_in_sum(a + b + c + e + g + h, t, e[0]);
    }
    if d.reasoning_encrypted {
        assert(g.contains(g[0]));
        lemma_in_sum(a + b + c + e, g, g[0]);
        lemma_in_sum(a + b + c + e + g, h, g[0]);
        lemma_in_sum(a + b + c + e + g + h, t, g[0]);
    }
}

/// The turns of a session are listed from the first one on, sixteen of them at most.
pub proof fn first_turns_are_listed(turns: Seq<Seq<char>>, i: int)
    requires
        0 <= i < turns.len(),
    ensures
        i < 16 ==> i < turn_lines(turns).len() && turn_lines(turns)[i].text == "- "@ + turns[i],
        turn_lines(turns).len() <= 16,
{
}

/// The usage of a project is that of the activity that has its key, and it covers as many sessions
/// as were read for that key.
pub proof fn usage_is_that_of_the_project(
    projects: Seq<ProjectActivity>,
    indexed: Map<Seq<char>, usize>,
    path: Seq<char>,
    i: int,
)
    requires
        0 <= i < projects.len(),
        project_key(projects[i].display_path@) == project_key(path),
        forall|k: int|
            0 <= k < i ==> project_key((#[trigger] projects[k]).display_path@) != project_key(path),
    ensures
        usage_of(projects, indexed, path) is Some,
        ({
            let u = usage_of(projects, indexed, path)->0;
            &&& u.total_tokens == projects[i].total_tokens
            &&& u.cached_input_tokens == projects[i].cached_input_tokens
            &&& u.agent_runs == projects[i].agent_runs
            &&& u.agent_time_ms == projects[i].agent_time_ms
            &&& indexed.dom().contains(project_key(path)) ==> u.indexed_files
                == indexed[project_key(path)]
            &&& !indexed.dom().contains(project_key(path)) ==> u.indexed_files == 0
        }),
{
    lemma_activity_found(projects, project_key(path), i);
}

proof fn lemma_activity_found(projects: Seq<ProjectActivity>, key: Seq<char>, i: int)
    requires
        0 <= i < projects.len(),
        project_key(projects[i].display_path@) == key,
        forall|k: int|
            0 <= k < i ==> project_key((#[trigger] projects[k]).display_path@) != key,
    ensures
        activity_of(projects, key) == Some(projects[i]),
    decreases i,
{
    if i > 0 {
        assert(project_key(projects[0].display_path@) != key);
        let rest = projects.skip(1);
        assert forall|k: int| 0 <= k < i - 1 implies project_key(
            (#[trigger] rest[k]).display_path@,
        ) != key by {
            assert(rest[k] == projects[k + 1]);
        }
        lemma_activity_found(rest, key, i - 1);
    }
}

/// A project is ready where all of its sessions were read and nothing failed, and only then does
/// its page show tokens, runs and time; the tokens without the cached ones are the rest of them.
pub proof fn projects_show_usage_when_ready(
    f: DisplayFormatter,
    p: ProjectUsage,
    complete: bool,
    sessions: nat,
)
    requires
        0 <= p.cached_input_tokens <= p.total_tokens,
    ensures
        ({
            let fine = UsageStatus { usage: Some(p), failed: false, scan_complete: complete };
            let failed = UsageStatus { usage: Some(p), failed: true, scan_complete: complete };
            &&& p.indexed_files >= sessions ==> scan_text(f, fine, sessions) == "READY"@
                && consumed_text(f, fine, sessions) == project_count(f, p.total_tokens as int)
                + " total / "@ + project_count(f, p.total_tokens - p.cached_input_tokens)
                + " non-cached"@ && activity_text(f, fine, sessions) == number_text(
                f,
                at_least_zero(p.agent_runs as int),
            ) + " runs / "@ + long_duration(p.agent_time_ms as int)
            &&& p.indexed_files < sessions && complete ==> scan_text(f, fine, sessions)
                == "NO DATA"@
            &&& p.indexed_files < sessions && !complete ==> scan_text(f, fine, sessions)
                == "SCANNING "@ + number_text(f, p.indexed_files as nat) + "/"@ + number_text(
                f,
                sessions,
            )
            &&& p.indexed_files < sessions ==> consumed_text(f, fine, sessions) == "--"@
                && activity_text(f, fine, sessions) == "--"@
            &&& scan_text(f, failed, sessions) == "ERROR"@
            &&& consumed_text(f, failed, sessions) == "--"@
        }),
{
}

/// The page of a project tells its path, how many sessions it has and when the newest one started,
/// and lists the newest ten in their order.
pub proof fn project_pages_tell_the_project(
    f: DisplayFormatter,
    p: ProjectRecord,
    moments: Seq<Option<Moment>>,
    u: UsageStatus,
    i: int,
)
    requires
        0 <= i < p.sessions@.len(),
        i < 10,
        moments.len() == p.sessions@.len(),
    ensures
        ({
            let lines = project_lines(f, p, moments, u);
            &&& lines[0].text == p.display_path@
            &&& tells(lines, "SESSIONS"@, number_text(f, p.sessions@.len()))
            &&& tells(lines, "LATEST"@, started(f, p.sessions@[0]@, moments[0]))
            &&& tells(lines, "PROJECT_SCAN"@, scan_text(f, u, p.sessions@.len()))
            &&& tells(lines, "ACTIVITY"@, activity_text(f, u, p.sessions@.len()))
            &&& lines[4].text == consumed_text(f, u, p.sessions@.len())
            &&& lines.len() <= 19
            &&& lines[9 + i].text == started(f, p.sessions@[i]@, moments[i]) + "  "@ + single_line(
                p.sessions@[i]@.title,
                72,
            )
        }),
{
    let lines = project_lines(f, p, moments, u);
    assert(lines[1] == field("SESSIONS"@, number_text(f, p.sessions@.len())));
    assert(lines[2] == field("LATEST"@, started(f, p.sessions@[0]@, moments[0])));
    assert(lines[5] == field("PROJECT_SCAN"@, scan_text(f, u, p.sessions@.len())));
    assert(lines[6] == field("ACTIVITY"@, activity_text(f, u, p.sessions@.len())));
}

/// The list of sessions begins with the way back, and then shows each session in its own row.
pub proof fn lists_show_every_session(
    f: DisplayFormatter,
    p: ProjectRecord,
    moments: Seq<Option<Moment>>,
    i: int,
)
    requires
        0 <= i < p.sessions@.len(),
        moments.len() == p.sessions@.len(),
    ensures
        list_rows(f, p.sessions@, moments).len() == p.sessions@.len() + 1,
        list_rows(f, p.sessions@, moments)[0] == ".."@,
        list_rows(f, p.sessions@, moments)[i + 1] == started(f, p.sessions@[i]@, moments[i])
            + "  "@ + single_line(p.sessions@[i]@.title, 64),
{
}

/// The controls of the style stand at the right end of the line of the header, and the rest of the
/// line is the content's: the two fill the line and have no cell in common.
pub proof fn header_and_controls_share_a_line(area: Rect)
    requires
        area.x + area.width <= u16::MAX,
        area.y + area.height <= u16::MAX,
    ensures
        ({
            let line = header_line(area);
            let content = header_content(area);
            let controls = style_controls(area);
            &&& line.x == area.x && line.width == area.width
            &&& line.y + line.height <= area.y + area.height && line.height <= 1
            &&& area.height >= 2 ==> line.y == area.y + 1 && line.height == 1
            &&& content.x == line.x && content.y == line.y && content.height == line.height
            &&& content.width + controls.width == line.width
            &&& controls.width > 0 <==> area.width >= STYLE_CONTROLS_WIDTH
            &&& controls.width > 0 ==> controls.y == line.y && controls.x == content.x
                + content.width
        }),
{
}

/// A project that is clicked twice in a short time is opened; the same clicks with more time between
/// them, or on two projects, only select. A third click begins anew.
pub proof fn two_clicks_open_a_project(
    p: Place,
    sizes: Seq<usize>,
    index: usize,
    other: usize,
    first: u64,
    second: u64,
)
    requires
        p.last_click is None,
        p.view == ViewMode::Projects,
        index < sizes.len(),
        other < sizes.len(),
        first <= second,
    ensures
        ({
            let once = project_click(p, sizes, index, first);
            let twice = project_click(once.place, sizes, index, second);
            let elsewhere = project_click(once.place, sizes, other, second);
            &&& once.place.view == ViewMode::Projects && once.place.project == Some(index)
            &&& second - first <= DOUBLE_CLICK_WINDOW ==> twice.place.view == ViewMode::Sessions
                && twice.place.project == Some(index) && twice.effect == Effect::Load
                && twice.place.last_click is None
            &&& second - first > DOUBLE_CLICK_WINDOW ==> twice.place.view == ViewMode::Projects
                && twice.effect == Effect::Keep
            &&& other != index ==> elsewhere.place.view == ViewMode::Projects
                && elsewhere.place.project == Some(other)
        }),
{
}

/// The row that leads back is taken on two clicks in a short time; a session is loaded at once.
pub proof fn two_clicks_lead_back(p: Place, index: usize, first: u64, second: u64)
    requires
        p.last_click is None,
        p.view == ViewMode::Sessions,
        first <= second,
    ensures
        ({
            let once = session_click(p, 0, first);
            let twice = session_click(once.place, 0, second);
            &&& once.place.view == ViewMode::Sessions && once.effect == Effect::Load
            &&& second - first <= DOUBLE_CLICK_WINDOW ==> twice.place.view == ViewMode::Projects
                && twice.effect == Effect::Forget
            &&& second - first > DOUBLE_CLICK_WINDOW ==> twice.place.view == ViewMode::Sessions
            &&& index > 0 ==> session_click(p, index, first).effect == Effect::Load
                && session_click(p, index, first).place.session == Some(index) && session_click(
                session_click(p, index, first).place,
                index,
                second,
            ).place.view == ViewMode::Sessions
        }),
{
}

/// A selection that the list still has stays; one beyond its end goes to the last row, and one that
/// was never made to the first session.
pub proof fn selections_stay_in_the_list(p: Place, sizes: Seq<usize>)
    ensures
        synced(p, sizes).session is Some,
        synced(p, sizes).session->0 < rows(p, sizes),
        p.session is Some && p.session->0 < rows(p, sizes) ==> synced(p, sizes).session == p.session,
        p.session is Some && p.session->0 >= rows(p, sizes) ==> synced(p, sizes).session->0 + 1
            == rows(p, sizes),
        p.session is None && rows(p, sizes) > 1 ==> synced(p, sizes).session == Some(1usize),
        synced(p, sizes).project == p.project && synced(p, sizes).view == p.view,
{
}

/// The start of a session is told in the style of the locale where its time can be read, and
/// otherwise as it stands in the list; the classic style tells it as it stands.
pub proof fn starts_are_told_in_their_style(
    f: DisplayFormatter,
    s: SummaryModel,
    m: Moment,
    at: Option<Moment>,
)
    ensures
        f.style == DisplayStyle::Classic ==> started(f, s, at) == s.started_at_label,
        started(f, s, None) == s.started_at_label,
        s.started_at_raw is None ==> started(f, s, at) == s.started_at_label,
        f.style != DisplayStyle::Classic && s.started_at_raw is Some && rfc3339_ms(
            s.started_at_raw->0,
        ) is Some ==> opens_with(started(f, s, Some(m)), full_date(f, m.date)) && closes_with(
            started(f, s, Some(m)),
            time_text(f, m.time),
        ),
{
    let d = full_date(f, m.date);
    let t = time_text(f, m.time);
    let both = spaced(d, t);
    assert(both.take(d.len() as int) =~= d);
    assert(both.skip(both.len() - t.len()) =~= t);
}

/// A start that can be read is told as a date and a time of day, that of its own moment; any other is
/// told as it was written.
pub proof fn starts_that_cannot_be_read_are_told_as_written(
    raw: Seq<char>,
    other: Seq<char>,
    m: Moment,
)
    ensures
        start_label(raw, None) == raw,
        rfc3339_ms(raw) is None ==> start_label(raw, Some(m)) == raw,
        rfc3339_ms(raw) is Some && rfc3339_ms(other) is Some ==> start_label(raw, Some(m))
            == start_label(other, Some(m)) && closes_with(
            start_label(raw, Some(m)),
            clock_time(m.time),
        ),
{
    let d = iso_date(m.date);
    let t = clock_time(m.time);
    let both = spaced(d, t);
    assert(both.skip(both.len() - t.len()) =~= t);
}

} // verus!
