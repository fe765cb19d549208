use comon::app::input::{Event, KeyCode, KeyInput, MouseInput, MouseKind};
use comon::app::state::Rect;
use comon::calendar::{Date, TimeOfDay};
use comon::clock::Moment;
use comon::json::parse_json;
use comon::locale::{DisplayFormatter, DisplayStyle, SystemLocale};
use comon::read::browser::{
    advance_index, inner_rect, BrowserClickTarget, BrowserState, ViewMode, DOUBLE_CLICK_WINDOW,
};
use comon::read::catalog::{build_catalog, Catalog};
use comon::read::detail::{is_meaningful_user_text, load_session_detail, SessionDetail};
use comon::read::session::{
    timestamp_label_at, tool_workdir, SessionProbe, SessionSummary, PROJECT_IDENTITY_LINE_LIMIT,
};
use comon::read::view::{
    header_line_area, history_footer, history_header, history_style_controls_area,
    project_detail_lines, render_project_detail, render_session_detail, session_detail_lines,
    session_list, session_list_at, session_started_label, HistoryLine, LineLook, ProjectUsage,
    UsageStatus,
};
use comon::text::truncate_single_line;

fn lines(text: &str) -> Vec<String> {
    text.split_inclusive('\n').map(str::to_string).collect()
}

/// Reads a session; each tool call in a directory is taken for one in the project of that name.
fn read_session(path: &str, text: &str) -> Option<SessionSummary> {
    let mut probe = SessionProbe::new();
    for line in lines(text) {
        if let Some(dir) = probe.feed(&line) {
            probe.note_project_cwd(&dir);
        }
    }
    probe.finish(path, None, Some(7))
}

fn area(x: u16, y: u16, width: u16, height: u16) -> Rect {
    Rect { x, y, width, height }
}

fn empty_catalog() -> Catalog {
    build_catalog("/tmp/sessions".to_string(), Vec::new(), 0)
}

fn summary(path: &str, cwd: &str, start: i64) -> SessionSummary {
    SessionSummary {
        file_path: path.to_string(),
        session_id: path.to_string(),
        cwd: cwd.to_string(),
        title: format!("title of {path}"),
        started_at_raw: None,
        started_at_label: "--".to_string(),
        started_at_sort_key_ms: start,
        git_branch: None,
        git_commit: None,
        repo_url: None,
        model_provider: None,
        model: None,
    }
}

fn two_projects() -> Catalog {
    build_catalog(
        "/tmp/sessions".to_string(),
        vec![summary("1", "/b", 10), summary("2", "/a", 20), summary("3", "/b", 30)],
        1,
    )
}

fn press(code: KeyCode) -> Event {
    Event::Key(KeyInput { code, control: false, press: true })
}

fn text_of(line: &HistoryLine) -> (LineLook, String, String) {
    (line.look, line.label.clone(), line.text.clone())
}

#[test]
fn build_catalog_groups_projects_case_insensitively() {
    let a = read_session(
        "2026/03/16/a.jsonl",
        r##"{"type":"session_meta","payload":{"id":"a","timestamp":"2026-03-16T08:30:22.974Z","cwd":"/mnt/e/GH/oiio-builder","model_provider":"openai"}}
{"type":"response_item","payload":{"type":"message","role":"user","content":[{"type":"input_text","text":"# AGENTS.md instructions for /mnt/e/GH/oiio-builder"}]}}
{"type":"response_item","payload":{"type":"message","role":"user","content":[{"type":"input_text","text":"show me the session history"}]}}
"##,
    )
    .expect("session a");
    let b = read_session(
        "2026/03/16/b.jsonl",
        r##"{"type":"session_meta","payload":{"id":"b","timestamp":"2026-03-16T09:30:22.974Z","cwd":"/mnt/e/gh/oiio-builder","model_provider":"openai"}}
{"type":"response_item","payload":{"type":"message","role":"user","content":[{"type":"input_text","text":"list prompts"}]}}
"##,
    )
    .expect("session b");

    let catalog = build_catalog("sessions".to_string(), vec![a, b], 0);
    assert_eq!(catalog.projects.len(), 1);
    assert_eq!(catalog.projects[0].sessions.len(), 2);
    assert_eq!(catalog.projects[0].sessions[0].title, "list prompts");
    assert_eq!(catalog.projects[0].sessions[1].title, "show me the session history");
}

#[test]
fn build_catalog_prefers_structured_tool_workdir_git_root() {
    let call = |dir: &str| {
        format!(
            "{{\"type\":\"response_item\",\"payload\":{{\"type\":\"function_call\",\"name\":\"exec_command\",\"arguments\":\"{{\\\"workdir\\\":\\\"{dir}\\\"}}\"}}}}\n"
        )
    };
    let mut text = String::from(
        "{\"type\":\"session_meta\",\"payload\":{\"id\":\"a\",\"timestamp\":\"2026-06-23T08:30:22.974Z\",\"cwd\":\"/outside/non-git\",\"model_provider\":\"openai\"}}\n",
    );
    text.push_str(
        "{\"type\":\"response_item\",\"payload\":{\"type\":\"message\",\"role\":\"user\",\"content\":[{\"type\":\"input_text\",\"text\":\"work on the project\"}]}}\n",
    );
    text.push_str(&call("/root-dir"));
    text.push_str(&call("/root-dir/rustadmin-fps-diag"));
    text.push_str(&call("/root-dir/rustadmin-fps-diag"));
    let session = read_session("a.jsonl", &text).expect("session");
    let catalog = build_catalog("sessions".to_string(), vec![session], 0);
    assert_eq!(catalog.projects.len(), 1);
    assert_eq!(catalog.projects[0].display_path, "/root-dir/rustadmin-fps-diag");
}

#[test]
fn load_session_detail_extracts_turns_and_tokens() {
    let detail = load_session_detail(&lines(
        r##"{"type":"session_meta","payload":{"id":"s","timestamp":"2026-03-16T08:30:22.974Z","cwd":"/mnt/w/VisualStudio/comon-cli","model_provider":"openai"}}
{"type":"response_item","payload":{"type":"message","role":"user","content":[{"type":"input_text","text":"# AGENTS.md instructions for /mnt/w/VisualStudio/comon-cli"}]}}
{"type":"response_item","payload":{"type":"message","role":"user","content":[{"type":"input_text","text":"show all prompts"}]}}
{"type":"response_item","payload":{"type":"message","role":"assistant","content":[{"type":"output_text","text":"ok"}]}}
{"type":"response_item","payload":{"type":"function_call","name":"shell_command","arguments":"{}"}}
{"type":"response_item","payload":{"type":"function_call_output","call_id":"1","output":"done"}}
{"type":"event_msg","payload":{"type":"token_count","info":{"total_token_usage":{"input_tokens":12,"output_tokens":4,"total_tokens":16}}}}
"##,
    ));
    assert_eq!(detail.meaningful_user_turns, vec!["show all prompts"]);
    assert_eq!(detail.all_user_turns.len(), 2);
    assert_eq!(detail.assistant_messages, 1);
    assert_eq!(detail.tool_calls, 1);
    assert_eq!(detail.tool_outputs, 1);
    assert_eq!(detail.total_tokens, Some(16));
}

#[test]
fn truncate_single_line_collapses_whitespace() {
    let text = "one\n\n two\tthree";
    assert_eq!(truncate_single_line(text, 64), "one two three");
}

#[test]
fn header_line_has_one_blank_row_above_and_below() {
    assert_eq!(header_line_area(area(2, 1, 100, 3)), area(2, 2, 100, 1));
}

#[test]
fn history_style_controls_use_right_side_of_header_line() {
    assert_eq!(history_style_controls_area(area(2, 1, 100, 3)), area(72, 2, 30, 1));
    assert_eq!(history_style_controls_area(area(2, 1, 20, 3)), area(0, 0, 0, 0));
}

#[test]
fn identical_clicks_within_window_are_double_clicks() {
    let mut state = BrowserState::new(empty_catalog());
    let now: u64 = 1_000_000_000;
    let place = &mut state.place;
    assert!(!place.register_click(BrowserClickTarget::Project(2), now));
    assert!(place.register_click(BrowserClickTarget::Project(2), now + DOUBLE_CLICK_WINDOW));
    assert!(!place.register_click(BrowserClickTarget::Parent, now));
    assert!(!place.register_click(
        BrowserClickTarget::Parent,
        now + DOUBLE_CLICK_WINDOW + 1_000_000
    ));
}

#[test]
fn truncation_marks_what_it_cuts() {
    assert_eq!(truncate_single_line("abcdef", 5), "ab...");
    assert_eq!(truncate_single_line("abcdef", 2), "..");
    assert_eq!(truncate_single_line("abcdef", 1), ".");
    assert_eq!(truncate_single_line("abcdef", 0), "");
}

#[test]
fn texts_of_the_machine_are_not_meaningful() {
    assert!(is_meaningful_user_text("  do it"));
    assert!(!is_meaningful_user_text(" \n"));
    assert!(!is_meaningful_user_text("  <skill> x"));
    assert!(!is_meaningful_user_text("<environment_context>"));
    assert!(!is_meaningful_user_text("# AGENTS.md instructions for x"));
}

#[test]
fn details_count_images_and_encrypted_reasoning() {
    let mut detail = SessionDetail::new();
    detail.note_line(
        r#"{"type":"response_item","payload":{"type":"message","role":"user","content":[{"type":"input_image"},{"type":"input_image"},{"type":"input_text","text":"x"}]}}"#,
    );
    detail.note_line(
        r#"{"type":"response_item","payload":{"type":"reasoning","encrypted_content":"z"}}"#,
    );
    detail.note_line("nonsense");
    assert_eq!(detail.input_images, 2);
    assert!(detail.reasoning_encrypted);
    assert_eq!(detail.all_user_turns, vec!["x"]);
    assert_eq!(detail.total_tokens, None);
}

#[test]
fn the_first_word_on_a_session_stands() {
    let text = r#"{"type":"turn_context","payload":{"cwd":"/first","model":"m1"}}
{"type":"session_meta","payload":{"id":"a","cwd":"/second","git":{"branch":"main","commit_hash":"abc","repository_url":"u"}}}
{"type":"session_meta","payload":{"id":"b","cwd":"/third"}}
"#;
    let s = read_session("x.jsonl", text).expect("session");
    assert_eq!(s.session_id, "a");
    assert_eq!(s.cwd, "/first");
    assert_eq!(s.model.as_deref(), Some("m1"));
    assert_eq!(s.git_branch.as_deref(), Some("main"));
    assert_eq!(s.title, "Session a");
    assert_eq!(s.started_at_label, "--");
    assert_eq!(s.started_at_sort_key_ms, 7);
}

#[test]
fn a_session_without_a_directory_is_none() {
    assert!(read_session("x.jsonl", "{\"type\":\"session_meta\",\"payload\":{\"id\":\"a\"}}\n").is_none());
    let mut probe = SessionProbe::new();
    probe.feed("{\"type\":\"turn_context\",\"payload\":{\"cwd\":\"/x/y\"}}");
    let s = probe.finish("p", Some("/x"), None).expect("session");
    assert_eq!(s.cwd, "/x");
    assert_eq!(s.session_id, "p");
    assert_eq!(s.started_at_sort_key_ms, 0);
}

#[test]
fn an_identified_session_is_read_up_to_a_limit() {
    let mut probe = SessionProbe::new();
    probe.feed("{\"type\":\"session_meta\",\"payload\":{\"id\":\"a\",\"cwd\":\"/x\"}}");
    for _ in 2..PROJECT_IDENTITY_LINE_LIMIT {
        probe.feed("{}");
        assert!(!probe.done);
    }
    probe.feed("{}");
    assert!(probe.done);
    let before = probe.lines_seen;
    probe.feed("{}");
    assert_eq!(probe.lines_seen, before);
}

#[test]
fn tool_calls_name_their_directory() {
    let v = parse_json(
        r#"{"type":"response_item","payload":{"type":"function_call","arguments":"{\"workdir\":\"/w\"}"}}"#,
    )
    .expect("json");
    assert_eq!(tool_workdir(&v).as_deref(), Some("/w"));
    let other = parse_json(r#"{"type":"response_item","payload":{"type":"message"}}"#).expect("json");
    assert_eq!(tool_workdir(&other), None);
}

#[test]
fn ties_between_candidates_go_to_the_deeper_path() {
    let mut probe = SessionProbe::new();
    probe.note_project_cwd("/a/b/c");
    probe.note_project_cwd("/a");
    assert_eq!(probe.inferred_project_cwd(), Some("/a/b/c"));
    probe.note_project_at("/A ", 1);
    assert_eq!(probe.inferred_project_cwd(), Some("/a"));
}

#[test]
fn starts_are_labelled_by_the_local_calendar() {
    let at = Moment {
        date: Date { year: 2026, month: 3, day: 16, weekday: 0 },
        time: TimeOfDay { hour: 8, minute: 30 },
    };
    assert_eq!(timestamp_label_at("2026-03-16T08:30:22.974Z", Some(at)), "2026-03-16 08:30");
    assert_eq!(timestamp_label_at("yesterday", Some(at)), "yesterday");
    let s = read_session(
        "x",
        "{\"type\":\"session_meta\",\"payload\":{\"cwd\":\"/x\",\"timestamp\":\"2026-03-16T12:30:22Z\"}}",
    )
    .expect("session");
    assert_eq!(s.started_at_label.len(), "2026-03-16 12:30".len());
    assert!(s.started_at_label.ends_with("0") || s.started_at_label.ends_with("5"));
    assert_eq!(s.started_at_sort_key_ms, 1_773_664_222_000);
    let system = SystemLocale::c_locale();
    let f = DisplayFormatter::new(DisplayStyle::Classic, &system);
    assert_eq!(session_started_label(&s, f), s.started_at_label);
}

#[test]
fn projects_come_by_path_and_sessions_by_start() {
    let c = two_projects();
    assert_eq!(c.files_scanned, 3);
    assert_eq!(c.files_skipped, 1);
    let paths: Vec<&str> = c.projects.iter().map(|p| p.display_path.as_str()).collect();
    assert_eq!(paths, vec!["/a", "/b"]);
    let starts: Vec<i64> =
        c.projects[1].sessions.iter().map(|s| s.started_at_sort_key_ms).collect();
    assert_eq!(starts, vec![30, 10]);
}

#[test]
fn keys_move_through_projects_and_sessions() {
    let mut state = BrowserState::new(two_projects());
    assert_eq!(state.place.project, Some(0));
    assert_eq!(state.place.session, Some(1));
    assert!(state.handle_event(press(KeyCode::Down), 0).redraw);
    assert_eq!(state.place.project, Some(1));
    state.handle_event(press(KeyCode::PageDown), 0);
    assert_eq!(state.place.project, Some(1));
    let opened = state.handle_event(press(KeyCode::Enter), 0);
    assert_eq!(state.place.view, ViewMode::Sessions);
    assert_eq!(opened.load.as_deref(), Some("3"));
    state.note_detail("3", Ok(SessionDetail::new()));
    assert!(state.selected_session_detail().is_some());
    let down = state.handle_event(press(KeyCode::Char('j')), 0);
    assert_eq!(down.load.as_deref(), Some("1"));
    state.note_detail("1", Err("gone".to_string()));
    assert_eq!(state.error.as_deref(), Some("gone"));
    let up = state.handle_event(press(KeyCode::Up), 0);
    assert_eq!(up.load, None);
    assert_eq!(state.error, None);
    state.handle_event(press(KeyCode::Home), 0);
    assert_eq!(state.place.session, Some(0));
    state.handle_event(press(KeyCode::Enter), 0);
    assert_eq!(state.place.view, ViewMode::Projects);
    assert!(!state.handle_event(press(KeyCode::Esc), 0).redraw);
}

#[test]
fn clicks_select_and_double_clicks_open() {
    let mut state = BrowserState::new(two_projects());
    state.place.layout.project_list_area = area(0, 0, 20, 10);
    let click = |row: u16| Event::Mouse(MouseInput { kind: MouseKind::LeftDown, column: 5, row });
    assert!(state.handle_event(click(2), 0).redraw);
    assert_eq!(state.place.project, Some(1));
    assert_eq!(state.place.view, ViewMode::Projects);
    state.handle_event(click(2), 10);
    assert_eq!(state.place.view, ViewMode::Sessions);
    assert!(!state.handle_event(click(9), 20).redraw);
    state.place.layout.project_list_area = area(0, 0, 0, 0);
    state.place.layout.session_list_area = area(0, 0, 20, 10);
    state.handle_event(click(1), 30);
    assert_eq!(state.place.session, Some(0));
    state.handle_event(click(1), 40);
    assert_eq!(state.place.view, ViewMode::Projects);
    let wheel = Event::Mouse(MouseInput { kind: MouseKind::ScrollUp, column: 0, row: 0 });
    state.handle_event(wheel, 50);
    assert_eq!(state.place.project, Some(0));
}

#[test]
fn rows_are_clamped_to_their_list() {
    assert_eq!(advance_index(None, 5, 1), 1);
    assert_eq!(advance_index(Some(4), 5, 10), 4);
    assert_eq!(advance_index(Some(2), 5, -10), 0);
    assert_eq!(advance_index(Some(2), 0, 1), 0);
    assert_eq!(inner_rect(area(1, 1, 10, 5)), area(2, 2, 8, 3));
    assert_eq!(inner_rect(area(1, 1, 1, 1)), area(2, 2, 0, 0));
}

#[test]
fn session_lines_show_what_is_known() {
    let system = SystemLocale::c_locale();
    let f = DisplayFormatter::new(DisplayStyle::Classic, &system);
    let mut s = summary("p.jsonl", "/x", 1);
    s.git_commit = Some("abcdefabcdefabcdefabcdefabcdef".to_string());
    s.model_provider = Some("openai".to_string());
    let mut detail = SessionDetail::new();
    detail.total_tokens = Some(12_345);
    detail.all_user_turns.push("hello".to_string());
    let shown = session_detail_lines(&s, None, Some(&detail), f);
    let found: Vec<(LineLook, String, String)> = shown.iter().map(text_of).collect();
    assert_eq!(
        found[0],
        (LineLook::BoldText, "TITLE".to_string(), "title of p.jsonl".to_string())
    );
    assert!(found.contains(&(LineLook::Field, "MODEL".to_string(), "openai".to_string())));
    assert!(found.contains(&(LineLook::Field, "BRANCH".to_string(), "--".to_string())));
    assert!(found.contains(&(
        LineLook::Field,
        "COMMIT".to_string(),
        "abcdefabcdefabcdefabc...".to_string()
    )));
    assert!(found.contains(&(LineLook::Field, "TOKENS".to_string(), "12,345".to_string())));
    assert!(found.contains(&(
        LineLook::BoldLabel,
        "COUNTS".to_string(),
        "users=1 assistant=0 calls=0 outputs=0 images=0".to_string()
    )));
    assert_eq!(found[found.len() - 1].2, "- hello");
    let none = render_session_detail(None, None, f);
    assert_eq!(none[0].text, "No sessions in this project.");
    assert_eq!(render_session_detail(Some(&s), None, f).len(), 7);
}

#[test]
fn project_lines_show_the_state_of_the_scan() {
    let system = SystemLocale::c_locale();
    let f = DisplayFormatter::new(DisplayStyle::Classic, &system);
    let c = two_projects();
    let project = &c.projects[1];
    let usage = ProjectUsage {
        indexed_files: 2,
        total_tokens: 250,
        cached_input_tokens: 150,
        agent_runs: 3,
        agent_time_ms: 61_000,
    };
    let ready = UsageStatus { usage: Some(usage), failed: false, scan_complete: false };
    let shown = project_detail_lines(project, &vec![None, None], ready, f);
    let value = |label: &str, lines: &[HistoryLine]| {
        lines.iter().find(|l| l.label == label).map(|l| l.text.clone()).unwrap_or_default()
    };
    assert_eq!(value("CURRENT_CONSUMED_TOKENS", &shown), "250 total / 100 non-cached");
    assert_eq!(value("PROJECT_SCAN", &shown), "READY");
    assert_eq!(value("ACTIVITY", &shown), "3 runs / 1m 1s");
    assert_eq!(value("SESSIONS", &shown), "2");
    assert_eq!(shown[shown.len() - 1].text, "--  title of 1");
    let partial = UsageStatus {
        usage: Some(ProjectUsage { indexed_files: 1, ..usage }),
        failed: false,
        scan_complete: false,
    };
    let shown = render_project_detail(Some(project), partial, f);
    assert_eq!(value("PROJECT_SCAN", &shown), "SCANNING 1/2");
    assert_eq!(value("CURRENT_CONSUMED_TOKENS", &shown), "--");
    let done = UsageStatus { usage: None, failed: false, scan_complete: true };
    assert_eq!(value("PROJECT_SCAN", &render_project_detail(Some(project), done, f)), "NO DATA");
    let failed = UsageStatus { usage: Some(usage), failed: true, scan_complete: true };
    assert_eq!(value("PROJECT_SCAN", &render_project_detail(Some(project), failed, f)), "ERROR");
    assert_eq!(render_project_detail(None, done, f)[0].text, "No projects found.");
}

#[test]
fn the_list_of_sessions_leads_back() {
    let system = SystemLocale::c_locale();
    let f = DisplayFormatter::new(DisplayStyle::Classic, &system);
    let c = two_projects();
    let rows = session_list(Some(&c.projects[1]), f);
    assert_eq!(rows, vec!["..", "--  title of 3", "--  title of 1"]);
    assert!(session_list(None, f).is_empty());
    assert_eq!(session_list_at(&Vec::new(), &Vec::new(), f), vec![".."]);
}

#[test]
fn header_and_footer_make_room() {
    let system = SystemLocale::c_locale();
    let f = DisplayFormatter::new(DisplayStyle::Classic, &system);
    let c = two_projects();
    let wide = history_header(&c, area(0, 0, 120, 3), f);
    assert_eq!(wide.scope, "SESSION_HISTORY /tmp/sessions");
    assert_eq!(wide.summary.as_deref(), Some("2 projects  3 files  1 skipped"));
    assert_eq!(wide.summary_width, 30);
    assert_eq!(wide.area, area(0, 1, 90, 1));
    assert_eq!(history_header(&c, area(0, 0, 91, 3), f).summary, None);
    let footer = history_footer(ViewMode::Projects, Some("  went\nwrong "), f);
    assert!(footer.hint.starts_with("Projects:"));
    assert_eq!(footer.style, "style [n]: Classic");
    assert_eq!(footer.error.as_deref(), Some("went wrong"));
    assert_eq!(history_footer(ViewMode::Sessions, Some("  "), f).error, None);
}

#[test]
fn sessions_of_one_start_come_by_path() {
    let catalog = build_catalog(
        "sessions".to_string(),
        vec![
            summary("/s/a-b/1.jsonl", "/w", 5),
            summary("/s/b.jsonl", "/w", 5),
            summary("/s/a/2.jsonl", "/w", 5),
            summary("/s/z.jsonl", "/w", 6),
        ],
        0,
    );
    let paths: Vec<&str> =
        catalog.projects[0].sessions.iter().map(|s| s.file_path.as_str()).collect();
    assert_eq!(paths, ["/s/z.jsonl", "/s/a/2.jsonl", "/s/a-b/1.jsonl", "/s/b.jsonl"]);
}

#[test]
fn sessions_of_one_start_come_by_path_with_backslashes() {
    let catalog = build_catalog(
        "sessions".to_string(),
        vec![summary("C:\\s\\a-b\\x", "/w", 5), summary("C:\\s\\a\\x", "/w", 5)],
        0,
    );
    let paths: Vec<&str> =
        catalog.projects[0].sessions.iter().map(|s| s.file_path.as_str()).collect();
    assert_eq!(paths, ["C:\\s\\a\\x", "C:\\s\\a-b\\x"]);
}

#[test]
fn of_projects_seen_as_often_the_deeper_one_wins() {
    for (first, second) in [("/z", "/a/b"), ("/a/b", "/z"), ("z", "/a"), ("/", "a/b")] {
        let mut probe = SessionProbe::new();
        probe.note_project_cwd(first);
        probe.note_project_cwd(second);
        let deeper = if first.matches('/').count() > second.matches('/').count()
            && first != "/"
        {
            first
        } else {
            second
        };
        assert_eq!(probe.inferred_project_cwd(), Some(deeper));
    }
}
