//! Browsing the session history.

use crate::app::input::{Event, KeyCode, MouseInput, MouseKind};
use crate::app::state::{inside, rect_contains, sat16, Rect};
use crate::read::catalog::{Catalog, ProjectRecord};
use crate::read::detail::SessionDetail;
use crate::read::session::SessionSummary;
use crate::strmap::StrMap;
use crate::text::opt_view;
use vstd::prelude::*;

verus! {

/// Two clicks on one row make a double click where at most this many nanoseconds lie between them.
pub const DOUBLE_CLICK_WINDOW: u64 = 500_000_000;

/// Which list is shown.
#[derive(Debug, Clone, Copy, PartialEq, Eq, Structural)]
pub enum ViewMode {
    Projects,
    Sessions,
}

/// A row that can be clicked.
#[derive(Debug, Clone, Copy, PartialEq, Eq, Structural)]
pub enum BrowserClickTarget {
    Project(usize),
    Parent,
    Session(usize),
}

/// A click, at a time in nanoseconds.
#[derive(Debug, Clone, Copy, PartialEq, Eq, Structural)]
pub struct Click {
    pub target: BrowserClickTarget,
    pub at: u64,
}

/// Where the lists stand on the screen.
#[derive(Debug, Clone, Copy, PartialEq, Eq, Structural)]
pub struct UiLayout {
    pub project_list_area: Rect,
    pub session_list_area: Rect,
}

/// The place in the history: the list that is shown, the rows that are selected, the first rows that
/// are visible and the last click. Row zero of the sessions leads back to the projects.
#[derive(Debug, Clone, Copy, PartialEq, Eq, Structural)]
pub struct Place {
    pub view: ViewMode,
    pub project: Option<usize>,
    pub session: Option<usize>,
    pub project_offset: usize,
    pub session_offset: usize,
    pub layout: UiLayout,
    pub last_click: Option<Click>,
}

/// What a step asks for besides the new place.
#[derive(Debug, Clone, Copy, PartialEq, Eq, Structural)]
pub enum Effect {
    /// Nothing.
    Keep,
    /// The detail of the session that is selected.
    Load,
    /// An error that is shown goes away.
    Forget,
}

/// What a step leads to.
#[derive(Debug, Clone, Copy, PartialEq, Eq, Structural)]
pub struct Step {
    pub place: Place,
    pub effect: Effect,
    pub redraw: bool,
}

/// A rectangle without cells.
pub open spec fn no_area() -> Rect {
    Rect { x: 0, y: 0, width: 0, height: 0 }
}

/// How many sessions each project has.
pub open spec fn sizes_of(c: Catalog) -> Seq<usize> {
    c.projects@.map_values(|p: ProjectRecord| p.sessions@.len() as usize)
}

/// A project is selected.
pub open spec fn has_project(p: Place, sizes: Seq<usize>) -> bool {
    p.project is Some && p.project->0 < sizes.len()
}

/// The number of rows of the list of sessions.
pub open spec fn rows(p: Place, sizes: Seq<usize>) -> int {
    if has_project(p, sizes) {
        let n = sizes[p.project->0 as int];
        if n == usize::MAX {
            usize::MAX as int
        } else {
            n + 1
        }
    } else {
        1
    }
}

/// The place at which the history is entered.
pub open spec fn entry(sizes: Seq<usize>) -> Place {
    Place {
        view: ViewMode::Projects,
        project: if sizes.len() == 0 {
            None
        } else {
            Some(0)
        },
        session: Some(
            if sizes.len() == 0 || sizes[0] == 0 {
                0
            } else {
                1
            },
        ),
        project_offset: 0,
        session_offset: 0,
        layout: UiLayout { project_list_area: no_area(), session_list_area: no_area() },
        last_click: None,
    }
}

/// A row some rows away, as far as the list goes.
pub open spec fn advanced(current: Option<usize>, len: int, delta: int) -> int {
    let c = match current {
        Some(c) => if c > isize::MAX {
            0
        } else {
            c as int
        },
        None => 0,
    };
    if len == 0 || c + delta < 0 {
        0
    } else if c + delta > len - 1 {
        len - 1
    } else {
        c + delta
    }
}

/// The row of the sessions, as far as the list of the selected project goes.
pub open spec fn synced(p: Place, sizes: Seq<usize>) -> Place {
    let row: usize = match p.session {
        Some(row) => row,
        None => 1,
    };
    let last = rows(p, sizes) - 1;
    Place {
        session: Some(
            if row > last {
                last as usize
            } else {
                row
            },
        ),
        ..p
    }
}

/// A step that leaves details and errors alone.
pub open spec fn kept(place: Place, redraw: bool) -> Step {
    Step { place, effect: Effect::Keep, redraw }
}

/// Another row is selected.
pub open spec fn selected(p: Place, sizes: Seq<usize>, row: int) -> Step {
    match p.view {
        ViewMode::Projects => if sizes.len() == 0 {
            kept(p, true)
        } else {
            kept(synced(Place { project: Some(row as usize), ..p }, sizes), true)
        },
        ViewMode::Sessions => Step {
            place: Place { session: Some(row as usize), ..p },
            effect: Effect::Load,
            redraw: true,
        },
    }
}

/// The number of rows of the list that is shown.
pub open spec fn shown_rows(p: Place, sizes: Seq<usize>) -> int {
    match p.view {
        ViewMode::Projects => sizes.len() as int,
        ViewMode::Sessions => rows(p, sizes),
    }
}

/// The selection moves by some rows.
pub open spec fn moved(p: Place, sizes: Seq<usize>, delta: int) -> Step {
    let current = match p.view {
        ViewMode::Projects => p.project,
        ViewMode::Sessions => p.session,
    };
    selected(p, sizes, advanced(current, shown_rows(p, sizes), delta))
}

/// The selection jumps to the first or the last row.
pub open spec fn jumped(p: Place, sizes: Seq<usize>, first: bool) -> Step {
    let last = shown_rows(p, sizes) - 1;
    selected(
        p,
        sizes,
        if first {
            0
        } else {
            last
        },
    )
}

/// The sessions of the selected project are shown.
pub open spec fn opened(p: Place, sizes: Seq<usize>) -> Step {
    if has_project(p, sizes) {
        Step {
            place: Place {
                view: ViewMode::Sessions,
                session: Some(
                    if sizes[p.project->0 as int] == 0 {
                        0
                    } else {
                        1
                    },
                ),
                last_click: None,
                ..p
            },
            effect: Effect::Load,
            redraw: true,
        }
    } else {
        kept(p, true)
    }
}

/// The projects are shown.
pub open spec fn closed(p: Place) -> Step {
    Step {
        place: Place { view: ViewMode::Projects, last_click: None, ..p },
        effect: Effect::Forget,
        redraw: true,
    }
}

/// What a key does.
pub open spec fn key_step(p: Place, sizes: Seq<usize>, code: KeyCode) -> Step {
    match code {
        KeyCode::Esc | KeyCode::Backspace | KeyCode::Left => if p.view == ViewMode::Sessions {
            closed(p)
        } else {
            kept(p, false)
        },
        KeyCode::Up => moved(p, sizes, -1),
        KeyCode::Down => moved(p, sizes, 1),
        KeyCode::Char(c) => if c == 'k' {
            moved(p, sizes, -1)
        } else if c == 'j' {
            moved(p, sizes, 1)
        } else {
            kept(p, false)
        },
        KeyCode::PageUp => moved(p, sizes, -10),
        KeyCode::PageDown => moved(p, sizes, 10),
        KeyCode::Home => jumped(p, sizes, true),
        KeyCode::End => jumped(p, sizes, false),
        KeyCode::Enter | KeyCode::Right => match p.view {
            ViewMode::Projects => if has_project(p, sizes) {
                opened(p, sizes)
            } else {
                kept(p, false)
            },
            ViewMode::Sessions => if p.session == Some(0usize) {
                closed(p)
            } else {
                Step { place: p, effect: Effect::Load, redraw: true }
            },
        },
        _ => kept(p, false),
    }
}

/// A rectangle without its border.
pub open spec fn without_border(area: Rect) -> Rect {
    Rect {
        x: sat16(area.x + 1) as u16,
        y: sat16(area.y + 1) as u16,
        width: if area.width < 2 {
            0
        } else {
            (area.width - 2) as u16
        },
        height: if area.height < 2 {
            0
        } else {
            (area.height - 2) as u16
        },
    }
}

/// The item of a list that stands in a row of the screen.
pub open spec fn item_at(area: Rect, offset: usize, len: int, row: u16) -> Option<usize> {
    let content = without_border(area);
    if row < content.y || row >= sat16(content.y + content.height) {
        None
    } else {
        let at = offset + (row - content.y);
        let index = if at > usize::MAX {
            usize::MAX as int
        } else {
            at
        };
        if index >= len {
            None
        } else {
            Some(index as usize)
        }
    }
}

/// The click makes a double click with the last one.
pub open spec fn is_double(p: Place, click: Click) -> bool {
    match p.last_click {
        Some(last) => last.target == click.target && last.at <= click.at && click.at - last.at
            <= DOUBLE_CLICK_WINDOW,
        None => false,
    }
}

/// The place with a click noted; a double click leaves none behind.
pub open spec fn clicked(p: Place, click: Click) -> Place {
    Place {
        last_click: if is_double(p, click) {
            None
        } else {
            Some(click)
        },
        ..p
    }
}

/// What a click on a project does.
pub open spec fn project_click(p: Place, sizes: Seq<usize>, index: usize, now: u64) -> Step {
    let click = Click { target: BrowserClickTarget::Project(index), at: now };
    let q = synced(Place { project: Some(index), ..p }, sizes);
    if is_double(q, click) {
        opened(clicked(q, click), sizes)
    } else {
        kept(clicked(q, click), true)
    }
}

/// The row of a session as a target.
pub open spec fn session_target(index: usize) -> BrowserClickTarget {
    if index == 0 {
        BrowserClickTarget::Parent
    } else {
        BrowserClickTarget::Session((index - 1) as usize)
    }
}

/// What a click on a row of the sessions does.
pub open spec fn session_click(p: Place, index: usize, now: u64) -> Step {
    let click = Click { target: session_target(index), at: now };
    let q = Place { session: Some(index), ..p };
    if index == 0 && is_double(q, click) {
        closed(clicked(q, click))
    } else {
        Step { place: clicked(q, click), effect: Effect::Load, redraw: true }
    }
}

/// What a click does.
pub open spec fn click_step(p: Place, sizes: Seq<usize>, column: u16, row: u16, now: u64) -> Step {
    let projects = p.layout.project_list_area;
    let sessions = p.layout.session_list_area;
    let project = if inside(projects, column, row) {
        item_at(projects, p.project_offset, sizes.len() as int, row)
    } else {
        None
    };
    let session = if inside(sessions, column, row) {
        item_at(sessions, p.session_offset, rows(p, sizes), row)
    } else {
        None
    };
    match project {
        Some(index) => project_click(p, sizes, index, now),
        None => match session {
            Some(index) => session_click(p, index, now),
            None => kept(p, false),
        },
    }
}

/// What an event does.
pub open spec fn event_step(p: Place, sizes: Seq<usize>, event: Event, now: u64) -> Step {
    match event {
        Event::Key(key) => if key.press {
            key_step(p, sizes, key.code)
        } else {
            kept(p, false)
        },
        Event::Mouse(mouse) => match mouse.kind {
            MouseKind::ScrollUp => moved(p, sizes, -1),
            MouseKind::ScrollDown => moved(p, sizes, 1),
            MouseKind::LeftDown => click_step(p, sizes, mouse.column, mouse.row, now),
            _ => kept(p, false),
        },
        Event::Resize => kept(p, true),
        Event::Other => kept(p, false),
    }
}

/// The rows that are selected stand in their lists.
pub open spec fn in_range(p: Place, sizes: Seq<usize>) -> bool {
    &&& p.project is Some ==> p.project->0 < sizes.len()
    &&& p.session is Some ==> p.session->0 < rows(p, sizes)
}

proof fn lemma_synced(p: Place, sizes: Seq<usize>)
    requires
        p.project is Some ==> p.project->0 < sizes.len(),
    ensures
        in_range(synced(p, sizes), sizes),
{
}

proof fn lemma_selected(p: Place, sizes: Seq<usize>, row: int)
    requires
        in_range(p, sizes),
        sizes.len() <= usize::MAX,
        shown_rows(p, sizes) > 0 ==> 0 <= row < shown_rows(p, sizes),
    ensures
        in_range(selected(p, sizes, row).place, sizes),
{
    if p.view == ViewMode::Projects && sizes.len() > 0 {
        lemma_synced(Place { project: Some(row as usize), ..p }, sizes);
    }
}

proof fn lemma_key(p: Place, sizes: Seq<usize>, code: KeyCode)
    requires
        in_range(p, sizes),
        sizes.len() <= usize::MAX,
    ensures
        in_range(key_step(p, sizes, code).place, sizes),
        in_range(moved(p, sizes, -1).place, sizes),
        in_range(moved(p, sizes, 1).place, sizes),
{
    let len = shown_rows(p, sizes);
    let current = match p.view {
        ViewMode::Projects => p.project,
        ViewMode::Sessions => p.session,
    };
    lemma_selected(p, sizes, advanced(current, len, -1));
    lemma_selected(p, sizes, advanced(current, len, 1));
    lemma_selected(p, sizes, advanced(current, len, -10));
    lemma_selected(p, sizes, advanced(current, len, 10));
    lemma_selected(p, sizes, 0);
    lemma_selected(p, sizes, len - 1);
}

proof fn lemma_click(p: Place, sizes: Seq<usize>, column: u16, row: u16, now: u64)
    requires
        in_range(p, sizes),
        sizes.len() <= usize::MAX,
    ensures
        in_range(click_step(p, sizes, column, row, now).place, sizes),
{
    let projects = p.layout.project_list_area;
    match item_at(projects, p.project_offset, sizes.len() as int, row) {
        Some(index) => {
            lemma_synced(Place { project: Some(index), ..p }, sizes);
            assert(in_range(project_click(p, sizes, index, now).place, sizes));
        },
        None => {},
    }
    match item_at(p.layout.session_list_area, p.session_offset, rows(p, sizes), row) {
        Some(index) => {
            assert(in_range(session_click(p, index, now).place, sizes));
        },
        None => {},
    }
}

/// The history is entered, and every event leaves it, with rows selected that stand in their lists.
pub proof fn browsing_stays_in_range(p: Place, sizes: Seq<usize>, event: Event, now: u64)
    requires
        sizes.len() <= usize::MAX,
    ensures
        in_range(entry(sizes), sizes),
        in_range(p, sizes) ==> in_range(event_step(p, sizes, event, now).place, sizes),
{
    if in_range(p, sizes) {
        match event {
            Event::Key(key) => {
                lemma_key(p, sizes, key.code);
            },
            Event::Mouse(mouse) => {
                lemma_key(p, sizes, KeyCode::Up);
                lemma_click(p, sizes, mouse.column, mouse.row, now);
            },
            _ => {},
        }
    }
}

/// Two clicks on one row make a double click exactly where the second one comes within the window;
/// a third click on it starts anew.
pub proof fn double_clicks_are_pairs(p: Place, target: BrowserClickTarget, a: u64, b: u64, c: u64)
    requires
        !is_double(p, (Click { target, at: a })),
    ensures
        ({
            let once = clicked(p, Click { target, at: a });
            let twice = clicked(once, Click { target, at: b });
            &&& is_double(once, (Click { target, at: b })) <==> a <= b <= a + DOUBLE_CLICK_WINDOW
            &&& is_double(once, (Click { target, at: b })) ==> !is_double(
                twice,
                (Click { target, at: c }),
            )
        }),
{
}

/// The session history as it is browsed.
#[derive(Debug)]
pub struct BrowserState {
    pub catalog: Catalog,
    pub place: Place,
    pub session_details: StrMap<SessionDetail>,
    pub error: Option<String>,
}

/// What an event leads to: whether to draw again, and the file whose detail is to be loaded.
#[derive(Debug)]
pub struct BrowserReaction {
    pub redraw: bool,
    pub load: Option<String>,
}

/// The session that is selected.
pub open spec fn session_at(c: Catalog, p: Place) -> Option<SessionSummary> {
    if p.project is Some && p.project->0 < c.projects@.len() && p.session is Some && p.session->0
        > 0 && p.session->0 - 1 < c.projects@[p.project->0 as int].sessions@.len() {
        Some(c.projects@[p.project->0 as int].sessions@[p.session->0 - 1])
    } else {
        None
    }
}

fn row_count(c: &Catalog, p: Place) -> (r: usize)
    ensures
        r == rows(p, sizes_of(*c)),
        r > 0,
{
    match p.project {
        Some(i) => if i < c.projects.len() {
            assert(sizes_of(*c)[i as int] == c.projects@[i as int].sessions@.len() as usize);
            c.projects[i].sessions.len().saturating_add(1)
        } else {
            1
        },
        None => 1,
    }
}

fn sync_session_selection(c: &Catalog, p: Place) -> (r: Place)
    ensures
        r == synced(p, sizes_of(*c)),
{
    let last: usize = row_count(c, p) - 1;
    let row: usize = match p.session {
        Some(row) => row,
        None => 1,
    };
    Place {
        session: Some(
            if row > last {
                last
            } else {
                row
            },
        ),
        ..p
    }
}

/// A row some rows away, as far as the list goes.
pub fn advance_index(current: Option<usize>, len: usize, delta: i32) -> (r: usize)
    ensures
        r == advanced(current, len as int, delta as int),
{
    let at: usize = match current {
        Some(c) => if c > isize::MAX as usize {
            0
        } else {
            c
        },
        None => 0,
    };
    let next: i128 = at as i128 + delta as i128;
    if len == 0 || next < 0 {
        0
    } else if next > len as i128 - 1 {
        len - 1
    } else {
        next as usize
    }
}

fn select_row(c: &Catalog, p: Place, row: usize) -> (r: Step)
    ensures
        r == selected(p, sizes_of(*c), row as int),
{
    match p.view {
        ViewMode::Projects => {
            assert(sizes_of(*c).len() == c.projects@.len());
            if c.projects.len() == 0 {
                return Step { place: p, effect: Effect::Keep, redraw: true };
            }
            let place = sync_session_selection(c, Place { project: Some(row), ..p });
            Step { place, effect: Effect::Keep, redraw: true }
        },
        ViewMode::Sessions => Step {
            place: Place { session: Some(row), ..p },
            effect: Effect::Load,
            redraw: true,
        },
    }
}

fn list_length(c: &Catalog, p: Place) -> (r: usize)
    ensures
        r == shown_rows(p, sizes_of(*c)),
{
    assert(sizes_of(*c).len() == c.projects@.len());
    match p.view {
        ViewMode::Projects => c.projects.len(),
        ViewMode::Sessions => row_count(c, p),
    }
}

fn move_selection(c: &Catalog, p: Place, delta: i32) -> (r: Step)
    ensures
        r == moved(p, sizes_of(*c), delta as int),
{
    let current = match p.view {
        ViewMode::Projects => p.project,
        ViewMode::Sessions => p.session,
    };
    let row: usize = advance_index(current, list_length(c, p), delta);
    select_row(c, p, row)
}

fn jump_to_edge(c: &Catalog, p: Place, first: bool) -> (r: Step)
    ensures
        r == jumped(p, sizes_of(*c), first),
{
    let len: usize = list_length(c, p);
    let row: usize = if first || len == 0 {
        0
    } else {
        len - 1
    };
    select_row(c, p, row)
}

fn open_selected_project(c: &Catalog, p: Place) -> (r: Step)
    ensures
        r == opened(p, sizes_of(*c)),
{
    assert(sizes_of(*c).len() == c.projects@.len());
    if let Some(i) = p.project {
        if i < c.projects.len() {
            assert(sizes_of(*c)[i as int] == c.projects@[i as int].sessions@.len() as usize);
            let total: usize = c.projects[i].sessions.len();
            let row: usize = if total == 0 {
                0
            } else {
                1
            };
            return Step {
                place: Place {
                    view: ViewMode::Sessions,
                    session: Some(row),
                    last_click: None,
                    ..p
                },
                effect: Effect::Load,
                redraw: true,
            };
        }
    }
    Step { place: p, effect: Effect::Keep, redraw: true }
}

fn close_selected_project(p: Place) -> (r: Step)
    ensures
        r == closed(p),
{
    Step {
        place: Place { view: ViewMode::Projects, last_click: None, ..p },
        effect: Effect::Forget,
        redraw: true,
    }
}

fn handle_key_event(c: &Catalog, p: Place, code: KeyCode) -> (r: Step)
    ensures
        r == key_step(p, sizes_of(*c), code),
{
    assert(sizes_of(*c).len() == c.projects@.len());
    let ignored = Step { place: p, effect: Effect::Keep, redraw: false };
    match code {
        KeyCode::Esc | KeyCode::Backspace | KeyCode::Left => if p.view == ViewMode::Sessions {
            close_selected_project(p)
        } else {
            ignored
        },
        KeyCode::Up => move_selection(c, p, -1),
        KeyCode::Down => move_selection(c, p, 1),
        KeyCode::Char(ch) => if ch == 'k' {
            move_selection(c, p, -1)
        } else if ch == 'j' {
            move_selection(c, p, 1)
        } else {
            ignored
        },
        KeyCode::PageUp => move_selection(c, p, -10),
        KeyCode::PageDown => move_selection(c, p, 10),
        KeyCode::Home => jump_to_edge(c, p, true),
        KeyCode::End => jump_to_edge(c, p, false),
        KeyCode::Enter | KeyCode::Right => match p.view {
            ViewMode::Projects => match p.project {
                Some(i) => if i < c.projects.len() {
                    open_selected_project(c, p)
                } else {
                    ignored
                },
                None => ignored,
            },
            ViewMode::Sessions => match p.session {
                Some(0) => close_selected_project(p),
                _ => Step { place: p, effect: Effect::Load, redraw: true },
            },
        },
        _ => ignored,
    }
}

/// A rectangle without its border.
pub fn inner_rect(area: Rect) -> (r: Rect)
    ensures
        r == without_border(area),
{
    Rect {
        x: area.x.saturating_add(1),
        y: area.y.saturating_add(1),
        width: area.width.saturating_sub(2),
        height: area.height.saturating_sub(2),
    }
}

fn click_row(area: Rect, offset: usize, len: usize, row: u16) -> (r: Option<usize>)
    ensures
        r == item_at(area, offset, len as int, row),
{
    let content = inner_rect(area);
    if row < content.y || row >= content.y.saturating_add(content.height) {
        return None;
    }
    let index: usize = offset.saturating_add((row - content.y) as usize);
    if index >= len {
        None
    } else {
        Some(index)
    }
}

impl Place {
    /// Notes a click; tells whether it makes a double click.
    pub fn register_click(&mut self, target: BrowserClickTarget, now: u64) -> (r: bool)
        ensures
            r == is_double(*old(self), (Click { target, at: now })),
            *final(self) == clicked(*old(self), (Click { target, at: now })),
    {
        let double = match self.last_click {
            Some(last) => last.target == target && last.at <= now && now - last.at
                <= DOUBLE_CLICK_WINDOW,
            None => false,
        };
        self.last_click = if double {
            None
        } else {
            Some(Click { target, at: now })
        };
        double
    }
}

fn handle_click(c: &Catalog, p: Place, column: u16, row: u16, now: u64) -> (r: Step)
    ensures
        r == click_step(p, sizes_of(*c), column, row, now),
{
    assert(sizes_of(*c).len() == c.projects@.len());
    let projects = p.layout.project_list_area;
    if rect_contains(projects, column, row) {
        if let Some(index) = click_row(projects, p.project_offset, c.projects.len(), row) {
            let mut q = sync_session_selection(c, Place { project: Some(index), ..p });
            if q.register_click(BrowserClickTarget::Project(index), now) {
                return open_selected_project(c, q);
            }
            return Step { place: q, effect: Effect::Keep, redraw: true };
        }
    }
    let sessions = p.layout.session_list_area;
    if rect_contains(sessions, column, row) {
        if let Some(index) = click_row(sessions, p.session_offset, row_count(c, p), row) {
            let mut q = Place { session: Some(index), ..p };
            let target = if index == 0 {
                BrowserClickTarget::Parent
            } else {
                BrowserClickTarget::Session(index - 1)
            };
            let double = q.register_click(target, now);
            if index == 0 && double {
                return close_selected_project(q);
            }
            return Step { place: q, effect: Effect::Load, redraw: true };
        }
    }
    Step { place: p, effect: Effect::Keep, redraw: false }
}

fn handle_mouse_event(c: &Catalog, p: Place, mouse: MouseInput, now: u64) -> (r: Step)
    ensures
        r == event_step(p, sizes_of(*c), Event::Mouse(mouse), now),
{
    match mouse.kind {
        MouseKind::ScrollUp => move_selection(c, p, -1),
        MouseKind::ScrollDown => move_selection(c, p, 1),
        MouseKind::LeftDown => handle_click(c, p, mouse.column, mouse.row, now),
        _ => Step { place: p, effect: Effect::Keep, redraw: false },
    }
}

impl BrowserState {
    /// The details are in order.
    pub open spec fn wf(&self) -> bool {
        self.session_details.wf()
    }

    /// Enters a history.
    pub fn new(catalog: Catalog) -> (r: Self)
        ensures
            r.wf(),
            r.catalog == catalog,
            r.place == entry(sizes_of(catalog)),
            r.session_details@ == Map::<Seq<char>, SessionDetail>::empty(),
            r.error is None,
    {
        let ghost sizes = sizes_of(catalog);
        assert(sizes.len() == catalog.projects@.len());
        let area = Rect { x: 0, y: 0, width: 0, height: 0 };
        let mut project: Option<usize> = None;
        let mut row: usize = 0;
        if catalog.projects.len() > 0 {
            let total: usize = catalog.projects[0].sessions.len();
            assert(sizes[0] == total);
            project = Some(0);
            if total > 0 {
                row = 1;
            }
        }
        BrowserState {
            place: Place {
                view: ViewMode::Projects,
                project,
                session: Some(row),
                project_offset: 0,
                session_offset: 0,
                layout: UiLayout { project_list_area: area, session_list_area: area },
                last_click: None,
            },
            catalog,
            session_details: StrMap::new(),
            error: None,
        }
    }

    /// The project that is selected.
    pub fn selected_project(&self) -> (r: Option<&ProjectRecord>)
        ensures
            r is Some <==> has_project(self.place, sizes_of(self.catalog)),
            r is Some ==> *r->0 == self.catalog.projects@[self.place.project->0 as int],
    {
        assert(sizes_of(self.catalog).len() == self.catalog.projects@.len());
        match self.place.project {
            Some(i) => if i < self.catalog.projects.len() {
                Some(&self.catalog.projects[i])
            } else {
                None
            },
            None => None,
        }
    }

    /// The session that is selected.
    pub fn selected_session(&self) -> (r: Option<&SessionSummary>)
        ensures
            match r {
                Some(s) => session_at(self.catalog, self.place) == Some(*s),
                None => session_at(self.catalog, self.place) is None,
            },
    {
        let i: usize = match self.place.project {
            Some(i) => i,
            None => {
                return None;
            },
        };
        let row: usize = match self.place.session {
            Some(row) => row,
            None => {
                return None;
            },
        };
        if i < self.catalog.projects.len() && row > 0 && row - 1
            < self.catalog.projects[i].sessions.len() {
            Some(&self.catalog.projects[i].sessions[row - 1])
        } else {
            None
        }
    }

    /// The detail of the session that is selected, where it has been loaded.
    pub fn selected_session_detail(&self) -> (r: Option<&SessionDetail>)
        requires
            self.wf(),
        ensures
            match session_at(self.catalog, self.place) {
                Some(s) => if self.session_details@.dom().contains(s.file_path@) {
                    r == Some(&self.session_details@[s.file_path@])
                } else {
                    r is None
                },
                None => r is None,
            },
    {
        match self.selected_session() {
            Some(s) => self.session_details.get(s.file_path.as_str()),
            None => None,
        }
    }

    /// Handles an event at a time in nanoseconds.
    pub fn handle_event(&mut self, event: Event, now: u64) -> (r: BrowserReaction)
        requires
            old(self).wf(),
        ensures
            final(self).wf(),
            final(self).catalog == old(self).catalog,
            final(self).session_details == old(self).session_details,
            ({
                let step = event_step(old(self).place, sizes_of(old(self).catalog), event, now);
                let wanted = match session_at(old(self).catalog, step.place) {
                    Some(s) => if old(self).session_details@.dom().contains(s.file_path@) {
                        None
                    } else {
                        Some(s.file_path@)
                    },
                    None => None,
                };
                &&& final(self).place == step.place
                &&& r.redraw == step.redraw
                &&& match step.effect {
                    Effect::Keep => r.load is None && final(self).error == old(self).error,
                    Effect::Forget => r.load is None && final(self).error is None,
                    Effect::Load => opt_view(r.load) == wanted && (if wanted is Some {
                        final(self).error == old(self).error
                    } else {
                        final(self).error is None
                    }),
                }
            }),
    {
        let step = match event {
            Event::Key(key) => if key.press {
                handle_key_event(&self.catalog, self.place, key.code)
            } else {
                Step { place: self.place, effect: Effect::Keep, redraw: false }
            },
            Event::Mouse(mouse) => handle_mouse_event(&self.catalog, self.place, mouse, now),
            Event::Resize => Step { place: self.place, effect: Effect::Keep, redraw: true },
            Event::Other => Step { place: self.place, effect: Effect::Keep, redraw: false },
        };
        self.place = step.place;
        let mut load: Option<String> = None;
        match step.effect {
            Effect::Keep => {},
            Effect::Forget => {
                self.error = None;
            },
            Effect::Load => {
                if let Some(s) = self.selected_session() {
                    if self.session_details.get(s.file_path.as_str()).is_none() {
                        load = Some(s.file_path.as_str().to_owned());
                    }
                }
                if load.is_none() {
                    self.error = None;
                }
            },
        }
        BrowserReaction { redraw: step.redraw, load }
    }

    /// Takes what came of loading the detail of a file.
    pub fn note_detail(&mut self, path: &str, loaded: Result<SessionDetail, String>)
        requires
            old(self).wf(),
        ensures
            final(self).wf(),
            final(self).catalog == old(self).catalog,
            final(self).place == old(self).place,
            match loaded {
                Ok(detail) => final(self).session_details@ == old(self).session_details@.insert(
                    path@,
                    detail,
                ) && final(self).error is None,
                Err(message) => final(self).session_details == old(self).session_details
                    && final(self).error == Some(message),
            },
    {
        match loaded {
            Ok(detail) => {
                self.session_details.set(path, detail);
                self.error = None;
            },
            Err(message) => {
                self.error = Some(message);
            },
        }
    }
}

} // verus!
