//! Where things stand on the screen.

use crate::app::state::{sat16, Rect};
use vstd::prelude::*;

verus! {

/// Space kept free inside a border.
#[derive(Debug, Clone, Copy, PartialEq, Eq, Structural)]
pub struct Padding {
    pub left: u16,
    pub right: u16,
    pub top: u16,
    pub bottom: u16,
}

/// `a - b`, at least zero.
pub open spec fn less(a: int, b: int) -> int {
    if a < b {
        0
    } else {
        a - b
    }
}

/// A rectangle in the middle of another one.
pub fn centered_rect(width: u16, height: u16, r: Rect) -> (out: Rect)
    requires
        r.x + less(r.width as int, width as int) / 2 <= u16::MAX,
        r.y + less(r.height as int, height as int) / 2 <= u16::MAX,
    ensures
        out.x == r.x + less(r.width as int, width as int) / 2,
        out.y == r.y + less(r.height as int, height as int) / 2,
        out.width == width,
        out.height == height,
{
    Rect {
        x: r.x + r.width.saturating_sub(width) / 2,
        y: r.y + r.height.saturating_sub(height) / 2,
        width,
        height,
    }
}

/// What a margin leaves of a rectangle.
pub open spec fn without_margin(area: Rect, vertical: int, horizontal: int) -> Rect {
    Rect {
        x: sat16(area.x + horizontal) as u16,
        y: sat16(area.y + vertical) as u16,
        width: less(area.width as int, sat16(2 * horizontal)) as u16,
        height: less(area.height as int, sat16(2 * vertical)) as u16,
    }
}

/// Takes a margin off a rectangle.
pub fn apply_margin(area: Rect, vertical: u16, horizontal: u16) -> (out: Rect)
    ensures
        out == without_margin(area, vertical as int, horizontal as int),
{
    Rect {
        x: area.x.saturating_add(horizontal),
        y: area.y.saturating_add(vertical),
        width: area.width.saturating_sub(horizontal.saturating_add(horizontal)),
        height: area.height.saturating_sub(vertical.saturating_add(vertical)),
    }
}

/// What a border of one cell and a padding leave of a rectangle.
pub open spec fn inset(area: Rect, p: Padding) -> Rect {
    Rect {
        x: sat16(sat16(area.x + 1) + p.left) as u16,
        y: sat16(sat16(area.y + 1) + p.top) as u16,
        width: less(less(area.width as int, 2), sat16(p.left + p.right)) as u16,
        height: less(less(area.height as int, 2), sat16(p.top + p.bottom)) as u16,
    }
}

/// Takes a border of one cell and a padding off a rectangle.
pub fn inset_with_border_and_padding(area: Rect, padding: Padding) -> (out: Rect)
    ensures
        out == inset(area, padding),
{
    Rect {
        x: area.x.saturating_add(1).saturating_add(padding.left),
        y: area.y.saturating_add(1).saturating_add(padding.top),
        width: area.width.saturating_sub(2).saturating_sub(
            padding.left.saturating_add(padding.right),
        ),
        height: area.height.saturating_sub(2).saturating_sub(
            padding.top.saturating_add(padding.bottom),
        ),
    }
}

/// What an inset leaves lies in the rectangle.
pub proof fn inset_stays_inside(area: Rect, p: Padding)
    requires
        area.x + area.width <= u16::MAX,
        area.y + area.height <= u16::MAX,
    ensures
        ({
            let r = inset(area, p);
            &&& r.x >= area.x && r.y >= area.y
            &&& r.width > 0 ==> r.x + r.width <= area.x + area.width
            &&& r.height > 0 ==> r.y + r.height <= area.y + area.height
        }),
{
}

/// The width of a bar and of the gap between two: a gap of one cell where that leaves room for the
/// bars, else none; a bar is at least one cell wide.
pub open spec fn bar_layout(width: int, bars: int, padding_x: int) -> (int, int) {
    let inner = less(less(width, 2), sat16(2 * padding_x));
    if bars == 0 {
        (1, 1)
    } else if less(inner, bars - 1) / bars > 0 {
        (less(inner, bars - 1) / bars, 1)
    } else if inner / bars > 0 {
        (inner / bars, 0)
    } else {
        (1, 0)
    }
}

/// The width of a bar and of the gap between two.
pub fn compute_bar_layout(area: Rect, bars: u16, padding_x: u16) -> (r: (u16, u16))
    ensures
        (r.0 as int, r.1 as int) == bar_layout(area.width as int, bars as int, padding_x as int),
        r.0 >= 1,
        r.1 <= 1,
{
    if bars == 0 {
        return (1, 1);
    }
    let inner: u16 = area.width.saturating_sub(2).saturating_sub(
        padding_x.saturating_add(padding_x),
    );
    let with_gap: u16 = inner.saturating_sub(bars - 1) / bars;
    if with_gap > 0 {
        return (with_gap, 1);
    }
    let without_gap: u16 = inner / bars;
    if without_gap > 0 {
        (without_gap, 0)
    } else {
        (1, 0)
    }
}

/// Bars that have room for at least one cell each fit side by side.
pub proof fn bars_fit(width: int, bars: int, padding_x: int)
    requires
        0 < bars <= less(less(width, 2), sat16(2 * padding_x)),
        0 <= width <= u16::MAX,
        0 <= padding_x <= u16::MAX,
    ensures
        ({
            let (w, gap) = bar_layout(width, bars, padding_x);
            w * bars + gap * (bars - 1) <= less(less(width, 2), sat16(2 * padding_x))
        }),
{
    let inner = less(less(width, 2), sat16(2 * padding_x));
    let room = less(inner, bars - 1);
    assert(room / bars * bars <= room) by (nonlinear_arith)
        requires
            room >= 0,
            bars > 0,
    ;
    assert(inner / bars * bars <= inner) by (nonlinear_arith)
        requires
            inner >= 0,
            bars > 0,
    ;
    let (w, gap) = bar_layout(width, bars, padding_x);
    assert(gap * (bars - 1) == if gap == 1 { bars - 1 } else { 0 }) by (nonlinear_arith)
        requires
            gap == 0 || gap == 1,
    ;
    assert(inner / bars > 0) by (nonlinear_arith)
        requires
            bars > 0,
            inner >= bars,
    ;
}

/// How the cards of the usage screen stand.
#[derive(Debug, Clone, Copy, PartialEq, Eq, Structural)]
pub struct UsageCardLayout {
    pub columns: usize,
    pub min_card_width: u16,
}

/// How the cards of the usage screen stand: six in a row where there is room, else three. The width
/// is that of the narrowest card.
pub fn usage_card_layout(width: u16) -> (r: UsageCardLayout)
    ensures
        r == (if width >= 180 {
            UsageCardLayout { columns: 6, min_card_width: (sat16(width * 16) / 100) as u16 }
        } else {
            UsageCardLayout { columns: 3, min_card_width: (sat16(width * 33) / 100) as u16 }
        }),
        r.columns == 3 || r.columns == 6,
{
    if width >= 180 {
        let cells: u32 = width as u32 * 16;
        let capped: u32 = if cells > 65535 {
            65535
        } else {
            cells
        };
        UsageCardLayout { columns: 6, min_card_width: (capped / 100) as u16 }
    } else {
        UsageCardLayout { columns: 3, min_card_width: width * 33 / 100 }
    }
}

/// Whether the lines of the limits card are short ones.
pub fn uses_compact_limit_lines(card_width: u16) -> (r: bool)
    ensures
        r == (card_width < 38),
{
    card_width < 38
}

/// How much of an area a part wants.
#[derive(Debug, Clone, Copy, PartialEq, Eq, Structural)]
pub enum Share {
    Length(u16),
    Min(u16),
    Fill(u16),
    Percentage(u16),
}

/// A rectangle lies inside another one.
pub open spec fn lies_in(r: Rect, outer: Rect) -> bool {
    &&& outer.x <= r.x && r.x + r.width <= outer.x + outer.width
    &&& outer.y <= r.y && r.y + r.height <= outer.y + outer.height
}

/// The least that a part wants.
pub open spec fn demand(part: Share) -> int {
    match part {
        Share::Length(n) => n as int,
        Share::Min(n) => n as int,
        _ => 0,
    }
}

/// The least that the first parts want together.
pub open spec fn demands(parts: Seq<Share>, count: int) -> int
    decreases count,
{
    if count <= 0 {
        0
    } else {
        demands(parts, count - 1) + demand(parts[count - 1])
    }
}

/// A part takes more where there is more.
pub open spec fn stretches(part: Share) -> bool {
    part is Min || part is Fill
}

/// Every part gets what it wants: a few parts of fixed extents that fit, with at most one among them
/// that takes more.
pub open spec fn all_fit(parts: Seq<Share>, total: int) -> bool {
    &&& parts.len() <= 8
    &&& forall|i: int| 0 <= i < parts.len() ==> !((#[trigger] parts[i]) is Percentage)
    &&& forall|i: int|
        0 <= i < parts.len() && (#[trigger] parts[i]) is Min ==> demand(parts[i]) <= i16::MAX
    &&& forall|i: int, j: int|
        0 <= i < j < parts.len() ==> !(stretches(#[trigger] parts[i]) && stretches(
            #[trigger] parts[j],
        ))
    &&& demands(parts, parts.len() as int) <= total
}

/// The extent of a part where all fit: what it wants, and what is left where it takes more.
pub open spec fn extent(parts: Seq<Share>, total: int, i: int) -> int {
    if stretches(parts[i]) {
        demand(parts[i]) + total - demands(parts, parts.len() as int)
    } else {
        demand(parts[i])
    }
}

/// The extents of the first parts together, where all fit.
pub open spec fn extents(parts: Seq<Share>, total: int, count: int) -> int
    decreases count,
{
    if count <= 0 {
        0
    } else {
        extents(parts, total, count - 1) + extent(parts, total, count - 1)
    }
}

/// `ratatui::layout::Layout::split` from top to bottom: one rectangle for each part, in order, each
/// inside the area, as wide as the area and at its left edge. Where fixed heights fit beside at most
/// one part that takes more, the parts lie one below the other from the top edge, the fixed ones as
/// high as they want, and that one takes the rest: its constraints leave no other best solution.
/// Where the parts do not fit, the solver that shares out the height walks hash maps in an order that
/// each process seeds, so nothing more is said of the heights there.
#[verifier::external_body]
pub(crate) fn split_rows(area: Rect, parts: &Vec<Share>) -> (r: Vec<Rect>)
    ensures
        r@.len() == parts@.len(),
        forall|i: int|
            0 <= i < r@.len() ==> lies_in(#[trigger] r@[i], area) && r@[i].x == area.x && r@[i].width
                == area.width,
        area.y + area.height <= u16::MAX && all_fit(parts@, area.height as int) ==> forall|i: int|
            0 <= i < r@.len() ==> (#[trigger] r@[i]).y == area.y + extents(
                parts@,
                area.height as int,
                i,
            ) && r@[i].height == extent(parts@, area.height as int, i),
{
    let limits = parts.iter().map(|p| match *p {
        Share::Length(n) => ratatui::layout::Constraint::Length(n),
        Share::Min(n) => ratatui::layout::Constraint::Min(n),
        Share::Fill(n) => ratatui::layout::Constraint::Fill(n),
        Share::Percentage(n) => ratatui::layout::Constraint::Percentage(n),
    });
    let outer = ratatui::layout::Rect { x: area.x, y: area.y, width: area.width, height: area.height };
    let split = ratatui::layout::Layout::vertical(limits).split(outer);
    split.iter().map(|p| Rect { x: p.x, y: p.y, width: p.width, height: p.height }).collect()
}

/// The percentage that the first parts take together.
pub open spec fn percents(parts: Seq<Share>, count: int) -> int
    decreases count,
{
    if count <= 0 {
        0
    } else {
        percents(parts, count - 1) + match parts[count - 1] {
            Share::Percentage(p) => p as int,
            _ => 0,
        }
    }
}

/// A few percentages of an area, no more than the whole of it.
pub open spec fn all_percentages(parts: Seq<Share>) -> bool {
    &&& parts.len() <= 8
    &&& forall|i: int| 0 <= i < parts.len() ==> (#[trigger] parts[i]) is Percentage
    &&& percents(parts, parts.len() as int) <= 100
}

/// The cell at which a percentage of an extent ends, rounded to the nearest one.
pub open spec fn percent_cell(start: int, size: int, percent: int) -> int {
    start + (size * percent + 50) / 100
}

/// `ratatui::layout::Layout::split` from left to right: one rectangle for each part, in order, each
/// inside the area, as high as the area and at its top edge. Percentages that take no more than the
/// whole lie side by side from the left edge, each ending at the cell nearest to its end: their
/// constraints leave no other best solution. For other parts the solver that shares out the width
/// walks hash maps in an order that each process seeds, so nothing more is said of the widths there.
#[verifier::external_body]
pub(crate) fn split_columns(area: Rect, parts: &Vec<Share>) -> (r: Vec<Rect>)
    ensures
        r@.len() == parts@.len(),
        forall|i: int|
            0 <= i < r@.len() ==> lies_in(#[trigger] r@[i], area) && r@[i].y == area.y && r@[i].height
                == area.height,
        area.x + area.width <= u16::MAX && all_percentages(parts@) ==> forall|i: int|
            0 <= i < r@.len() ==> (#[trigger] r@[i]).x == percent_cell(
                area.x as int,
                area.width as int,
                percents(parts@, i),
            ) && r@[i].x + r@[i].width == percent_cell(
                area.x as int,
                area.width as int,
                percents(parts@, i + 1),
            ),
{
    let limits = parts.iter().map(|p| match *p {
        Share::Length(n) => ratatui::layout::Constraint::Length(n),
        Share::Min(n) => ratatui::layout::Constraint::Min(n),
        Share::Fill(n) => ratatui::layout::Constraint::Fill(n),
        Share::Percentage(n) => ratatui::layout::Constraint::Percentage(n),
    });
    let outer = ratatui::layout::Rect { x: area.x, y: area.y, width: area.width, height: area.height };
    let split = ratatui::layout::Layout::horizontal(limits).split(outer);
    split.iter().map(|p| Rect { x: p.x, y: p.y, width: p.width, height: p.height }).collect()
}

/// What the parts of the usage screen want, from top to bottom: the controls, the cards, the chart and
/// the models. The chart takes what the others leave, so that a short screen cuts the chart and not
/// the cards.
pub fn usage_shares(controls_height: u16, cards_height: u16) -> (r: Vec<Share>)
    ensures
        r@ == seq![
            Share::Length(controls_height),
            Share::Length(cards_height),
            Share::Fill(1),
            Share::Length(3),
        ],
{
    let mut parts: Vec<Share> = Vec::new();
    parts.push(Share::Length(controls_height));
    parts.push(Share::Length(cards_height));
    parts.push(Share::Fill(1));
    parts.push(Share::Length(3));
    parts
}

/// The controls, the cards, the chart and the models of the usage screen, from top to bottom. Where
/// they fit, they lie one below the other and the chart takes what the others leave; else their
/// heights are left to the layout.
pub fn usage_layout(area: Rect, controls_height: u16, cards_height: u16) -> (r: [Rect; 4])
    ensures
        forall|i: int|
            0 <= i < 4 ==> lies_in(#[trigger] r@[i], area) && r@[i].x == area.x && r@[i].width
                == area.width,
        area.y + area.height <= u16::MAX && controls_height + cards_height + 3 <= area.height ==> {
            &&& r@[0].y == area.y && r@[0].height == controls_height
            &&& r@[1].y == area.y + controls_height && r@[1].height == cards_height
            &&& r@[2].y == area.y + controls_height + cards_height
            &&& r@[2].height == area.height - controls_height - cards_height - 3
            &&& r@[3].y == area.y + area.height - 3 && r@[3].height == 3
        },
{
    let parts = usage_shares(controls_height, cards_height);
    proof {
        reveal_with_fuel(demands, 5);
        reveal_with_fuel(extents, 5);
        if controls_height + cards_height + 3 <= area.height {
            assert(all_fit(parts@, area.height as int));
        }
    }
    let rows = split_rows(area, &parts);
    [rows[0], rows[1], rows[2], rows[3]]
}

} // verus!
