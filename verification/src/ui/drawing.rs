//! Drawings of text and filled areas.

use crate::app::state::Rect;
use crate::double::{divide_small, multiply, product, quotient, round, rounded};
use vstd::prelude::*;

verus! {

/// How cells look.
#[derive(Debug, Clone, Copy, PartialEq, Eq, Structural)]
pub enum Look {
    /// Blank, with the look that the cells have.
    Keep,
    /// Gray text.
    Gray,
    /// Bold text.
    Bold,
    /// A bar, in one of two colors.
    Bar(bool),
    /// Text on a bar.
    OnBar(bool),
    /// A day of the heat map, by its level; level zero has no color.
    Level(usize),
}

/// A part of a drawing.
#[derive(Debug)]
pub enum Stroke {
    /// Characters from a cell to the right.
    Text { column: u16, row: u16, text: Vec<char>, look: Look },
    /// Spaces in every cell of an area.
    Fill { area: Rect, look: Look },
}

/// What a part of a drawing says.
pub ghost enum Drawn {
    Text(int, int, Seq<char>, Look),
    Fill(Rect, Look),
}

impl View for Stroke {
    type V = Drawn;

    open spec fn view(&self) -> Drawn {
        match *self {
            Stroke::Text { column, row, text, look } => Drawn::Text(
                column as int,
                row as int,
                text@,
                look,
            ),
            Stroke::Fill { area, look } => Drawn::Fill(area, look),
        }
    }
}

/// What a drawing says.
pub open spec fn drawn(s: Seq<Stroke>) -> Seq<Drawn> {
    s.map_values(|x: Stroke| x@)
}

/// Adds text to a drawing.
pub fn draw_text(out: &mut Vec<Stroke>, column: u16, row: u16, text: Vec<char>, look: Look)
    ensures
        drawn(final(out)@) == drawn(old(out)@).push(
            Drawn::Text(column as int, row as int, text@, look),
        ),
{
    let ghost before = drawn(out@);
    out.push(Stroke::Text { column, row, text, look });
    assert(drawn(out@) =~= before.push(Drawn::Text(column as int, row as int, text@, look)));
}

/// Adds a filled area to a drawing.
pub fn draw_fill(out: &mut Vec<Stroke>, area: Rect, look: Look)
    ensures
        drawn(final(out)@) == drawn(old(out)@).push(Drawn::Fill(area, look)),
{
    let ghost before = drawn(out@);
    out.push(Stroke::Fill { area, look });
    assert(drawn(out@) =~= before.push(Drawn::Fill(area, look)));
}

/// How many of the cells a value fills: the share of the largest value, rounded.
pub open spec fn filled(cells: int, value: int, max: int) -> int {
    let n = rounded(product(cells as nat, quotient(value as nat, max as nat)));
    if n > cells {
        cells
    } else {
        n as int
    }
}

/// How many of the cells a value fills.
pub fn filled_cells(cells: u16, value: u64, max: u64) -> (r: u16)
    requires
        0 < max,
        value <= i64::MAX,
    ensures
        r == filled(cells as int, value as int, max as int),
        r <= cells,
{
    let x = multiply(cells as u64, divide_small(value, max));
    let n: u128 = round(x);
    if n > cells as u128 {
        cells
    } else {
        n as u16
    }
}

/// The first characters of a text.
pub open spec fn first_chars(s: Seq<char>, n: int) -> Seq<char> {
    if s.len() <= n {
        s
    } else {
        s.take(n)
    }
}

/// The first characters of a text.
pub fn take_chars(s: &Vec<char>, n: usize) -> (r: Vec<char>)
    ensures
        r@ == first_chars(s@, n as int),
{
    let to: usize = if s.len() <= n {
        s.len()
    } else {
        n
    };
    let out = crate::text::slice_of(s, 0, to);
    assert(out@ =~= first_chars(s@, n as int));
    out
}

} // verus!
