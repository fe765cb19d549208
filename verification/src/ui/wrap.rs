//! How many lines a text takes.

use crate::app::state::sat16;
use crate::text::{chars_of, split_words, string_of, words};
use vstd::prelude::*;

verus! {

/// The number of cells that a text takes on a terminal.
pub uninterp spec fn display_width(text: Seq<char>) -> nat;

/// `unicode_width::UnicodeWidthStr::width`: the number of cells that a text takes.
#[verifier::external_body]
pub(crate) fn text_width(text: &str) -> (r: usize)
    ensures
        r == display_width(text@),
{
    unicode_width::UnicodeWidthStr::width(text)
}

/// The pieces of a text between separators.
pub open spec fn pieces(s: Seq<char>, separator: char) -> Seq<Seq<char>>
    decreases s.len(),
{
    if s.len() == 0 {
        seq![Seq::empty()]
    } else {
        let before = pieces(s.drop_last(), separator);
        if s.last() == separator {
            before.push(Seq::empty())
        } else {
            before.drop_last().push(before.last().push(s.last()))
        }
    }
}

/// How many lines a word takes that is wider than a line; counted in sixteen bits.
pub open spec fn lines_of_wide_word(word: nat, width: nat) -> int {
    (((word + width - 1) / width as int) % 65536) as int
}

/// The cells used on the last line and the number of full lines before it, after one more word. A
/// word that is wider than a line stands on lines of its own.
pub open spec fn place_word(at: (nat, int), word: nat, width: nat) -> (nat, int) {
    if word > width {
        (
            0,
            sat16(
                at.1 + (if at.0 == 0 {
                    0int
                } else {
                    1
                }) + lines_of_wide_word(word, width),
            ),
        )
    } else if at.0 == 0 {
        (word, at.1)
    } else if at.0 + 1 + word > width {
        (word, sat16(at.1 + 1))
    } else {
        (at.0 + 1 + word, at.1)
    }
}

/// The cells used on the last line and the number of full lines before it, after words.
pub open spec fn place_words(line: Seq<Seq<char>>, width: nat) -> (nat, int)
    decreases line.len(),
{
    if line.len() == 0 {
        (0, 0)
    } else {
        place_word(place_words(line.drop_last(), width), display_width(line.last()), width)
    }
}

/// How many lines words take; at least one.
pub open spec fn lines_of_words(line: Seq<Seq<char>>, width: nat) -> int {
    let at = place_words(line, width);
    if at.0 > 0 || at.1 == 0 {
        sat16(at.1 + 1)
    } else {
        at.1
    }
}

/// How many lines the pieces of a text take.
pub open spec fn lines_of_pieces(p: Seq<Seq<char>>, width: nat) -> int
    decreases p.len(),
{
    if p.len() == 0 {
        0
    } else {
        sat16(lines_of_pieces(p.drop_last(), width) + lines_of_words(words(p.last()), width))
    }
}

/// How many lines a text takes that is wrapped at words; at least one. A width of zero counts as
/// one.
pub open spec fn wrapped_lines(text: Seq<char>, width: nat) -> int {
    let n = lines_of_pieces(
        pieces(text, '\n'),
        if width == 0 {
            1
        } else {
            width
        },
    );
    if n < 1 {
        1
    } else {
        n
    }
}

fn count_wide_word(word: usize, width: u16) -> (r: u16)
    requires
        width > 0,
        word > width,
    ensures
        r == lines_of_wide_word(word as nat, width as nat),
{
    let w: usize = width as usize;
    proof {
        let a = word as int;
        let b = width as int;
        assert(a % b != 0 ==> a / b < a) by (nonlinear_arith)
            requires
                a > 0,
                b > 0,
        ;
    }
    let lines: usize = if word % w == 0 {
        word / w
    } else {
        word / w + 1
    };
    proof {
        let a = word as int;
        let b = width as int;
        assert((a + b - 1) / b == if a % b == 0 { a / b } else { a / b + 1 }) by (nonlinear_arith)
            requires
                a > 0,
                b > 0,
        ;
    }
    (lines % 65536) as u16
}

fn count_words(line: &Vec<Vec<char>>, width: u16) -> (r: u16)
    requires
        width > 0,
    ensures
        r == lines_of_words(line@.map_values(|w: Vec<char>| w@), width as nat),
{
    let ghost all = line@.map_values(|w: Vec<char>| w@);
    let mut used: usize = 0;
    let mut full: u16 = 0;
    let mut i: usize = 0;
    assert(all.take(0) =~= Seq::<Seq<char>>::empty());
    while i < line.len()
        invariant
            i <= line@.len(),
            width > 0,
            all == line@.map_values(|w: Vec<char>| w@),
            (used as nat, full as int) == place_words(all.take(i as int), width as nat),
            used <= width,
        decreases line@.len() - i,
    {
        let ghost next = all.take(i + 1);
        assert(next.drop_last() =~= all.take(i as int));
        assert(next.last() == line@[i as int]@);
        let text = string_of(&line[i]);
        let word: usize = text_width(text.as_str());
        if word > width as usize {
            if used > 0 {
                full = full.saturating_add(1);
            }
            full = full.saturating_add(count_wide_word(word, width));
            used = 0;
        } else if used == 0 {
            used = word;
        } else if used + 1 + word > width as usize {
            full = full.saturating_add(1);
            used = word;
        } else {
            used = used + 1 + word;
        }
        i += 1;
    }
    assert(all.take(i as int) =~= all);
    if used > 0 || full == 0 {
        full.saturating_add(1)
    } else {
        full
    }
}

/// How many lines a text takes that is wrapped at words.
pub fn wrapped_line_count(text: &str, width: u16) -> (r: u16)
    ensures
        r == wrapped_lines(text@, width as nat),
        r >= 1,
{
    let w: u16 = if width == 0 {
        1
    } else {
        width
    };
    let chars = chars_of(text);
    let mut total: u16 = 0;
    let mut piece: Vec<char> = Vec::new();
    let mut i: usize = 0;
    assert(chars@.take(0) =~= Seq::<char>::empty());
    assert(pieces(chars@.take(0), '\n').drop_last() =~= Seq::<Seq<char>>::empty());
    while i < chars.len()
        invariant
            i <= chars@.len(),
            w > 0,
            pieces(chars@.take(i as int), '\n').len() > 0,
            piece@ == pieces(chars@.take(i as int), '\n').last(),
            total == lines_of_pieces(pieces(chars@.take(i as int), '\n').drop_last(), w as nat),
        decreases chars@.len() - i,
    {
        let ghost here = chars@.take(i as int);
        let ghost next = chars@.take(i + 1);
        assert(next.drop_last() =~= here);
        let c: char = chars[i];
        if c == '\n' {
            let parts = split_words(&piece);
            assert(parts@.map_values(|x: Vec<char>| x@) =~= words(piece@));
            total = total.saturating_add(count_words(&parts, w));
            assert(pieces(next, '\n').drop_last() =~= pieces(here, '\n'));
            piece = Vec::new();
        } else {
            piece.push(c);
            assert(pieces(next, '\n').drop_last() =~= pieces(here, '\n').drop_last());
        }
        i += 1;
    }
    assert(chars@.take(i as int) =~= chars@);
    let parts = split_words(&piece);
    assert(parts@.map_values(|x: Vec<char>| x@) =~= words(piece@));
    total = total.saturating_add(count_words(&parts, w));
    if total < 1 {
        1
    } else {
        total
    }
}

} // verus!
