//! What is left of texts that are trimmed, cut or wrapped.

use crate::text::{
    collapsed, is_ctrl, is_white, middle_cut, printable, single_line, trim_end,
    trim_start, trimmed, words,
};
use crate::ui::wrap::{
    display_width, lines_of_pieces, lines_of_wide_word, lines_of_words, pieces, place_word,
    wrapped_lines,
};
use vstd::prelude::*;

verus! {

/// White space and nothing else.
pub open spec fn blank(s: Seq<char>) -> bool {
    forall|i: int| 0 <= i < s.len() ==> is_white(#[trigger] s[i])
}

/// A text that neither begins nor ends with white space.
pub open spec fn solid_ends(s: Seq<char>) -> bool {
    s.len() > 0 ==> !is_white(s[0]) && !is_white(s.last())
}

proof fn lemma_trim_start(front: Seq<char>, s: Seq<char>)
    requires
        blank(front),
        s.len() > 0 ==> !is_white(s[0]),
    ensures
        trim_start(front + s) == s,
    decreases front.len(),
{
    if front.len() == 0 {
        assert(front + s =~= s);
    } else {
        assert(is_white(front[0]));
        assert((front + s)[0] == front[0]);
        assert((front + s).skip(1) =~= front.skip(1) + s);
        assert forall|i: int| 0 <= i < front.skip(1).len() implies is_white(
            #[trigger] front.skip(1)[i],
        ) by {
            assert(front.skip(1)[i] == front[i + 1]);
        }
        lemma_trim_start(front.skip(1), s);
    }
}

proof fn lemma_trim_end(s: Seq<char>, back: Seq<char>)
    requires
        blank(back),
        s.len() > 0 ==> !is_white(s.last()),
    ensures
        trim_end(s + back) == s,
    decreases back.len(),
{
    if back.len() == 0 {
        assert(s + back =~= s);
    } else {
        assert(is_white(back[back.len() - 1]));
        assert((s + back).last() == back.last());
        assert((s + back).drop_last() =~= s + back.drop_last());
        assert forall|i: int| 0 <= i < back.drop_last().len() implies is_white(
            #[trigger] back.drop_last()[i],
        ) by {
            assert(back.drop_last()[i] == back[i]);
        }
        lemma_trim_end(s, back.drop_last());
    }
}

/// Trimming takes the white space off both ends of a text and leaves what stands between.
pub proof fn trimming_takes_off_both_ends(front: Seq<char>, s: Seq<char>, back: Seq<char>)
    requires
        blank(front),
        blank(back),
        solid_ends(s),
        s.len() > 0,
    ensures
        trimmed(front + s + back) == s,
        trimmed(s) == s,
{
    let e = Seq::<char>::empty();
    assert(front + s + back =~= front + (s + back));
    assert((s + back)[0] == s[0]);
    lemma_trim_start(front, s + back);
    lemma_trim_end(s, back);
    assert(e + s =~= s);
    lemma_trim_start(e, s);
    assert(s + e =~= s);
    lemma_trim_end(s, e);
}

/// A text that fits is shown whole; one that does not has its beginning and its end, as much of one
/// as of the other, around three dots.
pub proof fn cut_texts_keep_their_ends(s: Seq<char>, max: nat)
    requires
        forall|i: int| 0 <= i < s.len() ==> !is_ctrl(#[trigger] s[i]),
    ensures
        s.len() <= max ==> middle_cut(s, max) == s,
        s.len() > max && max > 3 ==> {
            let keep = (max - 3) / 2;
            let cut = middle_cut(s, max);
            &&& cut.len() == 2 * keep + 3
            &&& forall|i: int| 0 <= i < keep ==> #[trigger] cut[i] == s[i]
            &&& forall|i: int| keep <= i < keep + 3 ==> #[trigger] cut[i] == '.'
            &&& forall|i: int|
                0 <= i < keep ==> #[trigger] cut[keep + 3 + i] == s[s.len() - keep + i]
        },
{
    let keep = |c: char| !is_ctrl(c);
    lemma_all_kept(s, keep);
    assert(printable(s) == s);
}

proof fn lemma_all_kept(s: Seq<char>, p: spec_fn(char) -> bool)
    requires
        forall|i: int| 0 <= i < s.len() ==> p(#[trigger] s[i]),
    ensures
        s.filter(p) == s,
    decreases s.len(),
{
    reveal(Seq::filter);
    if s.len() > 0 {
        assert(p(s[s.len() - 1]));
        let t = s.drop_last();
        assert forall|i: int| 0 <= i < t.len() implies p(#[trigger] t[i]) by {
            assert(t[i] == s[i]);
        }
        lemma_all_kept(t, p);
        assert(t.push(s.last()) =~= s);
    }
}

/// A line that fits is the words of the text with one space between two; one that does not ends in
/// dots.
pub proof fn previews_keep_their_words(s: Seq<char>, max: nat)
    ensures
        collapsed(s).len() <= max && max > 0 ==> single_line(s, max) == collapsed(s),
        collapsed(s).len() > max && max >= 3 ==> single_line(s, max).len() >= 3 && single_line(
            s,
            max,
        ).skip(single_line(s, max).len() - 3) == seq!['.', '.', '.'],
        max == 0 ==> single_line(s, max).len() == 0,
{
    if collapsed(s).len() > max && max >= 3 {
        let line = single_line(s, max);
        assert(line.skip(line.len() - 3) =~= seq!['.', '.', '.']);
    }
}

/// A text of one word is that word, and so is its line; white space around it does not matter.
pub proof fn words_are_what_stands_between_white_space(front: Seq<char>, w: Seq<char>)
    requires
        blank(front),
        w.len() > 0,
        forall|i: int| 0 <= i < w.len() ==> !is_white(#[trigger] w[i]),
    ensures
        words(front + w) == seq![w],
        collapsed(front + w) == w,
{
    assert(!is_white(w[0]));
    lemma_trim_start(front, w);
    lemma_whole_word(w);
    assert(w.take(w.len() as int) =~= w);
    assert(w.skip(w.len() as int) =~= Seq::<char>::empty());
    assert(trim_start(Seq::<char>::empty()).len() == 0);
    assert(words(Seq::<char>::empty()) =~= Seq::<Seq<char>>::empty());
    assert(words(front + w) =~= seq![w]);
}

proof fn lemma_whole_word(w: Seq<char>)
    requires
        forall|i: int| 0 <= i < w.len() ==> !is_white(#[trigger] w[i]),
    ensures
        crate::text::word_len(w) == w.len(),
    decreases w.len(),
{
    if w.len() > 0 {
        assert(!is_white(w[0]));
        let t = w.skip(1);
        assert forall|i: int| 0 <= i < t.len() implies !is_white(#[trigger] t[i]) by {
            assert(t[i] == w[i + 1]);
        }
        lemma_whole_word(t);
    }
}

/// A text takes a line at least, and a further line of text takes the lines that it takes.
pub proof fn lines_add_up(text: Seq<char>, line: Seq<char>, width: nat)
    requires
        width > 0,
        forall|i: int| 0 <= i < line.len() ==> #[trigger] line[i] != '\n',
    ensures
        wrapped_lines(text, width) >= 1,
        pieces(text.push('\n') + line, '\n') == pieces(text, '\n').push(line),
        lines_of_pieces(pieces(text.push('\n') + line, '\n'), width) == crate::app::state::sat16(
            lines_of_pieces(pieces(text, '\n'), width) + lines_of_words(words(line), width),
        ),
    decreases line.len(),
{
    let all = text.push('\n') + line;
    if line.len() == 0 {
        assert(line =~= Seq::<char>::empty());
        assert(all =~= text.push('\n'));
        assert(text.push('\n').drop_last() =~= text);
        assert(pieces(all, '\n') =~= pieces(text, '\n').push(line));
    } else {
        let init = line.drop_last();
        assert forall|i: int| 0 <= i < init.len() implies #[trigger] init[i] != '\n' by {
            assert(init[i] == line[i]);
        }
        lines_add_up(text, init, width);
        assert(all.drop_last() =~= text.push('\n') + init);
        assert(line[line.len() - 1] != '\n');
        let before = pieces(all.drop_last(), '\n');
        assert(before.drop_last() =~= pieces(text, '\n'));
        assert(before.last() == init);
        assert(init.push(line.last()) =~= line);
        assert(pieces(all, '\n') =~= pieces(text, '\n').push(line));
    }
    let p = pieces(text, '\n').push(line);
    assert(p.drop_last() =~= pieces(text, '\n'));
}

/// Words that fit side by side with one space between two take one line.
pub proof fn short_lines_take_one_line(line: Seq<Seq<char>>, width: nat)
    ensures
        line.len() > 0 && room(line) <= width && (forall|i: int|
            0 <= i < line.len() ==> display_width(#[trigger] line[i]) > 0) ==> lines_of_words(
            line,
            width,
        ) == 1,
{
    if line.len() > 0 && room(line) <= width && (forall|i: int|
        0 <= i < line.len() ==> display_width(#[trigger] line[i]) > 0) {
        lemma_side_by_side(line, width);
    }
}

/// How wide words are side by side.
pub open spec fn room(line: Seq<Seq<char>>) -> nat
    decreases line.len(),
{
    if line.len() == 0 {
        0
    } else if line.len() == 1 {
        display_width(line[0])
    } else {
        room(line.drop_last()) + 1 + display_width(line.last())
    }
}

proof fn lemma_side_by_side(line: Seq<Seq<char>>, width: nat)
    requires
        line.len() > 0,
        room(line) <= width,
        forall|i: int|
            0 <= i < line.len() ==> display_width(#[trigger] line[i]) > 0,
    ensures
        crate::ui::wrap::place_words(line, width) == (room(line), 0int),
        room(line) > 0,
    decreases line.len(),
{
    assert(display_width(line[line.len() - 1]) > 0);
    let init = line.drop_last();
    if init.len() == 0 {
        assert(crate::ui::wrap::place_words(init, width) == (0nat, 0int));
        assert(line.last() == line[0]);
    } else {
        assert forall|i: int| 0 <= i < init.len() implies display_width(
            #[trigger] init[i],
        ) > 0 by {
            assert(init[i] == line[i]);
        }
        lemma_side_by_side(init, width);
    }
}

/// A word that is wider than a line takes as many lines as it fills, and the last one where it does
/// not fill it.
pub proof fn wide_words_take_the_lines_they_fill(word: nat, width: nat)
    requires
        width > 0,
        word <= 65535,
        word > 0,
    ensures
        lines_of_wide_word(word, width) * width >= word,
        (lines_of_wide_word(word, width) - 1) * width < word,
{
    let n = (word + width - 1) / width as int;
    let w = width as int;
    assert(n * w <= word + w - 1 && word + w - 1 < (n + 1) * w) by (nonlinear_arith)
        requires
            n == (word + w - 1) / w,
            w > 0,
    ;
    assert(n * w >= word && (n - 1) * w < word) by (nonlinear_arith)
        requires
            n * w <= word + w - 1,
            word + w - 1 < (n + 1) * w,
    ;
    assert(1 <= n <= word) by (nonlinear_arith)
        requires
            n * w >= word,
            (n - 1) * w < word,
            word > 0,
            w > 0,
    ;
}

/// A word goes behind the words before it where there is room for it and a space, else on a line of
/// its own.
pub proof fn words_go_on_the_next_line_where_there_is_no_room(
    used: nat,
    lines: int,
    word: nat,
    width: nat,
)
    requires
        0 < word <= width,
        0 < used <= width,
        0 <= lines < 65535,
    ensures
        used + word + 1 <= width ==> place_word((used, lines), word, width) == (
            used + word + 1,
            lines,
        ),
        used + word + 1 > width ==> place_word((used, lines), word, width) == (word, lines + 1),
        place_word((0, lines), word, width) == (word, lines),
{
}

} // verus!
