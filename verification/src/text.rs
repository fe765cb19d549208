//! Text as sequences of Unicode scalar values.

use vstd::prelude::*;

verus! {

/// The Unicode `White_Space` property.
pub open spec fn is_white(c: char) -> bool {
    let n = c as u32;
    ||| 0x09 <= n <= 0x0d
    ||| n == 0x20
    ||| n == 0x85
    ||| n == 0xa0
    ||| n == 0x1680
    ||| 0x2000 <= n <= 0x200a
    ||| n == 0x2028
    ||| n == 0x2029
    ||| n == 0x202f
    ||| n == 0x205f
    ||| n == 0x3000
}

/// The general category `Cc`.
pub open spec fn is_ctrl(c: char) -> bool {
    let n = c as u32;
    n <= 0x1f || 0x7f <= n <= 0x9f
}

/// `char::is_whitespace`: true exactly on the characters with the `White_Space` property.
pub assume_specification[ char::is_whitespace ](c: char) -> (r: bool)
    ensures
        r == is_white(c),
;

/// `char::is_control`: true exactly on the control codes of category `Cc`.
pub assume_specification[ char::is_control ](c: char) -> (r: bool)
    ensures
        r == is_ctrl(c),
;

/// `String::push`: appends one character.
pub assume_specification[ String::push ](s: &mut String, c: char)
    ensures
        final(s)@ == old(s)@.push(c),
;

/// The characters of a string.
pub fn chars_of(s: &str) -> (r: Vec<char>)
    ensures
        r@ == s@,
{
    let mut out: Vec<char> = Vec::new();
    for c in it: s.chars()
        invariant
            it.seq() == s@,
            out@ == it.seq().take(it.index()),
    {
        out.push(c);
    }
    out
}

/// The string with the given characters.
pub fn string_of(chars: &Vec<char>) -> (r: String)
    ensures
        r@ == chars@,
{
    let mut out = String::new();
    let mut i: usize = 0;
    while i < chars.len()
        invariant
            i <= chars@.len(),
            out@ == chars@.take(i as int),
        decreases chars@.len() - i,
    {
        out.push(chars[i]);
        i += 1;
    }
    out
}

/// `==` on strings: compares the characters.
#[verifier::external_body]
pub(crate) fn same(a: &str, b: &str) -> (r: bool)
    ensures
        r == (a@ == b@),
{
    a == b
}

/// The views of a sequence of strings.
pub open spec fn views(v: Seq<String>) -> Seq<Seq<char>> {
    v.map_values(|s: String| s@)
}

/// The view of an optional string.
pub open spec fn opt_view(o: Option<String>) -> Option<Seq<char>> {
    match o {
        Some(s) => Some(s@),
        None => None,
    }
}

/// The view of an optional string slice.
pub open spec fn opt_str(o: Option<&str>) -> Option<Seq<char>> {
    match o {
        Some(s) => Some(s@),
        None => None,
    }
}

/// An owned copy of an optional string slice.
pub fn own_opt(o: Option<&str>) -> (r: Option<String>)
    ensures
        opt_view(r) == opt_str(o),
{
    match o {
        Some(s) => Some(s.to_owned()),
        None => None,
    }
}

/// The number of bytes of one character in UTF-8.
pub open spec fn char_bytes(c: char) -> nat {
    let n = c as u32;
    if n < 0x80 {
        1
    } else if n < 0x800 {
        2
    } else if n < 0x10000 {
        3
    } else {
        4
    }
}

/// The number of bytes of a text in UTF-8.
pub open spec fn byte_len(s: Seq<char>) -> nat
    decreases s.len(),
{
    if s.len() == 0 {
        0
    } else {
        byte_len(s.drop_last()) + char_bytes(s.last())
    }
}

fn char_width_in_bytes(c: char) -> (r: usize)
    ensures
        r == char_bytes(c),
        1 <= r <= 4,
{
    let n: u32 = c as u32;
    if n < 0x80 {
        1
    } else if n < 0x800 {
        2
    } else if n < 0x10000 {
        3
    } else {
        4
    }
}

/// A longer text takes at least as many bytes.
pub proof fn lemma_byte_len_prefix(s: Seq<char>, i: int)
    requires
        0 <= i <= s.len(),
    ensures
        byte_len(s.take(i)) <= byte_len(s),
        byte_len(s) >= s.len(),
    decreases s.len(),
{
    if s.len() == 0 {
    } else if i == s.len() {
        assert(s.take(i) =~= s);
        lemma_byte_len_prefix(s.drop_last(), i - 1);
    } else {
        lemma_byte_len_prefix(s.drop_last(), i);
        assert(s.drop_last().take(i) =~= s.take(i));
    }
}

/// The number of bytes of a text in UTF-8.
pub fn byte_count(chars: &Vec<char>) -> (r: u128)
    ensures
        r == byte_len(chars@),
{
    let mut total: u128 = 0;
    let mut i: usize = 0;
    assert(chars@.take(0) =~= Seq::<char>::empty());
    while i < chars.len()
        invariant
            i <= chars@.len(),
            total == byte_len(chars@.take(i as int)),
            total <= 4 * i,
        decreases chars@.len() - i,
    {
        let ghost next = chars@.take(i + 1);
        assert(next.drop_last() =~= chars@.take(i as int));
        assert(next.last() == chars@[i as int]);
        total = total + char_width_in_bytes(chars[i]) as u128;
        i += 1;
    }
    assert(chars@.take(i as int) =~= chars@);
    total
}

/// The text takes at most `max` bytes in UTF-8.
pub fn fits(chars: &Vec<char>, max: usize) -> (r: bool)
    ensures
        r == (byte_len(chars@) <= max),
{
    let mut used: usize = 0;
    let mut i: usize = 0;
    while i < chars.len()
        invariant
            i <= chars@.len(),
            used == byte_len(chars@.take(i as int)),
            used <= max,
        decreases chars@.len() - i,
    {
        let w: usize = char_width_in_bytes(chars[i]);
        assert(chars@.take(i + 1).drop_last() =~= chars@.take(i as int));
        proof {
            lemma_byte_len_prefix(chars@, i + 1);
        }
        if w > max - used {
            return false;
        }
        used += w;
        i += 1;
    }
    assert(chars@.take(i as int) =~= chars@);
    true
}

/// The string takes at most `max` bytes in UTF-8.
pub fn str_fits(s: &str, max: usize) -> (r: bool)
    ensures
        r == (byte_len(s@) <= max),
{
    let chars = chars_of(s);
    fits(&chars, max)
}

/// A text without leading white space.
pub open spec fn trim_start(s: Seq<char>) -> Seq<char>
    decreases s.len(),
{
    if s.len() > 0 && is_white(s[0]) {
        trim_start(s.skip(1))
    } else {
        s
    }
}

/// A text without trailing white space.
pub open spec fn trim_end(s: Seq<char>) -> Seq<char>
    decreases s.len(),
{
    if s.len() > 0 && is_white(s.last()) {
        trim_end(s.drop_last())
    } else {
        s
    }
}

/// A text without leading and trailing white space.
pub open spec fn trimmed(s: Seq<char>) -> Seq<char> {
    trim_end(trim_start(s))
}

/// The text without leading white space.
pub fn trim_start_chars(s: &Vec<char>) -> (r: Vec<char>)
    ensures
        r@ == trim_start(s@),
{
    let mut i: usize = 0;
    assert(s@.skip(0) =~= s@);
    while i < s.len() && s[i].is_whitespace()
        invariant
            i <= s@.len(),
            trim_start(s@) == trim_start(s@.skip(i as int)),
        decreases s@.len() - i,
    {
        assert(s@.skip(i as int).skip(1) =~= s@.skip(i + 1));
        i += 1;
    }
    slice_of(s, i, s.len())
}

/// The characters from `from` up to `to`.
pub fn slice_of(s: &Vec<char>, from: usize, to: usize) -> (r: Vec<char>)
    requires
        from <= to <= s@.len(),
    ensures
        r@ == s@.subrange(from as int, to as int),
{
    let mut out: Vec<char> = Vec::new();
    let mut i: usize = from;
    while i < to
        invariant
            from <= i <= to <= s@.len(),
            out@ == s@.subrange(from as int, i as int),
        decreases to - i,
    {
        out.push(s[i]);
        i += 1;
    }
    out
}

/// The text without surrounding white space.
pub fn trim_chars(s: &Vec<char>) -> (r: Vec<char>)
    ensures
        r@ == trimmed(s@),
{
    let t = trim_start_chars(s);
    let mut n: usize = t.len();
    assert(t@.take(n as int) =~= t@);
    while n > 0 && t[n - 1].is_whitespace()
        invariant
            n <= t@.len(),
            trim_end(t@) == trim_end(t@.take(n as int)),
        decreases n,
    {
        assert(t@.take(n as int).drop_last() =~= t@.take(n - 1));
        n -= 1;
    }
    slice_of(&t, 0, n)
}

/// The string without surrounding white space.
pub fn trim(s: &str) -> (r: String)
    ensures
        r@ == trimmed(s@),
{
    let chars = chars_of(s);
    let t = trim_chars(&chars);
    string_of(&t)
}

/// The string holds nothing but white space.
pub fn is_blank(s: &str) -> (r: bool)
    ensures
        r == (trimmed(s@).len() == 0),
{
    let chars = chars_of(s);
    trim_chars(&chars).len() == 0
}

/// The number of characters before the first white space.
pub open spec fn word_len(s: Seq<char>) -> nat
    decreases s.len(),
{
    if s.len() == 0 || is_white(s[0]) {
        0
    } else {
        1 + word_len(s.skip(1))
    }
}

pub proof fn lemma_word_len(s: Seq<char>)
    ensures
        word_len(s) <= s.len(),
        forall|i: int| 0 <= i < word_len(s) ==> !is_white(#[trigger] s[i]),
        word_len(s) < s.len() ==> is_white(s[word_len(s) as int]),
    decreases s.len(),
{
    if s.len() == 0 || is_white(s[0]) {
    } else {
        lemma_word_len(s.skip(1));
        assert forall|i: int| 0 <= i < word_len(s) implies !is_white(#[trigger] s[i]) by {
            if i > 0 {
                assert(s.skip(1)[i - 1] == s[i]);
            }
        }
    }
}

pub proof fn lemma_trim_start_len(s: Seq<char>)
    ensures
        trim_start(s).len() <= s.len(),
        trim_start(s).len() > 0 ==> !is_white(trim_start(s)[0]),
    decreases s.len(),
{
    if s.len() > 0 && is_white(s[0]) {
        lemma_trim_start_len(s.skip(1));
    }
}

/// The maximal runs of characters that are not white space.
pub open spec fn words(s: Seq<char>) -> Seq<Seq<char>>
    decreases s.len(),
    via words_decreases
{
    let t = trim_start(s);
    if t.len() == 0 {
        Seq::empty()
    } else {
        seq![t.take(word_len(t) as int)] + words(t.skip(word_len(t) as int))
    }
}

#[via_fn]
proof fn words_decreases(s: Seq<char>) {
    lemma_trim_start_len(s);
    lemma_word_len(trim_start(s));
}

/// The words of a text.
pub fn split_words(s: &Vec<char>) -> (r: Vec<Vec<char>>)
    ensures
        r@.map_values(|w: Vec<char>| w@) == words(s@),
{
    let mut out: Vec<Vec<char>> = Vec::new();
    let mut i: usize = 0;
    assert(s@.skip(0) =~= s@);
    assert(out@.map_values(|w: Vec<char>| w@) + words(s@) =~= words(s@));
    loop
        invariant
            i <= s@.len(),
            out@.map_values(|w: Vec<char>| w@) + words(s@.skip(i as int)) == words(s@),
        ensures
            out@.map_values(|w: Vec<char>| w@) == words(s@),
        decreases s@.len() - i,
    {
        let ghost base = s@.skip(i as int);
        while i < s.len() && s[i].is_whitespace()
            invariant
                i <= s@.len(),
                trim_start(base) == trim_start(s@.skip(i as int)),
            ensures
                i <= s@.len(),
                trim_start(base) == s@.skip(i as int),
            decreases s@.len() - i,
        {
            assert(s@.skip(i as int).skip(1) =~= s@.skip(i + 1));
            i += 1;
        }
        if i == s.len() {
            assert(words(base) =~= Seq::empty());
            assert(out@.map_values(|w: Vec<char>| w@) + words(base) =~= out@.map_values(
                |w: Vec<char>| w@,
            ));
            break;
        }
        let start: usize = i;
        let ghost t = s@.skip(start as int);
        proof {
            lemma_trim_start_len(base);
        }
        assert(t.skip(0) =~= t);
        while i < s.len() && !s[i].is_whitespace()
            invariant
                start <= i <= s@.len(),
                t == s@.skip(start as int),
                word_len(t) == (i - start) + word_len(s@.skip(i as int)),
            ensures
                start <= i <= s@.len(),
                word_len(t) == i - start,
            decreases s@.len() - i,
        {
            assert(s@.skip(i as int).skip(1) =~= s@.skip(i + 1));
            i += 1;
        }
        assert(i > start) by {
            assert(!is_white(t[0]));
        }
        let ghost before = out@.map_values(|w: Vec<char>| w@);
        let w = slice_of(s, start, i);
        assert(w@ =~= t.take(word_len(t) as int));
        assert(t.skip(word_len(t) as int) =~= s@.skip(i as int));
        out.push(w);
        assert(out@.map_values(|w: Vec<char>| w@) =~= before.push(w@));
        assert(before.push(w@) + words(s@.skip(i as int)) =~= before + (seq![w@] + words(
            s@.skip(i as int),
        )));
    }
    out
}

/// Texts joined by one separator.
pub open spec fn joined(parts: Seq<Seq<char>>, sep: Seq<char>) -> Seq<char>
    decreases parts.len(),
{
    if parts.len() == 0 {
        Seq::empty()
    } else if parts.len() == 1 {
        parts[0]
    } else {
        joined(parts.drop_last(), sep) + sep + parts.last()
    }
}

/// The words of a text, one space between them.
pub open spec fn collapsed(s: Seq<char>) -> Seq<char> {
    joined(words(s), seq![' '])
}

/// Appends characters.
pub fn extend(out: &mut Vec<char>, more: &Vec<char>)
    ensures
        final(out)@ == old(out)@ + more@,
{
    let ghost before = out@;
    let mut i: usize = 0;
    while i < more.len()
        invariant
            i <= more@.len(),
            out@ == before + more@.take(i as int),
        decreases more@.len() - i,
    {
        out.push(more[i]);
        i += 1;
    }
    assert(more@.take(i as int) =~= more@);
}

/// Collapses every run of white space to one space.
pub fn collapse(s: &str) -> (r: Vec<char>)
    ensures
        r@ == collapsed(s@),
{
    let chars = chars_of(s);
    let parts = split_words(&chars);
    let ghost pv = parts@.map_values(|w: Vec<char>| w@);
    let mut out: Vec<char> = Vec::new();
    let mut i: usize = 0;
    while i < parts.len()
        invariant
            i <= parts@.len(),
            pv == parts@.map_values(|w: Vec<char>| w@),
            out@ == joined(pv.take(i as int), seq![' ']),
        decreases parts@.len() - i,
    {
        if i > 0 {
            out.push(' ');
        }
        extend(&mut out, &parts[i]);
        proof {
            let t = pv.take(i + 1);
            assert(t.drop_last() =~= pv.take(i as int));
            assert(t.last() == parts@[i as int]@);
            if i > 0 {
                assert(out@ =~= joined(pv.take(i as int), seq![' ']) + seq![' ']
                    + parts@[i as int]@);
            } else {
                assert(out@ =~= t[0]);
            }
        }
        i += 1;
    }
    assert(pv.take(i as int) =~= pv);
    out
}

/// The longest prefix that takes at most `budget` bytes.
pub open spec fn byte_prefix(s: Seq<char>, budget: nat) -> Seq<char>
    decreases s.len(),
{
    if s.len() == 0 || byte_len(s) <= budget {
        s
    } else {
        byte_prefix(s.drop_last(), budget)
    }
}

/// What marks a shortened line of at most `max` characters.
pub open spec fn ellipsis(max: nat) -> Seq<char> {
    if max >= 3 {
        seq!['.', '.', '.']
    } else if max == 2 {
        seq!['.', '.']
    } else {
        seq!['.']
    }
}

/// One line of at most `max` characters: white space collapsed, and where that is too long, a
/// prefix that leaves room for an ellipsis within `max` bytes.
pub open spec fn single_line(s: Seq<char>, max: nat) -> Seq<char> {
    let line = collapsed(s);
    if max == 0 {
        Seq::empty()
    } else if line.len() <= max {
        line
    } else {
        byte_prefix(line.take(max as int), (max - ellipsis(max).len()) as nat) + ellipsis(max)
    }
}

/// Collapses white space and shortens to `max_chars` characters.
pub fn truncate_single_line(input: &str, max_chars: usize) -> (r: String)
    ensures
        r@ == single_line(input@, max_chars as nat),
{
    if max_chars == 0 {
        return String::new();
    }
    let line = collapse(input);
    if line.len() <= max_chars {
        return string_of(&line);
    }
    let dots: usize = if max_chars >= 3 {
        3
    } else {
        max_chars
    };
    let budget: usize = max_chars - dots;
    let mut out = slice_of(&line, 0, max_chars);
    let ghost full = out@;
    assert(full =~= line@.take(max_chars as int));
    while out.len() > 0 && !fits(&out, budget)
        invariant
            byte_prefix(full, budget as nat) == byte_prefix(out@, budget as nat),
        ensures
            out@ == byte_prefix(full, budget as nat),
        decreases out@.len(),
    {
        let ghost before = out@;
        out.pop();
        assert(out@ =~= before.drop_last());
    }
    let ghost kept = out@;
    let mut k: usize = 0;
    while k < dots
        invariant
            k <= dots <= 3,
            out@ == kept + Seq::new(k as nat, |j: int| '.'),
        decreases dots - k,
    {
        out.push('.');
        k += 1;
    }
    assert(Seq::new(dots as nat, |j: int| '.') =~= ellipsis(max_chars as nat));
    string_of(&out)
}

/// A text without control characters.
pub open spec fn printable(s: Seq<char>) -> Seq<char> {
    s.filter(|c: char| !is_ctrl(c))
}

/// A text without control characters, its middle replaced by an ellipsis where it holds more than
/// `max` characters.
pub open spec fn middle_cut(s: Seq<char>, max: nat) -> Seq<char> {
    let t = printable(s);
    if t.len() <= max {
        t
    } else if max <= 3 {
        seq!['.', '.', '.']
    } else {
        let keep = (max - 3) / 2;
        t.take(keep) + seq!['.', '.', '.'] + t.skip(t.len() - keep)
    }
}

/// Drops the control characters.
pub fn strip_controls(s: &Vec<char>) -> (r: Vec<char>)
    ensures
        r@ == printable(s@),
{
    let ghost keep = |c: char| !is_ctrl(c);
    let mut out: Vec<char> = Vec::new();
    let mut i: usize = 0;
    assert(s@.take(0).filter(keep) =~= Seq::empty()) by {
        reveal(Seq::filter);
    }
    while i < s.len()
        invariant
            i <= s@.len(),
            keep == (|c: char| !is_ctrl(c)),
            out@ == s@.take(i as int).filter(keep),
        decreases s@.len() - i,
    {
        let c = s[i];
        proof {
            let t = s@.take(i + 1);
            assert(t.drop_last() =~= s@.take(i as int));
            reveal(Seq::filter);
        }
        if !c.is_control() {
            out.push(c);
        }
        i += 1;
    }
    assert(s@.take(i as int) =~= s@);
    out
}

/// Drops control characters and cuts the middle out of a text that is too long.
pub fn truncate_middle(value: &str, max: usize) -> (r: String)
    ensures
        r@ == middle_cut(value@, max as nat),
{
    let chars = chars_of(value);
    let cleaned = strip_controls(&chars);
    if cleaned.len() <= max {
        return string_of(&cleaned);
    }
    let keep: usize = if max <= 3 {
        0
    } else {
        (max - 3) / 2
    };
    let mut out = slice_of(&cleaned, 0, keep);
    out.push('.');
    out.push('.');
    out.push('.');
    let tail = slice_of(&cleaned, cleaned.len() - keep, cleaned.len());
    extend(&mut out, &tail);
    let r = string_of(&out);
    assert(r@ =~= middle_cut(value@, max as nat));
    r
}

/// The parts of a text between separators.
pub open spec fn parts(s: Seq<char>, sep: char) -> Seq<Seq<char>>
    decreases s.len(),
{
    if s.len() == 0 {
        seq![Seq::empty()]
    } else {
        let before = parts(s.drop_last(), sep);
        if s.last() == sep {
            before.push(Seq::empty())
        } else {
            before.drop_last().push(before.last().push(s.last()))
        }
    }
}

/// The parts of a text between separators, without white space around them and without those of
/// which nothing is left.
pub open spec fn filled_parts(s: Seq<Seq<char>>) -> Seq<Seq<char>>
    decreases s.len(),
{
    if s.len() == 0 {
        Seq::empty()
    } else {
        let before = filled_parts(s.drop_last());
        if trimmed(s.last()).len() > 0 {
            before.push(trimmed(s.last()))
        } else {
            before
        }
    }
}

/// The parts of a text between separators, without white space around them and without those of
/// which nothing is left.
pub fn split_filled(s: &str, sep: char) -> (r: Vec<String>)
    ensures
        views(r@) == filled_parts(parts(s@, sep)),
{
    let chars = chars_of(s);
    let mut out: Vec<String> = Vec::new();
    let mut part: Vec<char> = Vec::new();
    let mut i: usize = 0;
    assert(views(out@) =~= filled_parts(parts(chars@.take(0), sep).drop_last())) by {
        assert(parts(chars@.take(0), sep).drop_last() =~= Seq::<Seq<char>>::empty());
    }
    assert(part@ =~= parts(chars@.take(0), sep).last());
    while i < chars.len()
        invariant
            i <= chars@.len(),
            chars@ == s@,
            parts(chars@.take(i as int), sep).len() > 0,
            views(out@) == filled_parts(parts(chars@.take(i as int), sep).drop_last()),
            part@ == parts(chars@.take(i as int), sep).last(),
        decreases chars@.len() - i,
    {
        let ghost now = parts(chars@.take(i as int), sep);
        let ghost next = parts(chars@.take(i + 1), sep);
        assert(chars@.take(i + 1).drop_last() =~= chars@.take(i as int));
        assert(chars@.take(i + 1).last() == chars@[i as int]);
        if chars[i] == sep {
            assert(next.drop_last() =~= now);
            push_filled(&mut out, &part);
            part = Vec::new();
            assert(part@ =~= next.last());
        } else {
            part.push(chars[i]);
            assert(next.drop_last() =~= now.drop_last());
            assert(part@ =~= next.last());
        }
        i += 1;
    }
    assert(chars@.take(i as int) =~= s@);
    push_filled(&mut out, &part);
    out
}

fn push_filled(out: &mut Vec<String>, part: &Vec<char>)
    ensures
        forall|s: Seq<Seq<char>>|
            s.len() > 0 && s.last() == part@ && views(old(out)@) == filled_parts(
                #[trigger] s.drop_last(),
            ) ==> views(final(out)@) == filled_parts(s),
{
    let ghost before = out@;
    let t = trim_chars(part);
    if t.len() > 0 {
        let text = string_of(&t);
        out.push(text);
        assert(views(out@) =~= views(before).push(text@));
    }
}

/// What is shown of a text holds no control character, and at most as many characters as it may, or
/// three dots where it may hold fewer.
pub proof fn cut_text_is_clean(s: Seq<char>, max: nat)
    ensures
        forall|i: int| 0 <= i < middle_cut(s, max).len() ==> !is_ctrl(#[trigger] middle_cut(s, max)[i]),
        middle_cut(s, max).len() <= max || middle_cut(s, max).len() == 3,
{
    let keep = |c: char| !is_ctrl(c);
    s.lemma_filter_len(keep);
    let t = printable(s);
    assert forall|i: int| 0 <= i < t.len() implies !is_ctrl(#[trigger] t[i]) by {
        s.lemma_filter_pred(keep, i);
    }
}

proof fn lemma_words_are_solid(s: Seq<char>)
    ensures
        forall|i: int, k: int|
            0 <= i < words(s).len() && 0 <= k < words(s)[i].len() ==> !is_white(
                #[trigger] words(s)[i][k],
            ),
    decreases s.len(),
{
    let t = trim_start(s);
    if t.len() > 0 {
        lemma_trim_start_len(s);
        lemma_word_len(t);
        let n = word_len(t) as int;
        let rest = t.skip(n);
        lemma_words_are_solid(rest);
        assert(words(s) == seq![t.take(n)] + words(rest));
        assert forall|i: int, k: int|
            0 <= i < words(s).len() && 0 <= k < words(s)[i].len() implies !is_white(
            #[trigger] words(s)[i][k],
        ) by {
            if i == 0 {
                assert(words(s)[0] == t.take(n));
                assert(t.take(n)[k] == t[k]);
            } else {
                assert(words(s)[i] == words(rest)[i - 1]);
                assert(!is_white(words(rest)[i - 1][k]));
            }
        }
    }
}

proof fn lemma_joined_spaces(parts: Seq<Seq<char>>)
    requires
        forall|i: int, k: int|
            0 <= i < parts.len() && 0 <= k < parts[i].len() ==> !is_white(#[trigger] parts[i][k]),
    ensures
        forall|k: int|
            0 <= k < joined(parts, seq![' ']).len() && is_white(
                #[trigger] joined(parts, seq![' '])[k],
            ) ==> joined(parts, seq![' '])[k] == ' ',
    decreases parts.len(),
{
    if parts.len() > 1 {
        let before = parts.drop_last();
        assert forall|i: int, k: int| 0 <= i < before.len() && 0 <= k < before[i].len() implies
            !is_white(#[trigger] before[i][k]) by {
            assert(before[i] == parts[i]);
        }
        lemma_joined_spaces(before);
        let whole = joined(parts, seq![' ']);
        let head = joined(before, seq![' ']);
        assert(whole == head + seq![' '] + parts[parts.len() - 1]);
        assert forall|k: int| 0 <= k < whole.len() && is_white(#[trigger] whole[k]) implies whole[k]
            == ' ' by {
            if k < head.len() {
                assert(whole[k] == head[k]);
            } else if k > head.len() {
                assert(whole[k] == parts[parts.len() - 1][k - head.len() - 1]);
            }
        }
    } else if parts.len() == 1 {
        let whole = joined(parts, seq![' ']);
        assert(whole == parts[0]);
        assert forall|k: int| 0 <= k < whole.len() && is_white(#[trigger] whole[k]) implies whole[k]
            == ' ' by {
            assert(whole[k] == parts[0][k]);
        }
    }
}

proof fn lemma_byte_prefix(s: Seq<char>, budget: nat)
    ensures
        byte_prefix(s, budget).len() <= s.len(),
        byte_prefix(s, budget) == s.take(byte_prefix(s, budget).len() as int),
        byte_prefix(s, budget).len() <= budget,
    decreases s.len(),
{
    if s.len() == 0 {
        assert(s.take(0) =~= s);
    } else if byte_len(s) <= budget {
        assert(s.take(s.len() as int) =~= s);
        lemma_byte_len_prefix(s, s.len() as int);
    } else {
        lemma_byte_prefix(s.drop_last(), budget);
        let n = byte_prefix(s, budget).len() as int;
        assert(s.drop_last().take(n) =~= s.take(n));
    }
}

/// A preview is one line: it holds at most as many characters as it may, and of white space nothing
/// but spaces.
pub proof fn previews_are_single_lines(s: Seq<char>, max: nat)
    ensures
        single_line(s, max).len() <= max,
        forall|i: int|
            0 <= i < single_line(s, max).len() && is_white(#[trigger] single_line(s, max)[i])
                ==> single_line(s, max)[i] == ' ',
{
    let line = collapsed(s);
    lemma_words_are_solid(s);
    lemma_joined_spaces(words(s));
    if max > 0 && line.len() > max {
        let cut = line.take(max as int);
        let budget = (max - ellipsis(max).len()) as nat;
        lemma_byte_prefix(cut, budget);
        let kept = byte_prefix(cut, budget);
        assert forall|i: int|
            0 <= i < single_line(s, max).len() && is_white(
                #[trigger] single_line(s, max)[i],
            ) implies single_line(s, max)[i] == ' ' by {
            if i < kept.len() {
                assert(single_line(s, max)[i] == kept[i]);
                assert(kept[i] == cut[i] && cut[i] == line[i]);
            } else {
                assert(single_line(s, max)[i] == ellipsis(max)[i - kept.len()]);
                assert(ellipsis(max)[i - kept.len()] == '.');
            }
        }
    }
}

} // verus!
