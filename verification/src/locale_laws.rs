//! What is made of the patterns that a locale answers.

use crate::locale::{
    after_code, first_where, is_alnum, order_by_first, posix_date_separator, posix_first_field,
    posix_time_separator, windows_date_separator, windows_first_field, windows_time_separator,
    DateOrder, SystemLocale,
};
use crate::system::{
    has_field, is_posix_locale, is_windows_locale, locale_name, LocaleAnswers,
};
use crate::text::trimmed;
use vstd::prelude::*;

verus! {

/// A pattern that holds no field yet.
pub open spec fn no_field(s: Seq<char>) -> bool {
    forall|i: int| 0 <= i < s.len() ==> #[trigger] s[i] != '%'
}

proof fn lemma_posix_first(front: Seq<char>, rest: Seq<char>)
    requires
        no_field(front),
    ensures
        posix_first_field(front + rest) == posix_first_field(rest),
    decreases front.len(),
{
    if front.len() == 0 {
        assert(front + rest =~= rest);
    } else {
        assert(front[0] != '%');
        assert((front + rest).skip(1) =~= front.skip(1) + rest);
        assert forall|i: int| 0 <= i < front.skip(1).len() implies #[trigger] front.skip(1)[i]
            != '%' by {
            assert(front.skip(1)[i] == front[i + 1]);
        }
        lemma_posix_first(front.skip(1), rest);
    }
}

/// The first field of a pattern tells the order of a date: the day, the month or the year first,
/// whatever follows; other fields before it do not count.
pub proof fn first_field_tells_the_order(
    front: Seq<char>,
    code: char,
    rest: Seq<char>,
)
    requires
        no_field(front),
    ensures
        ({
            let order = order_by_first(posix_first_field(front + seq!['%', code] + rest));
            &&& code == 'd' || code == 'e' ==> order == DateOrder::DayMonthYear
            &&& code == 'm' || code == 'b' || code == 'B' || code == 'h' ==> order
                == DateOrder::MonthDayYear
            &&& code == 'y' || code == 'Y' ==> order == DateOrder::YearMonthDay
            &&& code == 'a' ==> order == order_by_first(posix_first_field(rest))
        }),
{
    let tail = seq!['%', code] + rest;
    assert(front + seq!['%', code] + rest =~= front + tail);
    lemma_posix_first(front, tail);
    assert(tail[0] == '%' && tail[1] == code);
    assert(tail.skip(2) =~= rest);
}

/// The patterns of the other family tell the order by their first letter outside of quotes.
pub proof fn first_letter_tells_the_order(letter: char, rest: Seq<char>, quoted: Seq<char>)
    requires
        forall|i: int| 0 <= i < quoted.len() ==> #[trigger] quoted[i] != '\'',
    ensures
        order_by_first(windows_first_field(seq!['d'] + rest, false)) == DateOrder::DayMonthYear,
        order_by_first(windows_first_field(seq!['M'] + rest, false)) == DateOrder::MonthDayYear,
        order_by_first(windows_first_field(seq!['y'] + rest, false)) == DateOrder::YearMonthDay,
        windows_first_field(seq!['\''] + quoted + seq!['\''] + rest, false)
            == windows_first_field(rest, false),
{
    assert((seq!['d'] + rest)[0] == 'd');
    assert((seq!['M'] + rest)[0] == 'M');
    assert((seq!['y'] + rest)[0] == 'y');
    let all = seq!['\''] + quoted + seq!['\''] + rest;
    assert(all[0] == '\'');
    assert(all.skip(1) =~= quoted + (seq!['\''] + rest));
    lemma_quoted(quoted, rest);
}

proof fn lemma_quoted(quoted: Seq<char>, rest: Seq<char>)
    requires
        forall|i: int| 0 <= i < quoted.len() ==> #[trigger] quoted[i] != '\'',
    ensures
        windows_first_field(quoted + (seq!['\''] + rest), true) == windows_first_field(rest, false),
    decreases quoted.len(),
{
    let all = quoted + (seq!['\''] + rest);
    if quoted.len() == 0 {
        assert(all[0] == '\'');
        assert(all.skip(1) =~= rest);
    } else {
        assert(all[0] == quoted[0]);
        assert(all.skip(1) =~= quoted.skip(1) + (seq!['\''] + rest));
        assert forall|i: int| 0 <= i < quoted.skip(1).len() implies #[trigger] quoted.skip(1)[i]
            != '\'' by {
            assert(quoted.skip(1)[i] == quoted[i + 1]);
        }
        lemma_quoted(quoted.skip(1), rest);
    }
}

proof fn lemma_first_where(front: Seq<char>, c: char, rest: Seq<char>, p: spec_fn(char) -> bool)
    requires
        forall|i: int| 0 <= i < front.len() ==> !p(#[trigger] front[i]),
        p(c),
    ensures
        first_where(front + seq![c] + rest, p) == Some(c),
    decreases front.len(),
{
    let all = front + seq![c] + rest;
    if front.len() == 0 {
        assert(all[0] == c);
    } else {
        assert(all[0] == front[0]);
        assert(!p(front[0]));
        assert(all.skip(1) =~= front.skip(1) + seq![c] + rest);
        assert forall|i: int| 0 <= i < front.skip(1).len() implies !p(
            #[trigger] front.skip(1)[i],
        ) by {
            assert(front.skip(1)[i] == front[i + 1]);
        }
        lemma_first_where(front.skip(1), c, rest, p);
    }
}

/// What separates the parts of a date is the first mark behind the letters of the first one.
pub proof fn dates_are_separated_by_their_mark(front: Seq<char>, mark: char, rest: Seq<char>)
    requires
        forall|i: int| 0 <= i < front.len() ==> is_alnum(#[trigger] front[i]) || front[i] == '%',
        mark == '/' || mark == '.',
    ensures
        posix_date_separator(front + seq![mark] + rest) == mark,
        no_field(front) ==> windows_date_separator(front + seq![mark] + rest) == mark,
{
    let p = |c: char| !is_alnum(c) && c != '%' && c != ' ' && c != '-' && c != '_';
    lemma_first_where(front, mark, rest, p);
    if no_field(front) {
        let q = |c: char| !is_alnum(c) && c != '\'' && c != ' ';
        assert forall|i: int| 0 <= i < front.len() implies !q(#[trigger] front[i]) by {
            assert(front[i] != '%');
        }
        lemma_first_where(front, mark, rest, q);
    }
}

/// What separates hours and minutes is the mark that follows the hours.
pub proof fn times_are_separated_by_their_mark(mark: char, rest: Seq<char>)
    requires
        !is_alnum(mark),
        mark != '%',
        mark != '\'',
    ensures
        posix_time_separator(seq!['%', 'H', mark] + rest) == mark,
        windows_time_separator(seq!['H', 'H', mark] + rest, false) == mark,
        windows_time_separator(seq!['h', mark] + rest, false) == mark,
{
    let p = |c: char| !is_alnum(c) && c != '%';
    let posix = seq!['%', 'H', mark] + rest;
    assert(posix[0] == '%' && posix[1] == 'H');
    let tail = posix.skip(2);
    assert(after_code(posix, 'H') == Some(tail));
    let e = Seq::<char>::empty();
    assert(tail =~= e + seq![mark] + rest);
    lemma_first_where(e, mark, rest, p);
    let wide = seq!['H', 'H', mark] + rest;
    assert(wide[0] == 'H');
    let one = wide.skip(1);
    assert(one[0] == 'H');
    let two = one.skip(1);
    assert(two[0] == mark);
    assert(windows_time_separator(two, true) == mark);
    assert(windows_time_separator(one, true) == mark);
    let slim = seq!['h', mark] + rest;
    assert(slim[0] == 'h');
    assert(slim.skip(1)[0] == mark);
    assert(windows_time_separator(slim.skip(1), true) == mark);
}

/// A pattern with hours up to 23 makes a clock of 24 hours, and one without makes one of twelve.
pub proof fn hours_tell_the_clock(l: SystemLocale, id: Seq<char>, a: LocaleAnswers, i: int)
    requires
        a.time_pattern is Some,
    ensures
        is_posix_locale(l, id, a) && 0 <= i < a.time_pattern->0@.len() - 1
            && a.time_pattern->0@[i] == '%' && (a.time_pattern->0@[i + 1] == 'H'
            || a.time_pattern->0@[i + 1] == 'k') ==> l.time_24h,
        is_posix_locale(l, id, a) && (forall|k: int|
            0 <= k < a.time_pattern->0@.len() ==> #[trigger] a.time_pattern->0@[k] != 'H'
                && a.time_pattern->0@[k] != 'k') ==> !l.time_24h,
        is_windows_locale(l, Some(id), a) ==> (l.time_24h <==> a.time_pattern->0@.contains('H')),
{
    let p = a.time_pattern->0@;
    if 0 <= i < p.len() - 1 && p[i] == '%' && p[i + 1] == 'H' {
        assert(has_field(p, 'H'));
    }
    if 0 <= i < p.len() - 1 && p[i] == '%' && p[i + 1] == 'k' {
        assert(has_field(p, 'k'));
    }
    if forall|k: int| 0 <= k < p.len() ==> #[trigger] p[k] != 'H' && p[k] != 'k' {
        assert forall|k: int| 0 <= k < p.len() - 1 && #[trigger] p[k] == '%' implies p[k + 1] != 'H'
            && p[k + 1] != 'k' by {
            let c = p[k + 1];
        }
        assert(!has_field(p, 'H'));
        assert(!has_field(p, 'k'));
    }
}

/// What a locale answers is taken: its separators, its marks for the halves of the day and its names
/// of weekdays and months, each for its own.
pub proof fn answers_of_the_locale_are_taken(l: SystemLocale, id: Seq<char>, a: LocaleAnswers)
    requires
        is_posix_locale(l, id, a),
        a.decimal_separator is Some && a.decimal_separator->0@.len() > 0,
        a.thousands_separator is Some,
        a.am is Some && a.am->0@.len() > 0,
        a.pm is Some && a.pm->0@.len() > 0,
    ensures
        l.id@ == id,
        l.decimal_separator@ == a.decimal_separator->0@,
        l.thousands_separator@ == a.thousands_separator->0@,
        l.am@ == a.am->0@,
        l.pm@ == a.pm->0@,
        forall|i: int|
            0 <= i < 7 && (#[trigger] a.weekdays@[i])@.len() > 0 ==> l.abbreviated_weekdays@[i]@
                == a.weekdays@[i]@,
        forall|i: int|
            0 <= i < 12 && (#[trigger] a.months@[i])@.len() > 0 ==> l.abbreviated_months@[i]@
                == a.months@[i]@,
{
    assert forall|i: int| 0 <= i < 7 && (#[trigger] a.weekdays@[i])@.len() > 0 implies
    l.abbreviated_weekdays@[i]@ == a.weekdays@[i]@ by {
        let w = l.abbreviated_weekdays@[i];
    }
    assert forall|i: int| 0 <= i < 12 && (#[trigger] a.months@[i])@.len() > 0 implies
    l.abbreviated_months@[i]@ == a.months@[i]@ by {
        let m = l.abbreviated_months@[i];
    }
}

/// The variable for everything names the locale before the one for times, this before the one for
/// numbers, and the language last.
pub proof fn locales_are_named_in_order(
    text: Seq<char>,
    time: Option<Seq<char>>,
    numeric: Option<Seq<char>>,
    lang: Option<Seq<char>>,
)
    requires
        trimmed(text).len() > 0,
    ensures
        locale_name(Some(text), time, numeric, lang) == trimmed(text),
        locale_name(None, Some(text), numeric, lang) == trimmed(text),
        locale_name(None, None, Some(text), lang) == trimmed(text),
        locale_name(None, None, None, Some(text)) == trimmed(text),
        locale_name(None, None, None, None) == "C"@,
{
}

} // verus!
