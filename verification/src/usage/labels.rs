//! Labels of usage values in a display style.

use crate::calendar::{parse_date, parsed_date};
use crate::locale::{
    localized, number_text, short_date, DisplayFormatter, DisplayStyle,
};
use crate::text::{byte_len, byte_prefix, chars_of, extend, fits, slice_of, string_of};
use crate::usage::format::{
    at_least_zero, compact_label, format_compact_kmb, format_tokens_compact, tokens_label,
};
use vstd::prelude::*;

verus! {

/// A compact value within a number of cells.
pub open spec fn compact_text(f: DisplayFormatter, value: nat, width: nat) -> Seq<char> {
    localized(f, compact_label(value, width))
}

/// A token total in its unit.
pub open spec fn tokens_text(f: DisplayFormatter, value: int) -> Seq<char> {
    localized(f, tokens_label(value))
}

/// A token total of the dashboard: in its unit in the compact style, in full otherwise.
pub open spec fn overview_text(f: DisplayFormatter, value: int) -> Seq<char> {
    if f.style == DisplayStyle::SystemCompact {
        tokens_text(f, value)
    } else {
        number_text(f, at_least_zero(value))
    }
}

impl<'a> DisplayFormatter<'a> {
    /// A compact value within a number of cells.
    pub fn compact_kmb(self, value: u64, max_width: u16) -> (r: String)
        ensures
            r@ == compact_text(self, value as nat, max_width as nat),
    {
        let s = format_compact_kmb(value, max_width);
        self.localize_decimal(s.as_str())
    }

    /// A token total in its unit.
    pub fn tokens_compact(self, value: i64) -> (r: String)
        ensures
            r@ == tokens_text(self, value as int),
    {
        let s = format_tokens_compact(value);
        self.localize_decimal(s.as_str())
    }

    /// A token total of the dashboard.
    pub fn tokens_overview(self, value: i64) -> (r: String)
        ensures
            r@ == overview_text(self, value as int),
    {
        if self.style == DisplayStyle::SystemCompact {
            self.tokens_compact(value)
        } else {
            self.format_count(value)
        }
    }
}

/// The characters whose bytes lie between two offsets.
pub open spec fn byte_range(s: Seq<char>, from: nat, to: nat) -> Seq<char> {
    byte_prefix(s, to).skip(byte_prefix(s, from).len() as int)
}

/// A character ends at byte `at`.
pub open spec fn ends_at(s: Seq<char>, at: nat) -> bool {
    byte_len(byte_prefix(s, at)) == at
}

/// The month that two digits name, abbreviated; the digits themselves where they name none.
pub open spec fn month_of_digits(s: Seq<char>) -> Seq<char> {
    if s == "01"@ {
        "Jan"@
    } else if s == "02"@ {
        "Feb"@
    } else if s == "03"@ {
        "Mar"@
    } else if s == "04"@ {
        "Apr"@
    } else if s == "05"@ {
        "May"@
    } else if s == "06"@ {
        "Jun"@
    } else if s == "07"@ {
        "Jul"@
    } else if s == "08"@ {
        "Aug"@
    } else if s == "09"@ {
        "Sep"@
    } else if s == "10"@ {
        "Oct"@
    } else if s == "11"@ {
        "Nov"@
    } else if s == "12"@ {
        "Dec"@
    } else {
        s
    }
}

/// The label of a day key: month and day of `YYYY-MM-DD`, any other text as it is.
pub open spec fn day_label(day: Seq<char>) -> Seq<char> {
    if byte_len(day) == 10 {
        month_of_digits(byte_range(day, 5, 7)) + seq![' '] + byte_range(day, 8, 10)
    } else {
        day
    }
}

/// Characters end where the label of a day key cuts it.
pub open spec fn day_key_cuts(day: Seq<char>) -> bool {
    byte_len(day) == 10 ==> ends_at(day, 5) && ends_at(day, 7) && ends_at(day, 8)
}

/// The longest prefix that takes at most `budget` bytes.
fn prefix_within(s: &Vec<char>, budget: usize) -> (r: Vec<char>)
    ensures
        r@ == byte_prefix(s@, budget as nat),
{
    let mut out = slice_of(s, 0, s.len());
    assert(out@ =~= s@);
    while out.len() > 0 && !fits(&out, budget)
        invariant
            byte_prefix(s@, budget as nat) == byte_prefix(out@, budget as nat),
        ensures
            out@ == byte_prefix(s@, budget as nat),
        decreases out@.len(),
    {
        let ghost before = out@;
        out.pop();
        assert(out@ =~= before.drop_last());
    }
    out
}

/// A shorter budget gives no longer prefix.
proof fn lemma_prefix_mono(s: Seq<char>, a: nat, b: nat)
    requires
        a <= b,
    ensures
        byte_prefix(s, a).len() <= byte_prefix(s, b).len() <= s.len(),
    decreases s.len(),
{
    if s.len() > 0 && byte_len(s) > a {
        lemma_prefix_mono(s.drop_last(), a, b);
    }
    if s.len() > 0 && byte_len(s) > b {
        lemma_prefix_mono(s.drop_last(), b, b);
    }
}

fn bytes_between(s: &Vec<char>, from: usize, to: usize) -> (r: Vec<char>)
    requires
        from <= to,
    ensures
        r@ == byte_range(s@, from as nat, to as nat),
{
    let head = prefix_within(s, from);
    let all = prefix_within(s, to);
    proof {
        lemma_prefix_mono(s@, from as nat, to as nat);
    }
    slice_of(&all, head.len(), all.len())
}

fn month_from_digits(s: String) -> (r: String)
    ensures
        r@ == month_of_digits(s@),
{
    let t = s.as_str();
    let name: &str = if crate::text::same(t, "01") {
        "Jan"
    } else if crate::text::same(t, "02") {
        "Feb"
    } else if crate::text::same(t, "03") {
        "Mar"
    } else if crate::text::same(t, "04") {
        "Apr"
    } else if crate::text::same(t, "05") {
        "May"
    } else if crate::text::same(t, "06") {
        "Jun"
    } else if crate::text::same(t, "07") {
        "Jul"
    } else if crate::text::same(t, "08") {
        "Aug"
    } else if crate::text::same(t, "09") {
        "Sep"
    } else if crate::text::same(t, "10") {
        "Oct"
    } else if crate::text::same(t, "11") {
        "Nov"
    } else if crate::text::same(t, "12") {
        "Dec"
    } else {
        t
    };
    name.to_owned()
}

/// The day of the month of a day key: its ninth and tenth byte.
pub fn day_of_month_text(day: &str) -> (r: String)
    requires
        byte_len(day@) == 10 ==> ends_at(day@, 8),
    ensures
        r@ == byte_range(day@, 8, 10),
{
    let chars = chars_of(day);
    let d = bytes_between(&chars, 8, 10);
    string_of(&d)
}

/// The label of a day key.
pub fn label_of_day(day: &str) -> (r: String)
    requires
        day_key_cuts(day@),
    ensures
        r@ == day_label(day@),
{
    let chars = chars_of(day);
    if fits(&chars, 10) && !fits(&chars, 9) {
        let month = bytes_between(&chars, 5, 7);
        let dom = bytes_between(&chars, 8, 10);
        let name = month_from_digits(string_of(&month));
        let mut out = chars_of(name.as_str());
        out.push(' ');
        extend(&mut out, &dom);
        assert(out@ =~= day_label(day@));
        return string_of(&out);
    }
    day.to_owned()
}

/// The label of a day key in a style: the system styles show the date that it denotes.
pub open spec fn styled_day_label(f: DisplayFormatter, day: Seq<char>) -> Seq<char> {
    if f.style == DisplayStyle::Classic {
        day_label(day)
    } else {
        match parsed_date(day) {
            Some(d) => short_date(f, d),
            None => day,
        }
    }
}

impl<'a> DisplayFormatter<'a> {
    /// The label of a day key.
    pub fn short_day(self, day: &str) -> (r: String)
        requires
            day_key_cuts(day@),
        ensures
            r@ == styled_day_label(self, day@),
    {
        if self.style == DisplayStyle::Classic {
            return label_of_day(day);
        }
        match parse_date(day) {
            Some(d) => self.format_short_date(d),
            None => day.to_owned(),
        }
    }
}

} // verus!
