//! Labels for counts, token totals and durations.

use crate::decimal::{decimal_chars, digits, group_digits, grouped, push_digits};
use crate::double::{divide, fixed, fixed_chars, quotient, round, rounded, Double};
use crate::text::{slice_of, string_of};
use vstd::prelude::*;

verus! {

/// The unit that a large value is shown in: thousands, millions, billions or trillions.
pub open spec fn unit_of(value: nat) -> (nat, char) {
    if value >= 1_000_000_000_000 {
        (1_000_000_000_000, 'T')
    } else if value >= 1_000_000_000 {
        (1_000_000_000, 'B')
    } else if value >= 1_000_000 {
        (1_000_000, 'M')
    } else {
        (1_000, 'K')
    }
}

/// A numeral without trailing zeros.
pub open spec fn no_trailing_zeros(s: Seq<char>) -> Seq<char>
    decreases s.len(),
{
    if s.len() > 0 && s.last() == '0' {
        no_trailing_zeros(s.drop_last())
    } else {
        s
    }
}

/// A numeral without trailing zeros and without the dot that these leave at the end.
pub open spec fn trim_fraction(s: Seq<char>) -> Seq<char> {
    let t = no_trailing_zeros(s);
    if t.len() > 0 && t.last() == '.' {
        t.drop_last()
    } else {
        t
    }
}

/// `value` in its unit with at most `decimals` decimals.
pub open spec fn in_units(value: nat, decimals: nat) -> Seq<char> {
    let text = fixed(quotient(value, unit_of(value).0), decimals);
    (if decimals > 0 {
        trim_fraction(text)
    } else {
        text
    }).push(unit_of(value).1)
}

/// `value` in its unit without decimals, ties rounded up.
pub open spec fn whole_units(value: nat) -> Seq<char> {
    digits(rounded(quotient(value, unit_of(value).0))).push(unit_of(value).1)
}

/// At most the first `width` characters.
pub open spec fn clipped(s: Seq<char>, width: nat) -> Seq<char> {
    if s.len() <= width {
        s
    } else {
        s.take(width as int)
    }
}

/// The compact label of `value` within `width` cells: values below a thousand in full (their last
/// digits where that is too wide), others in their unit, with as many of two decimals as fit, and
/// none in five cells or less.
pub open spec fn compact_label(value: nat, width: nat) -> Seq<char> {
    if width == 0 {
        Seq::empty()
    } else if value < 1000 {
        let s = digits(value);
        if s.len() <= width {
            s
        } else {
            s.skip(s.len() - width)
        }
    } else if width <= 5 {
        clipped(in_units(value, 0), width)
    } else if in_units(value, 2).len() <= width {
        in_units(value, 2)
    } else if in_units(value, 1).len() <= width {
        in_units(value, 1)
    } else if in_units(value, 0).len() <= width {
        in_units(value, 0)
    } else {
        clipped(whole_units(value), width)
    }
}

fn unit_for(value: u64) -> (r: (u64, char))
    ensures
        (r.0 as nat, r.1) == unit_of(value as nat),
        1000 <= r.0 <= 1_000_000_000_000,
        value >= 1000 ==> value >= r.0,
{
    if value >= 1_000_000_000_000 {
        (1_000_000_000_000, 'T')
    } else if value >= 1_000_000_000 {
        (1_000_000_000, 'B')
    } else if value >= 1_000_000 {
        (1_000_000, 'M')
    } else {
        (1_000, 'K')
    }
}

fn scaled_value(value: u64) -> (r: (Double, char))
    requires
        value >= 1000,
    ensures
        (r.0.mant as nat, r.0.exp as int) == quotient(value as nat, unit_of(value as nat).0),
        r.1 == unit_of(value as nat).1,
        r.0.mant <= 0x20_0000_0000_0000,
        -52 <= r.0.exp <= 3,
{
    let (unit, suffix) = unit_for(value);
    let x = divide(value, unit);
    (x, suffix)
}

/// A scaled value with `decimals` decimals, trailing zeros trimmed, and its unit.
fn format_compact_scaled(x: Double, suffix: char, decimals: usize) -> (r: Vec<char>)
    requires
        x.mant <= 0x20_0000_0000_0000,
        -52 <= x.exp <= 3,
        decimals <= 2,
    ensures
        r@ == (if decimals > 0 {
            trim_fraction(fixed((x.mant as nat, x.exp as int), decimals as nat))
        } else {
            fixed((x.mant as nat, x.exp as int), decimals as nat)
        }).push(suffix),
{
    let mut s = fixed_chars(x, decimals);
    let ghost text = s@;
    if decimals > 0 {
        while s.len() > 0 && s[s.len() - 1] == '0'
            invariant
                no_trailing_zeros(text) == no_trailing_zeros(s@),
            ensures
                s@ == no_trailing_zeros(text),
            decreases s@.len(),
        {
            let ghost before = s@;
            s.pop();
            assert(s@ =~= before.drop_last());
        }
        if s.len() > 0 && s[s.len() - 1] == '.' {
            let ghost before = s@;
            s.pop();
            assert(s@ =~= before.drop_last());
        }
    }
    s.push(suffix);
    s
}

fn clip(s: &Vec<char>, width: usize) -> (r: Vec<char>)
    ensures
        r@ == clipped(s@, width as nat),
{
    if s.len() <= width {
        slice_of(s, 0, s.len())
    } else {
        slice_of(s, 0, width)
    }
}

/// The compact label of a value within a number of cells.
pub fn format_compact_kmb(value: u64, max_width: u16) -> (r: String)
    ensures
        r@ == compact_label(value as nat, max_width as nat),
{
    let width: usize = max_width as usize;
    if width == 0 {
        return String::new();
    }
    if value < 1000 {
        let s = decimal_chars(value);
        let from: usize = if s.len() <= width {
            0
        } else {
            s.len() - width
        };
        let t = slice_of(&s, from, s.len());
        assert(t@ =~= compact_label(value as nat, max_width as nat));
        return string_of(&t);
    }
    let (x, suffix) = scaled_value(value);
    if width <= 5 {
        let s = format_compact_scaled(x, suffix, 0);
        let t = clip(&s, width);
        return string_of(&t);
    }
    let two = format_compact_scaled(x, suffix, 2);
    if two.len() <= width {
        return string_of(&two);
    }
    let one = format_compact_scaled(x, suffix, 1);
    if one.len() <= width {
        return string_of(&one);
    }
    let none = format_compact_scaled(x, suffix, 0);
    if none.len() <= width {
        return string_of(&none);
    }
    let whole: u128 = round(x);
    proof {
        lemma_whole_small(x);
    }
    let mut s = decimal_chars(whole as u64);
    s.push(suffix);
    let t = clip(&s, width);
    string_of(&t)
}

proof fn lemma_whole_small(x: Double)
    requires
        x.mant <= 0x20_0000_0000_0000,
        -52 <= x.exp <= 3,
    ensures
        rounded((x.mant as nat, x.exp as int)) <= 0x200_0000_0000_0000,
{
    let m = x.mant as nat;
    if x.exp >= 0 {
        crate::double::lemma_two_to_mono(x.exp as nat, 3);
        reveal_with_fuel(crate::double::two_to, 4);
        let p = crate::double::two_to(x.exp as nat);
        assert(m * p <= 0x100_0000_0000_0000) by (nonlinear_arith)
            requires
                m <= 0x20_0000_0000_0000,
                p <= 8,
        ;
    } else {
        let p = crate::double::two_to((-x.exp) as nat);
        crate::double::lemma_two_to_mono(0, (-x.exp) as nat);
        assert((2 * m + p) / (2 * p) <= m + 1) by (nonlinear_arith)
            requires
                p >= 1,
        ;
    }
}

/// Values below zero count as zero.
pub open spec fn at_least_zero(v: int) -> nat {
    if v < 0 {
        0
    } else {
        v as nat
    }
}

/// The label of a token total: in full below a thousand, else in its unit with two decimals.
pub open spec fn tokens_label(value: int) -> Seq<char> {
    let v = at_least_zero(value);
    if v < 1000 {
        digits(v)
    } else {
        in_units(v, 2)
    }
}

/// The label of a token total.
pub fn format_tokens_compact(value: i64) -> (r: String)
    ensures
        r@ == tokens_label(value as int),
{
    let v: u64 = if value < 0 {
        0
    } else {
        value as u64
    };
    if v < 1000 {
        let s = decimal_chars(v);
        return string_of(&s);
    }
    let (x, suffix) = scaled_value(v);
    let s = format_compact_scaled(x, suffix, 2);
    string_of(&s)
}

/// The label of a count: digits in groups of three with commas.
pub open spec fn count_label(value: int) -> Seq<char> {
    grouped(digits(at_least_zero(value)), seq![','])
}

/// The label of a count.
pub fn format_count(value: i64) -> (r: String)
    ensures
        r@ == count_label(value as int),
{
    let v: u64 = if value < 0 {
        0
    } else {
        value as u64
    };
    let ds = decimal_chars(v);
    let mut comma: Vec<char> = Vec::new();
    comma.push(',');
    assert(comma@ =~= seq![',']);
    let g = group_digits(&ds, &comma);
    string_of(&g)
}

/// Whole hours, minutes and seconds of a number of milliseconds.
pub open spec fn hms(ms: int) -> (nat, nat, nat) {
    let secs = at_least_zero(ms) / 1000;
    (secs / 3600, (secs % 3600) / 60, secs % 60)
}

/// A duration in hours and minutes.
pub open spec fn short_duration(ms: int) -> Seq<char> {
    let (h, m, s) = hms(ms);
    if h > 0 {
        digits(h) + seq!['h', ' '] + digits(m) + seq!['m']
    } else {
        digits(m) + seq!['m']
    }
}

/// A duration in hours, minutes and seconds.
pub open spec fn long_duration(ms: int) -> Seq<char> {
    let (h, m, s) = hms(ms);
    if h > 0 {
        digits(h) + seq!['h', ' '] + digits(m) + seq!['m', ' '] + digits(s) + seq!['s']
    } else if m > 0 {
        digits(m) + seq!['m', ' '] + digits(s) + seq!['s']
    } else {
        digits(s) + seq!['s']
    }
}

fn hours_minutes_seconds(ms: i64) -> (r: (u64, u64, u64))
    ensures
        (r.0 as nat, r.1 as nat, r.2 as nat) == hms(ms as int),
{
    let millis: u64 = if ms < 0 {
        0
    } else {
        ms as u64
    };
    let secs: u64 = millis / 1000;
    assert((secs % 3600) % 60 == secs % 60);
    (secs / 3600, (secs % 3600) / 60, (secs % 3600) % 60)
}

/// The label of a duration in hours and minutes.
pub fn format_duration_compact(ms: i64) -> (r: String)
    ensures
        r@ == short_duration(ms as int),
{
    let (h, m, _s) = hours_minutes_seconds(ms);
    let mut out: Vec<char> = Vec::new();
    if h > 0 {
        push_digits(&mut out, h);
        out.push('h');
        out.push(' ');
    }
    push_digits(&mut out, m);
    out.push('m');
    assert(out@ =~= short_duration(ms as int));
    string_of(&out)
}

/// The label of a duration in hours, minutes and seconds.
pub fn format_duration(ms: i64) -> (r: String)
    ensures
        r@ == long_duration(ms as int),
{
    let (h, m, s) = hours_minutes_seconds(ms);
    let mut out: Vec<char> = Vec::new();
    if h > 0 {
        push_digits(&mut out, h);
        out.push('h');
        out.push(' ');
    }
    if h > 0 || m > 0 {
        push_digits(&mut out, m);
        out.push('m');
        out.push(' ');
    }
    push_digits(&mut out, s);
    out.push('s');
    assert(out@ =~= long_duration(ms as int));
    string_of(&out)
}

/// A compact label never takes more cells than it is given.
pub proof fn compact_label_fits(value: nat, width: nat)
    ensures
        compact_label(value, width).len() <= width,
{
}

proof fn lemma_no_trailing_zeros(s: Seq<char>)
    ensures
        no_trailing_zeros(s).len() <= s.len(),
    decreases s.len(),
{
    if s.len() > 0 && s.last() == '0' {
        lemma_no_trailing_zeros(s.drop_last());
    }
}

/// Every value in its unit with two decimals takes at most eleven cells.
proof fn lemma_units_fit(value: nat)
    requires
        1000 <= value <= i64::MAX,
    ensures
        in_units(value, 2).len() <= 11,
{
    let unit = unit_of(value).0;
    crate::double::lemma_natural_bound(value);
    crate::double::lemma_natural_bound(unit);
    let n = crate::double::nearest_int(value);
    assert(n < 0x20_0000_0000_0000 * unit);
    crate::double::lemma_hundredths_close(n, unit);
    let s = crate::double::scaled(quotient(value, unit), 2);
    assert(s < 1_000_000_000);
    let text = fixed(quotient(value, unit), 2);
    reveal_with_fuel(digits, 8);
    assert(digits(s / 100).len() <= 7);
    assert(digits(s % 100).len() <= 2);
    lemma_no_trailing_zeros(text);
}

/// From eleven cells on the compact label of a token total is the label that a card shows.
pub proof fn wide_labels_are_token_labels(value: i64, width: nat)
    requires
        width >= 11,
    ensures
        compact_label(at_least_zero(value as int), width) == tokens_label(value as int),
{
    let v = at_least_zero(value as int);
    if v < 1000 {
        crate::decimal::lemma_digits_len(v);
    } else {
        lemma_units_fit(v);
    }
}

} // verus!
