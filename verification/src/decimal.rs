//! Decimal numerals.

use crate::text::{chars_of, extend, slice_of, string_of};
use vstd::prelude::*;

verus! {

/// The numeral of one decimal digit.
pub open spec fn digit(n: nat) -> char {
    (48 + n % 10) as char
}

/// The decimal numeral of `n`, without leading zeros.
pub open spec fn digits(n: nat) -> Seq<char>
    decreases n,
{
    if n < 10 {
        seq![digit(n)]
    } else {
        digits(n / 10).push(digit(n % 10))
    }
}

/// `count` zeros.
pub open spec fn zeros(count: nat) -> Seq<char> {
    Seq::new(count, |i: int| '0')
}

/// The decimal numeral of `n`, filled up with zeros on the left to `width` digits.
pub open spec fn padded(n: nat, width: nat) -> Seq<char> {
    if digits(n).len() >= width {
        digits(n)
    } else {
        zeros((width - digits(n).len()) as nat) + digits(n)
    }
}

fn digit_char(n: u64) -> (c: char)
    ensures
        c == digit(n as nat),
{
    let d: u8 = 48 + (n % 10) as u8;
    d as char
}

/// Appends the decimal numeral of `n`.
pub fn push_digits(out: &mut Vec<char>, n: u64)
    ensures
        final(out)@ == old(out)@ + digits(n as nat),
    decreases n,
{
    let ghost before = out@;
    if n >= 10 {
        push_digits(out, n / 10);
    }
    out.push(digit_char(n % 10));
    assert(out@ =~= before + digits(n as nat));
}

/// The characters of the decimal numeral of `n`.
pub fn decimal_chars(n: u64) -> (r: Vec<char>)
    ensures
        r@ == digits(n as nat),
{
    let mut out: Vec<char> = Vec::new();
    push_digits(&mut out, n);
    assert(out@ =~= digits(n as nat));
    out
}

/// The decimal numeral of `n`.
pub fn decimal(n: u64) -> (r: String)
    ensures
        r@ == digits(n as nat),
{
    let chars = decimal_chars(n);
    string_of(&chars)
}

/// The decimal numeral of `n` with at least `width` digits.
pub fn decimal_padded(n: u64, width: usize) -> (r: Vec<char>)
    ensures
        r@ == padded(n as nat, width as nat),
{
    let chars = decimal_chars(n);
    if chars.len() >= width {
        return chars;
    }
    let mut out: Vec<char> = Vec::new();
    let missing: usize = width - chars.len();
    let mut i: usize = 0;
    while i < missing
        invariant
            i <= missing,
            out@ == zeros(i as nat),
        decreases missing - i,
    {
        out.push('0');
        assert(out@ =~= zeros((i + 1) as nat));
        i += 1;
    }
    extend(&mut out, &chars);
    out
}

/// A numeral is never empty, and its length grows with the number.
pub proof fn lemma_digits_len(n: nat)
    ensures
        digits(n).len() >= 1,
        n < 10 ==> digits(n).len() == 1,
        10 <= n < 100 ==> digits(n).len() == 2,
        100 <= n < 1000 ==> digits(n).len() == 3,
        1000 <= n ==> digits(n).len() >= 4,
    decreases n,
{
    if n >= 10 {
        lemma_digits_len(n / 10);
    }
}

/// Digits in groups of three counted from the right, `sep` between the groups.
pub open spec fn grouped(ds: Seq<char>, sep: Seq<char>) -> Seq<char>
    decreases ds.len(),
{
    if ds.len() <= 3 {
        ds
    } else {
        grouped(ds.take(ds.len() - 3), sep) + sep + ds.skip(ds.len() - 3)
    }
}

/// Grouping with an empty separator changes nothing.
pub proof fn lemma_grouped_empty(ds: Seq<char>)
    ensures
        grouped(ds, Seq::empty()) == ds,
    decreases ds.len(),
{
    if ds.len() > 3 {
        lemma_grouped_empty(ds.take(ds.len() - 3));
        assert(ds.take(ds.len() - 3) + Seq::<char>::empty() + ds.skip(ds.len() - 3) =~= ds);
    }
}

/// Puts `sep` between groups of three digits, counted from the right.
pub fn group_digits(ds: &Vec<char>, sep: &Vec<char>) -> (r: Vec<char>)
    ensures
        r@ == grouped(ds@, sep@),
{
    let n: usize = ds.len();
    if n <= 3 {
        return slice_of(ds, 0, n);
    }
    let first: usize = if n % 3 == 0 {
        3
    } else {
        n % 3
    };
    let mut out = slice_of(ds, 0, first);
    let mut at: usize = first;
    assert(ds@.take(at as int) =~= ds@.subrange(0, first as int));
    while at < n
        invariant
            n == ds@.len(),
            0 < at <= n,
            (n - at) % 3 == 0,
            out@ == grouped(ds@.take(at as int), sep@),
        decreases n - at,
    {
        extend(&mut out, sep);
        let part = slice_of(ds, at, at + 3);
        extend(&mut out, &part);
        proof {
            let t = ds@.take(at + 3);
            assert(t.take(t.len() - 3) =~= ds@.take(at as int));
            assert(t.skip(t.len() - 3) =~= part@);
        }
        at += 3;
    }
    assert(ds@.take(at as int) =~= ds@);
    out
}

/// Tells every other character from `c`.
pub open spec fn other_than(c: char) -> spec_fn(char) -> bool {
    |x: char| x != c
}

/// The text without the character `c`.
pub open spec fn without(s: Seq<char>, c: char) -> Seq<char> {
    s.filter(other_than(c))
}

/// Taking a one-character separator out of a grouped numeral gives the numeral back.
pub proof fn lemma_ungroup(ds: Seq<char>, c: char)
    requires
        forall|i: int| 0 <= i < ds.len() ==> ds[i] != c,
    ensures
        without(grouped(ds, seq![c]), c) == ds,
    decreases ds.len(),
{
    let keep = other_than(c);
    if ds.len() <= 3 {
        lemma_filter_all(ds, keep);
    } else {
        let head = ds.take(ds.len() - 3);
        let tail = ds.skip(ds.len() - 3);
        lemma_ungroup(head, c);
        lemma_filter_all(tail, keep);
        let g = grouped(head, seq![c]);
        Seq::<char>::filter_distributes_over_add(g + seq![c], tail, keep);
        Seq::<char>::filter_distributes_over_add(g, seq![c], keep);
        assert(seq![c].filter(keep) =~= Seq::<char>::empty()) by {
            reveal_with_fuel(Seq::filter, 2);
            assert(seq![c].drop_last() =~= Seq::<char>::empty());
            assert(!keep(seq![c].last()));
        }
        assert(head + Seq::<char>::empty() + tail =~= ds);
        assert(grouped(ds, seq![c]) == g + seq![c] + tail);
    }
}

proof fn lemma_filter_all(s: Seq<char>, p: spec_fn(char) -> bool)
    requires
        forall|i: int| 0 <= i < s.len() ==> p(s[i]),
    ensures
        s.filter(p) == s,
    decreases s.len(),
{
    reveal(Seq::filter);
    if s.len() > 0 {
        lemma_filter_all(s.drop_last(), p);
        assert(s.drop_last().push(s.last()) =~= s);
    }
}

/// The decimal numeral of an integer.
pub open spec fn signed_digits(n: int) -> Seq<char> {
    if n < 0 {
        seq!['-'] + digits((-n) as nat)
    } else {
        digits(n as nat)
    }
}

/// The decimal numeral of an integer.
pub fn signed_decimal(n: i64) -> (r: String)
    ensures
        r@ == signed_digits(n as int),
{
    let mut out: Vec<char> = Vec::new();
    if n < 0 {
        out.push('-');
    }
    let size: u64 = if n == i64::MIN {
        0x8000_0000_0000_0000
    } else if n < 0 {
        (-n) as u64
    } else {
        n as u64
    };
    push_digits(&mut out, size);
    assert(out@ =~= signed_digits(n as int));
    string_of(&out)
}

/// Every character is a decimal digit.
pub open spec fn all_digits(s: Seq<char>) -> bool {
    forall|i: int| 0 <= i < s.len() ==> '0' <= #[trigger] s[i] <= '9'
}

/// The number that decimal digits denote.
pub open spec fn digits_value(s: Seq<char>) -> nat
    decreases s.len(),
{
    if s.len() == 0 {
        0
    } else {
        10 * digits_value(s.drop_last()) + ((s.last() as int - 48) as nat)
    }
}

/// The number that a numeral of at least one digit denotes, at most `limit`.
pub open spec fn natural(s: Seq<char>, limit: nat) -> Option<nat> {
    if s.len() > 0 && all_digits(s) && digits_value(s) <= limit {
        Some(digits_value(s))
    } else {
        None
    }
}

/// The unsigned 64-bit number that a numeral denotes; a plus sign may stand before it.
pub open spec fn unsigned_of(s: Seq<char>) -> Option<u64> {
    let n = natural(
        if s.len() > 0 && s[0] == '+' {
            s.skip(1)
        } else {
            s
        },
        u64::MAX as nat,
    );
    match n {
        Some(v) => Some(v as u64),
        None => None,
    }
}

/// The signed 64-bit number that a numeral denotes; a sign may stand before it.
pub open spec fn signed_of(s: Seq<char>) -> Option<i64> {
    if s.len() > 0 && s[0] == '-' {
        match natural(s.skip(1), 0x8000_0000_0000_0000) {
            Some(v) => Some((-v) as i64),
            None => None,
        }
    } else {
        let n = natural(
            if s.len() > 0 && s[0] == '+' {
                s.skip(1)
            } else {
                s
            },
            i64::MAX as nat,
        );
        match n {
            Some(v) => Some(v as i64),
            None => None,
        }
    }
}

proof fn lemma_prefix_value(s: Seq<char>, i: int)
    requires
        0 <= i <= s.len(),
        all_digits(s),
    ensures
        digits_value(s.take(i)) <= digits_value(s),
    decreases s.len() - i,
{
    if i < s.len() {
        let next = s.take(i + 1);
        assert(next.drop_last() =~= s.take(i));
        assert(next.last() == s[i]);
        lemma_prefix_value(s, i + 1);
    } else {
        assert(s.take(i) =~= s);
    }
}

fn read_natural(s: &Vec<char>, from: usize, limit: u64) -> (r: Option<u64>)
    requires
        from <= s@.len(),
    ensures
        match r {
            Some(v) => natural(s@.skip(from as int), limit as nat) == Some(v as nat),
            None => natural(s@.skip(from as int), limit as nat) is None,
        },
{
    let ghost t = s@.skip(from as int);
    let mut acc: u128 = 0;
    let mut i: usize = from;
    assert(t.take(0) =~= Seq::<char>::empty());
    while i < s.len()
        invariant
            from <= i <= s@.len(),
            t == s@.skip(from as int),
            acc == digits_value(t.take(i - from)),
            acc <= limit,
            forall|k: int| 0 <= k < i - from ==> '0' <= #[trigger] t[k] <= '9',
        decreases s@.len() - i,
    {
        let c: char = s[i];
        assert(t[i - from] == c);
        if c < '0' || c > '9' {
            return None;
        }
        let ghost next = t.take(i - from + 1);
        assert(next.drop_last() =~= t.take(i - from));
        assert(next.last() == c);
        acc = 10 * acc + (c as u32 - 48) as u128;
        if acc > limit as u128 {
            proof {
                if all_digits(t) {
                    lemma_prefix_value(t, i - from + 1);
                }
            }
            return None;
        }
        i += 1;
    }
    assert(t.take(i - from) =~= t);
    if i == from {
        None
    } else {
        Some(acc as u64)
    }
}

/// Reads an unsigned 64-bit number.
pub fn read_unsigned(text: &str) -> (r: Option<u64>)
    ensures
        r == unsigned_of(text@),
{
    let s = chars_of(text);
    let from: usize = if s.len() > 0 && s[0] == '+' {
        1
    } else {
        0
    };
    assert(s@.skip(0) =~= s@);
    read_natural(&s, from, u64::MAX)
}

/// Reads a signed 64-bit number.
pub fn read_signed(text: &str) -> (r: Option<i64>)
    ensures
        r == signed_of(text@),
{
    let s = chars_of(text);
    assert(s@.skip(0) =~= s@);
    if s.len() > 0 && s[0] == '-' {
        return match read_natural(&s, 1, 0x8000_0000_0000_0000) {
            Some(v) => Some(
                if v == 0x8000_0000_0000_0000 {
                    i64::MIN
                } else {
                    -(v as i64)
                },
            ),
            None => None,
        };
    }
    let from: usize = if s.len() > 0 && s[0] == '+' {
        1
    } else {
        0
    };
    match read_natural(&s, from, i64::MAX as u64) {
        Some(v) => Some(v as i64),
        None => None,
    }
}

/// The numeral of a number denotes it.
pub proof fn numeral_round_trip(n: nat)
    ensures
        digits(n).len() > 0,
        all_digits(digits(n)),
        digits_value(digits(n)) == n,
    decreases n,
{
    if n >= 10 {
        numeral_round_trip(n / 10);
        assert(digits(n).drop_last() =~= digits(n / 10));
    } else {
        assert(digits(n).drop_last() =~= Seq::<char>::empty());
        assert(digits_value(Seq::<char>::empty()) == 0);
    }
}

/// A signed number is read back from its numeral.
pub proof fn signed_round_trip(n: i64)
    ensures
        signed_of(signed_digits(n as int)) == Some(n),
{
    if n < 0 {
        numeral_round_trip((-n) as nat);
        assert(signed_digits(n as int).skip(1) =~= digits((-n) as nat));
    } else {
        numeral_round_trip(n as nat);
        assert('0' <= digits(n as nat)[0] <= '9');
    }
}

} // verus!
