//! How near rounded numbers are to what they stand for.

use crate::double::{
    ceiling, finite, half_even, lemma_two_to, lemma_two_to_add, lemma_two_to_mono,
    lemma_two_to_values, nearest, nearest_large, nearest_signed, nearest_small, negative, parts,
    percent_left, product, quotient, reaches, rounded,
    rounded_hours, rounded_mean, two_to,
};
use vstd::prelude::*;

verus! {

/// A binary64 number is this natural number.
pub open spec fn is_natural(bits: u64, n: nat) -> bool {
    let (m, e) = parts(bits);
    &&& finite(bits)
    &&& !negative(bits)
    &&& if e >= 0 {
        m * two_to(e as nat) == n
    } else {
        m == n * two_to((-e) as nat)
    }
}

pub proof fn lemma_half_even_near(n: nat, d: nat)
    requires
        d > 0,
    ensures
        2 * (d * half_even(n, d)) <= 2 * n + d,
        2 * (d * half_even(n, d)) >= 2 * n - d,
{
    vstd::arithmetic::div_mod::lemma_fundamental_div_mod(n as int, d as int);
    let q = n / d;
    assert(d * (q + 1) == d * q + d) by (nonlinear_arith);
}

/// Scaling up until 53 bits are filled keeps the number: what is lost is half a unit at most.
pub proof fn lemma_small_near(whole: nat, n: nat, d: nat, exp: int)
    requires
        d > 0,
        exp <= 0,
        n == whole * two_to((-exp) as nat),
        n < 0x20_0000_0000_0000 * d,
    ensures
        ({
            let x = nearest_small(n, d, exp);
            let p = two_to((-x.1) as nat);
            &&& x.1 <= 0
            &&& 2 * (d * x.0) <= 2 * (whole * p) + d
            &&& 2 * (d * x.0) >= 2 * (whole * p) - d
            &&& whole > 0 ==> x.0 >= 0x10_0000_0000_0000
        }),
    decreases 0x20_0000_0000_0000 * d - n,
{
    if 0 < n < 0x10_0000_0000_0000 * d {
        lemma_two_to((-exp) as nat);
        assert(2 * n == whole * two_to((-(exp - 1)) as nat)) by (nonlinear_arith)
            requires
                n == whole * two_to((-exp) as nat),
                two_to((-(exp - 1)) as nat) == 2 * two_to((-exp) as nat),
        ;
        lemma_small_near(whole, 2 * n, d, exp - 1);
    } else {
        lemma_half_even_near(n, d);
        if whole > 0 {
            lemma_two_to((-exp) as nat);
            let p = two_to((-exp) as nat);
            assert(n > 0) by (nonlinear_arith)
                requires
                    n == whole * p,
                    whole > 0,
                    p >= 1,
            ;
            assert(n / d >= 0x10_0000_0000_0000) by (nonlinear_arith)
                requires
                    d > 0,
                    n >= 0x10_0000_0000_0000 * d,
            ;
        }
    }
}

/// What `lemma_small_near` says of the double nearest to a quotient.
pub proof fn lemma_nearest_near(n: nat, d: nat)
    requires
        d > 0,
        n < 0x20_0000_0000_0000 * d,
    ensures
        ({
            let x = nearest(n, d);
            let p = two_to((-x.1) as nat);
            &&& x.1 <= 0
            &&& p >= 1
            &&& 2 * (d * x.0) <= 2 * (n * p) + d
            &&& 2 * (d * x.0) >= 2 * (n * p) - d
            &&& n > 0 ==> x.0 >= 0x10_0000_0000_0000
        }),
{
    assert(two_to(0) == 1);
    assert(n * two_to(0) == n) by (nonlinear_arith)
        requires
            two_to(0) == 1,
    ;
    lemma_small_near(n, n, d, 0);
    lemma_two_to((-nearest(n, d).1) as nat);
}

/// A natural number that is divided evenly is divided exactly.
pub proof fn lemma_nearest_exact(q: nat, d: nat)
    requires
        d > 0,
        q < 0x20_0000_0000_0000,
    ensures
        ({
            let x = nearest(q * d, d);
            &&& x.1 <= 0
            &&& x.0 == q * two_to((-x.1) as nat)
            &&& rounded(x) == q
        }),
{
    assert(q * d < 0x20_0000_0000_0000 * d) by (nonlinear_arith)
        requires
            q < 0x20_0000_0000_0000,
            d > 0,
    ;
    let n = q * d;
    lemma_nearest_near(n, d);
    let x = nearest(n, d);
    let p = two_to((-x.1) as nat);
    let m = x.0;
    assert(n * p == d * (q * p)) by (nonlinear_arith)
        requires
            n == q * d,
    ;
    let t = q * p;
    assert(m == t) by (nonlinear_arith)
        requires
            2 * (d * m) <= 2 * (d * t) + d,
            2 * (d * m) >= 2 * (d * t) - d,
            d > 0,
    ;
    lemma_rounded_exact(q, x);
}

/// A double that is a natural number rounds to it.
pub proof fn lemma_rounded_exact(q: nat, x: (nat, int))
    requires
        x.1 <= 0,
        x.0 == q * two_to((-x.1) as nat),
    ensures
        rounded(x) == q,
{
    lemma_two_to((-x.1) as nat);
    let p = two_to((-x.1) as nat);
    if x.1 == 0 {
        assert(two_to(0) == 1);
        assert(x.0 * 1 == q) by (nonlinear_arith)
            requires
                x.0 == q * p,
                p == 1,
        ;
    } else {
        assert((2 * (q * p) + p) / (2 * p) == q) by (nonlinear_arith)
            requires
                p >= 1,
        {
            assert(2 * (q * p) + p == q * (2 * p) + p);
            vstd::arithmetic::div_mod::lemma_fundamental_div_mod_converse(
                (2 * (q * p) + p) as int,
                (2 * p) as int,
                q as int,
                p as int,
            );
        }
    }
}

/// A rounded double is half a unit away at most.
pub proof fn lemma_rounded_near(x: (nat, int))
    requires
        x.1 <= 0,
    ensures
        ({
            let p = two_to((-x.1) as nat);
            &&& p >= 1
            &&& 2 * (p * rounded(x)) <= 2 * x.0 + p
            &&& 2 * (p * rounded(x)) >= 2 * x.0 - p
        }),
{
    lemma_two_to((-x.1) as nat);
    let p = two_to((-x.1) as nat);
    let r = rounded(x);
    if x.1 == 0 {
        assert(two_to(0) == 1);
        assert(p * r == x.0) by (nonlinear_arith)
            requires
                p == 1,
                r == x.0 * 1,
        ;
    } else {
        vstd::arithmetic::div_mod::lemma_fundamental_div_mod(
            (2 * x.0 + p) as int,
            (2 * p) as int,
        );
        assert((2 * p) * r == 2 * (p * r)) by (nonlinear_arith);
    }
}

/// What a whole percentage leaves of a hundred is the rest of it, and nothing where it is more.
pub proof fn whole_percents_leave_the_rest(bits: u64, used: nat)
    requires
        is_natural(bits, used),
    ensures
        used <= 100 ==> percent_left(bits) == 100 - used,
        used >= 100 ==> percent_left(bits) == 0,
{
    lemma_natural_reaches(bits, used, 100);
    let (m, e) = parts(bits);
    if e < -60 {
        // A number above zero with so small a unit is below one.
        lemma_two_to_values();
        lemma_two_to_mono(53, (-e) as nat);
        if used >= 1 {
            assert(m >= two_to((-e) as nat)) by (nonlinear_arith)
                requires
                    m == used * two_to((-e) as nat),
                    used >= 1,
            ;
            assert(m < 0x20_0000_0000_0000);
        }
    } else if used < 100 {
        if e >= 0 {
            lemma_two_to(e as nat);
            assert(m >= 0x10_0000_0000_0000);
            assert(m * two_to(e as nat) >= m) by (nonlinear_arith)
                requires
                    two_to(e as nat) >= 1,
                    m >= 0,
            ;
        }
        let p = two_to((-e) as nat);
        lemma_two_to((-e) as nat);
        let q = (100 - used) as nat;
        assert(100 * p - m == q * p) by (nonlinear_arith)
            requires
                m == used * p,
                q == 100 - used,
        ;
        lemma_nearest_exact(q, p);
    }
}

/// A natural number reaches another where it is not below it.
pub proof fn lemma_natural_reaches(bits: u64, value: nat, n: nat)
    requires
        is_natural(bits, value),
    ensures
        reaches(bits, n) <==> value >= n,
{
    let (m, e) = parts(bits);
    if e < 0 {
        lemma_two_to((-e) as nat);
        let p = two_to((-e) as nat);
        assert((value * p >= n * p) == (value >= n)) by (nonlinear_arith)
            requires
                p >= 1,
        ;
    }
}

/// The nearest integer to a whole number is that number.
pub proof fn whole_numbers_stay(bits: u64, n: nat)
    requires
        is_natural(bits, n),
        n < 0x20_0000_0000_0000,
    ensures
        nearest_signed(bits) == n,
{
    let (m, e) = parts(bits);
    if e > 0 {
        lemma_two_to_mono(1, e as nat);
        lemma_two_to_values();
        assert(m * two_to(e as nat) >= 0x20_0000_0000_0000) by (nonlinear_arith)
            requires
                m >= 0x10_0000_0000_0000,
                two_to(e as nat) >= 2,
        ;
    } else {
        if e == 0 {
            assert(two_to(0) == 1);
        }
        assert(m == n * two_to((-e) as nat)) by {
            if e == 0 {
                assert(m * two_to(0) == m) by (nonlinear_arith)
                    requires
                        two_to(0) == 1,
                ;
                assert(n * two_to(0) == n) by (nonlinear_arith)
                    requires
                        two_to(0) == 1,
                ;
            }
        }
        lemma_rounded_exact(n, (m, e));
    }
}

/// Sixty minutes are an hour: a whole number of hours in minutes gives that number.
pub proof fn sixty_minutes_are_an_hour(bits: u64, hours: nat)
    requires
        is_natural(bits, 60 * hours),
        hours < 0x1_0000_0000_0000,
    ensures
        rounded_hours(bits) == hours,
{
    let (m, e) = parts(bits);
    if e >= 0 {
        if e > 17 {
            lemma_two_to_mono(17, e as nat);
            lemma_two_to_values();
            assert(m * two_to(e as nat) >= 0x10_0000_0000_0000 * 0x2_0000) by (nonlinear_arith)
                requires
                    m >= 0x10_0000_0000_0000,
                    two_to(e as nat) >= 0x2_0000,
            ;
        }
        lemma_nearest_exact(hours, 60);
        assert(m * two_to(e as nat) == hours * 60);
        let x = nearest((hours * 60) as nat, 60);
    } else {
        lemma_two_to((-e) as nat);
        let p = two_to((-e) as nat);
        assert(m == hours * (60 * p)) by (nonlinear_arith)
            requires
                m == (60 * hours) * p,
        ;
        lemma_nearest_exact(hours, 60 * p);
    }
}

/// The mean of items that divide evenly is exact, and every mean is less than one off.
pub proof fn means_are_near(sum: int, count: nat)
    requires
        0 <= sum < 0x20_0000_0000_0000,
        0 < count < 0x20_0000_0000_0000,
    ensures
        count * rounded_mean(sum, count) <= sum + count,
        count * rounded_mean(sum, count) >= sum - count,
        sum % (count as int) == 0 ==> count * rounded_mean(sum, count) == sum,
        rounded_mean(sum, count) >= 0,
{
    let n = sum as nat;
    let d = count;
    assert(n < 0x20_0000_0000_0000 * d) by (nonlinear_arith)
        requires
            n < 0x20_0000_0000_0000,
            d >= 1,
    ;
    lemma_nearest_near(n, d);
    let x = nearest(n, d);
    lemma_rounded_near(x);
    let p = two_to((-x.1) as nat);
    let r = rounded(x);
    let m = x.0;
    assert(d * r <= n + d) by (nonlinear_arith)
        requires
            2 * (d * m) <= 2 * (n * p) + d,
            2 * (p * r) <= 2 * m + p,
            p >= 1,
            d >= 1,
    {
        assert(d * (2 * (p * r)) <= d * (2 * m + p));
        assert(p * (2 * (d * r)) <= p * (2 * n) + d + d * p);
        assert(d <= d * p);
        assert(p * (2 * (d * r)) <= p * (2 * n + 2 * d));
    }
    assert(d * r >= n - d) by (nonlinear_arith)
        requires
            2 * (d * m) >= 2 * (n * p) - d,
            2 * (p * r) >= 2 * m - p,
            p >= 1,
            d >= 1,
    {
        assert(d * (2 * (p * r)) >= d * (2 * m - p));
        assert(p * (2 * (d * r)) >= p * (2 * n) - d - d * p);
        assert(d <= d * p);
        assert(p * (2 * (d * r)) >= p * (2 * n - 2 * d));
    }
    assert(r <= 0x40_0000_0000_0000) by (nonlinear_arith)
        requires
            d * r <= n + d,
            d >= 1,
            n < 0x20_0000_0000_0000,
            d < 0x20_0000_0000_0000,
    ;
    if sum % (count as int) == 0 {
        let q = (sum / (count as int)) as nat;
        vstd::arithmetic::div_mod::lemma_fundamental_div_mod(sum, count as int);
        assert(0 <= sum / (count as int) <= sum) by (nonlinear_arith)
            requires
                sum >= 0,
                count >= 1,
        ;
        assert(q * d == n) by (nonlinear_arith)
            requires
                sum == count * (sum / (count as int)),
                q == sum / (count as int),
                n == sum,
                d == count,
        ;
        lemma_nearest_exact(q, d);
        assert(d * q == n) by (nonlinear_arith)
            requires
                q * d == n,
        ;
    }
}

proof fn lemma_large_near(n: nat, d: nat, exp: nat)
    requires
        d == two_to(exp),
        n >= 0x10_0000_0000_0000 * d,
    ensures
        ({
            let x = nearest_large(n, d, exp as int);
            let p = two_to(x.1 as nat);
            &&& x.1 >= exp
            &&& 2 * (p * x.0) <= 2 * n + p
            &&& 2 * (p * x.0) >= 2 * n - p
            &&& 0x10_0000_0000_0000 * p <= n
        }),
    decreases n - d,
{
    lemma_two_to(exp);
    if n >= 0x20_0000_0000_0000 * d {
        lemma_large_near(n, 2 * d, exp + 1);
    } else {
        lemma_half_even_near(n, d);
    }
}

/// A share of cells is less than one cell off: `cells` times `part` of `whole`.
pub proof fn shares_are_near(cells: nat, part: nat, whole: nat)
    requires
        1 <= cells <= 65535,
        0 < part <= whole < 0x20_0000_0000_0000,
    ensures
        whole * rounded(product(cells, quotient(part, whole))) <= cells * part + whole,
        whole * rounded(product(cells, quotient(part, whole))) >= cells * part - whole,
{
    assert(part < 0x20_0000_0000_0000 * whole);
    lemma_nearest_near(part, whole);
    let x = nearest(part, whole);
    let p = two_to((-x.1) as nat);
    let m = x.0;
    assert(m <= p) by (nonlinear_arith)
        requires
            2 * (whole * m) <= 2 * (part * p) + whole,
            part <= whole,
            whole >= 1,
            p >= 1,
    {
        assert(part * p <= whole * p);
        assert(2 * (whole * m) <= 2 * (whole * p) + whole);
        if m >= p + 1 {
            assert(whole * m >= whole * (p + 1));
        }
    }
    lemma_mantissa_bound(part, whole);
    let n = cells * m;
    assert(n >= 0x10_0000_0000_0000) by (nonlinear_arith)
        requires
            n == cells * m,
            cells >= 1,
            m >= 0x10_0000_0000_0000,
    ;
    assert(n <= 65535 * 0x20_0000_0000_0000) by (nonlinear_arith)
        requires
            n == cells * m,
            cells <= 65535,
            m <= 0x20_0000_0000_0000,
    ;
    assert(two_to(0) == 1);
    let y = nearest(n, 1);
    let s = two_to(y.1 as nat);
    if n >= 0x20_0000_0000_0000 {
        lemma_large_near(n, 1, 0);
    } else {
        assert(y == (half_even(n, 1), 0int));
        lemma_half_even_near(n, 1);
    }
    let v = y.0;
    assert(y.1 >= 0 && 2 * (s * v) <= 2 * n + s && 2 * (s * v) >= 2 * n - s && 0x10_0000_0000_0000
        * s <= n);
    lemma_two_to(y.1 as nat);
    assert(s <= 131070);
    lemma_two_to_values();
    if y.1 >= 17 {
        lemma_two_to_mono(17, y.1 as nat);
    }
    if -x.1 < 52 {
        lemma_two_to_mono((-x.1) as nat, 51);
        lemma_two_to_add(51, 2);
        assert(two_to(2) == 4) by {
            reveal_with_fuel(two_to, 4);
        }
        assert(two_to(51) * 4 == 0x20_0000_0000_0000);
    }
    let z = product(cells, x);
    assert(z == (y.0, y.1 + x.1));
    assert(z.1 < 0);
    lemma_rounded_near(z);
    let r = rounded(z);
    let w = two_to((-z.1) as nat);
    lemma_two_to_add((-z.1) as nat, y.1 as nat);
    assert((-z.1) as nat + y.1 as nat == (-x.1) as nat);
    assert(w * s == p);
    assert(2 * (p * r) <= 2 * n + s + p && 2 * (p * r) >= 2 * n - s - p) by (nonlinear_arith)
        requires
            2 * (w * r) <= 2 * v + w,
            2 * (w * r) >= 2 * v - w,
            2 * (s * v) <= 2 * n + s,
            2 * (s * v) >= 2 * n - s,
            w * s == p,
            s >= 1,
    {
        assert(s * (2 * (w * r)) <= s * (2 * v + w));
        assert(s * (2 * (w * r)) >= s * (2 * v - w));
        assert(s * (2 * (w * r)) == 2 * (p * r));
    }
    assert(p >= 200000);
    assert(whole * r <= cells * part + whole) by (nonlinear_arith)
        requires
            2 * (p * r) <= 2 * (cells * m) + s + p,
            s <= 131070,
            cells <= 65535,
            2 * (whole * m) <= 2 * (part * p) + whole,
            whole >= 1,
            p >= 200000,
    {
        assert(whole * (2 * (p * r)) <= whole * (2 * (cells * m) + 131070 + p));
        assert(whole * (2 * (cells * m)) == cells * (2 * (whole * m)));
        assert(cells * (2 * (whole * m)) <= cells * (2 * (part * p) + whole));
        assert(cells * whole <= 65535 * whole);
        assert(whole * 200000 <= whole * p);
        assert(p * (2 * (whole * r)) <= p * (2 * (cells * part) + 2 * whole));
    }
    assert(whole * r >= cells * part - whole) by (nonlinear_arith)
        requires
            2 * (p * r) >= 2 * (cells * m) - s - p,
            s <= 131070,
            cells <= 65535,
            2 * (whole * m) >= 2 * (part * p) - whole,
            whole >= 1,
            p >= 200000,
    {
        assert(whole * (2 * (p * r)) >= whole * (2 * (cells * m) - 131070 - p));
        assert(whole * (2 * (cells * m)) == cells * (2 * (whole * m)));
        assert(cells * (2 * (whole * m)) >= cells * (2 * (part * p) - whole));
        assert(cells * whole <= 65535 * whole);
        assert(whole * 200000 <= whole * p);
        assert(p * (2 * (whole * r)) >= p * (2 * (cells * part) - 2 * whole));
    }
}

/// A quarter more or less: the number of quarters of a whole that a part begins.
pub proof fn quarters_are_near(part: nat, whole: nat)
    requires
        0 < part <= whole < 0x20_0000_0000_0000,
    ensures
        ({
            let c = ceiling(product(4, quotient(part, whole)));
            &&& c >= 1
            &&& whole * c >= 4 * part - 12
            &&& whole * (c - 1) <= 4 * part + 12
        }),
{
    assert(part < 0x20_0000_0000_0000 * whole);
    lemma_nearest_near(part, whole);
    let x = nearest(part, whole);
    let p = two_to((-x.1) as nat);
    let m = x.0;
    assert(m <= p) by (nonlinear_arith)
        requires
            2 * (whole * m) <= 2 * (part * p) + whole,
            part <= whole,
            whole >= 1,
            p >= 1,
    {
        assert(part * p <= whole * p);
        assert(2 * (whole * m) <= 2 * (whole * p) + whole);
        if m >= p + 1 {
            assert(whole * m >= whole * (p + 1));
        }
    }
    lemma_mantissa_bound(part, whole);
    let n = 4 * m;
    assert(two_to(0) == 1);
    let y = nearest(n, 1);
    let s = two_to(y.1 as nat);
    lemma_large_near(n, 1, 0);
    let v = y.0;
    lemma_two_to(y.1 as nat);
    assert(s <= 8);
    lemma_two_to_values();
    if y.1 >= 11 {
        lemma_two_to_mono(11, y.1 as nat);
    }
    if -x.1 < 52 {
        lemma_two_to_mono((-x.1) as nat, 51);
        lemma_two_to_add(51, 2);
        assert(two_to(2) == 4) by {
            reveal_with_fuel(two_to, 4);
        }
        assert(two_to(51) * 4 == 0x20_0000_0000_0000);
    }
    let z = product(4, x);
    assert(z == (y.0, y.1 + x.1));
    assert(z.1 < 0);
    let w = two_to((-z.1) as nat);
    lemma_two_to((-z.1) as nat);
    lemma_two_to_add((-z.1) as nat, y.1 as nat);
    assert((-z.1) as nat + y.1 as nat == (-x.1) as nat);
    assert(w * s == p);
    let c = ceiling(z) as int;
    vstd::arithmetic::div_mod::lemma_fundamental_div_mod(v + w - 1, w as int);
    assert(c == (v + w - 1) / (w as int)) by {
        assert((v + w - 1) / (w as int) >= 0) by (nonlinear_arith)
            requires
                v >= 0,
                w >= 1,
        ;
    }
    assert(w * c >= v && w * (c - 1) < v) by (nonlinear_arith)
        requires
            w * c <= v + w - 1,
            v + w - 1 < w * c + w,
            w >= 1,
    ;
    assert(v >= 1) by (nonlinear_arith)
        requires
            2 * (s * v) >= 2 * n - s,
            s <= 8,
            n >= 0x10_0000_0000_0000,
            v >= 0,
    ;
    assert(c >= 1) by (nonlinear_arith)
        requires
            w * c >= v,
            v >= 1,
            w >= 1,
    ;
    assert(2 * (p * c) >= 2 * n - s && 2 * (p * (c - 1)) <= 2 * n + s) by (nonlinear_arith)
        requires
            w * c >= v,
            w * (c - 1) < v,
            2 * (s * v) <= 2 * n + s,
            2 * (s * v) >= 2 * n - s,
            w * s == p,
            s >= 1,
    {
        assert(s * (w * c) >= s * v);
        assert(s * (w * (c - 1)) <= s * v);
        assert(s * (w * c) == p * c);
        assert(s * (w * (c - 1)) == p * (c - 1));
    }
    assert(whole <= 2 * p);
    assert(whole * c >= 4 * part - 12) by (nonlinear_arith)
        requires
            2 * (p * c) >= 2 * (4 * m) - s,
            s <= 8,
            2 * (whole * m) >= 2 * (part * p) - whole,
            whole >= 1,
            whole <= 2 * p,
            p >= 1,
    {
        assert(whole * (2 * (p * c)) >= whole * (8 * m - 8));
        assert(whole * (8 * m) == 4 * (2 * (whole * m)));
        assert(whole * (2 * (p * c)) >= 8 * (part * p) - 12 * whole);
        assert(p * (2 * (whole * c)) >= p * (8 * part - 24));
    }
    assert(whole * (c - 1) <= 4 * part + 12) by (nonlinear_arith)
        requires
            2 * (p * (c - 1)) <= 2 * (4 * m) + s,
            s <= 8,
            2 * (whole * m) <= 2 * (part * p) + whole,
            whole >= 1,
            whole <= 2 * p,
            p >= 1,
    {
        assert(whole * (2 * (p * (c - 1))) <= whole * (8 * m + 8));
        assert(whole * (8 * m) == 4 * (2 * (whole * m)));
        assert(whole * (2 * (p * (c - 1))) <= 8 * (part * p) + 12 * whole);
        assert(p * (2 * (whole * (c - 1))) <= p * (8 * part + 24));
    }
}

/// Nothing of a whole fills no cells.
pub proof fn nothing_fills_nothing(cells: nat, whole: nat)
    requires
        0 < whole < 0x20_0000_0000_0000,
    ensures
        rounded(product(cells, quotient(0, whole))) == 0,
{
    let x = nearest(0, whole);
    assert(0nat / whole == 0 && 0nat % whole == 0) by (nonlinear_arith)
        requires
            whole > 0,
    ;
    assert(x == (0nat, 0int));
    assert(cells * 0 == 0);
    assert(nearest(0, 1) == (0nat, 0int));
    assert(two_to(0) == 1);
}

proof fn lemma_small_mantissa(n: nat, d: nat, exp: int)
    requires
        d > 0,
        n < 0x20_0000_0000_0000 * d,
    ensures
        nearest_small(n, d, exp).0 <= 0x20_0000_0000_0000,
    decreases 0x20_0000_0000_0000 * d - n,
{
    if 0 < n < 0x10_0000_0000_0000 * d {
        lemma_small_mantissa(2 * n, d, exp - 1);
    } else {
        assert(n / d < 0x20_0000_0000_0000) by (nonlinear_arith)
            requires
                d > 0,
                n < 0x20_0000_0000_0000 * d,
        ;
    }
}

proof fn lemma_mantissa_bound(n: nat, d: nat)
    requires
        d > 0,
        n < 0x20_0000_0000_0000 * d,
    ensures
        nearest(n, d).0 <= 0x20_0000_0000_0000,
{
    lemma_small_mantissa(n, d, 0);
}

} // verus!
