//! Arithmetic of binary floating point with 53 significant bits, on the positive numbers that the
//! dashboard computes with. Every operation rounds its exact result to the nearest such number,
//! ties to the even one. Exponents stay far inside the range of the binary64 format.

use crate::decimal::{decimal_padded, digits, padded, push_digits};
use crate::text::extend;
use vstd::prelude::*;

verus! {

/// Two to the power of `k`.
pub open spec fn two_to(k: nat) -> nat
    decreases k,
{
    if k == 0 {
        1
    } else {
        2 * two_to((k - 1) as nat)
    }
}

/// The integer nearest to `n / d`; the even one where two are equally near.
pub open spec fn half_even(n: nat, d: nat) -> nat
    recommends
        d > 0,
{
    let q = n / d;
    let r = n % d;
    if 2 * r < d || (2 * r == d && q % 2 == 0) {
        q
    } else {
        q + 1
    }
}

/// The number `mant * 2^exp`.
#[derive(Clone, Copy)]
pub struct Double {
    pub mant: u64,
    pub exp: i32,
}

/// `n / d` rounded to 53 significant bits, where `n / d` is at least `2^52`.
pub open spec fn nearest_large(n: nat, d: nat, exp: int) -> (nat, int)
    decreases n - d,
{
    if d > 0 && n >= 0x20_0000_0000_0000 * d {
        nearest_large(n, 2 * d, exp + 1)
    } else {
        (half_even(n, d), exp)
    }
}

/// `n / d` rounded to 53 significant bits, where `n / d` is below `2^53`.
pub open spec fn nearest_small(n: nat, d: nat, exp: int) -> (nat, int)
    decreases 0x20_0000_0000_0000 * d - n,
{
    if 0 < n < 0x10_0000_0000_0000 * d {
        nearest_small(2 * n, d, exp - 1)
    } else {
        (half_even(n, d), exp)
    }
}

/// Mantissa and exponent of the double nearest to `n / d`.
pub open spec fn nearest(n: nat, d: nat) -> (nat, int) {
    if n >= 0x20_0000_0000_0000 * d {
        nearest_large(n, d, 0)
    } else {
        nearest_small(n, d, 0)
    }
}

/// The double nearest to a natural number, which is a natural number.
pub open spec fn nearest_int(n: nat) -> nat {
    if n < 0x20_0000_0000_0000 {
        n
    } else {
        nearest(n, 1).0 * two_to(nearest(n, 1).1 as nat)
    }
}

/// The double that dividing the doubles nearest to `n` and `d` gives.
pub open spec fn quotient(n: nat, d: nat) -> (nat, int) {
    nearest(nearest_int(n), nearest_int(d))
}

/// The double that multiplying a small natural number with a double gives.
pub open spec fn product(k: nat, x: (nat, int)) -> (nat, int) {
    let p = nearest(k * x.0, 1);
    (p.0, p.1 + x.1)
}

/// The integer nearest to a double; the larger one where two are equally near.
pub open spec fn rounded(x: (nat, int)) -> nat {
    if x.1 >= 0 {
        x.0 * two_to(x.1 as nat)
    } else {
        (2 * x.0 + two_to((-x.1) as nat)) / (2 * two_to((-x.1) as nat))
    }
}

/// A double times `10^decimals`, rounded to the nearest integer, ties to even.
pub open spec fn scaled(x: (nat, int), decimals: nat) -> nat {
    let ten = if decimals == 0 {
        1nat
    } else if decimals == 1 {
        10nat
    } else {
        100nat
    };
    if x.1 >= 0 {
        x.0 * two_to(x.1 as nat) * ten
    } else {
        half_even(x.0 * ten, two_to((-x.1) as nat))
    }
}

/// The numeral of a double with at most two decimals.
pub open spec fn fixed(x: (nat, int), decimals: nat) -> Seq<char> {
    let n = scaled(x, decimals);
    if decimals == 0 {
        digits(n)
    } else if decimals == 1 {
        digits(n / 10) + seq!['.'] + padded(n % 10, 1)
    } else {
        digits(n / 100) + seq!['.'] + padded(n % 100, 2)
    }
}

pub proof fn lemma_two_to(k: nat)
    ensures
        two_to(k) >= 1,
        two_to(k + 1) == 2 * two_to(k),
    decreases k,
{
    if k > 0 {
        lemma_two_to((k - 1) as nat);
    }
}

pub proof fn lemma_two_to_add(a: nat, b: nat)
    ensures
        two_to(a + b) == two_to(a) * two_to(b),
    decreases a,
{
    if a > 0 {
        lemma_two_to_add((a - 1) as nat, b);
        assert((a - 1) as nat + b == (a + b - 1) as nat);
        assert(2 * (two_to((a - 1) as nat) * two_to(b)) == (2 * two_to((a - 1) as nat)) * two_to(b))
            by (nonlinear_arith);
    } else {
        assert(two_to(0) * two_to(b) == two_to(b)) by (nonlinear_arith)
            requires
                two_to(0) == 1,
        ;
    }
}

pub proof fn lemma_two_to_mono(a: nat, b: nat)
    requires
        a <= b,
    ensures
        two_to(a) <= two_to(b),
    decreases b,
{
    if a < b {
        lemma_two_to_mono(a, (b - 1) as nat);
        lemma_two_to((b - 1) as nat);
    }
}

pub proof fn lemma_two_to_values()
    ensures
        two_to(1) == 2,
        two_to(11) == 2048,
        two_to(12) == 4096,
        two_to(17) == 0x2_0000,
        two_to(53) == 0x20_0000_0000_0000,
        two_to(64) == 0x1_0000_0000_0000_0000,
        two_to(117) == 0x20_0000_0000_0000_0000_0000_0000_0000,
        two_to(120) == 0x100_0000_0000_0000_0000_0000_0000_0000,
{
    reveal_with_fuel(two_to, 20);
    assert(two_to(17) == 0x2_0000);
    lemma_two_to_add(17, 17);
    lemma_two_to_add(34, 17);
    lemma_two_to_add(51, 2);
    lemma_two_to_add(51, 13);
    lemma_two_to_add(64, 53);
    lemma_two_to_add(117, 3);
    assert(two_to(64) * two_to(53) == 0x20_0000_0000_0000_0000_0000_0000_0000)
        by (nonlinear_arith)
        requires
            two_to(64) == 0x1_0000_0000_0000_0000,
            two_to(53) == 0x20_0000_0000_0000,
    ;
}

/// Two to the power of `k`, for small `k`.
fn power_of_two(k: u32) -> (r: u128)
    requires
        k <= 120,
    ensures
        r == two_to(k as nat),
        r >= 1,
{
    let mut r: u128 = 1;
    let mut i: u32 = 0;
    proof {
        lemma_two_to_values();
    }
    while i < k
        invariant
            i <= k <= 120,
            r == two_to(i as nat),
            r >= 1,
            two_to(120) == 0x100_0000_0000_0000_0000_0000_0000_0000,
        decreases k - i,
    {
        proof {
            lemma_two_to(i as nat);
            lemma_two_to_mono((i + 1) as nat, 120);
        }
        r = r * 2;
        i += 1;
    }
    r
}

/// The integer nearest to `n / d`, ties to even.
fn round_half_even(n: u128, d: u128) -> (r: u128)
    requires
        d > 0,
        n < u128::MAX,
    ensures
        r == half_even(n as nat, d as nat),
{
    let q: u128 = n / d;
    let rem: u128 = n % d;
    proof {
        assert(q <= n) by (nonlinear_arith)
            requires
                q == n / d,
                d > 0,
        ;
    }
    if rem < d - rem || (rem == d - rem && q % 2 == 0) {
        q
    } else {
        q + 1
    }
}

/// The double nearest to `n / d`.
fn nearest_double(n: u128, d: u128) -> (r: Double)
    requires
        d > 0,
        d <= 0x4_0000_0000_0000_0000,
        n < 0x100_0000_0000_0000_0000_0000_0000_0000,
    ensures
        (r.mant as nat, r.exp as int) == nearest(n as nat, d as nat),
        r.mant <= 0x20_0000_0000_0000,
        -120 <= r.exp <= 120,
        n >= 0x20_0000_0000_0000 * d ==> r.exp > 0,
        0 < n < 0x10_0000_0000_0000 * d ==> r.exp < 0,
        n >= d ==> r.exp >= -52,
        n < 0x100_0000_0000_0000 * d ==> r.exp <= 3,
        n < 0x20_0000_0000_0000_0000 * d ==> r.exp <= 17,
{
    let ghost n0 = n as nat;
    let ghost d0 = d as nat;
    let mut exp: i32 = 0;
    if n >= 0x20_0000_0000_0000 * d {
        let mut e: u128 = d;
        proof {
            lemma_two_to(0);
            lemma_two_to_values();
            assert(d * two_to(0) == d) by (nonlinear_arith)
                requires
                    two_to(0) == 1,
            ;
        }
        while n >= 0x20_0000_0000_0000 * e
            invariant
                e > 0,
                n < 0x100_0000_0000_0000_0000_0000_0000_0000,
                0 <= exp,
                n < 0x20_0000_0000_0000 * e ==> exp > 0,
                n0 >= 0x20_0000_0000_0000 * d0,
                n0 == n,
                e >= two_to(exp as nat),
                e <= n,
                nearest_large(n0, d0, 0) == nearest_large(n0, e as nat, exp as int),
                n >= 0x10_0000_0000_0000 * e,
                exp <= 120,
                exp == 0 ==> e == d,
                exp == 1 ==> e == 2 * d,
                exp == 2 ==> e == 4 * d,
                exp == 3 ==> e == 8 * d,
                n < 0x100_0000_0000_0000 * d ==> exp <= 3,
                n < 0x20_0000_0000_0000_0000 * d ==> exp <= 17,
                e == d * two_to(exp as nat),
                two_to(17) == 0x2_0000,
                two_to(120) == 0x100_0000_0000_0000_0000_0000_0000_0000,
            decreases n - e,
        {
            proof {
                lemma_two_to(exp as nat);
                if exp >= 120 {
                    lemma_two_to_mono(120, exp as nat);
                }
                assert(2 * (d * two_to(exp as nat)) == d * (2 * two_to(exp as nat)))
                    by (nonlinear_arith);
                if exp == 17 {
                    assert(d * 0x2_0000 == d * two_to(17)) by (nonlinear_arith)
                        requires
                            two_to(17) == 0x2_0000,
                    ;
                    assert(exp as nat == 17);
                    assert(e == d * 0x2_0000);
                }
            }
            e = e * 2;
            exp = exp + 1;
        }
        proof {
            lemma_mantissa(n0, e as nat);
        }
        let m: u128 = round_half_even(n, e);
        return Double { mant: m as u64, exp };
    }
    let mut k: u128 = n;
    let ghost steps = 0nat;
    proof {
        lemma_two_to_values();
        assert(two_to(0) == 1);
    }
    while 0 < k && k < 0x10_0000_0000_0000 * d
        invariant
            d == d0,
            d > 0,
            d <= 0x4_0000_0000_0000_0000,
            k < 0x20_0000_0000_0000 * d,
            (k == 0) == (n0 == 0),
            -120 <= exp <= 0,
            steps == -exp,
            n0 > 0 ==> k >= two_to(steps),
            n0 > 0 ==> k == n0 * two_to(steps),
            two_to(120) == 0x100_0000_0000_0000_0000_0000_0000_0000,
            0 < n0 < 0x10_0000_0000_0000 * d ==> (exp < 0 || k < 0x10_0000_0000_0000 * d),
            nearest_small(n0, d0, 0) == nearest_small(k as nat, d0, exp as int),
        decreases 0x20_0000_0000_0000 * d - k,
    {
        proof {
            lemma_two_to(steps);
            if exp <= -120 {
                lemma_two_to_mono(120, steps);
            }
            assert(2 * (n0 * two_to(steps)) == n0 * (2 * two_to(steps))) by (nonlinear_arith);
        }
        k = k * 2;
        exp = exp - 1;
        proof {
            steps = steps + 1;
        }
    }
    proof {
        lemma_mantissa(k as nat, d0);
        if n >= d {
            if exp < -52 {
                // The last doubling started at or above 2^52 times the divisor.
                lemma_two_to_mono(53, steps);
                assert(n0 * two_to(steps) >= d0 * 0x20_0000_0000_0000) by (nonlinear_arith)
                    requires
                        n0 >= d0,
                        two_to(steps) >= 0x20_0000_0000_0000,
                ;
            }
        }
    }
    let m: u128 = round_half_even(k, d);
    Double { mant: m as u64, exp }
}

proof fn lemma_mantissa(n: nat, d: nat)
    requires
        d > 0,
        n < 0x20_0000_0000_0000 * d,
    ensures
        half_even(n, d) <= 0x20_0000_0000_0000,
{
    assert(n / d < 0x20_0000_0000_0000) by (nonlinear_arith)
        requires
            d > 0,
            n < 0x20_0000_0000_0000 * d,
    ;
}

/// The double nearest to a natural number.
fn nearest_natural(n: u64) -> (r: u128)
    ensures
        r == nearest_int(n as nat),
        r <= 0x1_0000_0000_0000_0000,
        n > 0 ==> r > 0,
{
    if n < 0x20_0000_0000_0000 {
        return n as u128;
    }
    let x = nearest_double(n as u128, 1);
    proof {
        lemma_two_to_values();
        lemma_nearest_natural(n as nat, 1, 0);
    }
    let p: u128 = power_of_two(x.exp as u32);
    proof {
        assert(x.mant * p <= 0x1_0000_0000_0000_0000) by (nonlinear_arith)
            requires
                x.mant <= 0x20_0000_0000_0000,
                p <= 2048,
                p >= 0,
        ;
        assert(x.mant * p > 0) by (nonlinear_arith)
            requires
                x.mant > 0,
                p > 0,
        ;
    }
    (x.mant as u128) * p
}

proof fn lemma_nearest_natural(n: nat, d: nat, exp: nat)
    requires
        d == two_to(exp),
        0x10_0000_0000_0000 * d <= n < 0x1_0000_0000_0000_0000,
    ensures
        0 <= nearest_large(n, d, exp as int).1 <= 11,
        two_to(nearest_large(n, d, exp as int).1 as nat) <= 2048,
        nearest_large(n, d, exp as int).0 > 0,
    decreases n - d,
{
    lemma_two_to(exp);
    if n >= 0x20_0000_0000_0000 * d {
        lemma_nearest_natural(n, 2 * d, exp + 1);
    } else {
        lemma_two_to_values();
        if exp >= 12 {
            lemma_two_to_mono(12, exp);
        } else {
            lemma_two_to_mono(exp, 11);
        }
        assert(n / d >= 1) by (nonlinear_arith)
            requires
                d > 0,
                n >= 0x10_0000_0000_0000 * d,
        ;
    }
}

/// The double nearest to the quotient of two natural numbers.
pub fn divide(n: u64, d: u64) -> (r: Double)
    requires
        d > 0,
    ensures
        (r.mant as nat, r.exp as int) == quotient(n as nat, d as nat),
        r.mant <= 0x20_0000_0000_0000,
        -120 <= r.exp <= 120,
        n < 0x20_0000_0000_0000 && d < 0x20_0000_0000_0000 && n >= d ==> r.exp >= -52,
        d < 0x20_0000_0000_0000 && n >= d && n >= 0x20_0000_0000_0000 ==> r.exp >= -52,
        1000 <= d < 0x20_0000_0000_0000 ==> r.exp <= 3,
{
    let a: u128 = nearest_natural(n);
    let b: u128 = nearest_natural(d);
    proof {
        if n >= 0x20_0000_0000_0000 {
            lemma_nearest_natural_lower(n as nat);
        }
    }
    nearest_double(a, b)
}

proof fn lemma_nearest_natural_lower(n: nat)
    requires
        0x20_0000_0000_0000 <= n < 0x1_0000_0000_0000_0000,
    ensures
        nearest_int(n) >= 0x20_0000_0000_0000,
{
    lemma_nearest_large_lower(n, 1, 0);
}

proof fn lemma_nearest_large_lower(n: nat, d: nat, exp: nat)
    requires
        d == two_to(exp),
        n >= 0x20_0000_0000_0000 * d || (exp > 0 && n >= 0x10_0000_0000_0000 * d),
        d > 0,
    ensures
        ({
            let x = nearest_large(n, d, exp as int);
            x.1 >= exp && x.0 * two_to(x.1 as nat) >= 0x20_0000_0000_0000
        }),
    decreases n - d,
{
    lemma_two_to(exp);
    if n >= 0x20_0000_0000_0000 * d {
        lemma_nearest_large_lower(n, 2 * d, exp + 1);
    } else {
        lemma_two_to_mono(1, exp);
        lemma_two_to_values();
        let q = half_even(n, d);
        assert(n / d >= 0x10_0000_0000_0000) by (nonlinear_arith)
            requires
                d > 0,
                n >= 0x10_0000_0000_0000 * d,
        ;
        assert(q * two_to(exp) >= 0x20_0000_0000_0000) by (nonlinear_arith)
            requires
                q >= 0x10_0000_0000_0000,
                two_to(exp) >= 2,
        ;
    }
}

/// The double nearest to the quotient of two natural numbers of at most 63 bits.
pub fn divide_small(n: u64, d: u64) -> (r: Double)
    requires
        0 < d,
        n <= 0x8000_0000_0000_0000,
    ensures
        (r.mant as nat, r.exp as int) == quotient(n as nat, d as nat),
        r.mant <= 0x20_0000_0000_0000,
        -120 <= r.exp <= 12,
{
    let r = divide(n, d);
    proof {
        lemma_mean_bound(n as nat, d as nat);
    }
    r
}

/// A small natural number times a double.
pub fn multiply(k: u64, x: Double) -> (r: Double)
    requires
        x.mant <= 0x20_0000_0000_0000,
        -120 <= x.exp <= 120,
    ensures
        (r.mant as nat, r.exp as int) == product(k as nat, (x.mant as nat, x.exp as int)),
        r.mant <= 0x20_0000_0000_0000,
        -240 <= r.exp <= 240,
        k <= 0xffff ==> r.exp <= x.exp + 17,
{
    proof {
        assert(k * x.mant < 0x100_0000_0000_0000_0000_0000_0000_0000) by (nonlinear_arith)
            requires
                k <= u64::MAX,
                x.mant <= 0x20_0000_0000_0000,
        ;
    }
    let p = nearest_double((k as u128) * (x.mant as u128), 1);
    proof {
        if k <= 0xffff {
            assert(k * x.mant <= 0x20_0000_0000_0000 * 0xffff) by (nonlinear_arith)
                requires
                    0 <= k <= 0xffff,
                    0 <= x.mant <= 0x20_0000_0000_0000,
            ;
        }
    }
    Double { mant: p.mant, exp: p.exp + x.exp }
}

/// The integer nearest to a double, the larger one where two are equally near.
pub fn round(x: Double) -> (r: u128)
    requires
        x.mant <= 0x20_0000_0000_0000,
        x.exp <= 60,
        x.exp >= -400,
    ensures
        r == rounded((x.mant as nat, x.exp as int)),
{
    if x.exp >= 0 {
        let p: u128 = power_of_two(x.exp as u32);
        proof {
            lemma_two_to_values();
            lemma_two_to_mono(x.exp as nat, 64);
            assert(x.mant * p <= 0x20_0000_0000_0000 * 0x1_0000_0000_0000_0000)
                by (nonlinear_arith)
                requires
                    x.mant <= 0x20_0000_0000_0000,
                    0 <= p <= 0x1_0000_0000_0000_0000,
            ;
        }
        return (x.mant as u128) * p;
    }
    if x.exp < -64 {
        proof {
            lemma_two_to_values();
            lemma_two_to_mono(64, (-x.exp) as nat);
            let q = two_to((-x.exp) as nat);
            let m = x.mant as nat;
            assert((2 * m + q) / (2 * q) == 0) by (nonlinear_arith)
                requires
                    2 * m < q,
            ;
        }
        return 0;
    }
    let p: u128 = power_of_two((-x.exp) as u32);
    proof {
        lemma_two_to_values();
        lemma_two_to_mono((-x.exp) as nat, 64);
    }
    (2 * (x.mant as u128) + p) / (2 * p)
}

/// A double of moderate size times `10^decimals`, rounded to the nearest integer, ties to even.
fn scale(x: Double, decimals: usize) -> (r: u64)
    requires
        x.mant <= 0x20_0000_0000_0000,
        -52 <= x.exp <= 3,
    ensures
        r == scaled((x.mant as nat, x.exp as int), decimals as nat),
{
    let ten: u128 = if decimals == 0 {
        1
    } else if decimals == 1 {
        10
    } else {
        100
    };
    proof {
        lemma_two_to_values();
        reveal_with_fuel(two_to, 4);
    }
    if x.exp >= 0 {
        let p: u128 = power_of_two(x.exp as u32);
        assert(p <= 8) by {
            lemma_two_to_mono(x.exp as nat, 3);
        }
        proof {
            assert(x.mant * p <= 0x100_0000_0000_0000) by (nonlinear_arith)
                requires
                    x.mant <= 0x20_0000_0000_0000,
                    0 <= p <= 8,
            ;
            assert((x.mant * p) * ten <= 0x100_0000_0000_0000 * 100) by (nonlinear_arith)
                requires
                    0 <= x.mant * p <= 0x100_0000_0000_0000,
                    0 <= ten <= 100,
            ;
        }
        return ((x.mant as u128) * p * ten) as u64;
    }
    let p: u128 = power_of_two((-x.exp) as u32);
    proof {
        assert(x.mant * ten <= 0x20_0000_0000_0000 * 100) by (nonlinear_arith)
            requires
                x.mant <= 0x20_0000_0000_0000,
                0 <= ten <= 100,
        ;
        let n = (x.mant * ten) as nat;
        assert(n / p as nat <= n) by (nonlinear_arith)
            requires
                p >= 1,
                n >= 0,
        ;
    }
    round_half_even((x.mant as u128) * ten, p) as u64
}

/// The numeral of a double of moderate size with at most two decimals.
pub fn fixed_chars(x: Double, decimals: usize) -> (r: Vec<char>)
    requires
        x.mant <= 0x20_0000_0000_0000,
        -52 <= x.exp <= 3,
        decimals <= 2,
    ensures
        r@ == fixed((x.mant as nat, x.exp as int), decimals as nat),
{
    let n: u64 = scale(x, decimals);
    let mut out: Vec<char> = Vec::new();
    if decimals == 0 {
        push_digits(&mut out, n);
    } else if decimals == 1 {
        push_digits(&mut out, n / 10);
        out.push('.');
        let tail = decimal_padded(n % 10, 1);
        extend(&mut out, &tail);
    } else {
        push_digits(&mut out, n / 100);
        out.push('.');
        let tail = decimal_padded(n % 100, 2);
        extend(&mut out, &tail);
    }
    assert(out@ =~= fixed((x.mant as nat, x.exp as int), decimals as nat));
    out
}

/// The magnitude of an integer.
pub open spec fn magnitude(v: int) -> nat {
    if v < 0 {
        (-v) as nat
    } else {
        v as nat
    }
}

/// The mean of `count` items that add up to `sum`, as a rounded double: the nearest integer, ties
/// away from zero.
pub open spec fn rounded_mean(sum: int, count: nat) -> int {
    let m = rounded(quotient(magnitude(sum), count));
    if sum < 0 {
        -(m as int)
    } else if m > i64::MAX {
        i64::MAX as int
    } else {
        m as int
    }
}

/// The mean of `count` items that add up to `sum`, rounded to an integer.
pub fn mean(sum: i64, count: u64) -> (r: i64)
    requires
        count > 0,
    ensures
        r == rounded_mean(sum as int, count as nat),
{
    let size: u64 = if sum < 0 {
        (-(sum as i128)) as u64
    } else {
        sum as u64
    };
    let x = divide(size, count);
    proof {
        lemma_mean_bound(size as nat, count as nat);
    }
    let m: u128 = round(x);
    if sum < 0 {
        (-(m as i128)) as i64
    } else if m > 0x7fff_ffff_ffff_ffff {
        0x7fff_ffff_ffff_ffff
    } else {
        m as i64
    }
}

/// A quotient by at least one is no larger than what was divided.
proof fn lemma_mean_bound(n: nat, d: nat)
    requires
        n <= 0x8000_0000_0000_0000,
        0 < d < 0x1_0000_0000_0000_0000,
    ensures
        quotient(n, d).1 <= 12,
        rounded(quotient(n, d)) <= 0x8000_0000_0000_0000,
{
    lemma_nearest_int_bound(n);
    lemma_nearest_int_pos(d);
    let a = nearest_int(n);
    let b = nearest_int(d);
    lemma_nearest_bound(a, b);
}

/// Rounding to a double does not step over a power of two.
proof fn lemma_nearest_int_bound(n: nat)
    requires
        n <= 0x8000_0000_0000_0000,
    ensures
        nearest_int(n) <= 0x8000_0000_0000_0000,
{
    if n >= 0x20_0000_0000_0000 {
        assert(two_to(0) == 1);
        lemma_large_bound(n, 1, 1, 0);
    }
}

proof fn lemma_nearest_int_pos(n: nat)
    requires
        0 < n < 0x1_0000_0000_0000_0000,
    ensures
        nearest_int(n) > 0,
{
    if n >= 0x20_0000_0000_0000 {
        lemma_nearest_natural_lower(n);
    }
}

/// The nearest double to `n / d` with `d >= 1` rounds to at most `2^63` where `n` is at most that.
proof fn lemma_nearest_bound(n: nat, d: nat)
    requires
        n <= 0x8000_0000_0000_0000,
        d > 0,
    ensures
        nearest(n, d).1 <= 12,
        rounded(nearest(n, d)) <= 0x8000_0000_0000_0000,
{
    assert(two_to(0) == 1);
    if n >= 0x20_0000_0000_0000 * d {
        assert(d * two_to(0) == d) by (nonlinear_arith)
            requires
                two_to(0) == 1,
        ;
        lemma_large_bound(n, d, d, 0);
    } else {
        lemma_small_bound(n, d, 0);
        let x = nearest_small(n, d, 0);
        if x.1 >= 0 {
            assert(x.0 * two_to(0) == x.0) by (nonlinear_arith)
                requires
                    two_to(0) == 1,
            ;
        } else {
            let p = two_to((-x.1) as nat);
            lemma_two_to_mono(1, (-x.1) as nat);
            lemma_two_to_values();
            assert((2 * x.0 + p) / (2 * p) <= 2 * x.0 + p) by (nonlinear_arith)
                requires
                    p >= 1,
                    x.0 >= 0,
            ;
            assert((2 * x.0 + p) / (2 * p) <= x.0 + 1) by (nonlinear_arith)
                requires
                    p >= 1,
                    x.0 >= 0,
            ;
        }
    }
}

proof fn lemma_small_bound(n: nat, d: nat, exp: int)
    requires
        d > 0,
        exp <= 0,
        n < 0x20_0000_0000_0000 * d,
    ensures
        nearest_small(n, d, exp).1 <= exp,
        nearest_small(n, d, exp).0 <= 0x20_0000_0000_0000,
    decreases 0x20_0000_0000_0000 * d - n,
{
    if 0 < n < 0x10_0000_0000_0000 * d {
        lemma_small_bound(2 * n, d, exp - 1);
    } else {
        lemma_mantissa(n, d);
    }
}

/// Rounding to an integer adds at most one.
proof fn lemma_half_even_close(n: nat, d: nat)
    requires
        d > 0,
    ensures
        d * half_even(n, d) <= n + d,
{
    vstd::arithmetic::div_mod::lemma_fundamental_div_mod(n as int, d as int);
    let q = n / d;
    assert(d * (q + 1) == d * q + d) by (nonlinear_arith);
}

proof fn lemma_small_close(whole: nat, n: nat, d: nat, exp: int)
    requires
        d > 0,
        exp <= 0,
        n == whole * two_to((-exp) as nat),
        n < 0x20_0000_0000_0000 * d,
    ensures
        ({
            let x = nearest_small(n, d, exp);
            x.1 <= 0 && d * x.0 <= whole * two_to((-x.1) as nat) + d
        }),
    decreases 0x20_0000_0000_0000 * d - n,
{
    if 0 < n < 0x10_0000_0000_0000 * d {
        lemma_two_to((-exp) as nat);
        assert(2 * n == whole * two_to((-(exp - 1)) as nat)) by (nonlinear_arith)
            requires
                n == whole * two_to((-exp) as nat),
                two_to((-(exp - 1)) as nat) == 2 * two_to((-exp) as nat),
        ;
        lemma_small_close(whole, 2 * n, d, exp - 1);
    } else {
        lemma_half_even_close(n, d);
    }
}

/// A hundred times a double that is nearest to a quotient, rounded to an integer, is close to a
/// hundred times the quotient.
pub proof fn lemma_hundredths_close(n: nat, d: nat)
    requires
        d > 0,
        n < 0x20_0000_0000_0000 * d,
    ensures
        d * scaled(nearest(n, d), 2) <= 100 * n + 101 * d,
{
    assert(two_to(0) == 1);
    assert(n * two_to(0) == n) by (nonlinear_arith)
        requires
            two_to(0) == 1,
    ;
    lemma_small_close(n, n, d, 0);
    let x = nearest(n, d);
    let p = two_to((-x.1) as nat);
    lemma_two_to((-x.1) as nat);
    let s = scaled(x, 2);
    if x.1 < 0 {
        lemma_half_even_close(x.0 * 100, p);
    } else {
        assert(s == x.0 * 100) by (nonlinear_arith)
            requires
                p == 1,
                s == x.0 * p * 100,
        ;
        assert(p * s == s) by (nonlinear_arith)
            requires
                p == 1,
        ;
    }
    assert(p * s <= x.0 * 100 + p);
    assert(p * (d * s) <= p * (100 * n + 101 * d)) by (nonlinear_arith)
        requires
            p * s <= x.0 * 100 + p,
            d * x.0 <= n * p + d,
            p >= 1,
            d >= 1,
    {
        assert(d * (p * s) <= d * (x.0 * 100 + p));
        assert(d * (x.0 * 100 + p) == 100 * (d * x.0) + d * p);
        assert(100 * (d * x.0) <= 100 * (n * p + d));
        assert(d * p >= d);
        assert(p * (d * s) == d * (p * s));
        assert(p * (100 * n + 101 * d) == 100 * (n * p) + 101 * (d * p));
    }
    assert(d * s <= 100 * n + 101 * d) by (nonlinear_arith)
        requires
            p * (d * s) <= p * (100 * n + 101 * d),
            p >= 1,
    ;
}

/// A natural number that a double holds is its own double, and none rounds beyond `2^63`.
pub proof fn lemma_natural_bound(n: nat)
    requires
        n <= 0x8000_0000_0000_0000,
    ensures
        nearest_int(n) <= 0x8000_0000_0000_0000,
        n < 0x20_0000_0000_0000 ==> nearest_int(n) == n,
{
    lemma_nearest_int_bound(n);
}

proof fn lemma_large_bound(n: nat, d: nat, e: nat, exp: nat)
    requires
        d > 0,
        e == d * two_to(exp),
        exp <= 10,
        0x10_0000_0000_0000 * e <= n <= 0x8000_0000_0000_0000,
    ensures
        ({
            let x = nearest_large(n, e, exp as int);
            &&& 0 <= x.1 <= 11
            &&& x.0 * two_to(x.1 as nat) <= 0x8000_0000_0000_0000
        }),
    decreases n - e,
{
    lemma_two_to(exp);
    lemma_two_to_values();
    assert(e >= two_to(exp)) by (nonlinear_arith)
        requires
            e == d * two_to(exp),
            d >= 1,
    ;
    assert(2 * e == d * (2 * two_to(exp))) by (nonlinear_arith)
        requires
            e == d * two_to(exp),
    ;
    reveal_with_fuel(two_to, 12);
    assert(two_to(10) == 1024);
    if n >= 0x20_0000_0000_0000 * e {
        if exp == 10 {
            assert(e >= 1024);
            assert(e == 1024);
            assert(n == 0x20_0000_0000_0000 * 1024);
            assert(nearest_large(n, 2 * e, 11) == (half_even(n, 2 * e), 11int));
            assert(n / 2048 == 0x10_0000_0000_0000);
            assert(n % 2048 == 0);
        } else {
            lemma_large_bound(n, d, 2 * e, exp + 1);
        }
    } else {
        lemma_mantissa(n, e);
        let q = half_even(n, e);
        lemma_two_to_mono(exp, 10);
        assert(q * two_to(exp) <= 0x20_0000_0000_0000 * 1024) by (nonlinear_arith)
            requires
                q <= 0x20_0000_0000_0000,
                two_to(exp) <= 1024,
        ;
    }
}

/// The sign bit of a binary64 number.
pub open spec fn negative(bits: u64) -> bool {
    bits >= 0x8000_0000_0000_0000
}

/// The biased exponent of a binary64 number.
pub open spec fn biased_exp(bits: u64) -> int {
    (bits as int / 0x10_0000_0000_0000) % 0x800
}

/// The fraction field of a binary64 number.
pub open spec fn fraction(bits: u64) -> nat {
    (bits % 0x10_0000_0000_0000) as nat
}

/// The magnitude of a finite binary64 number, as a significand and a power of two.
pub open spec fn parts(bits: u64) -> (nat, int) {
    if biased_exp(bits) == 0 {
        (fraction(bits), -1074)
    } else {
        (fraction(bits) + 0x10_0000_0000_0000, biased_exp(bits) - 1075)
    }
}

/// Neither infinite nor a NaN.
pub open spec fn finite(bits: u64) -> bool {
    biased_exp(bits) != 0x7ff
}

/// A binary64 number cut to an integer and to the range of `i64`; zero for a NaN.
pub open spec fn truncated(bits: u64) -> int {
    let (m, e) = parts(bits);
    if biased_exp(bits) == 0x7ff && fraction(bits) != 0 {
        0
    } else if biased_exp(bits) >= 1086 {
        if negative(bits) {
            i64::MIN as int
        } else {
            i64::MAX as int
        }
    } else {
        let t = if e >= 0 {
            m * two_to(e as nat)
        } else {
            m / two_to((-e) as nat)
        };
        if negative(bits) {
            -(t as int)
        } else {
            t as int
        }
    }
}

fn split_bits(bits: u64) -> (r: (bool, i32, u64))
    ensures
        r.0 == negative(bits),
        r.1 == biased_exp(bits),
        r.2 == fraction(bits),
        0 <= r.1 < 0x800,
        r.2 < 0x10_0000_0000_0000,
{
    let high: u64 = bits / 0x10_0000_0000_0000;
    (bits >= 0x8000_0000_0000_0000, (high % 0x800) as i32, bits % 0x10_0000_0000_0000)
}

/// A binary64 number cut to an integer and to the range of `i64`; zero for a NaN.
pub fn truncate(bits: u64) -> (r: i64)
    ensures
        r == truncated(bits),
{
    let (neg, exp, frac) = split_bits(bits);
    proof {
        lemma_two_to_values();
    }
    if exp == 0x7ff && frac != 0 {
        return 0;
    }
    if exp >= 1086 {
        return if neg {
            i64::MIN
        } else {
            i64::MAX
        };
    }
    let m: u64 = if exp == 0 {
        frac
    } else {
        frac + 0x10_0000_0000_0000
    };
    let t: u64 = if exp >= 1075 {
        let p: u128 = power_of_two((exp - 1075) as u32);
        proof {
            lemma_two_to_mono((exp - 1075) as nat, 10);
            reveal_with_fuel(two_to, 11);
            assert(m * p < 0x8000_0000_0000_0000) by (nonlinear_arith)
                requires
                    m < 0x20_0000_0000_0000,
                    0 <= p <= 1024,
            ;
        }
        m * (p as u64)
    } else if exp < 1022 {
        proof {
            let e = if exp == 0 {
                1074nat
            } else {
                (1075 - exp) as nat
            };
            lemma_two_to_mono(53, e);
            let mm = m as nat;
            let p = two_to(e);
            assert(mm / p == 0) by (nonlinear_arith)
                requires
                    mm < p,
            ;
        }
        0
    } else {
        let p: u128 = power_of_two((1075 - exp) as u32);
        proof {
            lemma_two_to_mono((1075 - exp) as nat, 53);
            let mm = m as nat;
            let pp = p as nat;
            assert(mm / pp <= mm) by (nonlinear_arith)
                requires
                    pp >= 1,
            ;
        }
        m / (p as u64)
    };
    if neg {
        -(t as i64)
    } else {
        t as i64
    }
}

/// The integer nearest to a binary64 number that is neither negative nor more than `2^64`, at most
/// the largest unsigned 64-bit number; the larger one where two are equally near.
pub open spec fn nearest_unsigned(bits: u64) -> Option<u64> {
    if biased_exp(bits) > 1087 || (biased_exp(bits) == 1087 && fraction(bits) != 0) || (negative(
        bits,
    ) && parts(bits).0 != 0) {
        None
    } else {
        let n = rounded(parts(bits));
        Some(
            if n > u64::MAX {
                u64::MAX
            } else {
                n as u64
            },
        )
    }
}

/// A significand divided by a far larger power of two rounds to zero.
proof fn lemma_rounds_to_zero(m: nat, k: nat)
    requires
        m <= 0x20_0000_0000_0000,
        k >= 55,
    ensures
        (2 * m + two_to(k)) / (2 * two_to(k)) == 0,
{
    lemma_two_to_values();
    lemma_two_to_mono(55, k);
    let p = two_to(k);
    assert(two_to(55) == 4 * two_to(53)) by {
        reveal_with_fuel(two_to, 3);
    }
    assert((2 * m + p) / (2 * p) == 0) by (nonlinear_arith)
        requires
            0 <= 2 * m < p,
    ;
}

/// The integer nearest to a binary64 number, where it is not negative and fits.
pub fn round_unsigned(bits: u64) -> (r: Option<u64>)
    ensures
        r == nearest_unsigned(bits),
{
    let (neg, exp, frac) = split_bits(bits);
    let m: u64 = if exp == 0 {
        frac
    } else {
        frac + 0x10_0000_0000_0000
    };
    if exp > 1087 || (exp == 1087 && frac != 0) || (neg && m != 0) {
        return None;
    }
    if exp < 675 {
        proof {
            if exp == 0 {
                lemma_rounds_to_zero(m as nat, 1074);
            } else {
                lemma_rounds_to_zero(m as nat, (1075 - exp) as nat);
            }
        }
        return Some(0);
    }
    let n: u128 = round(Double { mant: m, exp: exp - 1075 });
    Some(
        if n > u64::MAX as u128 {
            u64::MAX
        } else {
            n as u64
        },
    )
}

/// The integer nearest to a double, at most the largest one that `limit` allows.
pub open spec fn capped(x: (nat, int), limit: int) -> int {
    if x.1 > 60 || rounded(x) > limit {
        limit
    } else {
        rounded(x) as int
    }
}

fn round_capped(x: Double, limit: u64) -> (r: u64)
    requires
        x.mant <= 0x20_0000_0000_0000,
        x.exp >= -400,
    ensures
        r == capped((x.mant as nat, x.exp as int), limit as int),
{
    if x.exp > 60 {
        return limit;
    }
    let n: u128 = round(x);
    if n > limit as u128 {
        limit
    } else {
        n as u64
    }
}

/// The integer nearest to a finite binary64 number, within the range of `i64`; the one farther from
/// zero where two are equally near.
pub open spec fn nearest_signed(bits: u64) -> int {
    if negative(bits) {
        -capped(parts(bits), 0x8000_0000_0000_0000)
    } else {
        capped(parts(bits), i64::MAX as int)
    }
}

/// The integer nearest to a finite binary64 number.
pub fn round_signed(bits: u64) -> (r: i64)
    requires
        finite(bits),
    ensures
        r == nearest_signed(bits),
{
    let (neg, exp, frac) = split_bits(bits);
    let m: u64 = if exp == 0 {
        frac
    } else {
        frac + 0x10_0000_0000_0000
    };
    if exp < 675 {
        proof {
            if exp == 0 {
                lemma_rounds_to_zero(m as nat, 1074);
            } else {
                lemma_rounds_to_zero(m as nat, (1075 - exp) as nat);
            }
        }
        return 0;
    }
    let x = Double { mant: m, exp: exp - 1075 };
    if neg {
        let n: u64 = round_capped(x, 0x8000_0000_0000_0000);
        if n == 0x8000_0000_0000_0000 {
            i64::MIN
        } else {
            -(n as i64)
        }
    } else {
        round_capped(x, i64::MAX as u64) as i64
    }
}

/// Tests whether a number is finite.
pub fn is_finite(bits: u64) -> (r: bool)
    ensures
        r == finite(bits),
{
    let (_neg, exp, _frac) = split_bits(bits);
    exp != 0x7ff
}

/// A binary64 number that is no NaN is at least `n`.
pub open spec fn reaches(bits: u64, n: nat) -> bool {
    let (m, e) = parts(bits);
    !negative(bits) && (if e >= 0 {
        m * two_to(e as nat) >= n
    } else {
        m >= n * two_to((-e) as nat)
    })
}

/// Tests whether a finite number is at least `n`.
pub fn at_least(bits: u64, n: u64) -> (r: bool)
    requires
        0 < n <= 0x10_0000,
    ensures
        r == reaches(bits, n as nat),
{
    let (neg, exp, frac) = split_bits(bits);
    if neg {
        return false;
    }
    let m: u64 = if exp == 0 {
        frac
    } else {
        frac + 0x10_0000_0000_0000
    };
    if exp >= 1075 {
        proof {
            let p = two_to((exp - 1075) as nat);
            lemma_two_to((exp - 1075) as nat);
            assert(m * p >= m) by (nonlinear_arith)
                requires
                    m >= 0,
                    p >= 1,
            ;
        }
        return true;
    }
    if exp < 1015 {
        proof {
            let k = if exp == 0 {
                1074nat
            } else {
                (1075 - exp) as nat
            };
            lemma_two_to_values();
            lemma_two_to_mono(53, k);
            let p = two_to(k);
            assert(n * p >= p) by (nonlinear_arith)
                requires
                    n >= 1,
                    p >= 1,
            ;
        }
        return false;
    }
    let p: u128 = power_of_two((1075 - exp) as u32);
    proof {
        lemma_two_to_values();
        lemma_two_to_mono((1075 - exp) as nat, 64);
        assert(n * p <= 0x10_0000 * 0x1_0000_0000_0000_0000) by (nonlinear_arith)
            requires
                0 <= n <= 0x10_0000,
                0 <= p <= 0x1_0000_0000_0000_0000,
        ;
    }
    m as u128 >= n as u128 * p
}

/// What a used percentage leaves of a hundred, as a whole number: the nearest double to the
/// difference, rounded. So little that it cannot matter leaves all.
pub open spec fn percent_left(bits: u64) -> int {
    let (m, e) = parts(bits);
    if negative(bits) || e < -60 {
        100
    } else if reaches(bits, 100) {
        0
    } else {
        let p = two_to((-e) as nat);
        capped(nearest((100 * p - m) as nat, p), 100)
    }
}

/// What a used percentage leaves of a hundred.
pub fn left_of_hundred(bits: u64) -> (r: u64)
    requires
        finite(bits),
    ensures
        r == percent_left(bits),
        r <= 100,
{
    let (neg, exp, frac) = split_bits(bits);
    if neg || exp < 1015 {
        return 100;
    }
    if at_least(bits, 100) {
        return 0;
    }
    let m: u64 = frac + 0x10_0000_0000_0000;
    proof {
        if exp >= 1075 {
            let p = two_to((exp - 1075) as nat);
            lemma_two_to((exp - 1075) as nat);
            assert(m * p >= m) by (nonlinear_arith)
                requires
                    m >= 0,
                    p >= 1,
            ;
        }
    }
    let p: u128 = power_of_two((1075 - exp) as u32);
    proof {
        lemma_two_to_values();
        lemma_two_to_mono((1075 - exp) as nat, 64);
    }
    let left = nearest_double(100 * p - m as u128, p);
    round_capped(left, 100)
}

/// A number of minutes in hours: the nearest double to the quotient, rounded, within the range of
/// `i64`.
pub open spec fn rounded_hours(bits: u64) -> int {
    let (m, e) = parts(bits);
    if e > 17 {
        i64::MAX as int
    } else if e >= 0 {
        capped(nearest(m * two_to(e as nat), 60), i64::MAX as int)
    } else {
        capped(nearest(m, 60 * two_to((-e) as nat)), i64::MAX as int)
    }
}

/// A number of minutes in hours.
pub fn hours_of(bits: u64) -> (r: u64)
    requires
        finite(bits),
        reaches(bits, 60),
    ensures
        r == rounded_hours(bits),
{
    let (_neg, exp, frac) = split_bits(bits);
    proof {
        lemma_two_to_values();
    }
    if exp > 1092 {
        return i64::MAX as u64;
    }
    if exp >= 1075 {
        let m: u64 = frac + 0x10_0000_0000_0000;
        let p: u128 = power_of_two((exp - 1075) as u32);
        proof {
            lemma_two_to_mono((exp - 1075) as nat, 17);
            assert(m * p <= 0x20_0000_0000_0000 * 0x2_0000) by (nonlinear_arith)
                requires
                    0 <= m <= 0x20_0000_0000_0000,
                    0 <= p <= 0x2_0000,
            ;
        }
        return round_capped(nearest_double(m as u128 * p, 60), i64::MAX as u64);
    }
    let m: u64 = if exp == 0 {
        frac
    } else {
        frac + 0x10_0000_0000_0000
    };
    proof {
        let k = if exp == 0 {
            1074nat
        } else {
            (1075 - exp) as nat
        };
        if k > 53 {
            lemma_two_to_mono(53, k);
            let q = two_to(k);
            assert(60 * q > 0x20_0000_0000_0000);
        }
        assert(k <= 53);
        lemma_two_to_mono(k, 53);
    }
    let p: u128 = power_of_two((1075 - exp) as u32);
    round_capped(nearest_double(m as u128, 60 * p), i64::MAX as u64)
}

/// The smallest integer that is not below a double.
pub open spec fn ceiling(x: (nat, int)) -> nat {
    if x.1 >= 0 {
        x.0 * two_to(x.1 as nat)
    } else {
        ((x.0 + two_to((-x.1) as nat) - 1) / two_to((-x.1) as nat) as int) as nat
    }
}

/// The smallest integer that is not below a double, at most `limit`.
pub fn ceil_capped(x: Double, limit: u64) -> (r: u64)
    requires
        x.mant <= 0x20_0000_0000_0000,
        x.exp < 0,
    ensures
        r == (if ceiling((x.mant as nat, x.exp as int)) > limit {
            limit as int
        } else {
            ceiling((x.mant as nat, x.exp as int)) as int
        }),
{
    if x.exp < -120 {
        proof {
            lemma_two_to_values();
            lemma_two_to_mono(53, (-x.exp) as nat);
            let q = two_to((-x.exp) as nat) as int;
            let m = x.mant as int;
            assert((m + q - 1) / q == if m == 0 { 0int } else { 1 }) by (nonlinear_arith)
                requires
                    0 <= m <= q,
                    q > 0,
            ;
        }
        return if x.mant == 0 || limit == 0 {
            0
        } else {
            1
        };
    }
    let p: u128 = power_of_two((-x.exp) as u32);
    proof {
        lemma_two_to_values();
        lemma_two_to_mono((-x.exp) as nat, 120);
    }
    let n: u128 = (x.mant as u128 + (p - 1)) / p;
    if n > limit as u128 {
        limit
    } else {
        n as u64
    }
}

} // verus!
