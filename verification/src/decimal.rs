//! Quotients as double-precision arithmetic gives them, in whole numbers.
//!
//! A double holds a significand of 53 bits. What is rounded to one goes to the nearest, and from
//! halfway to the even one; and so does what is written with fewer decimals.

use crate::text;
use crate::text::push_dec;
use vstd::prelude::*;
use vstd::string::*;

verus! {

/// The whole number nearest to `n / d`, and from halfway the even one.
pub open spec fn nearest(n: nat, d: nat) -> nat {
    let q = n / d;
    let r = n % d;
    if 2 * r < d || (2 * r == d && q % 2 == 0) {
        q
    } else {
        q + 1
    }
}

/// The distance of the doubles around a whole number: 1, or the power of two, at least `p`, that
/// leaves 53 bits.
pub open spec fn spacing(n: nat, p: nat) -> nat
    decreases n - p,
{
    if p == 0 || n < 0x20_0000_0000_0000 * p {
        p
    } else {
        spacing(n, 2 * p)
    }
}

/// The double nearest to a whole number.
pub open spec fn as_double(n: nat) -> nat {
    nearest(n, spacing(n, 1)) * spacing(n, 1)
}

/// The double nearest to a positive `n / d` below two to the power of 53, as a numerator and a
/// denominator; it is `p` times smaller than the one that is found once `n` is large enough.
pub open spec fn quotient_from(n: nat, d: nat, p: nat) -> (nat, nat)
    decreases
            (if n >= 0x10_0000_0000_0000 * d {
                0
            } else {
                0x10_0000_0000_0000 * d - n
            }),
{
    if n == 0 || n >= 0x10_0000_0000_0000 * d {
        (nearest(n, d), p)
    } else {
        quotient_from(2 * n, d, 2 * p)
    }
}

/// The double nearest to `n / d`, as a numerator and a denominator.
pub open spec fn quotient(n: nat, d: nat) -> (nat, nat) {
    quotient_from(n, d, 1)
}

/// The tenths that are written of `n / d` with one decimal, `n` and `d` being taken for doubles.
pub open spec fn tenths(n: nat, d: nat) -> nat {
    let (m, p) = quotient(as_double(n), d);
    nearest(m * 10, p)
}

/// `n / d` with one decimal.
pub open spec fn one_decimal(n: nat, d: nat) -> Seq<char> {
    text::dec(tenths(n, d) / 10) + "."@ + text::dec(tenths(n, d) % 10)
}

/// The whole part of `n / d * 100`, each step being rounded to a double.
pub open spec fn percentage(n: nat, d: nat) -> nat {
    if n == 0 || d == 0 {
        0
    } else {
        let (m, p) = quotient(as_double(n), as_double(d));
        as_double(m * 100) / p
    }
}

/// The whole number nearest to `n / d`.
fn round(n: u128, d: u128) -> (r: u128)
    requires
        0 < d < 0x4000_0000_0000_0000_0000_0000_0000_0000,
        n / d < 0x4000_0000_0000_0000_0000_0000_0000_0000,
    ensures
        r == nearest(n as nat, d as nat),
        r <= n / d + 1,
{
    let q = n / d;
    let r = n % d;
    if 2 * r < d || (2 * r == d && q % 2 == 0) {
        q
    } else {
        q + 1
    }
}

/// The double nearest to a whole number.
fn double_of(n: u128) -> (r: u128)
    requires
        n < 0x1_0000_0000_0000_0000,
    ensures
        r == as_double(n as nat),
        r <= 2 * n,
        n <= 2 * r,
{
    let mut p: u128 = 1;
    while n >= 0x20_0000_0000_0000 * p
        invariant
            n < 0x1_0000_0000_0000_0000,
            1 <= p <= 0x1000,
            p == 1 || n >= 0x10_0000_0000_0000 * p,
            spacing(n as nat, 1) == spacing(n as nat, p as nat),
        decreases n - p,
    {
        p = p * 2;
    }
    let q = round(n, p);
    proof {
        let k = (n / p) as int;
        let r = (n % p) as int;
        assert(n == k * p + r && 0 <= r < p) by (nonlinear_arith)
            requires
                k == n as int / p as int,
                r == n as int % p as int,
                p > 0,
        ;
        assert(q == k || (q == k + 1 && p > 1));
        assert(q * p <= n + p && q * p + p > n) by (nonlinear_arith)
            requires
                k <= q <= k + 1,
                n == k * p + r,
                0 <= r < p,
        ;
        if p == 1 {
            assert(q * p == n) by (nonlinear_arith)
                requires
                    p == 1,
                    q == k,
                    n == k * p + r,
                    0 <= r < p,
            ;
        }
    }
    q * p
}

/// What is at most `c` times a whole number is rounded to at most `c` times that number.
proof fn lemma_round_bounded(m: nat, d: nat, n: nat, p: nat, c: nat)
    requires
        d > 0,
        m == n * p,
        n <= c * d,
    ensures
        nearest(m, d) <= c * p,
{
    let q = (m / d) as int;
    let r = (m % d) as int;
    assert(m == q * d + r && 0 <= r < d && q >= 0) by (nonlinear_arith)
        requires
            q == m as int / d as int,
            r == m as int % d as int,
            d > 0,
            m >= 0,
    ;
    assert(m <= d * (c * p)) by (nonlinear_arith)
        requires
            m == n * p,
            n <= c * d,
            p >= 0,
    ;
    assert(q <= c * p) by (nonlinear_arith)
        requires
            q * d + r == m,
            m <= d * (c * p),
            0 <= r,
            d > 0,
    ;
    if q == c * p {
        assert(r == 0) by (nonlinear_arith)
            requires
                q * d + r == m,
                m <= d * (c * p),
                0 <= r,
                q == c * p,
        ;
    }
}

/// The double nearest to `n / d`, as a numerator and a denominator.
fn divide(n: u128, d: u128) -> (r: (u128, u128))
    requires
        0 < n < 0x4_0000_0000_0000_0000,
        0 < d < 0x4_0000_0000_0000_0000,
        n < 0x20_0000_0000_0000 * d,
    ensures
        (r.0 as nat, r.1 as nat) == quotient(n as nat, d as nat),
        0 < r.0 <= 0x20_0000_0000_0000,
        0 < r.1 < 0x4000_0000_0000_0000_0000_0000_0000_0000,
        n <= 4 * d ==> r.0 <= 4 * r.1,
{
    let mut m: u128 = n;
    let mut p: u128 = 1;
    while m < 0x10_0000_0000_0000 * d
        invariant
            0 < n,
            0 < d < 0x4_0000_0000_0000_0000,
            n <= m < 0x20_0000_0000_0000 * d,
            1 <= p <= m,
            m == n * p,
            quotient(n as nat, d as nat) == quotient_from(m as nat, d as nat, p as nat),
        decreases 0x20_0000_0000_0000 * d - m,
    {
        proof {
            assert(n * (p * 2) == (n * p) * 2) by (nonlinear_arith);
        }
        m = m * 2;
        p = p * 2;
    }
    proof {
        let k = m as int / d as int;
        assert(k < 0x20_0000_0000_0000 && k >= 0x10_0000_0000_0000) by (nonlinear_arith)
            requires
                k == m as int / d as int,
                d > 0,
                0x10_0000_0000_0000 * d <= m < 0x20_0000_0000_0000 * d,
        ;
        if n <= 4 * d {
            lemma_round_bounded(m as nat, d as nat, n as nat, p as nat, 4);
        }
    }
    let q = round(m, d);
    (q, p)
}

/// Appends `n / d` with one decimal.
pub fn push_one_decimal(out: &mut String, n: u64, d: u64)
    requires
        n > 0,
        n < 0x10_0000_0000_0000 * d,
    ensures
        final(out)@ == old(out)@ + one_decimal(n as nat, d as nat),
{
    let x = double_of(n as u128);
    let (m, p) = divide(x, d as u128);
    proof {
        let k = (m * 10) as int / p as int;
        assert(0 <= k <= m * 10) by (nonlinear_arith)
            requires
                k == (m * 10) as int / p as int,
                p > 0,
                m >= 0,
        ;
    }
    let t = round(m * 10, p);
    let t: u64 = t as u64;
    let ghost before = out@;
    push_dec(out, t / 10);
    out.append(".");
    push_dec(out, t % 10);
    assert(out@ =~= before + one_decimal(n as nat, d as nat));
}

/// How many hundredths `n` is of `d`.
pub fn percent(n: u64, d: u64) -> (r: u32)
    requires
        n <= d,
    ensures
        r == percentage(n as nat, d as nat),
{
    if n == 0 || d == 0 {
        return 0;
    }
    let x = double_of(n as u128);
    let y = double_of(d as u128);
    let (m, p) = divide(x, y);
    let h = double_of(m * 100);
    proof {
        let k = h as int / p as int;
        assert(0 <= k <= 800) by (nonlinear_arith)
            requires
                k == h as int / p as int,
                0 <= h <= 800 * p,
                p > 0,
        ;
    }
    (h / p) as u32
}

/// The nearest whole number is no more than a half away.
proof fn lemma_nearest(n: nat, d: nat)
    requires
        d > 0,
    ensures
        2 * n - d <= 2 * (d * nearest(n, d)) <= 2 * n + d,
{
    let q = n / d;
    let r = n % d;
    vstd::arithmetic::div_mod::lemma_fundamental_div_mod(n as int, d as int);
    assert(n == d * q + r);
    assert(d * (q + 1) == d * q + d) by (nonlinear_arith);
}

/// How a quotient is found: both numbers are doubled until enough places are there, and the nearest
/// whole number is taken.
proof fn lemma_quotient(x: nat, d: nat, q: nat) -> (e: nat)
    requires
        x > 0,
        d > 0,
    ensures
        e >= 1,
        quotient_from(x, d, q) == (nearest(x * e, d), q * e),
        x * e >= 0x10_0000_0000_0000 * d,
        e > 1 ==> x * e < 0x20_0000_0000_0000 * d,
    decreases
            (if x >= 0x10_0000_0000_0000 * d {
                0
            } else {
                0x10_0000_0000_0000 * d - x
            }),
{
    if x >= 0x10_0000_0000_0000 * d {
        assert(x * 1 == x && q * 1 == q) by (nonlinear_arith);
        1
    } else {
        let f = lemma_quotient(2 * x, d, 2 * q);
        let e = 2 * f;
        assert((2 * x) * f == x * e && (2 * q) * f == q * e) by (nonlinear_arith)
            requires
                e == 2 * f,
        ;
        if f == 1 {
            assert(x * e == 2 * x) by (nonlinear_arith)
                requires
                    e == 2,
            ;
        }
        e
    }
}

/// A number of less than 53 bits is a double.
proof fn lemma_as_double(n: nat)
    requires
        n < 0x20_0000_0000_0000,
    ensures
        as_double(n) == n,
{
    assert(spacing(n, 1) == 1);
    assert(n / 1 == n && n % 1 == 0);
}

/// What is written with one decimal is less than a tenth away from the number.
pub proof fn law_one_decimal_is_close(n: nat, d: nat)
    requires
        0 < n < 0x20_0000_0000_0000,
        d >= 1_000,
    ensures
        10 * n - d < tenths(n, d) * d < 10 * n + d,
        one_decimal(n, d) == text::dec(tenths(n, d) / 10) + "."@ + text::dec(tenths(n, d) % 10),
{
    lemma_as_double(n);
    let e = lemma_quotient(n, d, 1);
    let m = nearest(n * e, d);
    let p = e;
    assert(1 * e == e) by (nonlinear_arith);
    let t = nearest(m * 10, p);
    lemma_nearest(n * e, d);
    lemma_nearest(m * 10, p);
    assert(tenths(n, d) == t);
    assert(e >= 11) by (nonlinear_arith)
        requires
            n * e >= 0x10_0000_0000_0000 * d,
            d >= 1_000,
            0 < n < 0x20_0000_0000_0000,
    ;
    let a = 2 * (p * t) - 20 * m;
    let b = 2 * (d * m) - 2 * (n * e);
    assert(-p <= a <= p);
    assert(-d <= b <= d);
    assert(e * (2 * (t * d) - 20 * n) == d * a + 10 * b) by (nonlinear_arith)
        requires
            a == 2 * (p * t) - 20 * m,
            b == 2 * (d * m) - 2 * (n * e),
            p == e,
    ;
    assert(-(d * e) <= d * a <= d * e) by (nonlinear_arith)
        requires
            -p <= a <= p,
            p == e,
            d >= 1_000,
    ;
    let z = 2 * (t * d) - 20 * n;
    assert(-(2 * d) < z < 2 * d) by (nonlinear_arith)
        requires
            -(d * e) - 10 * d <= e * z <= d * e + 10 * d,
            e >= 11,
            d >= 1_000,
    ;
}

/// The doubles around a number of at most 60 bits are no more than 128 apart.
proof fn lemma_spacing(n: nat)
    requires
        n < 0x1000_0000_0000_0000,
    ensures
        1 <= spacing(n, 1) <= 128,
{
    reveal_with_fuel(spacing, 9);
}

/// A share in hundredths is less than one above the share, and less than two below.
pub proof fn law_percentages_are_close(n: nat, d: nat)
    requires
        0 < n <= d < 0x20_0000_0000_0000,
    ensures
        percentage(n, d) * d < 100 * n + d,
        100 * n < (percentage(n, d) + 2) * d,
{
    lemma_as_double(n);
    lemma_as_double(d);
    let e = lemma_quotient(n, d, 1);
    let m = nearest(n * e, d);
    assert(1 * e == e) by (nonlinear_arith);
    lemma_nearest(n * e, d);
    assert(e >= 0x10_0000_0000_0000) by (nonlinear_arith)
        requires
            n * e >= 0x10_0000_0000_0000 * d,
            0 < n <= d,
    ;
    assert(m <= 0x20_0000_0000_0000) by (nonlinear_arith)
        requires
            2 * (d * m) <= 2 * (n * e) + d,
            n * e < 0x20_0000_0000_0000 * d,
            d > 0,
    ;
    lemma_spacing(m * 100);
    let s = spacing(m * 100, 1);
    lemma_nearest(m * 100, s);
    let u = as_double(m * 100);
    assert(u == s * nearest(m * 100, s)) by (nonlinear_arith)
        requires
            u == nearest(m * 100, s) * s,
    ;
    assert(200 * m - 128 <= 2 * u <= 200 * m + 128);
    let k = u / e;
    vstd::arithmetic::div_mod::lemma_fundamental_div_mod(u as int, e as int);
    assert(percentage(n, d) == k);
    assert(e * k <= u < e * k + e);
    let b = 2 * (d * m) - 2 * (n * e);
    assert(-d <= b <= d);
    let c = 2 * u - 200 * m;
    assert(2 * (d * u) == d * c + 100 * b + 200 * (n * e)) by (nonlinear_arith)
        requires
            b == 2 * (d * m) - 2 * (n * e),
            c == 2 * u - 200 * m,
    ;
    assert(-(128 * d) <= d * c <= 128 * d) by (nonlinear_arith)
        requires
            -128 <= c <= 128,
            d > 0,
    ;
    assert(d * u <= 100 * (n * e) + 114 * d);
    assert(d * u >= 100 * (n * e) - 114 * d);
    assert(k * d < 100 * n + d) by (nonlinear_arith)
        requires
            e * k <= u,
            d * u <= 100 * (n * e) + 114 * d,
            e >= 0x10_0000_0000_0000,
            d > 0,
    {
        assert(d * (e * k) <= d * u);
        assert(d * (e * k) == e * (k * d));
        assert(e * (k * d) <= e * (100 * n) + 114 * d);
        if k * d >= 100 * n + d {
            assert(e * (k * d) >= e * (100 * n + d));
            assert(e * (100 * n + d) == e * (100 * n) + e * d);
            assert(e * d >= 0x10_0000_0000_0000 * d);
        }
    }
    assert(100 * n < (k + 2) * d) by (nonlinear_arith)
        requires
            u < e * k + e,
            d * u >= 100 * (n * e) - 114 * d,
            e >= 0x10_0000_0000_0000,
            d > 0,
    {
        assert(d * u < d * (e * k + e));
        assert(d * (e * k + e) == e * ((k + 1) * d));
        assert(100 * (n * e) == e * (100 * n));
        assert(e * (100 * n) - 114 * d < e * ((k + 1) * d));
        if 100 * n >= (k + 2) * d {
            assert(e * (100 * n) >= e * ((k + 2) * d));
            assert(e * ((k + 2) * d) == e * ((k + 1) * d) + e * d);
            assert(e * d >= 0x10_0000_0000_0000 * d);
        }
    }
}

} // verus!
