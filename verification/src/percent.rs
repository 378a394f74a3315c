//! Percentages with one decimal, as double-precision arithmetic gives them.
//!
//! A ratio `n / d` is shown as `100 * n / d` with one digit behind the point.
//! The value shown is the one that IEEE 754 binary64 arithmetic produces: both
//! counts, the product with one hundred and the quotient are each rounded to
//! 53 significant bits, ties to even, and the quotient is then rounded to
//! tenths, ties to even. All of it is computed here on integers.

use crate::text::{append_decimal, append_digit};
#[allow(unused_imports)]
use crate::text::{decimal, digit_char};
use vstd::arithmetic::power2::*;
use vstd::prelude::*;

verus! {

/// Two to the power of the number of bits in a significand.
pub const TWO_53: u128 = 9007199254740992;

/// Half of `TWO_53`: the least significand of a normalized value.
pub const TWO_52: u128 = 4503599627370496;

/// `num / den` rounded to the nearest integer, ties to the even one.
pub open spec fn round_half_even(num: int, den: int) -> int {
    let q = num / den;
    let r = num % den;
    if 2 * r > den || (2 * r == den && q % 2 == 1) {
        q + 1
    } else {
        q
    }
}

/// The spacing of the values with 53 significant bits around `x`.
pub open spec fn ulp(x: nat) -> nat
    decreases x,
{
    if x < TWO_53 {
        1
    } else {
        2 * ulp(x / 2)
    }
}

/// The integer `x` rounded to 53 significant bits.
pub open spec fn double_of_int(x: nat) -> nat {
    (round_half_even(x as int, ulp(x) as int) * ulp(x)) as nat
}

/// Numerator of `b / c` divided by two to the power of `e`.
pub open spec fn scaled_num(b: nat, e: int) -> nat {
    if e < 0 {
        b * pow2((-e) as nat)
    } else {
        b
    }
}

/// Denominator of `b / c` divided by two to the power of `e`.
pub open spec fn scaled_den(c: nat, e: int) -> nat {
    if e > 0 {
        c * pow2(e as nat)
    } else {
        c
    }
}

/// Whether `b / c`, divided by two to the power of `e`, lies between the least
/// and the greatest significand of 53 bits.
pub open spec fn is_exponent(b: nat, c: nat, e: int) -> bool {
    TWO_52 * scaled_den(c, e) <= scaled_num(b, e) < TWO_53 * scaled_den(c, e)
}

/// The exponent of `b / c`.
pub open spec fn exponent(b: nat, c: nat) -> int {
    choose|e: int| is_exponent(b, c, e)
}

/// The significand of `b / c` rounded to 53 bits.
pub open spec fn significand(b: nat, c: nat) -> int {
    let e = exponent(b, c);
    round_half_even(scaled_num(b, e) as int, scaled_den(c, e) as int)
}

/// `b / c`, rounded to 53 significant bits and then to tenths, in tenths.
pub open spec fn quotient_tenths(b: nat, c: nat) -> int {
    let e = exponent(b, c);
    let m = significand(b, c);
    if e >= 0 {
        10 * m * pow2(e as nat)
    } else {
        round_half_even(10 * m, pow2((-e) as nat) as int)
    }
}

/// `100 * n / d` in double precision, rounded to tenths, in tenths.
pub open spec fn percent_tenths(n: nat, d: nat) -> int {
    let b = double_of_int(100 * double_of_int(n));
    let c = double_of_int(d);
    if b == 0 {
        0
    } else {
        quotient_tenths(b, c)
    }
}

/// A count of tenths as a number with one digit behind the point.
pub open spec fn tenths_text(t: nat) -> Seq<char> {
    decimal(t / 10).push('.').push(digit_char((t % 10) as int))
}

/// A smaller exponent scales to at least twice the value of a larger one.
proof fn lemma_scaled_below(b: nat, c: nat, lo: int, hi: int)
    requires
        lo < hi,
        scaled_num(b, lo) < TWO_53 * scaled_den(c, lo),
    ensures
        scaled_num(b, hi) < TWO_52 * scaled_den(c, hi),
    decreases hi - lo,
{
    if lo < 0 {
        lemma_pow2_unfold((-lo) as nat);
        lemma2_to64();
        if lo == -1 {
            assert(scaled_num(b, lo) == 2 * scaled_num(b, lo + 1)) by (nonlinear_arith)
                requires
                    scaled_num(b, lo) == b * pow2(1),
                    pow2(1) == 2,
                    scaled_num(b, lo + 1) == b,
            ;
        } else {
            let p = pow2((-lo - 1) as nat);
            assert(b * (2 * p) == 2 * (b * p)) by (nonlinear_arith);
            assert(scaled_num(b, lo) == 2 * scaled_num(b, lo + 1));
        }
    } else {
        lemma_pow2_unfold((lo + 1) as nat);
        lemma2_to64();
        let p = pow2(lo as nat);
        assert(c * (2 * p) == 2 * (c * p)) by (nonlinear_arith);
        assert(scaled_den(c, lo) == c * p) by {
            if lo == 0 {
                assert(c * p == c) by (nonlinear_arith)
                    requires
                        p == 1,
                ;
            }
        }
        assert(scaled_den(c, lo + 1) == 2 * scaled_den(c, lo));
    }
    if lo + 1 < hi {
        lemma_scaled_below(b, c, lo + 1, hi);
    }
}

/// At most one exponent fits.
proof fn lemma_exponent_is(b: nat, c: nat, e: int)
    requires
        is_exponent(b, c, e),
    ensures
        exponent(b, c) == e,
{
    let f = exponent(b, c);
    assert(is_exponent(b, c, f));
    if f < e {
        lemma_scaled_below(b, c, f, e);
    } else if e < f {
        lemma_scaled_below(b, c, e, f);
    }
}

/// `num / den` rounded to the nearest integer, ties to the even one.
fn round_ratio(num: u128, den: u128) -> (r: u128)
    requires
        0 < den,
        den <= 0x4000_0000_0000_0000_0000_0000_0000_0000,
        num < u128::MAX,
    ensures
        r == round_half_even(num as int, den as int),
        r <= num + 1,
{
    let q: u128 = num / den;
    let r: u128 = num % den;
    assert(q <= num) by (nonlinear_arith)
        requires
            q == num / den,
            den > 0,
    ;
    if 2 * r > den || (2 * r == den && q % 2 == 1) {
        q + 1
    } else {
        q
    }
}

/// The spacing around `x` is one, or a power of two that `x` exceeds 2^52 times.
proof fn lemma_ulp(x: nat)
    ensures
        ulp(x) >= 1,
        x < TWO_53 * ulp(x),
        ulp(x) == 1 || TWO_52 * ulp(x) <= x,
    decreases x,
{
    if x >= TWO_53 {
        lemma_ulp(x / 2);
    }
}

/// The integer `x` rounded to 53 significant bits.
fn round_int(x: u128) -> (r: u128)
    requires
        x < 0x100_0000_0000_0000_0000,
    ensures
        r == double_of_int(x as nat),
        x > 0 ==> r > 0,
        x == 0 ==> r == 0,
        r <= x + x / TWO_52 + 1,
{
    let mut y: u128 = x;
    let mut u: u128 = 1;
    while y >= TWO_53
        invariant
            ulp(x as nat) == u * ulp(y as nat),
            1 <= u,
            u * y <= x,
            x < 0x100_0000_0000_0000_0000,
        decreases y,
    {
        let ghost y0 = y;
        let ghost u0 = u;
        assert(u <= x) by (nonlinear_arith)
            requires
                u * y <= x,
                y >= 1,
        ;
        y = y / 2;
        u = u * 2;
        assert(u * y <= x) by (nonlinear_arith)
            requires
                u0 * y0 <= x,
                u == u0 * 2,
                y == y0 / 2,
        ;
        assert(u0 * (2 * ulp(y as nat)) == u * ulp(y as nat)) by (nonlinear_arith)
            requires
                u == u0 * 2,
        ;
    }
    proof {
        assert(u * ulp(y as nat) == u) by (nonlinear_arith)
            requires
                ulp(y as nat) == 1,
        ;
        lemma_ulp(x as nat);
    }
    let m: u128 = round_ratio(x, u);
    let ghost q = x as int / u as int;
    let ghost t = x as int % u as int;
    proof {
        assert(x == u * q + t && 0 <= t < u) by (nonlinear_arith)
            requires
                q == x as int / u as int,
                t == x as int % u as int,
                u > 0,
        ;
        assert(m * u <= x + u) by (nonlinear_arith)
            requires
                m <= q + 1,
                x == u * q + t,
                0 <= t,
                0 < u,
        ;
        if u > 1 {
            assert(u <= x as int / TWO_52 as int);
        } else {
            assert(q == x) by (nonlinear_arith)
                requires
                    x == u * q + t,
                    0 <= t < u,
                    u == 1,
            ;
            assert(m * u == x) by (nonlinear_arith)
                requires
                    m == q,
                    q == x,
                    u == 1,
            ;
        }
        if x > 0 {
            assert(m > 0) by {
                if u > 1 {
                    assert(q > 0) by (nonlinear_arith)
                        requires
                            x == u * q + t,
                            t < u,
                            u <= x,
                    ;
                }
            }
            assert(m * u > 0) by (nonlinear_arith)
                requires
                    m > 0,
                    u > 0,
            ;
        }
    }
    m * u
}

/// Rounding a ratio below 2^53 gives at most 2^53.
proof fn lemma_significand_bound(num: int, den: int)
    requires
        0 < den,
        0 <= num < TWO_53 * den,
    ensures
        0 <= round_half_even(num, den) <= TWO_53,
{
    assert(0 <= num / den < TWO_53) by (nonlinear_arith)
        requires
            0 < den,
            0 <= num < TWO_53 * den,
    ;
}

/// `b / c`, rounded to 53 significant bits and then to tenths, in tenths.
fn ratio_tenths(b: u128, c: u128) -> (r: u128)
    requires
        0 < b < 0x100_0000_0000_0000_0000,
        0 < c < 0x2_0000_0000_0000_0000,
    ensures
        r == quotient_tenths(b as nat, c as nat),
{
    let mut num: u128 = b;
    let mut den: u128 = c;
    // Two to the power of the absolute value of the exponent.
    let mut power: u128 = 1;
    let ghost mut e: int = 0;
    proof {
        lemma2_to64();
    }
    while num >= TWO_53 * den
        invariant
            num == b,
            0 < b < 0x100_0000_0000_0000_0000,
            0 < c <= den < 0x2_0000_0000_0000_0000,
            e >= 0,
            power == pow2(e as nat),
            power <= den,
            den == c * power,
            den == scaled_den(c as nat, e),
            e > 0 ==> TWO_52 * den <= num,
        decreases num - den,
    {
        proof {
            lemma_pow2_unfold((e + 1) as nat);
            let p = power as nat;
            assert(c * (2 * p) == 2 * (c * p)) by (nonlinear_arith);
        }
        den = den * 2;
        power = power * 2;
        proof {
            e = e + 1;
        }
    }
    if power == 1 {
        proof {
            if e > 0 {
                lemma_pow2_strictly_increases(0, e as nat);
            }
        }
        while num < TWO_52 * den
            invariant
                den == c,
                0 < b < 0x100_0000_0000_0000_0000,
                0 < c < 0x2_0000_0000_0000_0000,
                e <= 0,
                power == pow2((-e) as nat),
                0 < power <= num,
                num == b * power,
                num == scaled_num(b as nat, e),
                num < TWO_53 * den,
            decreases TWO_53 * den - num,
        {
            proof {
                lemma_pow2_unfold((-e + 1) as nat);
                let p = power as nat;
                assert(b * (2 * p) == 2 * (b * p)) by (nonlinear_arith);
            }
            num = num * 2;
            power = power * 2;
            proof {
                e = e - 1;
            }
        }
        proof {
            lemma_exponent_is(b as nat, c as nat, e);
        }
        let m: u128 = round_ratio(num, den);
        proof {
            lemma_significand_bound(num as int, den as int);
            if e == 0 {
                assert(10 * m * pow2(0) == round_half_even(10 * m, 1));
            }
        }
        round_ratio(10 * m, power)
    } else {
        proof {
            lemma_exponent_is(b as nat, c as nat, e);
        }
        let m: u128 = round_ratio(num, den);
        proof {
            lemma_significand_bound(num as int, den as int);
            assert(10 * m * power <= 10 * TWO_53 * 0x2_0000_0000_0000_0000) by (nonlinear_arith)
                requires
                    0 <= m <= TWO_53,
                    0 <= power < 0x2_0000_0000_0000_0000,
            ;
            assert(e > 0) by {
                lemma2_to64();
            }
        }
        10 * m * power
    }
}

/// `100 * n / d` in double precision, in tenths.
fn hundredfold_tenths(n: u64, d: u64) -> (r: u128)
    requires
        d > 0,
    ensures
        r == percent_tenths(n as nat, d as nat),
{
    let a: u128 = round_int(n as u128);
    let b: u128 = round_int(100 * a);
    let c: u128 = round_int(d as u128);
    if b == 0 {
        0
    } else {
        ratio_tenths(b, c)
    }
}

/// `100 * n / d` with one digit behind the point.
pub fn percent_text(n: u64, d: u64) -> (r: String)
    requires
        d > 0,
    ensures
        r@ == tenths_text(percent_tenths(n as nat, d as nat) as nat),
{
    let t: u128 = hundredfold_tenths(n, d);
    let mut out = String::new();
    append_decimal(&mut out, t / 10);
    proof {
        reveal_strlit(".");
    }
    out.append(".");
    append_digit(&mut out, (t % 10) as u8);
    assert(out@ =~= tenths_text(t as nat));
    out
}

/// The share of `n` in `d` as a percentage, or `N/A` where `d` is zero.
pub fn fmt_pct(n: u64, d: u64) -> (r: String)
    ensures
        d == 0 ==> r@ == "N/A"@,
        d > 0 ==> r@ == tenths_text(percent_tenths(n as nat, d as nat) as nat).push('%'),
{
    if d == 0 {
        String::from_str("N/A")
    } else {
        let mut out = percent_text(n, d);
        proof {
            reveal_strlit("%");
        }
        out.append("%");
        assert(out@ =~= tenths_text(percent_tenths(n as nat, d as nat) as nat).push('%'));
        out
    }
}

/// The share of `part` in `whole` as a percentage, `0.0%` where `whole` is zero.
pub fn rate_text(part: u64, whole: u64) -> (r: String)
    ensures
        whole == 0 ==> r@ == "0.0%"@,
        whole > 0 ==> r@ == tenths_text(percent_tenths(part as nat, whole as nat) as nat).push('%'),
{
    if whole == 0 {
        String::from_str("0.0%")
    } else {
        fmt_pct(part, whole)
    }
}

/// Rounding keeps the order of two ratios.
proof fn lemma_round_monotone(a: int, b: int, c: int, d: int)
    requires
        0 <= a,
        0 < b,
        0 <= c,
        0 < d,
        a * d <= c * b,
    ensures
        round_half_even(a, b) <= round_half_even(c, d),
{
    let q1 = a / b;
    let r1 = a % b;
    let q2 = c / d;
    let r2 = c % d;
    vstd::arithmetic::div_mod::lemma_fundamental_div_mod(a, b);
    vstd::arithmetic::div_mod::lemma_fundamental_div_mod(c, d);
    assert(q1 <= q2) by (nonlinear_arith)
        requires
            a == b * q1 + r1,
            c == d * q2 + r2,
            0 <= r1 < b,
            0 <= r2 < d,
            0 < b,
            0 < d,
            a * d <= c * b,
    ;
    if q1 == q2 {
        assert(r1 * d <= r2 * b) by (nonlinear_arith)
            requires
                a == b * q1 + r1,
                c == d * q2 + r2,
                q1 == q2,
                a * d <= c * b,
        ;
        if 2 * r1 > b {
            assert(2 * r2 > d) by (nonlinear_arith)
                requires
                    2 * r1 > b,
                    r1 * d <= r2 * b,
                    0 < b,
                    0 < d,
            ;
        } else if 2 * r1 == b {
            assert(2 * r2 >= d) by (nonlinear_arith)
                requires
                    2 * r1 == b,
                    r1 * d <= r2 * b,
                    0 < b,
                    0 < d,
            ;
        }
    }
}

/// The spacing of a larger integer is the same or at least twice as large.
proof fn lemma_ulp_monotone(x: nat, y: nat)
    requires
        x <= y,
    ensures
        ulp(x) == ulp(y) || 2 * ulp(x) <= ulp(y),
    decreases y,
{
    if x >= TWO_53 {
        lemma_ulp_monotone(x / 2, y / 2);
    } else if y >= TWO_53 {
        lemma_ulp(y / 2);
    }
}

/// Rounding an integer to 53 bits keeps the order of integers.
proof fn lemma_double_of_int_monotone(x: nat, y: nat)
    requires
        x <= y,
    ensures
        double_of_int(x) <= double_of_int(y),
{
    let u = ulp(x) as int;
    let v = ulp(y) as int;
    lemma_ulp(x);
    lemma_ulp(y);
    lemma_ulp_monotone(x, y);
    lemma_significand_bound(x as int, u);
    lemma_significand_bound(y as int, v);
    let m = round_half_even(x as int, u);
    let k = round_half_even(y as int, v);
    if u == v {
        assert(x * v <= y * u) by (nonlinear_arith)
            requires
                u == v,
                x <= y,
                0 < u,
        ;
        lemma_round_monotone(x as int, u, y as int, v);
        assert(0 <= m * u <= k * v) by (nonlinear_arith)
            requires
                0 <= m <= k,
                u == v,
                0 < u,
        ;
    } else {
        assert(k >= TWO_52) by {
            assert(y as int / v >= TWO_52) by (nonlinear_arith)
                requires
                    y >= TWO_52 * v,
                    v > 0,
            ;
        }
        assert(0 <= m * u <= k * v) by (nonlinear_arith)
            requires
                0 <= m <= TWO_53,
                k >= TWO_52,
                2 * u <= v,
                0 < u,
                TWO_53 == 2 * TWO_52,
        ;
    }
}

/// Two to the power of `k` exceeds `k`.
proof fn lemma_pow2_exceeds(k: nat)
    ensures
        pow2(k) > k,
    decreases k,
{
    if k == 0 {
        lemma2_to64();
    } else {
        lemma_pow2_exceeds((k - 1) as nat);
        lemma_pow2_unfold(k);
    }
}

/// One step down in the exponent doubles the scaled ratio.
proof fn lemma_scaled_step(b: nat, c: nat, e: int)
    ensures
        scaled_num(b, e - 1) * scaled_den(c, e) == 2 * (scaled_num(b, e) * scaled_den(c, e - 1)),
        e > 0 ==> scaled_den(c, e) == 2 * scaled_den(c, e - 1) && scaled_num(b, e) == scaled_num(
            b,
            e - 1,
        ),
        e <= 0 ==> scaled_num(b, e - 1) == 2 * scaled_num(b, e) && scaled_den(c, e) == scaled_den(
            c,
            e - 1,
        ),
{
    lemma2_to64();
    if e > 0 {
        lemma_pow2_unfold(e as nat);
        let p = pow2((e - 1) as nat);
        assert(c * (2 * p) == 2 * (c * p)) by (nonlinear_arith);
        if e == 1 {
            assert(c * p == c) by (nonlinear_arith)
                requires
                    p == 1,
            ;
        }
        let x = scaled_den(c, e - 1);
        assert(b * (2 * x) == 2 * (b * x)) by (nonlinear_arith);
    } else {
        lemma_pow2_unfold((1 - e) as nat);
        let p = pow2((-e) as nat);
        assert(b * (2 * p) == 2 * (b * p)) by (nonlinear_arith);
        if e == 0 {
            assert(b * p == b) by (nonlinear_arith)
                requires
                    p == 1,
            ;
        }
        let x = scaled_num(b, e);
        assert((2 * x) * c == 2 * (x * c)) by (nonlinear_arith);
    }
}

/// From an exponent that is large enough, a fitting one is found below.
proof fn lemma_exponent_below(b: nat, c: nat, e: int) -> (f: int)
    requires
        b > 0,
        c > 0,
        scaled_num(b, e) < TWO_53 * scaled_den(c, e),
    ensures
        is_exponent(b, c, f),
    decreases e + 53 + c,
{
    if scaled_num(b, e) >= TWO_52 * scaled_den(c, e) {
        e
    } else {
        if e <= -(52 + c) {
            let k = (-e) as nat;
            lemma_pow2_exceeds(c);
            lemma_pow2_adds(52, c);
            lemma2_to64_rest();
            if 52 + c < k {
                lemma_pow2_strictly_increases(52 + c, k);
            }
            assert(b * pow2(k) >= pow2(k)) by (nonlinear_arith)
                requires
                    b >= 1,
            ;
            assert(pow2(52) * pow2(c) >= TWO_52 * c) by (nonlinear_arith)
                requires
                    pow2(52) == TWO_52,
                    pow2(c) > c,
            ;
            assert(false);
        }
        lemma_scaled_step(b, c, e);
        lemma_exponent_below(b, c, e - 1)
    }
}

/// Every positive ratio has an exponent.
proof fn lemma_exponent(b: nat, c: nat)
    requires
        b > 0,
        c > 0,
    ensures
        is_exponent(b, c, exponent(b, c)),
{
    lemma_pow2_exceeds(b);
    let p = pow2(b);
    assert(c * p >= p) by (nonlinear_arith)
        requires
            c >= 1,
    ;
    let f = lemma_exponent_below(b, c, b as int);
    assert(is_exponent(b, c, f));
}

/// The value `m * 2^e`, rounded to tenths, in tenths.
spec fn dyadic_tenths(m: int, e: int) -> int {
    if e >= 0 {
        10 * m * pow2(e as nat)
    } else {
        round_half_even(10 * m, pow2((-e) as nat) as int)
    }
}

/// Rounding to tenths keeps the order of values with 53 significant bits.
proof fn lemma_tenths_monotone(m: int, e: int, k: int, f: int)
    requires
        0 <= m <= TWO_53,
        TWO_52 <= k,
        e < f || (e == f && m <= k),
    ensures
        dyadic_tenths(m, e) <= dyadic_tenths(k, f),
{
    let x = pow2(if e >= 0 { e as nat } else { 0 }) as int;
    let y = pow2(if e >= 0 { 0 } else { (-e) as nat }) as int;
    let z = pow2(if f >= 0 { f as nat } else { 0 }) as int;
    let w = pow2(if f >= 0 { 0 } else { (-f) as nat }) as int;
    lemma2_to64();
    lemma_pow2_pos(if e >= 0 { e as nat } else { 0 });
    lemma_pow2_pos(if e >= 0 { 0 } else { (-e) as nat });
    lemma_pow2_pos(if f >= 0 { f as nat } else { 0 });
    lemma_pow2_pos(if f >= 0 { 0 } else { (-f) as nat });
    assert(dyadic_tenths(m, e) == round_half_even(10 * m * x, y)) by {
        if e < 0 {
            assert(10 * m * x == 10 * m) by (nonlinear_arith)
                requires
                    x == 1,
            ;
        }
    }
    assert(dyadic_tenths(k, f) == round_half_even(10 * k * z, w)) by {
        if f < 0 {
            assert(10 * k * z == 10 * k) by (nonlinear_arith)
                requires
                    z == 1,
            ;
        }
    }
    if e == f {
        assert((10 * m * x) * w <= (10 * k * z) * y) by (nonlinear_arith)
            requires
                0 <= m <= k,
                x == z,
                y == w,
                x > 0,
                y > 0,
        ;
    } else {
        lemma_power_gap(e, f);
        assert((10 * m * x) * w <= (10 * k * z) * y) by (nonlinear_arith)
            requires
                0 <= m <= TWO_53,
                TWO_52 <= k,
                TWO_53 == 2 * TWO_52,
                2 * (x * w) <= z * y,
                x > 0,
                y > 0,
                z > 0,
                w > 0,
        ;
    }
    assert(0 <= 10 * m * x) by (nonlinear_arith)
        requires
            0 <= m,
            x > 0,
    ;
    assert(0 <= 10 * k * z) by (nonlinear_arith)
        requires
            0 <= k,
            z > 0,
    ;
    lemma_round_monotone(10 * m * x, y, 10 * k * z, w);
}

/// A larger exponent weighs at least twice as much.
proof fn lemma_power_gap(e: int, f: int)
    requires
        e < f,
    ensures
        ({
            let x = pow2(if e >= 0 { e as nat } else { 0 }) as int;
            let y = pow2(if e >= 0 { 0 } else { (-e) as nat }) as int;
            let z = pow2(if f >= 0 { f as nat } else { 0 }) as int;
            let w = pow2(if f >= 0 { 0 } else { (-f) as nat }) as int;
            2 * (x * w) <= z * y
        }),
{
    lemma2_to64();
    if e >= 0 {
        lemma_pow2_unfold((e + 1) as nat);
        if e + 1 < f {
            lemma_pow2_strictly_increases((e + 1) as nat, f as nat);
        }
        assert(pow2(e as nat) * 1 == pow2(e as nat)) by (nonlinear_arith);
        assert(pow2(f as nat) * 1 == pow2(f as nat)) by (nonlinear_arith);
    } else if f < 0 {
        lemma_pow2_unfold((-f + 1) as nat);
        if -f + 1 < -e {
            lemma_pow2_strictly_increases((-f + 1) as nat, (-e) as nat);
        }
        assert(1 * pow2((-f) as nat) == pow2((-f) as nat)) by (nonlinear_arith);
        assert(1 * pow2((-e) as nat) == pow2((-e) as nat)) by (nonlinear_arith);
    } else {
        lemma_pow2_pos(f as nat);
        lemma_pow2_unfold((-e) as nat);
        lemma_pow2_pos((-e - 1) as nat);
        let z = pow2(f as nat) as int;
        let y = pow2((-e) as nat) as int;
        assert(2 <= z * y) by (nonlinear_arith)
            requires
                z >= 1,
                y >= 2,
        ;
    }
}

/// A larger numerator gives at least as many tenths.
proof fn lemma_quotient_monotone(b1: nat, b2: nat, c: nat)
    requires
        0 < b1 <= b2,
        c > 0,
    ensures
        quotient_tenths(b1, c) <= quotient_tenths(b2, c),
{
    let e = exponent(b1, c);
    let f = exponent(b2, c);
    lemma_exponent(b1, c);
    lemma_exponent(b2, c);
    assert(forall|g: int| scaled_num(b1, g) <= scaled_num(b2, g)) by {
        assert forall|g: int| scaled_num(b1, g) <= scaled_num(b2, g) by {
            if g < 0 {
                let p = pow2((-g) as nat);
                assert(b1 * p <= b2 * p) by (nonlinear_arith)
                    requires
                        b1 <= b2,
                ;
            }
        }
    }
    if f < e {
        lemma_scaled_below(b2, c, f, e);
    }
    let d1 = scaled_den(c, e) as int;
    let d2 = scaled_den(c, f) as int;
    lemma_scaled_den_pos(c, e);
    lemma_scaled_den_pos(c, f);
    lemma_significand_bound(scaled_num(b1, e) as int, d1);
    let m = significand(b1, c);
    let k = significand(b2, c);
    if e == f {
        assert(scaled_num(b1, e) * d2 <= scaled_num(b2, f) * d1) by (nonlinear_arith)
            requires
                scaled_num(b1, e) <= scaled_num(b2, f),
                d1 == d2,
                d1 > 0,
        ;
        lemma_round_monotone(scaled_num(b1, e) as int, d1, scaled_num(b2, f) as int, d2);
    }
    assert(k >= TWO_52) by {
        let y = scaled_num(b2, f) as int;
        assert(y / d2 >= TWO_52) by (nonlinear_arith)
            requires
                y >= TWO_52 * d2,
                d2 > 0,
        ;
    }
    lemma_tenths_monotone(m, e, k, f);
}

/// A scaled denominator is positive.
proof fn lemma_scaled_den_pos(c: nat, e: int)
    requires
        c > 0,
    ensures
        scaled_den(c, e) > 0,
{
    if e > 0 {
        lemma_pow2_pos(e as nat);
        let p = pow2(e as nat);
        assert(c * p > 0) by (nonlinear_arith)
            requires
                c > 0,
                p > 0,
        ;
    }
}

/// Rounding to 53 bits moves an integer by at most its 2^53rd part, and zero not
/// at all.
proof fn lemma_double_of_int_close(x: nat)
    ensures
        TWO_53 * (double_of_int(x) - x) <= x,
        TWO_53 * (x - double_of_int(x)) <= x,
        x > 0 ==> double_of_int(x) > 0,
        double_of_int(0) == 0,
{
    let u = ulp(x) as int;
    lemma_ulp(x);
    let q = x as int / u;
    let r = x as int % u;
    let m = round_half_even(x as int, u);
    vstd::arithmetic::div_mod::lemma_fundamental_div_mod(x as int, u);
    if m == q {
        assert(m * u == x - r) by (nonlinear_arith)
            requires
                m == q,
                x == u * q + r,
        ;
    } else {
        assert(m * u == x - r + u) by (nonlinear_arith)
            requires
                m == q + 1,
                x == u * q + r,
        ;
    }
    assert(ulp(0) == 1);
    assert(round_half_even(0, 1) == 0);
}

/// A larger count has at least as large a percentage of the same whole.
pub proof fn law_percent_monotone(n1: nat, n2: nat, d: nat)
    requires
        n1 <= n2,
        d > 0,
    ensures
        percent_tenths(n1, d) <= percent_tenths(n2, d),
{
    let a1 = double_of_int(n1);
    let a2 = double_of_int(n2);
    let b1 = double_of_int(100 * a1);
    let b2 = double_of_int(100 * a2);
    let c = double_of_int(d);
    lemma_double_of_int_monotone(n1, n2);
    lemma_double_of_int_monotone(100 * a1, 100 * a2);
    lemma_double_of_int_close(d);
    if b1 > 0 {
        lemma_quotient_monotone(b1, b2, c);
    } else if b2 > 0 {
        lemma_quotient_nonnegative(b2, c);
    }
}

/// A quotient has no negative number of tenths.
proof fn lemma_quotient_nonnegative(b: nat, c: nat)
    requires
        b > 0,
        c > 0,
    ensures
        quotient_tenths(b, c) >= 0,
{
    let e = exponent(b, c);
    lemma_exponent(b, c);
    lemma_scaled_den_pos(c, e);
    lemma_significand_bound(scaled_num(b, e) as int, scaled_den(c, e) as int);
    let m = significand(b, c);
    if e >= 0 {
        let p = pow2(e as nat);
        assert(10 * m * p >= 0) by (nonlinear_arith)
            requires
                m >= 0,
                p >= 0,
        ;
    } else {
        let p = pow2((-e) as nat) as int;
        lemma_pow2_pos((-e) as nat);
        assert((10 * m) / p >= 0) by (nonlinear_arith)
            requires
                m >= 0,
                p > 0,
        ;
    }
}

/// All of a whole is exactly one hundred percent, however large the count.
pub proof fn law_percent_of_all(d: nat)
    requires
        d > 0,
    ensures
        percent_tenths(d, d) == 1000,
{
    let c = double_of_int(d);
    let b = double_of_int(100 * c);
    lemma_double_of_int_close(d);
    lemma_double_of_int_close(100 * c);
    lemma2_to64_rest();
    let k: int = 70368744177664;
    assert(scaled_num(b, -46) == b * 70368744177664);
    assert(b * k == b * 70368744177664);
    assert((100 * k - 1) * c == 7036874417766399 * c) by (nonlinear_arith)
        requires
            k == 70368744177664,
    ;
    assert((100 * k + 1) * c == 7036874417766401 * c) by (nonlinear_arith)
        requires
            k == 70368744177664,
    ;
    assert(is_exponent(b, c, -46));
    lemma_exponent_is(b, c, -46);
    let m = significand(b, c);
    assert(m == round_half_even(b * k, c as int));
    let q = (b * k) / c as int;
    assert(100 * k - 1 <= q <= 100 * k) by (nonlinear_arith)
        requires
            q == (b * k) / c as int,
            c > 0,
            (100 * k - 1) * c <= b * k,
            b * k < (100 * k + 1) * c,
    ;
    assert(round_half_even(10 * m, k) == 1000);
}

/// An integer of at most 53 bits is kept.
proof fn lemma_double_of_int_exact(x: nat)
    requires
        x <= TWO_53,
    ensures
        double_of_int(x) == x,
{
    if x < TWO_53 {
        assert(round_half_even(x as int, 1) == x);
        assert(x * ulp(x) == x) by (nonlinear_arith)
            requires
                ulp(x) == 1,
        ;
    } else {
        assert(ulp(x / 2) == 1);
        assert(ulp(x) == 2);
        assert(round_half_even(x as int, 2) == TWO_52);
    }
}

/// Rounding moves a ratio by at most one half.
proof fn lemma_round_close(num: int, den: int)
    requires
        0 <= num,
        0 < den,
    ensures
        2 * (round_half_even(num, den) * den - num) <= den,
        2 * (num - round_half_even(num, den) * den) <= den,
{
    let q = num / den;
    let r = num % den;
    vstd::arithmetic::div_mod::lemma_fundamental_div_mod(num, den);
    assert((q + 1) * den == q * den + den) by (nonlinear_arith);
    assert(den * q == q * den) by (nonlinear_arith);
}

/// The percentage that is shown is a tenth that is nearest to the exact one, for all
/// counts below 2^42 and all wholes below 2^53.
pub proof fn law_percent_is_nearest(n: nat, d: nat)
    requires
        n < 0x400_0000_0000,
        0 < d < TWO_53,
    ensures
        2 * (percent_tenths(n, d) * d - 1000 * n) <= d,
        2 * (1000 * n - percent_tenths(n, d) * d) <= d,
{
    let b = 100 * n;
    lemma_double_of_int_exact(n);
    lemma_double_of_int_exact(b);
    lemma_double_of_int_exact(d);
    if n > 0 {
        let e = exponent(b, d);
        lemma_exponent(b, d);
        lemma_scaled_den_pos(d, e);
        let p = pow2((-e) as nat) as int;
        lemma_pow2_pos((-e) as nat);
        let m = significand(b, d);
        let t = percent_tenths(n, d);
        let bp = b * p;
        lemma_round_close(bp, d as int);
        lemma_significand_bound(bp, d as int);
        lemma_round_close(10 * m, p);
        assert(p > 10 * d) by (nonlinear_arith)
            requires
                bp == b * p,
                TWO_52 * d <= bp,
                0 < b,
                10 * b < TWO_52,
                d > 0,
        ;
        assert(2 * (t * d - 10 * b) <= d) by (nonlinear_arith)
            requires
                2 * (t * p - 10 * m) <= p,
                2 * (m * d - bp) <= d,
                bp == b * p,
                p > 10 * d,
                d > 0,
        ;
        assert(2 * (10 * b - t * d) <= d) by (nonlinear_arith)
            requires
                2 * (10 * m - t * p) <= p,
                2 * (bp - m * d) <= d,
                bp == b * p,
                p > 10 * d,
                d > 0,
        ;
    }
}

/// A part is never more than one hundred percent of its whole.
pub proof fn law_percent_of_part(n: nat, d: nat)
    requires
        n <= d,
        d > 0,
    ensures
        0 <= percent_tenths(n, d) <= 1000,
{
    law_percent_monotone(n, d, d);
    law_percent_of_all(d);
    law_percent_monotone(0, n, d);
    law_percent_of_nothing(d);
}

/// Nothing is exactly zero percent of any whole.
pub proof fn law_percent_of_nothing(d: nat)
    requires
        d > 0,
    ensures
        percent_tenths(0, d) == 0,
{
    lemma_double_of_int_close(0);
}

/// A common factor of a ratio can be left out before rounding.
proof fn lemma_round_common_factor(num: int, den: int, k: int)
    requires
        0 <= num,
        0 < den,
        0 < k,
    ensures
        round_half_even(k * num, k * den) == round_half_even(num, den),
{
    assert((k * num) * den == num * (k * den)) by (nonlinear_arith);
    assert(0 <= k * num && 0 < k * den) by (nonlinear_arith)
        requires
            0 <= num,
            0 < den,
            0 < k,
    ;
    lemma_round_monotone(k * num, k * den, num, den);
    lemma_round_monotone(num, den, k * num, k * den);
}

/// A common factor of a ratio stays one when the ratio is scaled.
proof fn lemma_scaled_common_factor(b: nat, c: nat, k: nat, e: int)
    ensures
        scaled_num(k * b, e) == k * scaled_num(b, e),
        scaled_den(k * c, e) == k * scaled_den(c, e),
{
    let p = pow2((-e) as nat);
    let q = pow2(e as nat);
    assert((k * b) * p == k * (b * p)) by (nonlinear_arith);
    assert((k * c) * q == k * (c * q)) by (nonlinear_arith);
}

/// A common factor of a ratio changes neither its exponent nor its tenths.
proof fn lemma_quotient_common_factor(b: nat, c: nat, k: nat)
    requires
        b > 0,
        c > 0,
        k > 0,
    ensures
        quotient_tenths(k * b, k * c) == quotient_tenths(b, c),
{
    let e = exponent(b, c);
    lemma_exponent(b, c);
    lemma_scaled_common_factor(b, c, k, e);
    let num = scaled_num(b, e) as int;
    let den = scaled_den(c, e) as int;
    lemma_scaled_den_pos(c, e);
    assert(TWO_52 * (k * den) <= k * num && k * num < TWO_53 * (k * den)) by (nonlinear_arith)
        requires
            TWO_52 * den <= num,
            num < TWO_53 * den,
            k > 0,
    ;
    assert(is_exponent(k * b, k * c, e));
    lemma_exponent_is(k * b, k * c, e);
    lemma_round_common_factor(num, den, k as int);
}

/// Counts that are all multiplied by one factor have the same percentage, as long as the
/// counts, a hundred times the part among them, stay within 2^53.
pub proof fn law_percent_common_factor(n: nat, d: nat, k: nat)
    requires
        d > 0,
        k > 0,
        100 * (k * n) <= TWO_53,
        k * d <= TWO_53,
    ensures
        percent_tenths(k * n, k * d) == percent_tenths(n, d),
{
    assert(n <= k * n && 0 < d <= k * d) by (nonlinear_arith)
        requires
            d > 0,
            k > 0,
    ;
    lemma_double_of_int_exact(n);
    lemma_double_of_int_exact(100 * n);
    lemma_double_of_int_exact(d);
    lemma_double_of_int_exact(k * n);
    lemma_double_of_int_exact(100 * (k * n));
    lemma_double_of_int_exact(k * d);
    if n > 0 {
        assert(k * (100 * n) == 100 * (k * n)) by (nonlinear_arith);
        assert(k * n > 0) by (nonlinear_arith)
            requires
                k > 0,
                n > 0,
        ;
        lemma_quotient_common_factor(100 * n, d, k);
    } else {
        assert(k * n == 0) by (nonlinear_arith)
            requires
                n == 0,
        ;
    }
}

} // verus!
