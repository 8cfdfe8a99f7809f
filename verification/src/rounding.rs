//! Rounding a decimal to the nearest value of a binary floating-point format,
//! ties to even, in exact integer arithmetic.
//!
//! A finite value of a format is named by its bit pattern without the sign
//! bit. The patterns are ordered as their values are, and each pattern owns
//! the interval of the reals that round to it: from half way to the pattern
//! below to half way to the pattern above. These intervals are measured in
//! quarters of the smallest positive value, so that every bound is an
//! integer.

use crate::bigint::{
    big_abs, big_add, big_eq, big_from_i64, big_le, big_lt, big_mul, big_pow, big_pow10_wide,
    big_to_text, big_value, lemma_digits_bound, nat_text,
};
use crate::error::Error;
use num_bigint::BigInt;
use vstd::arithmetic::mul::{lemma_mul_inequality, lemma_mul_strict_inequality};
use vstd::arithmetic::power::{
    lemma_pow0, lemma_pow_adds, lemma_pow_increases, lemma_pow_multiplies, lemma_pow_positive, pow,
};
use vstd::arithmetic::power2::{lemma2_to64, lemma_pow2};
use vstd::prelude::*;
use vstd::string::StrSliceExecFns;

verus! {

/// Two to the number of fraction bits of a format.
pub open spec fn frac_unit(wide: bool) -> int {
    if wide {
        4503599627370496
    } else {
        8388608
    }
}

/// Two to the number of bits below the sign bit of a format.
pub open spec fn sign_unit(wide: bool) -> int {
    if wide {
        9223372036854775808
    } else {
        2147483648
    }
}

/// The pattern of the largest finite value of a format.
pub open spec fn top_pattern(wide: bool) -> int {
    sign_unit(wide) - frac_unit(wide) - 1
}

/// The binary exponent, negated, of a quarter of the smallest positive value
/// of a format.
pub open spec fn lift(wide: bool) -> nat {
    if wide {
        1076
    } else {
        151
    }
}

/// The exponent field of a pattern.
pub open spec fn exponent(p: int, wide: bool) -> int {
    p / frac_unit(wide)
}

/// The fraction field of a pattern.
pub open spec fn fraction(p: int, wide: bool) -> int {
    p % frac_unit(wide)
}

/// The integer significand of a pattern: the fraction, with the hidden bit
/// where the exponent field is not zero.
pub open spec fn significand(p: int, wide: bool) -> int {
    if exponent(p, wide) == 0 {
        fraction(p, wide)
    } else {
        fraction(p, wide) + frac_unit(wide)
    }
}

/// The binary exponent of the unit in the last place of a pattern, over that
/// of the smallest positive value.
pub open spec fn shift(p: int, wide: bool) -> nat {
    if exponent(p, wide) <= 1 {
        0
    } else {
        (exponent(p, wide) - 1) as nat
    }
}

/// The value of a pattern, in quarters of the smallest positive value.
pub open spec fn value(p: int, wide: bool) -> int {
    4 * significand(p, wide) * pow(2, shift(p, wide))
}

/// The distance from the lower bound of the interval of a pattern to its
/// value, in quarters of its unit in the last place: a quarter where the
/// pattern below has half the unit, as at the first pattern of an exponent,
/// and a half elsewhere.
pub open spec fn below(p: int, wide: bool) -> int {
    if fraction(p, wide) == 0 && exponent(p, wide) > 1 {
        1
    } else {
        2
    }
}

/// The lower bound of the interval of a pattern: half way from the value of
/// the pattern below.
pub open spec fn low(p: int, wide: bool) -> int {
    (4 * significand(p, wide) - below(p, wide)) * pow(2, shift(p, wide))
}

/// The upper bound of the interval of a pattern: half way to the value of
/// the pattern above.
pub open spec fn high(p: int, wide: bool) -> int {
    (4 * significand(p, wide) + 2) * pow(2, shift(p, wide))
}

/// The numerator of the magnitude of the decimal `n / 10^scale`, in quarters
/// of the smallest positive value of a format.
pub open spec fn magnitude(n: int, scale: int, wide: bool) -> int {
    (if n < 0 {
        -n
    } else {
        n
    }) * (if scale < 0 {
        pow(10, (-scale) as nat)
    } else {
        1
    }) * pow(2, lift(wide))
}

/// The denominator of that magnitude.
pub open spec fn denominator(scale: int) -> int {
    if scale < 0 {
        1
    } else {
        pow(10, scale as nat)
    }
}

/// Whether the magnitude `x / u` rounds to a pattern: it lies in the
/// interval of the pattern, and not at a bound of it unless the significand
/// is even.
pub open spec fn in_interval(p: int, x: int, u: int, wide: bool) -> bool {
    &&& low(p, wide) * u <= x <= high(p, wide) * u
    &&& (significand(p, wide) % 2 == 1 ==> low(p, wide) * u < x < high(p, wide) * u)
}

/// Whether a bit pattern is the round-to-nearest, ties-to-even, image of the
/// decimal `n / 10^scale` in a format: it is finite, has the sign bit where
/// the decimal is negative, and the magnitude of the decimal rounds to the
/// rest of it.
pub open spec fn rounds_to(n: int, scale: int, bits: int, wide: bool) -> bool {
    &&& 0 <= bits < 2 * sign_unit(wide)
    &&& bits % sign_unit(wide) <= top_pattern(wide)
    &&& (n < 0) == (bits >= sign_unit(wide))
    &&& in_interval(bits % sign_unit(wide), magnitude(n, scale, wide), denominator(scale), wide)
}

/// The image of a decimal in a format: the one bit pattern that it rounds
/// to, or a quantization failure where there is none, as where the decimal
/// is beyond the largest finite value.
pub open spec fn nearest_bits(n: int, scale: int, wide: bool) -> Result<u64, Error> {
    if exists|b: u64| rounds_to(n, scale, b as int, wide) {
        Ok(choose|b: u64| rounds_to(n, scale, b as int, wide))
    } else {
        Err(Error::QuantizationFailure)
    }
}

/// A power of two is positive, and the next is twice as large.
pub proof fn lemma_pow2_step(e: nat)
    ensures
        pow(2, e) > 0,
        pow(2, e + 1) == 2 * pow(2, e),
{
    lemma_pow_positive(2, e);
    reveal(pow);
}

/// The interval of a pattern ends where that of the next begins, half way
/// between the two values, and of two patterns next to each other one has
/// an even significand.
pub proof fn lemma_adjacent(p: int, wide: bool)
    requires
        0 <= p < top_pattern(wide),
    ensures
        high(p, wide) == low(p + 1, wide),
        significand(p, wide) % 2 != significand(p + 1, wide) % 2,
        value(p + 1, wide) - low(p + 1, wide) == high(p, wide) - value(p, wide),
{
    let u = frac_unit(wide);
    let e = exponent(p, wide);
    let f = fraction(p, wide);
    let t = pow(2, shift(p, wide));
    lemma_pow2_step(shift(p, wide));
    if f < u - 1 {
        assert(exponent(p + 1, wide) == e && fraction(p + 1, wide) == f + 1);
        let s = significand(p, wide);
        assert((4 * (s + 1) - 2) * t == (4 * s + 2) * t);
        assert(4 * (s + 1) * t - (4 * (s + 1) - 2) * t == (4 * s + 2) * t - 4 * s * t)
            by (nonlinear_arith);
    } else {
        assert(exponent(p + 1, wide) == e + 1 && fraction(p + 1, wide) == 0);
        if e == 0 {
            assert(shift(p + 1, wide) == 0);
            assert((4 * u - 2) * t == (4 * (u - 1) + 2) * t);
            assert(4 * u * t - (4 * u - 2) * t == (4 * (u - 1) + 2) * t - 4 * (u - 1) * t)
                by (nonlinear_arith);
        } else {
            assert(shift(p + 1, wide) == shift(p, wide) + 1);
            assert((4 * u - 1) * (2 * t) == (4 * (2 * u - 1) + 2) * t) by (nonlinear_arith);
            assert(4 * u * (2 * t) - (4 * u - 1) * (2 * t) == (4 * (2 * u - 1) + 2) * t - 4 * (2
                * u - 1) * t) by (nonlinear_arith);
        }
    }
}

/// The interval of a pattern is not empty, and holds its value.
pub proof fn lemma_width(p: int, wide: bool)
    requires
        0 <= p <= top_pattern(wide),
    ensures
        low(p, wide) < value(p, wide) < high(p, wide),
{
    let t = pow(2, shift(p, wide));
    let s = significand(p, wide);
    let b = below(p, wide);
    lemma_pow2_step(shift(p, wide));
    assert((4 * s - b) * t < 4 * s * t < (4 * s + 2) * t) by (nonlinear_arith)
        requires
            t > 0,
            1 <= b <= 2,
    ;
}

/// The intervals are ordered as the patterns are.
pub proof fn lemma_ordered(p: int, q: int, wide: bool)
    requires
        0 <= p < q <= top_pattern(wide),
    ensures
        high(p, wide) <= low(q, wide),
        low(p, wide) < low(q, wide),
        high(p, wide) < high(q, wide),
        value(p, wide) < value(q, wide),
    decreases q - p,
{
    lemma_adjacent(p, wide);
    lemma_width(p, wide);
    lemma_width(q, wide);
    if p + 1 < q {
        lemma_width(p + 1, wide);
        lemma_ordered(p + 1, q, wide);
    }
}

/// A magnitude rounds to one pattern at most.
pub proof fn lemma_one_pattern(p: int, q: int, x: int, u: int, wide: bool)
    requires
        0 <= p <= top_pattern(wide),
        0 <= q <= top_pattern(wide),
        u > 0,
        in_interval(p, x, u, wide),
        in_interval(q, x, u, wide),
    ensures
        p == q,
{
    if p < q {
        lemma_not_above(p, q, x, u, wide);
    } else if q < p {
        lemma_not_above(q, p, x, u, wide);
    }
}

/// A magnitude that rounds to a pattern rounds to none above it.
proof fn lemma_not_above(p: int, q: int, x: int, u: int, wide: bool)
    requires
        0 <= p <= q <= top_pattern(wide),
        u > 0,
        in_interval(p, x, u, wide),
        in_interval(q, x, u, wide),
    ensures
        p == q,
{
    if p < q {
        lemma_ordered(p, q, wide);
        lemma_adjacent(p, wide);
        lemma_mul_inequality(high(p, wide), low(q, wide), u);
        if p + 1 < q {
            lemma_ordered(p + 1, q, wide);
            lemma_mul_strict_inequality(high(p, wide), low(q, wide), u);
        }
    }
}

/// A decimal has one image at most.
pub proof fn lemma_one_image(n: int, scale: int, b1: int, b2: int, wide: bool)
    requires
        rounds_to(n, scale, b1, wide),
        rounds_to(n, scale, b2, wide),
    ensures
        b1 == b2,
{
    let s = sign_unit(wide);
    lemma_denominator(scale);
    lemma_one_pattern(
        b1 % s,
        b2 % s,
        magnitude(n, scale, wide),
        denominator(scale),
        wide,
    );
}

/// The denominator of a magnitude is positive.
pub proof fn lemma_denominator(scale: int)
    ensures
        denominator(scale) > 0,
{
    if scale >= 0 {
        lemma_pow_positive(10, scale as nat);
    }
}

/// The distance of the magnitude `x / u` from the value of a pattern, times
/// `u`.
pub open spec fn distance(p: int, x: int, u: int, wide: bool) -> int {
    if x >= value(p, wide) * u {
        x - value(p, wide) * u
    } else {
        value(p, wide) * u - x
    }
}

/// The pattern that a magnitude rounds to is the nearest: the magnitude is
/// no farther from its value than from the value of any other finite
/// pattern.
pub proof fn lemma_nearest(p: int, c: int, x: int, u: int, wide: bool)
    requires
        0 <= p <= top_pattern(wide),
        0 <= c <= top_pattern(wide),
        u > 0,
        in_interval(p, x, u, wide),
    ensures
        distance(p, x, u, wide) <= distance(c, x, u, wide),
{
    let vp = value(p, wide);
    let vc = value(c, wide);
    if c > p {
        lemma_adjacent(p, wide);
        lemma_ordered(p, c, wide);
        if c > p + 1 {
            lemma_ordered(p + 1, c, wide);
        }
        let next = value(p + 1, wide);
        let h = high(p, wide);
        lemma_mul_inequality(next, vc, u);
        lemma_mul_inequality(vp, vc, u);
        assert(next * u - h * u == h * u - vp * u) by (nonlinear_arith)
            requires
                next - h == h - vp,
        ;
    } else if c < p {
        lemma_adjacent(p - 1, wide);
        lemma_ordered(c, p, wide);
        if c < p - 1 {
            lemma_ordered(c, p - 1, wide);
        }
        let prev = value(p - 1, wide);
        let l = low(p, wide);
        lemma_mul_inequality(vc, prev, u);
        lemma_mul_inequality(vc, vp, u);
        assert(vp * u - l * u == l * u - prev * u) by (nonlinear_arith)
            requires
                vp - l == l - prev,
        ;
    }
}

/// The image of a decimal is the nearest value of the format: the magnitude
/// of the decimal is no farther from the value of the pattern of its image
/// than from the value of any other finite pattern.
pub proof fn lemma_image_is_nearest(n: int, scale: int, bits: int, other: int, wide: bool)
    requires
        rounds_to(n, scale, bits, wide),
        0 <= other <= top_pattern(wide),
    ensures
        distance(bits % sign_unit(wide), magnitude(n, scale, wide), denominator(scale), wide)
            <= distance(other, magnitude(n, scale, wide), denominator(scale), wide),
{
    lemma_denominator(scale);
    lemma_nearest(
        bits % sign_unit(wide),
        other,
        magnitude(n, scale, wide),
        denominator(scale),
        wide,
    );
}

/// The bound of the interval of a pattern: the upper one, or the lower.
fn bound(p: u64, wide: bool, upper: bool) -> (r: BigInt)
    requires
        p <= top_pattern(wide),
    ensures
        big_value(r) == if upper {
            high(p as int, wide)
        } else {
            low(p as int, wide)
        },
{
    let unit: u64 = if wide { 4503599627370496 } else { 8388608 };
    let e: u64 = p / unit;
    let f: u64 = p % unit;
    let sig: u64 = if e == 0 { f } else { f + unit };
    let sh: u32 = if e <= 1 { 0 } else { (e - 1) as u32 };
    let side: i64 = if upper { 2 } else if f == 0 && e > 1 { -1 } else { -2 };
    let k: i64 = 4 * (sig as i64) + side;
    let two = big_from_i64(2);
    big_mul(&big_from_i64(k), &big_pow(&two, sh))
}

/// Whether the significand of a pattern is odd.
fn odd(p: u64, wide: bool) -> (r: bool)
    requires
        p <= top_pattern(wide),
    ensures
        r == (significand(p as int, wide) % 2 == 1),
{
    let unit: u64 = if wide { 4503599627370496 } else { 8388608 };
    (p % unit) % 2 == 1
}

/// Whether a magnitude rounds to a pattern.
fn within(p: u64, x: &BigInt, u: &BigInt, wide: bool) -> (r: bool)
    requires
        p <= top_pattern(wide),
    ensures
        r == in_interval(p as int, big_value(*x), big_value(*u), wide),
{
    let lo = big_mul(&bound(p, wide, false), u);
    let hi = big_mul(&bound(p, wide, true), u);
    if odd(p, wide) {
        big_lt(&lo, x) && big_lt(x, &hi)
    } else {
        big_le(&lo, x) && big_le(x, &hi)
    }
}

/// A power of the smaller of two positive bases is the smaller.
pub proof fn lemma_pow_base(a: int, b: int, e: nat)
    requires
        0 < a <= b,
    ensures
        0 < pow(a, e) <= pow(b, e),
    decreases e,
{
    reveal(pow);
    if e > 0 {
        lemma_pow_base(a, b, (e - 1) as nat);
        let x = pow(a, (e - 1) as nat);
        let y = pow(b, (e - 1) as nat);
        assert(0 < a * x <= b * y) by (nonlinear_arith)
            requires
                0 < a <= b,
                0 < x <= y,
        ;
    }
}

/// A magnitude below half the smallest positive value rounds to the
/// pattern 0 and to no other.
pub proof fn lemma_only_zero(x: int, u: int, wide: bool)
    requires
        0 <= x < 2 * u,
    ensures
        forall|p: int|
            0 <= p <= top_pattern(wide) ==> #[trigger] in_interval(p, x, u, wide) == (p == 0),
{
    lemma_pow0(2);
    assert forall|p: int| 0 <= p <= top_pattern(wide) implies #[trigger] in_interval(
        p,
        x,
        u,
        wide,
    ) == (p == 0) by {
        if p == 0 {
            assert(low(0, wide) == -2 && high(0, wide) == 2);
        } else {
            assert(high(0, wide) == 2);
            lemma_ordered(0, p, wide);
            lemma_mul_inequality(2, low(p, wide), u);
        }
    }
}

/// A magnitude above the upper bound of the largest finite pattern rounds
/// to no pattern.
pub proof fn lemma_no_pattern(x: int, u: int, wide: bool)
    requires
        u > 0,
        x > high(top_pattern(wide), wide) * u,
    ensures
        forall|p: int| 0 <= p <= top_pattern(wide) ==> !#[trigger] in_interval(p, x, u, wide),
{
    let top = top_pattern(wide);
    assert forall|p: int| 0 <= p <= top implies !#[trigger] in_interval(p, x, u, wide) by {
        if p < top {
            lemma_ordered(p, top, wide);
        }
        lemma_mul_inequality(high(p, wide), high(top, wide), u);
    }
}

/// A decimal with many more digits after the point than digits in all is
/// below half the smallest positive value of either format.
pub proof fn lemma_tiny(a: nat, scale: nat, count: nat, wide: bool)
    requires
        a < pow(10, count),
        scale >= count + 1100,
    ensures
        0 <= a * 1 * pow(2, lift(wide)) < 2 * pow(10, scale),
{
    let l = lift(wide);
    lemma_pow_base(2, 10, l);
    lemma_pow_increases(10, l, 1100);
    lemma_pow_adds(10, count, 1100);
    lemma_pow_increases(10, count + 1100, scale);
    lemma_pow_positive(10, count);
    let t = pow(2, l);
    let c = pow(10, count);
    let k = pow(10, 1100);
    assert(a * 1 * t < c * k) by (nonlinear_arith)
        requires
            0 <= a < c,
            0 < t <= k,
    ;
    assert(0 <= a * 1 * t) by (nonlinear_arith)
        requires
            0 <= a,
            0 < t,
    ;
}

/// A decimal that is not zero and has 800 zeros or more before the point
/// is above the largest finite value of either format.
pub proof fn lemma_huge(a: nat, zeros: nat, wide: bool)
    requires
        a >= 1,
        zeros >= 800,
    ensures
        a * pow(10, zeros) * pow(2, lift(wide)) > high(top_pattern(wide), wide) * 1,
{
    let top = top_pattern(wide);
    let sh = shift(top, wide);
    let t = pow(2, sh);
    lemma_pow_positive(2, sh);
    lemma2_to64();
    lemma_pow2(64);
    lemma_pow2(3);
    let big = pow(2, 64);
    assert(4 * significand(top, wide) + 2 < big);
    assert(high(top, wide) < big * t) by (nonlinear_arith)
        requires
            high(top, wide) == (4 * significand(top, wide) + 2) * t,
            4 * significand(top, wide) + 2 < big,
            t > 0,
    ;
    lemma_pow_adds(2, 64, sh);
    lemma_pow_increases(2, 64 + sh, 2400);
    lemma_pow_multiplies(2, 3, 800);
    lemma_pow_base(8, 10, 800);
    lemma_pow_increases(10, 800, zeros);
    lemma_pow_positive(2, lift(wide));
    let z = pow(10, zeros);
    let l = pow(2, lift(wide));
    assert(a * z * l >= z) by (nonlinear_arith)
        requires
            a >= 1,
            z > 0,
            l >= 1,
    ;
}

/// A magnitude below the upper bound of a pattern rounds to that pattern or
/// to one below it.
pub proof fn lemma_some_pattern(p: int, x: int, u: int, wide: bool) -> (q: int)
    requires
        0 <= p <= top_pattern(wide),
        u > 0,
        0 <= x < high(p, wide) * u,
    ensures
        0 <= q <= p,
        in_interval(q, x, u, wide),
    decreases p,
{
    if p == 0 {
        lemma_pow0(2);
        assert(low(0, wide) == -2);
        0
    } else {
        lemma_adjacent(p - 1, wide);
        if x < low(p, wide) * u {
            lemma_some_pattern(p - 1, x, u, wide)
        } else if x == low(p, wide) * u && significand(p, wide) % 2 == 1 {
            lemma_width(p - 1, wide);
            lemma_mul_strict_inequality(low(p - 1, wide), high(p - 1, wide), u);
            p - 1
        } else {
            p
        }
    }
}

/// A decimal whose magnitude is not beyond the largest finite value of a
/// format has an image in it, whatever its scale.
pub proof fn lemma_in_range_has_image(n: int, scale: int, wide: bool)
    requires
        magnitude(n, scale, wide) <= value(top_pattern(wide), wide) * denominator(scale),
    ensures
        nearest_bits(n, scale, wide) is Ok,
        rounds_to(n, scale, nearest_bits(n, scale, wide)->Ok_0 as int, wide),
{
    let x = magnitude(n, scale, wide);
    let u = denominator(scale);
    let top = top_pattern(wide);
    lemma_denominator(scale);
    lemma_pow_positive(2, lift(wide));
    if scale < 0 {
        lemma_pow_positive(10, (-scale) as nat);
    }
    let a = if n < 0 { -n } else { n };
    let t = if scale < 0 { pow(10, (-scale) as nat) } else { 1 };
    let l = pow(2, lift(wide));
    assert(a * t * l >= 0) by (nonlinear_arith)
        requires
            a >= 0,
            t > 0,
            l > 0,
    ;
    lemma_width(top, wide);
    lemma_mul_strict_inequality(value(top, wide), high(top, wide), u);
    let q = lemma_some_pattern(top, x, u, wide);
    let b: int = if n < 0 { q + sign_unit(wide) } else { q };
    assert(b % sign_unit(wide) == q);
    let w = b as u64;
    assert(rounds_to(n, scale, w as int, wide));
}

/// The magnitude of a decimal, as a numerator and a denominator, or a pair
/// that rounds to the same patterns where the magnitude is out of the range
/// of both formats by far.
fn measure(n: &BigInt, scale: i64, wide: bool) -> (r: (BigInt, BigInt))
    ensures
        big_value(r.0) >= 0,
        big_value(r.1) > 0,
        forall|p: int|
            0 <= p <= top_pattern(wide) ==> in_interval(p, big_value(r.0), big_value(r.1), wide)
                == #[trigger] in_interval(
                p,
                magnitude(big_value(*n), scale as int, wide),
                denominator(scale as int),
                wide,
            ),
{
    let a = big_abs(n);
    let zero = big_from_i64(0);
    let one = big_from_i64(1);
    let two = big_from_i64(2);
    let up = big_pow(&two, if wide { 1076 } else { 151 });
    let ghost av = big_value(a);
    let ghost x = magnitude(big_value(*n), scale as int, wide);
    let ghost u = denominator(scale as int);
    proof {
        lemma_pow_positive(2, lift(wide));
        lemma_denominator(scale as int);
    }
    if scale >= 0 {
        let count = big_to_text(&a).as_str().unicode_len();
        if scale as u128 >= count as u128 + 1100 {
            proof {
                lemma_digits_bound(av as nat);
                lemma_tiny(av as nat, scale as nat, nat_text(av as nat).len(), wide);
                lemma_only_zero(x, u, wide);
                lemma_only_zero(0, 1, wide);
            }
            return (zero, one);
        }
        let m = big_mul(&big_mul(&a, &one), &up);
        assert(big_value(m) >= 0) by (nonlinear_arith)
            requires
                big_value(m) == av * 1 * big_value(up),
                av >= 0,
                big_value(up) > 0,
        ;
        (m, big_pow10_wide(scale as u64))
    } else if scale <= -800 {
        if big_eq(&a, &zero) {
            proof {
                assert(x == 0) by (nonlinear_arith)
                    requires
                        x == 0 * pow(10, (-scale) as nat) * pow(2, lift(wide)),
                ;
                lemma_only_zero(x, u, wide);
            }
            return (zero, one);
        }
        let far = big_add(&bound(if wide { 9218868437227405311 } else { 2139095039 }, wide, true), &one);
        proof {
            lemma_huge(av as nat, (-scale) as nat, wide);
            lemma_no_pattern(x, u, wide);
            lemma_no_pattern(big_value(far), 1, wide);
            lemma_pow0(2);
            assert(high(0, wide) == 2);
            lemma_ordered(0, top_pattern(wide), wide);
            assert(big_value(far) >= 0);
        }
        (far, one)
    } else {
        let tens = big_pow10_wide((-scale) as u64);
        let m = big_mul(&big_mul(&a, &tens), &up);
        assert(big_value(m) >= 0) by (nonlinear_arith)
            requires
                big_value(m) == av * big_value(tens) * big_value(up),
                av >= 0,
                big_value(tens) > 0,
                big_value(up) > 0,
        ;
        (m, one)
    }
}

/// Whether a bit pattern is the image of a decimal in a format.
pub fn rounds(n: &BigInt, scale: i64, bits: u64, wide: bool) -> (r: bool)
    ensures
        r == rounds_to(big_value(*n), scale as int, bits as int, wide),
{
    if !wide && bits >= 4294967296 {
        return false;
    }
    let top: u64 = if wide { 9223372036854775808 } else { 2147483648 };
    let unit: u64 = if wide { 4503599627370496 } else { 8388608 };
    let p: u64 = bits % top;
    if p > top - unit - 1 {
        return false;
    }
    let zero = big_from_i64(0);
    if big_lt(n, &zero) != (bits >= top) {
        return false;
    }
    let (x, u) = measure(n, scale, wide);
    within(p, &x, &u, wide)
}

/// The pattern that a magnitude rounds to, if any: the interval that holds
/// it is found by bisection of the patterns.
fn search(x: &BigInt, u: &BigInt, wide: bool) -> (r: Option<u64>)
    requires
        big_value(*x) >= 0,
        big_value(*u) > 0,
    ensures
        match r {
            Some(p) => p <= top_pattern(wide) && in_interval(
                p as int,
                big_value(*x),
                big_value(*u),
                wide,
            ),
            None => forall|p: int|
                0 <= p <= top_pattern(wide) ==> !in_interval(p, big_value(*x), big_value(*u), wide),
        },
{
    let top: u64 = if wide { 9218868437227405311 } else { 2139095039 };
    let mut lo: u64 = 0;
    let mut hi: u64 = top + 1;
    proof {
        lemma_pow2_step(0);
        assert(low(0, wide) == -2 * pow(2, 0));
        assert(low(0, wide) * big_value(*u) <= 0) by (nonlinear_arith)
            requires
                low(0, wide) < 0,
                big_value(*u) > 0,
        ;
    }
    while hi - lo > 1
        invariant
            0 <= lo < hi <= top + 1,
            top == top_pattern(wide),
            big_value(*u) > 0,
            low(lo as int, wide) * big_value(*u) <= big_value(*x),
            hi <= top ==> big_value(*x) < low(hi as int, wide) * big_value(*u),
        decreases hi - lo,
    {
        let mid: u64 = lo + (hi - lo) / 2;
        let b = big_mul(&bound(mid, wide, false), u);
        if big_le(&b, x) {
            lo = mid;
        } else {
            hi = mid;
        }
    }
    let p = lo;
    let ghost xv = big_value(*x);
    let ghost uv = big_value(*u);
    let upper = big_mul(&bound(p, wide, true), u);
    if !big_lt(x, &upper) {
        proof {
            if p < top {
                lemma_adjacent(p as int, wide);
            }
            assert(p == top);
            assert forall|c: int| 0 <= c <= top_pattern(wide) implies !in_interval(
                c,
                xv,
                uv,
                wide,
            ) by {
                if c < top {
                    lemma_ordered(c, top as int, wide);
                    lemma_mul_strict_inequality(high(c, wide), high(top as int, wide), uv);
                }
            }
        }
        return None;
    }
    let lower = big_mul(&bound(p, wide, false), u);
    if big_eq(x, &lower) && odd(p, wide) {
        proof {
            assert(p >= 1) by {
                if p == 0 {
                    assert(significand(0, wide) == 0);
                }
            }
            lemma_adjacent(p - 1, wide);
            lemma_width(p - 1, wide);
            lemma_mul_strict_inequality(low(p - 1, wide), high(p - 1, wide), uv);
        }
        Some(p - 1)
    } else {
        Some(p)
    }
}

/// Rounds a decimal to the nearest value of a format. A pattern that is
/// handed in as a hint is tried first, with the one below it and the one
/// above it; the result does not depend on it.
pub fn round_to_nearest(n: &BigInt, scale: i64, wide: bool, hint: Option<u64>) -> (r: Result<
    u64,
    Error,
>)
    ensures
        r == nearest_bits(big_value(*n), scale as int, wide),
        r matches Ok(b) ==> rounds_to(big_value(*n), scale as int, b as int, wide),
{
    let ghost nv = big_value(*n);
    match hint {
        Some(h) => {
            let found = if rounds(n, scale, h, wide) {
                Some(h)
            } else if h >= 1 && rounds(n, scale, h - 1, wide) {
                Some(h - 1)
            } else if h < u64::MAX && rounds(n, scale, h + 1, wide) {
                Some(h + 1)
            } else {
                None
            };
            match found {
                Some(b) => {
                    proof {
                        let c = choose|c: u64| rounds_to(nv, scale as int, c as int, wide);
                        lemma_one_image(nv, scale as int, b as int, c as int, wide);
                    }
                    return Ok(b);
                },
                None => {},
            }
        },
        None => {},
    }
    let (x, u) = measure(n, scale, wide);
    let zero = big_from_i64(0);
    let sign: u64 = if big_lt(n, &zero) {
        if wide {
            9223372036854775808
        } else {
            2147483648
        }
    } else {
        0
    };
    match search(&x, &u, wide) {
        Some(p) => {
            let b: u64 = p + sign;
            proof {
                assert(b as int % sign_unit(wide) == p);
                assert(in_interval(
                    p as int,
                    magnitude(nv, scale as int, wide),
                    denominator(scale as int),
                    wide,
                ));
                assert(rounds_to(nv, scale as int, b as int, wide));
                let c = choose|c: u64| rounds_to(nv, scale as int, c as int, wide);
                lemma_one_image(nv, scale as int, b as int, c as int, wide);
            }
            Ok(b)
        },
        None => {
            assert forall|c: u64| !rounds_to(nv, scale as int, c as int, wide) by {
                if rounds_to(nv, scale as int, c as int, wide) {
                    let p = c as int % sign_unit(wide);
                    assert(in_interval(
                        p,
                        magnitude(nv, scale as int, wide),
                        denominator(scale as int),
                        wide,
                    ));
                    assert(in_interval(p, big_value(x), big_value(u), wide));
                }
            }
            Err(Error::QuantizationFailure)
        },
    }
}

} // verus!
