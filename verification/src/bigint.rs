//! Exact integer arithmetic of any size, on `num_bigint::BigInt`.

use num_bigint::BigInt;
use vstd::arithmetic::power::{lemma_pow_adds, lemma_pow_multiplies, lemma_pow_positive, pow};
use vstd::prelude::*;

verus! {

/// `num_bigint::BigInt`, a signed integer of any size. Nothing is known of
/// it but the value that it holds.
#[verifier::external_type_specification]
#[verifier::external_body]
pub struct ExBigInt(BigInt);

/// The mathematical integer that a big integer holds.
pub uninterp spec fn big_value(b: BigInt) -> int;

/// Division that rounds toward zero, as Rust's `/` does on integers.
pub open spec fn trunc_div(a: int, b: int) -> int {
    if a >= 0 && b > 0 {
        a / b
    } else if a < 0 && b > 0 {
        -((-a) / b)
    } else if a >= 0 && b < 0 {
        -(a / (-b))
    } else {
        (-a) / (-b)
    }
}

/// The character of a decimal digit.
pub open spec fn digit_char(d: int) -> char {
    (48 + d) as char
}

/// The decimal digits of a natural number, without leading zeros.
pub open spec fn nat_text(n: nat) -> Seq<char>
    decreases n,
{
    if n < 10 {
        seq![digit_char(n as int)]
    } else {
        nat_text(n / 10).push(digit_char((n % 10) as int))
    }
}

/// The decimal text of an integer: a minus sign where it is negative, then its digits.
pub open spec fn int_text(v: int) -> Seq<char> {
    if v < 0 {
        seq!['-'] + nat_text((-v) as nat)
    } else {
        nat_text(v as nat)
    }
}

/// `BigInt::from` on an `i64`: the big integer of the same value.
#[verifier::external_body]
pub(crate) fn big_from_i64(n: i64) -> (r: BigInt)
    ensures
        big_value(r) == n,
{
    BigInt::from(n)
}

/// `BigInt::from` on a `u64`: the big integer of the same value.
#[verifier::external_body]
pub(crate) fn big_from_u64(n: u64) -> (r: BigInt)
    ensures
        big_value(r) == n,
{
    BigInt::from(n)
}

/// `Clone::clone` on a big integer: a second one of the same value.
#[verifier::external_body]
pub(crate) fn big_clone(a: &BigInt) -> (r: BigInt)
    ensures
        big_value(r) == big_value(*a),
{
    a.clone()
}

/// `+` on two big integers: their exact sum.
#[verifier::external_body]
pub(crate) fn big_add(a: &BigInt, b: &BigInt) -> (r: BigInt)
    ensures
        big_value(r) == big_value(*a) + big_value(*b),
{
    a + b
}

/// `-` on two big integers: their exact difference.
#[verifier::external_body]
pub(crate) fn big_sub(a: &BigInt, b: &BigInt) -> (r: BigInt)
    ensures
        big_value(r) == big_value(*a) - big_value(*b),
{
    a - b
}

/// `*` on two big integers: their exact product.
#[verifier::external_body]
pub(crate) fn big_mul(a: &BigInt, b: &BigInt) -> (r: BigInt)
    ensures
        big_value(r) == big_value(*a) * big_value(*b),
{
    a * b
}

/// `/` on two big integers: the quotient rounded toward zero. It panics on a
/// zero divisor, which the precondition leaves out.
#[verifier::external_body]
pub(crate) fn big_div(a: &BigInt, b: &BigInt) -> (r: BigInt)
    requires
        big_value(*b) != 0,
    ensures
        big_value(r) == trunc_div(big_value(*a), big_value(*b)),
{
    a / b
}

/// `BigInt::pow`: the base raised to a power that fits 32 bits.
#[verifier::external_body]
pub(crate) fn big_pow(a: &BigInt, e: u32) -> (r: BigInt)
    ensures
        big_value(r) == pow(big_value(*a), e as nat),
{
    a.pow(e)
}

/// `<` on two big integers: whether the first is the smaller.
#[verifier::external_body]
pub(crate) fn big_lt(a: &BigInt, b: &BigInt) -> (r: bool)
    ensures
        r == (big_value(*a) < big_value(*b)),
{
    a < b
}

/// `ToString::to_string` on a big integer: its decimal text, with a minus
/// sign where it is negative and no leading zeros.
#[verifier::external_body]
pub(crate) fn big_to_text(a: &BigInt) -> (r: String)
    ensures
        r@ == int_text(big_value(*a)),
{
    a.to_string()
}

/// Whether two big integers hold the same value.
pub fn big_eq(a: &BigInt, b: &BigInt) -> (r: bool)
    ensures
        r == (big_value(*a) == big_value(*b)),
{
    !big_lt(a, b) && !big_lt(b, a)
}

/// Whether the first big integer is at most the second.
pub fn big_le(a: &BigInt, b: &BigInt) -> (r: bool)
    ensures
        r == (big_value(*a) <= big_value(*b)),
{
    !big_lt(b, a)
}

/// The negation of a big integer.
pub fn big_neg(a: &BigInt) -> (r: BigInt)
    ensures
        big_value(r) == -big_value(*a),
{
    let zero = big_from_i64(0);
    big_sub(&zero, a)
}

/// The absolute value of a big integer.
pub fn big_abs(a: &BigInt) -> (r: BigInt)
    ensures
        big_value(r) == if big_value(*a) < 0 { -big_value(*a) } else { big_value(*a) },
{
    let zero = big_from_i64(0);
    if big_lt(a, &zero) {
        big_sub(&zero, a)
    } else {
        big_clone(a)
    }
}

/// The decimal digits of an unsigned integer.
pub fn decimal(n: u64) -> (r: String)
    ensures
        r@ == nat_text(n as nat),
{
    big_to_text(&big_from_u64(n))
}

/// The decimal text of a signed integer.
pub fn signed_decimal(n: i64) -> (r: String)
    ensures
        r@ == int_text(n as int),
{
    big_to_text(&big_from_i64(n))
}

/// Ten raised to a power.
pub fn big_pow10(e: u32) -> (r: BigInt)
    ensures
        big_value(r) == pow(10, e as nat),
{
    let ten = big_from_i64(10);
    big_pow(&ten, e)
}

/// Ten raised to a power of any size that 64 bits hold.
pub fn big_pow10_wide(e: u64) -> (r: BigInt)
    ensures
        big_value(r) == pow(10, e as nat),
        big_value(r) > 0,
{
    let hi: u64 = e / 4294967296;
    let lo: u64 = e % 4294967296;
    let low = big_pow10(lo as u32);
    proof {
        lemma_pow_positive(10, e as nat);
    }
    if hi == 0 {
        low
    } else {
        let ten = big_from_i64(10);
        let block = big_mul(&big_pow10(4294967295), &ten);
        let high = big_pow(&block, hi as u32);
        proof {
            vstd::arithmetic::power::lemma_pow1(10);
            lemma_pow_adds(10, 4294967295, 1);
            lemma_pow_multiplies(10, 4294967296, hi as nat);
            lemma_pow_adds(10, (4294967296 * hi) as nat, lo as nat);
        }
        big_mul(&high, &low)
    }
}

/// A natural number is below ten to the number of its digits.
pub proof fn lemma_digits_bound(n: nat)
    ensures
        nat_text(n).len() >= 1,
        n < pow(10, nat_text(n).len()),
    decreases n,
{
    reveal(pow);
    if n >= 10 {
        lemma_digits_bound(n / 10);
        let d = nat_text(n / 10).len();
        assert(pow(10, d + 1) == 10 * pow(10, d));
    } else {
        assert(pow(10, 1) == 10 * pow(10, 0));
    }
}

} // verus!
