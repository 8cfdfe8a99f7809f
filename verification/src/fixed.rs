//! Decimal fixed-point arithmetic of any precision: a number is held as the
//! integer of its digits, a fixed count of which stand after the point.

use crate::bigint::{
    big_abs, big_add, big_clone, big_div, big_eq, big_from_i64, big_from_u64, big_lt, big_mul,
    big_neg, big_pow10, big_pow10_wide, big_sub, big_to_text, big_value, lemma_digits_bound,
    nat_text, trunc_div,
};
use crate::quantize::{decimal_parts, parse_decimal};
use num_bigint::BigInt;
use vstd::arithmetic::div_mod::lemma_basic_div;
use vstd::arithmetic::power::{lemma_pow_increases, lemma_pow_positive, pow};
use vstd::prelude::*;
use vstd::string::{StrSliceExecFns, StringExecFns};

verus! {

/// A precision: the number of digits after the point, and the integer that
/// stands for 1.
pub struct Precision {
    digits: u32,
    unit: BigInt,
}

impl Precision {
    /// The number of digits after the point.
    pub closed spec fn digits(&self) -> nat {
        self.digits as nat
    }

    /// The integer that stands for 1.
    pub closed spec fn one(&self) -> int {
        big_value(self.unit)
    }

    #[verifier::type_invariant]
    spec fn wf(&self) -> bool {
        &&& 1 <= self.digits
        &&& big_value(self.unit) == pow(10, self.digits as nat)
        &&& big_value(self.unit) > 0
    }

    /// The precision of a number of digits, if there is one at least.
    pub fn new(digits: u32) -> (r: Option<Precision>)
        ensures
            r is Some <==> 1 <= digits,
            r matches Some(p) ==> p.digits() == digits && p.one() == pow(10, digits as nat)
                && p.one() > 0,
    {
        if digits < 1 {
            None
        } else {
            let unit = big_pow10(digits);
            proof {
                lemma_pow_positive(10, digits as nat);
            }
            Some(Precision { digits, unit })
        }
    }

    /// The number of digits after the point.
    pub fn count(&self) -> (d: u32)
        ensures
            d == self.digits(),
            1 <= d,
    {
        proof {
            use_type_invariant(self);
        }
        self.digits
    }

    /// The number 1.
    pub fn unit(&self) -> (r: BigInt)
        ensures
            big_value(r) == self.one(),
            self.one() > 0,
    {
        proof {
            use_type_invariant(self);
        }
        big_clone(&self.unit)
    }

    /// The product of two numbers, rounded toward zero.
    pub fn mul(&self, a: &BigInt, b: &BigInt) -> (r: BigInt)
        ensures
            big_value(r) == fx_mul(big_value(*a), big_value(*b), self.one()),
    {
        proof {
            use_type_invariant(self);
        }
        let p = big_mul(a, b);
        big_div(&p, &self.unit)
    }

    /// The quotient of two numbers, rounded toward zero; nothing where the
    /// divisor is zero.
    pub fn div(&self, a: &BigInt, b: &BigInt) -> (r: Option<BigInt>)
        ensures
            r is Some <==> big_value(*b) != 0,
            r matches Some(q) ==> big_value(q) == fx_div(big_value(*a), big_value(*b), self.one()),
    {
        let zero = big_from_i64(0);
        if big_eq(b, &zero) {
            None
        } else {
            let p = big_mul(a, &self.unit);
            Some(big_div(&p, b))
        }
    }

    /// The number that a decimal text holds, rounded toward zero; nothing
    /// where the text is no decimal number.
    pub fn read(&self, text: &str) -> (r: Option<BigInt>)
        ensures
            match r {
                Some(x) => fixed_of_text(text@, self.one()) == Some(big_value(x)),
                None => fixed_of_text(text@, self.one()) is None,
            },
    {
        proof {
            use_type_invariant(self);
        }
        match parse_decimal(text) {
            Some((n, scale)) => {
                let up = big_mul(&n, &self.unit);
                if scale < 0 {
                    let shift = big_pow10_wide((-(scale + 1)) as u64 + 1);
                    Some(big_mul(&up, &shift))
                } else {
                    let size = big_to_text(&big_abs(&up));
                    let count = size.as_str().unicode_len();
                    if scale as u64 >= count as u64 {
                        proof {
                            let m = big_value(up);
                            let a = (if m < 0 { -m } else { m }) as nat;
                            lemma_digits_bound(a);
                            lemma_pow_increases(10, nat_text(a).len(), scale as nat);
                            lemma_basic_div(a as int, pow(10, scale as nat));
                        }
                        Some(big_from_i64(0))
                    } else {
                        let shift = big_pow10_wide(scale as u64);
                        Some(big_div(&up, &shift))
                    }
                }
            },
            None => None,
        }
    }

    /// Pi, by Machin's formula.
    pub fn pi(&self) -> (r: BigInt)
        ensures
            big_value(r) == pi_of(self.one(), self.digits()),
    {
        let a = self.arccot(5);
        let b = self.arccot(239);
        let four = big_from_i64(4);
        big_mul(&four, &big_sub(&big_mul(&four, &a), &b))
    }

    /// The arc cotangent of a small integer, as the sum of its power series.
    fn arccot(&self, k: u32) -> (r: BigInt)
        requires
            1 <= k <= 1000,
        ensures
            big_value(r) == arccot_of(k as int, self.one(), self.digits()),
    {
        proof {
            use_type_invariant(self);
        }
        let base = big_from_u64(k as u64);
        assert(k * k <= 1000000) by (nonlinear_arith)
            requires
                1 <= k <= 1000,
        ;
        let square = big_from_u64((k as u64) * (k as u64));
        let count: u64 = self.digits as u64 + 10;
        let mut power = big_div(&self.unit, &base);
        let mut sum = big_clone(&power);
        let mut j: u64 = 1;
        while j < count
            invariant
                1 <= j <= count,
                count <= 4294967305,
                big_value(square) == k * k,
                1 <= k <= 1000,
                arccot_from(k * k, big_value(power), big_value(sum), j as nat, count as nat)
                    == arccot_from(
                    k * k,
                    trunc_div(self.one(), k as int),
                    trunc_div(self.one(), k as int),
                    1,
                    count as nat,
                ),
            decreases count - j,
        {
            assert(k * k >= 1) by (nonlinear_arith)
                requires
                    k >= 1,
            ;
            power = big_div(&power, &square);
            let term = big_div(&power, &big_from_u64(2 * j + 1));
            sum = if j % 2 == 1 { big_sub(&sum, &term) } else { big_add(&sum, &term) };
            j += 1;
        }
        sum
    }

    /// The sum of the power series of the sine (`cosine` false) or of the
    /// cosine (`cosine` true) at a number, over as many terms as the
    /// precision calls for.
    pub fn series(&self, x: &BigInt, cosine: bool) -> (r: BigInt)
        ensures
            big_value(r) == series_sum(big_value(*x), self.one(), self.digits(), cosine),
    {
        proof {
            use_type_invariant(self);
        }
        let x2 = self.mul(x, x);
        let count: u64 = 2 * (self.digits as u64) + 30;
        let mut term = if cosine { big_clone(&self.unit) } else { big_clone(x) };
        let mut sum = big_from_i64(0);
        let mut k: u64 = 0;
        while k < count
            invariant
                k <= count,
                count == series_terms(self.digits()),
                count <= 8589934620,
                self.one() == big_value(self.unit),
                self.one() > 0,
                series_from(
                    big_value(x2),
                    self.one(),
                    big_value(term),
                    big_value(sum),
                    k as nat,
                    count as nat,
                    cosine,
                ) == series_from(
                    big_value(x2),
                    self.one(),
                    if cosine { self.one() } else { big_value(*x) },
                    0,
                    0,
                    count as nat,
                    cosine,
                ),
            decreases count - k,
        {
            sum = big_add(&sum, &term);
            let first: u64 = if cosine { 2 * k + 1 } else { 2 * k + 2 };
            assert(0 < first * (first + 1)) by (nonlinear_arith)
                requires
                    1 <= first,
            ;
            let divisor = big_mul(&big_from_u64(first), &big_from_u64(first + 1));
            let raised = self.mul(&term, &x2);
            let reduced = big_div(&raised, &divisor);
            term = big_neg(&reduced);
            k += 1;
        }
        sum
    }

    /// The decimal text of a number, with every digit after the point.
    pub fn text(&self, a: &BigInt) -> (r: String)
        ensures
            r@ == fixed_text(big_value(*a), self.digits()),
    {
        proof {
            use_type_invariant(self);
            reveal_strlit("0");
            reveal_strlit("-");
            reveal_strlit(".");
            reveal_strlit("");
        }
        let zero = big_from_i64(0);
        let negative = big_lt(a, &zero);
        let magnitude = big_abs(a);
        let mut body = big_to_text(&magnitude);
        let width: u64 = self.digits as u64 + 1;
        let mut len: u64 = body.as_str().unicode_len() as u64;
        while len < width
            invariant
                len == body@.len(),
                width == self.digits + 1,
                padded(body@, width as nat) == padded(
                    nat_text(big_value(magnitude) as nat),
                    width as nat,
                ),
            decreases width - len,
        {
            let mut longer = String::from_str("0");
            longer.append(body.as_str());
            proof {
                reveal_strlit("0");
            }
            assert(longer@ =~= seq!['0'] + body@);
            body = longer;
            len += 1;
        }
        let len: usize = body.as_str().unicode_len();
        let cut: usize = len - self.digits as usize;
        let mut out = String::from_str(if negative { "-" } else { "" });
        out.append(body.as_str().substring_char(0, cut));
        out.append(".");
        out.append(body.as_str().substring_char(cut, len));
        assert(out@ =~= fixed_text(big_value(*a), self.digits()));
        out
    }
}

/// The product of two fixed-point numbers, rounded toward zero.
pub open spec fn fx_mul(a: int, b: int, one: int) -> int {
    trunc_div(a * b, one)
}

/// The quotient of two fixed-point numbers, rounded toward zero.
pub open spec fn fx_div(a: int, b: int, one: int) -> int {
    trunc_div(a * one, b)
}

/// The fixed-point number that a decimal text holds, rounded toward zero.
pub open spec fn fixed_of_text(text: Seq<char>, one: int) -> Option<int> {
    match decimal_parts(text) {
        Some((n, scale)) => if scale < 0 {
            Some(n * one * pow(10, (-scale) as nat))
        } else {
            Some(trunc_div(n * one, pow(10, scale as nat)))
        },
        None => None,
    }
}

/// The sum of the power series of the arc cotangent of an integer from its
/// `j`-th term on, added to the sum of the terms before: each power is the
/// one before over the square of the integer, and the `j`-th term is the
/// power over `2 j + 1`, taken away where `j` is odd.
pub open spec fn arccot_from(k2: int, power: int, sum: int, j: nat, count: nat) -> int
    decreases count - j,
{
    if j >= count {
        sum
    } else {
        let next = trunc_div(power, k2);
        let term = trunc_div(next, 2 * (j as int) + 1);
        arccot_from(
            k2,
            next,
            if j % 2 == 1 {
                sum - term
            } else {
                sum + term
            },
            j + 1,
            count,
        )
    }
}

/// The arc cotangent of an integer at a precision.
pub open spec fn arccot_of(k: int, one: int, digits: nat) -> int {
    arccot_from(k * k, trunc_div(one, k), trunc_div(one, k), 1, digits + 10)
}

/// Pi at a precision, by Machin's formula: four times the difference of
/// four arc cotangents of 5 and the arc cotangent of 239.
pub open spec fn pi_of(one: int, digits: nat) -> int {
    4 * (4 * arccot_of(5, one, digits) - arccot_of(239, one, digits))
}

/// The number of terms of a power series that are summed at a precision.
pub open spec fn series_terms(digits: nat) -> nat {
    2 * digits + 30
}

/// The sum of a power series from its `k`-th term on, added to the sum of
/// the terms before: each term is the one before times `-x^2`, divided by the
/// next two factors of the factorial.
pub open spec fn series_from(
    x2: int,
    one: int,
    term: int,
    sum: int,
    k: nat,
    count: nat,
    cosine: bool,
) -> int
    decreases count - k,
{
    if k >= count {
        sum
    } else {
        let first: int = if cosine {
            2 * (k as int) + 1
        } else {
            2 * (k as int) + 2
        };
        let next = -trunc_div(fx_mul(term, x2, one), first * (first + 1));
        series_from(x2, one, next, sum + term, k + 1, count, cosine)
    }
}

/// The sine (`cosine` false) or cosine (`cosine` true) of a fixed-point
/// number, as the sum of its power series.
pub open spec fn series_sum(x: int, one: int, digits: nat, cosine: bool) -> int {
    series_from(
        fx_mul(x, x, one),
        one,
        if cosine {
            one
        } else {
            x
        },
        0,
        0,
        series_terms(digits),
        cosine,
    )
}

/// A text with zeros put before it until it has a width.
pub open spec fn padded(t: Seq<char>, width: nat) -> Seq<char>
    decreases width - t.len(),
{
    if t.len() >= width {
        t
    } else {
        padded(seq!['0'] + t, width)
    }
}

/// The decimal text of a fixed-point number: a minus sign where it is
/// negative, the digits before the point (at least one), the point, and
/// every digit after it.
pub open spec fn fixed_text(a: int, digits: nat) -> Seq<char> {
    let body = padded(nat_text((if a < 0 { -a } else { a }) as nat), digits + 1);
    let cut = body.len() - digits;
    (if a < 0 {
        seq!['-']
    } else {
        Seq::empty()
    }) + body.subrange(0, cut) + seq!['.'] + body.subrange(cut, body.len() as int)
}

} // verus!
