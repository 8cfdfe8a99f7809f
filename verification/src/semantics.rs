//! What the generated expressions mean over the real numbers, and what
//! follows for the fitted polynomials, before and after quantization, and
//! for the tangent.

use crate::approx::{
    differences_from, expanded, fitted, horner, horner_from, power_v, samples_from,
    ApproximationSpecV,
};
use crate::error::Error;
use crate::expr::{binary_v, mul_add_v, var_v, BinOp, ExprV};
use crate::fixed::{fixed_text, pi_of};
use crate::number::{NumberType, Parity};
use crate::quantize::UseNumberType;
use crate::trig::pole_factor_v;
use crate::visitor::{rewrite, rewrite_all};
use vstd::arithmetic::power::pow;
use vstd::prelude::*;

verus! {

/// What the constants of an expression stand for: a real for the text of
/// each literal and for each named constant, and a real for each bit
/// pattern of each number type.
pub ghost struct Valuation {
    pub lit: spec_fn(Seq<char>) -> real,
    pub pattern: spec_fn(NumberType, u64) -> real,
}

/// The real value of an expression at a value of its variable, in exact
/// arithmetic: the valuation gives the value of each literal, named
/// constant and bit pattern, and `mul_add` is a product plus a summand.
/// What is no arithmetic has the value 0.
pub open spec fn real_value(e: ExprV, variable: Seq<char>, x: real, val: Valuation) -> real
    decreases e,
{
    match e {
        ExprV::Num(t) => (val.lit)(t),
        ExprV::Bits(nt, b) => (val.pattern)(nt, b),
        ExprV::Var(n) => if n == variable {
            x
        } else {
            (val.lit)(n)
        },
        ExprV::Neg(a) => -real_value(*a, variable, x, val),
        ExprV::Binary(op, a, b) => {
            let u = real_value(*a, variable, x, val);
            let v = real_value(*b, variable, x, val);
            match op {
                BinOp::Add => u + v,
                BinOp::Sub => u - v,
                BinOp::Mul => u * v,
                BinOp::Div => u / v,
                _ => 0real,
            }
        },
        ExprV::Method(r, n, args) => if n == "mul_add"@ && args.len() == 2 {
            real_value(*r, variable, x, val) * real_value(args[0], variable, x, val) + real_value(
                args[1],
                variable,
                x,
                val,
            )
        } else {
            0real
        },
        _ => 0real,
    }
}

/// Whether an expression has the same value at `x` and at `-x`.
pub open spec fn even_at(e: ExprV, variable: Seq<char>, x: real, val: Valuation) -> bool {
    real_value(e, variable, -x, val) == real_value(e, variable, x, val)
}

/// Whether the value of an expression at `-x` is the negation of its value
/// at `x`.
pub open spec fn odd_at(e: ExprV, variable: Seq<char>, x: real, val: Valuation) -> bool {
    real_value(e, variable, -x, val) == -real_value(e, variable, x, val)
}

/// Horner's form in the square of the variable has the same value at `x`
/// and at `-x`, if what it is built around has.
pub proof fn lemma_horner_from_even(
    c: Seq<int>,
    digits: nat,
    acc: ExprV,
    k: nat,
    variable: Seq<char>,
    parity: Parity,
    x: real,
    val: Valuation,
)
    requires
        parity != Parity::Neither,
        even_at(acc, variable, x, val),
    ensures
        even_at(horner_from(c, digits, acc, k, variable, parity), variable, x, val),
    decreases k,
{
    if k > 0 {
        reveal_with_fuel(real_value, 4);
        let next = mul_add_v(
            acc,
            power_v(variable, parity),
            ExprV::Num(fixed_text(c[k - 1], digits)),
        );
        assert((-x) * (-x) == x * x) by (nonlinear_arith);
        assert(even_at(power_v(variable, parity), variable, x, val));
        assert(next->Method_2[0] == power_v(variable, parity));
        assert(even_at(next, variable, x, val));
        lemma_horner_from_even(c, digits, next, (k - 1) as nat, variable, parity, x, val);
    }
}

/// Parity of Horner's form: with an odd parity its value at `-x` is the
/// negation of its value at `x`; with an even parity the two are equal.
pub proof fn lemma_horner_parity(
    c: Seq<int>,
    digits: nat,
    variable: Seq<char>,
    parity: Parity,
    x: real,
    val: Valuation,
)
    ensures
        parity == Parity::Odd ==> odd_at(horner(c, digits, variable, parity), variable, x, val),
        parity == Parity::Even ==> even_at(horner(c, digits, variable, parity), variable, x, val),
{
    if parity != Parity::Neither {
        reveal_with_fuel(real_value, 2);
        let first = ExprV::Num(fixed_text(c.last(), digits));
        let k = (c.len() - 1) as nat;
        lemma_horner_from_even(c, digits, first, k, variable, parity, x, val);
        let h = horner_from(c, digits, first, k, variable, parity);
        let u = real_value(h, variable, x, val);
        assert(u * (-x) == -(u * x)) by (nonlinear_arith);
    }
}

/// The value of a fused multiply-add is the product of the first two plus
/// the third.
pub proof fn lemma_value_of_mul_add(
    a: ExprV,
    b: ExprV,
    c: ExprV,
    variable: Seq<char>,
    x: real,
    val: Valuation,
)
    ensures
        real_value(mul_add_v(a, b, c), variable, x, val) == real_value(a, variable, x, val)
            * real_value(b, variable, x, val) + real_value(c, variable, x, val),
{
    let e = mul_add_v(a, b, c);
    assert(e->Method_2[0] == b && e->Method_2[1] == c);
}

/// The quantity that a polynomial with a parity is a polynomial in has the
/// same value at `x` and at `-x`, and quantization leaves it as it is.
pub proof fn lemma_power_even(
    v: UseNumberType,
    variable: Seq<char>,
    parity: Parity,
    x: real,
    val: Valuation,
)
    requires
        parity != Parity::Neither,
    ensures
        even_at(power_v(variable, parity), variable, x, val),
        rewrite(v, power_v(variable, parity)) == Ok::<ExprV, Error>(power_v(variable, parity)),
{
    reveal_with_fuel(real_value, 3);
    reveal_with_fuel(rewrite, 3);
    assert((-x) * (-x) == x * x) by (nonlinear_arith);
}

/// What quantization makes of a literal does not depend on the variable.
pub proof fn lemma_quantized_literal_even(
    v: UseNumberType,
    text: Seq<char>,
    variable: Seq<char>,
    x: real,
    val: Valuation,
)
    requires
        rewrite(v, ExprV::Num(text)) is Ok,
    ensures
        even_at(rewrite(v, ExprV::Num(text))->Ok_0, variable, x, val),
{
}

/// The rewrite of two trees rewrites the first, then the second.
pub proof fn lemma_rewrite_of_two(v: UseNumberType, b: ExprV, c: ExprV)
    ensures
        rewrite_all(v, seq![b, c]) is Ok <==> rewrite(v, b) is Ok && rewrite(v, c) is Ok,
        rewrite_all(v, seq![b, c]) is Ok ==> rewrite_all(v, seq![b, c])->Ok_0 == seq![
            rewrite(v, b)->Ok_0,
            rewrite(v, c)->Ok_0,
        ],
{
    let none = Seq::<ExprV>::empty();
    let one = seq![b];
    let two = seq![b, c];
    assert(rewrite_all(v, none) == Ok::<Seq<ExprV>, Error>(none));
    assert(one.drop_last() =~= none && one.last() == b);
    assert(rewrite_all(v, one) is Ok <==> rewrite(v, b) is Ok);
    if rewrite(v, b) is Ok {
        assert(rewrite_all(v, one)->Ok_0 =~= seq![rewrite(v, b)->Ok_0]);
    }
    assert(two.drop_last() =~= one && two.last() == c);
    if rewrite_all(v, two) is Ok {
        assert(rewrite_all(v, two)->Ok_0 =~= seq![rewrite(v, b)->Ok_0, rewrite(v, c)->Ok_0]);
    }
}

/// Quantization of a fused multiply-add quantizes its three parts.
pub proof fn lemma_rewrite_of_mul_add(v: UseNumberType, a: ExprV, b: ExprV, c: ExprV)
    requires
        rewrite(v, mul_add_v(a, b, c)) is Ok,
    ensures
        rewrite(v, a) is Ok,
        rewrite(v, b) is Ok,
        rewrite(v, c) is Ok,
        rewrite(v, mul_add_v(a, b, c))->Ok_0 == mul_add_v(
            rewrite(v, a)->Ok_0,
            rewrite(v, b)->Ok_0,
            rewrite(v, c)->Ok_0,
        ),
{
    lemma_rewrite_of_two(v, b, c);
}

/// Quantization keeps the evenness of Horner's form in the square of the
/// variable: if what the form is built around is even once quantized, the
/// quantized form is.
pub proof fn lemma_quantized_horner_from_even(
    v: UseNumberType,
    c: Seq<int>,
    digits: nat,
    acc: ExprV,
    k: nat,
    variable: Seq<char>,
    parity: Parity,
    x: real,
    val: Valuation,
)
    requires
        parity != Parity::Neither,
        rewrite(v, horner_from(c, digits, acc, k, variable, parity)) is Ok,
        rewrite(v, acc) is Ok ==> even_at(rewrite(v, acc)->Ok_0, variable, x, val),
    ensures
        even_at(
            rewrite(v, horner_from(c, digits, acc, k, variable, parity))->Ok_0,
            variable,
            x,
            val,
        ),
    decreases k,
{
    if k > 0 {
        let text = fixed_text(c[k - 1], digits);
        let power = power_v(variable, parity);
        let next = mul_add_v(acc, power, ExprV::Num(text));
        if rewrite(v, next) is Ok {
            lemma_rewrite_of_mul_add(v, acc, power, ExprV::Num(text));
            lemma_power_even(v, variable, parity, x, val);
            lemma_quantized_literal_even(v, text, variable, x, val);
            let a = rewrite(v, acc)->Ok_0;
            let q = rewrite(v, ExprV::Num(text))->Ok_0;
            lemma_value_of_mul_add(a, power, q, variable, x, val);
            lemma_value_of_mul_add(a, power, q, variable, -x, val);
        }
        lemma_quantized_horner_from_even(
            v,
            c,
            digits,
            next,
            (k - 1) as nat,
            variable,
            parity,
            x,
            val,
        );
    }
}

/// Parity of the quantized form: what quantization makes of Horner's form
/// is odd where the form is, and even where the form is, whatever the bit
/// patterns stand for.
pub proof fn lemma_quantized_horner_parity(
    v: UseNumberType,
    c: Seq<int>,
    digits: nat,
    variable: Seq<char>,
    parity: Parity,
    x: real,
    val: Valuation,
)
    requires
        rewrite(v, horner(c, digits, variable, parity)) is Ok,
    ensures
        parity == Parity::Odd ==> odd_at(
            rewrite(v, horner(c, digits, variable, parity))->Ok_0,
            variable,
            x,
            val,
        ),
        parity == Parity::Even ==> even_at(
            rewrite(v, horner(c, digits, variable, parity))->Ok_0,
            variable,
            x,
            val,
        ),
{
    if parity != Parity::Neither {
        reveal_with_fuel(real_value, 2);
        reveal_with_fuel(rewrite, 2);
        let first = ExprV::Num(fixed_text(c.last(), digits));
        let k = (c.len() - 1) as nat;
        let h = horner_from(c, digits, first, k, variable, parity);
        if parity == Parity::Odd {
            assert(horner(c, digits, variable, parity) == binary_v(BinOp::Mul, h, var_v(variable)));
        }
        assert(rewrite(v, h) is Ok);
        lemma_quantized_horner_from_even(v, c, digits, first, k, variable, parity, x, val);
        let u = real_value(rewrite(v, h)->Ok_0, variable, x, val);
        assert(u * (-x) == -(u * x)) by (nonlinear_arith);
    }
}

/// The coefficients of the polynomial that answers a request which is
/// answered.
pub open spec fn fitted_coefficients(s: ApproximationSpecV) -> Seq<int> {
    let one = pow(10, s.digits);
    let lo = crate::fixed::fixed_of_text(s.xmin, one)->Some_0;
    let hi = crate::fixed::fixed_of_text(s.xmax, one)->Some_0;
    let pi = pi_of(one, s.digits);
    let (ts, vs) = samples_from(s, lo, hi, pi, one, Seq::empty(), Seq::empty(), 0)->Some_0;
    expanded(differences_from(ts, vs, 1, one)->Some_0, ts, one)
}

/// A fit is Horner's form of its coefficients.
pub proof fn lemma_fit_is_horner(s: ApproximationSpecV)
    requires
        fitted(s) is Ok,
    ensures
        fitted(s)->Ok_0 == horner(fitted_coefficients(s), s.digits, s.variable, s.parity),
{
}

/// Parity of a fit: the approximation that answers a request with an odd
/// parity takes at `-x` the negation of its value at `x`, and one with an
/// even parity the same value, for every real `x` and whatever the
/// constants stand for.
pub proof fn lemma_fit_parity(s: ApproximationSpecV, x: real, val: Valuation)
    requires
        fitted(s) is Ok,
    ensures
        s.parity == Parity::Odd ==> odd_at(fitted(s)->Ok_0, s.variable, x, val),
        s.parity == Parity::Even ==> even_at(fitted(s)->Ok_0, s.variable, x, val),
{
    lemma_fit_is_horner(s);
    lemma_horner_parity(fitted_coefficients(s), s.digits, s.variable, s.parity, x, val);
}

/// Parity of a quantized fit: the tree that quantization makes of the
/// approximation, with bit patterns in place of the literals, is odd for a
/// request with an odd parity and even for one with an even parity, for
/// every real `x` and whatever the bit patterns stand for.
pub proof fn lemma_quantized_fit_parity(
    v: UseNumberType,
    s: ApproximationSpecV,
    x: real,
    val: Valuation,
)
    requires
        fitted(s) is Ok,
        rewrite(v, fitted(s)->Ok_0) is Ok,
    ensures
        s.parity == Parity::Odd ==> odd_at(
            rewrite(v, fitted(s)->Ok_0)->Ok_0,
            s.variable,
            x,
            val,
        ),
        s.parity == Parity::Even ==> even_at(
            rewrite(v, fitted(s)->Ok_0)->Ok_0,
            s.variable,
            x,
            val,
        ),
{
    lemma_fit_is_horner(s);
    lemma_quantized_horner_parity(
        v,
        fitted_coefficients(s),
        s.digits,
        s.variable,
        s.parity,
        x,
        val,
    );
}

/// No division by zero in the tangent: strictly between -1/2 and 1/2, where
/// the reduced argument of the routine lies but at the poles, the factor
/// `x * x - 0.25` that the polynomial is divided by is not zero.
pub proof fn lemma_pole_factor_nonzero(x: real, val: Valuation)
    requires
        (val.lit)("0.25"@) == 1real / 4real,
        -(1real / 2real) < x < 1real / 2real,
    ensures
        real_value(pole_factor_v(), "x"@, x, val) != 0real,
        real_value(pole_factor_v(), "x"@, x, val) == x * x - 1real / 4real,
{
    reveal_with_fuel(real_value, 4);
    assert(x * x < 1real / 4real) by (nonlinear_arith)
        requires
            -(1real / 2real) < x < 1real / 2real,
    ;
}

} // verus!
