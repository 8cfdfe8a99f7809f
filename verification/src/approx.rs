//! The approximation engine: it fits a polynomial to an expression over a
//! domain, in decimal arithmetic of the requested precision, and gives it in
//! Horner form.

use crate::bigint::{
    big_add, big_clone, big_div, big_eq, big_from_i64, big_from_u64, big_lt, big_mul, big_neg,
    big_sub, big_value, trunc_div,
};
use crate::error::Error;
use crate::expr::{
    binary, binary_v, lemma_exprs_view_len, mul_add, mul_add_v, var, var_v, BinOp, Expr, ExprV,
};
use crate::fixed::{fixed_of_text, fixed_text, fx_div, fx_mul, pi_of, series_sum, Precision};
use crate::number::{same_text, Parity};
use crate::visitor::result_view;
use num_bigint::BigInt;
use vstd::arithmetic::power::pow;
use vstd::prelude::*;
use vstd::string::StringExecFns;

verus! {

/// What is to be approximated: an expression in one variable, over a closed
/// domain, by a polynomial of a number of terms.
#[derive(Debug, PartialEq, Eq)]
pub struct ApproximationSpec {
    /// The expression to approximate.
    pub target: Expr,
    /// The name of its variable.
    pub variable: String,
    /// The number of coefficients to fit.
    pub num_terms: usize,
    /// The lower bound of the domain, as a decimal.
    pub xmin: String,
    /// The upper bound of the domain, as a decimal.
    pub xmax: String,
    /// The symmetry of the expression: an odd one is fitted by odd powers
    /// only, an even one by even powers only.
    pub parity: Parity,
    /// The number of digits after the point that the fit works with.
    pub digits: u32,
}

/// The mathematical model of an approximation request.
pub ghost struct ApproximationSpecV {
    pub target: ExprV,
    pub variable: Seq<char>,
    pub num_terms: nat,
    pub xmin: Seq<char>,
    pub xmax: Seq<char>,
    pub parity: Parity,
    pub digits: nat,
}

impl View for ApproximationSpec {
    type V = ApproximationSpecV;

    open spec fn view(&self) -> ApproximationSpecV {
        ApproximationSpecV {
            target: self.target@,
            variable: self.variable@,
            num_terms: self.num_terms as nat,
            xmin: self.xmin@,
            xmax: self.xmax@,
            parity: self.parity,
            digits: self.digits as nat,
        }
    }
}

/// The values that a sequence of big integers holds.
pub open spec fn values(v: Seq<BigInt>) -> Seq<int> {
    v.map_values(|b: BigInt| big_value(b))
}

/// The fixed-point value of an expression at a value of its variable:
/// literals are read as decimals, `PI` is pi, the four arithmetic operations
/// round toward zero, and `sin`, `cos` and `tan` are taken by power series.
/// There is no value where the expression holds anything else, or divides by
/// zero.
pub open spec fn value_at(
    e: ExprV,
    variable: Seq<char>,
    x: int,
    pi: int,
    one: int,
    digits: nat,
) -> Option<int>
    decreases e,
{
    match e {
        ExprV::Num(t) => fixed_of_text(t, one),
        ExprV::Var(n) => if n == variable {
            Some(x)
        } else if n == "PI"@ {
            Some(pi)
        } else {
            None
        },
        ExprV::Neg(a) => match value_at(*a, variable, x, pi, one, digits) {
            Some(u) => Some(-u),
            None => None,
        },
        ExprV::Binary(op, a, b) => match value_at(*a, variable, x, pi, one, digits) {
            Some(u) => match value_at(*b, variable, x, pi, one, digits) {
                Some(v) => combined(op, u, v, one),
                None => None,
            },
            None => None,
        },
        ExprV::Method(r, name, args) => if args.len() != 0 {
            None
        } else {
            match value_at(*r, variable, x, pi, one, digits) {
                Some(u) => applied(name, u, one, digits),
                None => None,
            }
        },
        _ => None,
    }
}

/// The fixed-point value of an arithmetic operation.
pub open spec fn combined(op: BinOp, u: int, v: int, one: int) -> Option<int> {
    match op {
        BinOp::Add => Some(u + v),
        BinOp::Sub => Some(u - v),
        BinOp::Mul => Some(fx_mul(u, v, one)),
        BinOp::Div => if v == 0 {
            None
        } else {
            Some(fx_div(u, v, one))
        },
        _ => None,
    }
}

/// The fixed-point value of a trigonometric function.
pub open spec fn applied(name: Seq<char>, u: int, one: int, digits: nat) -> Option<int> {
    if name == "sin"@ {
        Some(series_sum(u, one, digits, false))
    } else if name == "cos"@ {
        Some(series_sum(u, one, digits, true))
    } else if name == "tan"@ {
        if series_sum(u, one, digits, true) == 0 {
            None
        } else {
            Some(fx_div(series_sum(u, one, digits, false), series_sum(u, one, digits, true), one))
        }
    } else {
        None
    }
}

/// Evaluates an expression at a value of its variable.
pub fn evaluate(p: &Precision, e: &Expr, variable: &str, x: &BigInt, pi: &BigInt) -> (r: Option<
    BigInt,
>)
    ensures
        match r {
            Some(y) => value_at(e@, variable@, big_value(*x), big_value(*pi), p.one(), p.digits())
                == Some(big_value(y)),
            None => value_at(e@, variable@, big_value(*x), big_value(*pi), p.one(), p.digits())
                is None,
        },
    decreases e,
{
    match e {
        Expr::Num(t) => p.read(t.as_str()),
        Expr::Var(n) => {
            if same_text(n.as_str(), variable) {
                Some(big_clone(x))
            } else if same_text(n.as_str(), "PI") {
                Some(big_clone(pi))
            } else {
                None
            }
        },
        Expr::Neg(a) => {
            match evaluate(p, a, variable, x, pi) {
                Some(u) => Some(big_neg(&u)),
                None => None,
            }
        },
        Expr::Binary(op, a, b) => {
            let u = match evaluate(p, a, variable, x, pi) {
                Some(u) => u,
                None => {
                    return None;
                },
            };
            let v = match evaluate(p, b, variable, x, pi) {
                Some(v) => v,
                None => {
                    return None;
                },
            };
            match op {
                BinOp::Add => Some(big_add(&u, &v)),
                BinOp::Sub => Some(big_sub(&u, &v)),
                BinOp::Mul => Some(p.mul(&u, &v)),
                BinOp::Div => p.div(&u, &v),
                _ => None,
            }
        },
        Expr::Method(r, name, args) => {
            proof {
                lemma_exprs_view_len(args@);
            }
            if args.len() != 0 {
                return None;
            }
            let u = match evaluate(p, r, variable, x, pi) {
                Some(u) => u,
                None => {
                    return None;
                },
            };
            if same_text(name.as_str(), "sin") {
                Some(p.series(&u, false))
            } else if same_text(name.as_str(), "cos") {
                Some(p.series(&u, true))
            } else if same_text(name.as_str(), "tan") {
                let c = p.series(&u, true);
                let s = p.series(&u, false);
                p.div(&s, &c)
            } else {
                None
            }
        },
        _ => None,
    }
}

/// The angle of the `i`-th of `n` nodes: an odd multiple of pi over `2n`, or
/// over `4n` where only the positive half of a symmetric domain is sampled.
pub open spec fn angle(i: int, n: int, parity: Parity, pi: int) -> int {
    trunc_div(
        pi * (2 * i + 1),
        if parity == Parity::Neither {
            2 * n
        } else {
            4 * n
        },
    )
}

/// The `i`-th of `n` nodes of a domain: a Chebyshev node of the domain, or,
/// with a parity, a positive Chebyshev node of twice as many.
pub open spec fn node(
    i: int,
    n: int,
    parity: Parity,
    lo: int,
    hi: int,
    pi: int,
    one: int,
    digits: nat,
) -> int {
    let c = series_sum(angle(i, n, parity, pi), one, digits, true);
    if parity == Parity::Neither {
        trunc_div(lo + hi, 2) + fx_mul(trunc_div(hi - lo, 2), c, one)
    } else {
        fx_mul(hi, c, one)
    }
}

/// Where the polynomial is fitted for a node: at the node, or, with a parity,
/// at its square.
pub open spec fn abscissa(x: int, parity: Parity, one: int) -> int {
    if parity == Parity::Neither {
        x
    } else {
        fx_mul(x, x, one)
    }
}

/// What the polynomial is fitted to at a node: the value of the expression,
/// divided by the node where the parity is odd.
pub open spec fn ordinate(y: int, x: int, parity: Parity, one: int) -> Option<int> {
    if parity == Parity::Odd {
        if x == 0 {
            None
        } else {
            Some(fx_div(y, x, one))
        }
    } else {
        Some(y)
    }
}

/// The `i`-th sample of a request: where, and to what, the polynomial is
/// fitted.
pub open spec fn sample(s: ApproximationSpecV, i: int, lo: int, hi: int, pi: int, one: int) -> Option<
    (int, int),
> {
    let x = node(i, s.num_terms as int, s.parity, lo, hi, pi, one, s.digits);
    match value_at(s.target, s.variable, x, pi, one, s.digits) {
        Some(y) => match ordinate(y, x, s.parity, one) {
            Some(v) => Some((abscissa(x, s.parity, one), v)),
            None => None,
        },
        None => None,
    }
}

/// The samples of a request from the `i`-th on, after those taken before.
pub open spec fn samples_from(
    s: ApproximationSpecV,
    lo: int,
    hi: int,
    pi: int,
    one: int,
    ts: Seq<int>,
    vs: Seq<int>,
    i: nat,
) -> Option<(Seq<int>, Seq<int>)>
    decreases s.num_terms - i,
{
    if i >= s.num_terms {
        Some((ts, vs))
    } else {
        match sample(s, i as int, lo, hi, pi, one) {
            Some((t, v)) => samples_from(s, lo, hi, pi, one, ts.push(t), vs.push(v), i + 1),
            None => None,
        }
    }
}

/// Takes the samples of a request.
fn take_samples(
    p: &Precision,
    spec: &ApproximationSpec,
    lo: &BigInt,
    hi: &BigInt,
    pi: &BigInt,
) -> (r: Option<(Vec<BigInt>, Vec<BigInt>)>)
    requires
        1 <= spec.num_terms,
        spec.digits == p.digits(),
    ensures
        match r {
            Some((ts, vs)) => samples_from(
                spec@,
                big_value(*lo),
                big_value(*hi),
                big_value(*pi),
                p.one(),
                Seq::empty(),
                Seq::empty(),
                0,
            ) == Some((values(ts@), values(vs@))),
            None => samples_from(
                spec@,
                big_value(*lo),
                big_value(*hi),
                big_value(*pi),
                p.one(),
                Seq::empty(),
                Seq::empty(),
                0,
            ) is None,
        },
{
    let n = spec.num_terms;
    let two = big_from_i64(2);
    let mut ts: Vec<BigInt> = Vec::new();
    let mut vs: Vec<BigInt> = Vec::new();
    let mut i: usize = 0;
    assert(values(ts@) =~= Seq::empty());
    assert(values(vs@) =~= Seq::empty());
    while i < n
        invariant
            i <= n,
            n == spec.num_terms,
            1 <= n,
            spec.digits == p.digits(),
            big_value(two) == 2,
            samples_from(
                spec@,
                big_value(*lo),
                big_value(*hi),
                big_value(*pi),
                p.one(),
                values(ts@),
                values(vs@),
                i as nat,
            ) == samples_from(
                spec@,
                big_value(*lo),
                big_value(*hi),
                big_value(*pi),
                p.one(),
                Seq::empty(),
                Seq::empty(),
                0,
            ),
        decreases n - i,
    {
        let odd = big_add(&big_mul(&two, &big_from_u64(i as u64)), &big_from_i64(1));
        let parts = match spec.parity {
            Parity::Neither => big_mul(&two, &big_from_u64(n as u64)),
            _ => big_mul(&big_from_i64(4), &big_from_u64(n as u64)),
        };
        let turn = big_mul(pi, &odd);
        let ang = big_div(&turn, &parts);
        let c = p.series(&ang, true);
        let x = match spec.parity {
            Parity::Neither => {
                let mid = big_div(&big_add(lo, hi), &two);
                let half = big_div(&big_sub(hi, lo), &two);
                big_add(&mid, &p.mul(&half, &c))
            },
            _ => p.mul(hi, &c),
        };
        let y = match evaluate(p, &spec.target, spec.variable.as_str(), &x, pi) {
            Some(y) => y,
            None => {
                return None;
            },
        };
        let v = match spec.parity {
            Parity::Odd => match p.div(&y, &x) {
                Some(v) => v,
                None => {
                    return None;
                },
            },
            _ => y,
        };
        let t = match spec.parity {
            Parity::Neither => x,
            _ => p.mul(&x, &x),
        };
        let ghost ts0 = values(ts@);
        let ghost vs0 = values(vs@);
        ts.push(t);
        vs.push(v);
        assert(values(ts@) =~= ts0.push(big_value(t)));
        assert(values(vs@) =~= vs0.push(big_value(v)));
        i += 1;
    }
    Some((ts, vs))
}

/// Whether the `i`-th node differs from the one `j` before it.
pub open spec fn differs(t: Seq<int>, i: int, j: int) -> bool {
    t[i] != t[i - j]
}

/// Whether no two nodes that are `j` apart coincide.
pub open spec fn apart(t: Seq<int>, j: int) -> bool {
    forall|i: int| j <= i < t.len() ==> #[trigger] differs(t, i, j)
}

/// One step of Newton's divided differences: the differences of order `j`
/// from those of order `j - 1`.
pub open spec fn difference_step(t: Seq<int>, col: Seq<int>, j: int, one: int) -> Seq<int> {
    Seq::new(
        col.len(),
        |i: int|
            if i < j {
                col[i]
            } else {
                fx_div(col[i] - col[i - 1], t[i] - t[i - j], one)
            },
    )
}

/// The divided differences of every order from `j` on, or nothing where two
/// nodes coincide.
pub open spec fn differences_from(t: Seq<int>, col: Seq<int>, j: nat, one: int) -> Option<
    Seq<int>,
>
    decreases t.len() - j,
{
    if j >= t.len() {
        Some(col)
    } else if !apart(t, j as int) {
        None
    } else {
        differences_from(t, difference_step(t, col, j as int, one), j + 1, one)
    }
}

/// The coefficients of Newton's form of the polynomial through the samples.
fn differences(p: &Precision, ts: &Vec<BigInt>, vs: Vec<BigInt>) -> (r: Option<Vec<BigInt>>)
    requires
        ts.len() == vs.len(),
    ensures
        match r {
            Some(a) => differences_from(values(ts@), values(vs@), 1, p.one()) == Some(
                values(a@),
            ),
            None => differences_from(values(ts@), values(vs@), 1, p.one()) is None,
        },
{
    let n = ts.len();
    let ghost start = values(vs@);
    let mut col = vs;
    let mut j: usize = 1;
    while j < n
        invariant
            1 <= j,
            n == ts.len(),
            col.len() == n,
            start == values(vs@),
            differences_from(values(ts@), values(col@), j as nat, p.one()) == differences_from(
                values(ts@),
                start,
                1,
                p.one(),
            ),
        decreases n - j,
    {
        let mut next: Vec<BigInt> = Vec::new();
        let mut i: usize = 0;
        while i < n
            invariant
                i <= n,
                1 <= j < n,
                n == ts.len(),
                col.len() == n,
                next.len() == i,
                start == values(vs@),
                differences_from(values(ts@), values(col@), j as nat, p.one())
                    == differences_from(values(ts@), start, 1, p.one()),
                forall|k: int|
                    0 <= k < i ==> big_value(#[trigger] next@[k]) == difference_step(
                        values(ts@),
                        values(col@),
                        j as int,
                        p.one(),
                    )[k],
                forall|k: int| j <= k < i ==> #[trigger] differs(values(ts@), k, j as int),
            decreases n - i,
        {
            if i < j {
                next.push(big_clone(&col[i]));
            } else {
                let gap = big_sub(&ts[i], &ts[i - j]);
                let rise = big_sub(&col[i], &col[i - 1]);
                match p.div(&rise, &gap) {
                    Some(q) => {
                        assert(differs(values(ts@), i as int, j as int));
                        next.push(q);
                    },
                    None => {
                        assert(!differs(values(ts@), i as int, j as int));
                        assert(!apart(values(ts@), j as int));
                        return None;
                    },
                }
            }
            i += 1;
        }
        assert(apart(values(ts@), j as int));
        assert(values(next@) =~= difference_step(values(ts@), values(col@), j as int, p.one()));
        col = next;
        j += 1;
    }
    Some(col)
}

/// One step from Newton's form to powers: the polynomial times the variable
/// less a node, plus a coefficient.
pub open spec fn expand_step(poly: Seq<int>, at: int, coeff: int, one: int) -> Seq<int> {
    Seq::new(
        poly.len() + 1,
        |k: int|
            (if k >= 1 {
                poly[k - 1]
            } else {
                coeff
            }) - (if k < poly.len() {
                fx_mul(at, poly[k], one)
            } else {
                0
            }),
    )
}

/// The expansion of Newton's form, from the `i`-th coefficient down.
pub open spec fn expand_from(a: Seq<int>, t: Seq<int>, poly: Seq<int>, i: nat, one: int) -> Seq<
    int,
>
    decreases i,
{
    if i == 0 {
        poly
    } else {
        expand_from(a, t, expand_step(poly, t[i - 1], a[i - 1], one), (i - 1) as nat, one)
    }
}

/// The coefficients, from the constant up, of the polynomial that Newton's
/// form gives.
pub open spec fn expanded(a: Seq<int>, t: Seq<int>, one: int) -> Seq<int> {
    expand_from(a, t, seq![a.last()], (a.len() - 1) as nat, one)
}

/// Expands Newton's form into the coefficients of the powers.
fn expand(p: &Precision, a: &Vec<BigInt>, ts: &Vec<BigInt>) -> (r: Vec<BigInt>)
    requires
        1 <= a.len(),
        ts.len() == a.len(),
    ensures
        values(r@) == expanded(values(a@), values(ts@), p.one()),
        r.len() == a.len(),
{
    let n = a.len();
    let mut poly: Vec<BigInt> = Vec::new();
    poly.push(big_clone(&a[n - 1]));
    assert(values(poly@) =~= seq![values(a@).last()]);
    let mut i: usize = n - 1;
    while i > 0
        invariant
            i < n,
            n == a.len(),
            n == ts.len(),
            poly.len() == n - i,
            expand_from(values(a@), values(ts@), values(poly@), i as nat, p.one()) == expanded(
                values(a@),
                values(ts@),
                p.one(),
            ),
        decreases i,
    {
        let at = &ts[i - 1];
        let mut next: Vec<BigInt> = Vec::new();
        let mut k: usize = 0;
        let len = poly.len();
        while k <= len
            invariant
                k <= len + 1,
                len == poly.len(),
                len < n,
                1 <= i < n,
                n == a.len(),
                n == ts.len(),
                *at == ts@[i - 1],
                next.len() == k,
                forall|m: int|
                    0 <= m < k ==> big_value(#[trigger] next@[m]) == expand_step(
                        values(poly@),
                        values(ts@)[i - 1],
                        values(a@)[i - 1],
                        p.one(),
                    )[m],
            decreases len + 1 - k,
        {
            let head = if k >= 1 { big_clone(&poly[k - 1]) } else { big_clone(&a[i - 1]) };
            let tail = if k < len { p.mul(at, &poly[k]) } else { big_from_i64(0) };
            next.push(big_sub(&head, &tail));
            k += 1;
        }
        assert(values(next@) =~= expand_step(
            values(poly@),
            values(ts@)[i - 1],
            values(a@)[i - 1],
            p.one(),
        ));
        poly = next;
        i -= 1;
    }
    poly
}

/// The quantity that the polynomial is a polynomial in: the variable, or,
/// with a parity, its square.
pub open spec fn power_v(variable: Seq<char>, parity: Parity) -> ExprV {
    if parity == Parity::Neither {
        ExprV::Var(variable)
    } else {
        binary_v(BinOp::Mul, var_v(variable), var_v(variable))
    }
}

/// Horner's form from the `k`-th coefficient down, around what the higher
/// ones gave: each step is one fused multiply-add.
pub open spec fn horner_from(
    c: Seq<int>,
    digits: nat,
    acc: ExprV,
    k: nat,
    variable: Seq<char>,
    parity: Parity,
) -> ExprV
    decreases k,
{
    if k == 0 {
        acc
    } else {
        horner_from(
            c,
            digits,
            mul_add_v(
                acc,
                power_v(variable, parity),
                ExprV::Num(fixed_text(c[k - 1], digits)),
            ),
            (k - 1) as nat,
            variable,
            parity,
        )
    }
}

/// The polynomial of the given coefficients in Horner's form, with every
/// coefficient as an exact decimal literal. An odd one is a polynomial in the
/// square of the variable, times the variable; an even one is a polynomial
/// in the square.
pub open spec fn horner(c: Seq<int>, digits: nat, variable: Seq<char>, parity: Parity) -> ExprV {
    let h = horner_from(
        c,
        digits,
        ExprV::Num(fixed_text(c.last(), digits)),
        (c.len() - 1) as nat,
        variable,
        parity,
    );
    if parity == Parity::Odd {
        binary_v(BinOp::Mul, h, var_v(variable))
    } else {
        h
    }
}

/// The quantity that the polynomial is a polynomial in.
pub fn power(variable: &str, parity: Parity) -> (e: Expr)
    ensures
        e@ == power_v(variable@, parity),
{
    match parity {
        Parity::Neither => var(variable),
        _ => binary(BinOp::Mul, var(variable), var(variable)),
    }
}

/// Builds Horner's form of a polynomial from its coefficients.
fn assemble(p: &Precision, c: &Vec<BigInt>, variable: &str, parity: Parity) -> (e: Expr)
    requires
        1 <= c.len(),
    ensures
        e@ == horner(values(c@), p.digits(), variable@, parity),
{
    let n = c.len();
    let mut acc = Expr::Num(p.text(&c[n - 1]));
    let mut k: usize = n - 1;
    while k > 0
        invariant
            k < n,
            n == c.len(),
            horner_from(values(c@), p.digits(), acc@, k as nat, variable@, parity) == horner_from(
                values(c@),
                p.digits(),
                ExprV::Num(fixed_text(values(c@).last(), p.digits())),
                (n - 1) as nat,
                variable@,
                parity,
            ),
        decreases k,
    {
        let lit = Expr::Num(p.text(&c[k - 1]));
        acc = mul_add(acc, power(variable, parity), lit);
        k -= 1;
    }
    match parity {
        Parity::Odd => binary(BinOp::Mul, acc, var(variable)),
        _ => acc,
    }
}

/// The approximation that a request is answered with. The domain is read at
/// the precision; samples are taken at Chebyshev nodes; the polynomial through
/// them is found by divided differences, expanded into powers and written in
/// Horner's form. It is a fit failure where there is no digit after the
/// point or no term, a bound is no decimal, the domain is empty or, with a
/// parity, not symmetric, the expression has no value at a node, or two
/// nodes coincide.
pub open spec fn fitted(s: ApproximationSpecV) -> Result<ExprV, Error> {
    if s.digits < 1 || s.num_terms < 1 {
        Err(Error::FitFailure)
    } else {
        let one = pow(10, s.digits);
        let pi = pi_of(one, s.digits);
        match (fixed_of_text(s.xmin, one), fixed_of_text(s.xmax, one)) {
            (Some(lo), Some(hi)) => if lo >= hi || (s.parity != Parity::Neither && lo + hi
                != 0) {
                Err(Error::FitFailure)
            } else {
                match samples_from(s, lo, hi, pi, one, Seq::empty(), Seq::empty(), 0) {
                    Some((ts, vs)) => match differences_from(ts, vs, 1, one) {
                        Some(a) => Ok(
                            horner(expanded(a, ts, one), s.digits, s.variable, s.parity),
                        ),
                        None => Err(Error::FitFailure),
                    },
                    None => Err(Error::FitFailure),
                }
            },
            _ => Err(Error::FitFailure),
        }
    }
}

/// Samples always come in pairs, one for each term.
pub proof fn lemma_samples_len(
    s: ApproximationSpecV,
    lo: int,
    hi: int,
    pi: int,
    one: int,
    ts: Seq<int>,
    vs: Seq<int>,
    i: nat,
)
    requires
        ts.len() == i,
        vs.len() == i,
        i <= s.num_terms,
        samples_from(s, lo, hi, pi, one, ts, vs, i) is Some,
    ensures
        samples_from(s, lo, hi, pi, one, ts, vs, i)->Some_0.0.len() == s.num_terms,
        samples_from(s, lo, hi, pi, one, ts, vs, i)->Some_0.1.len() == s.num_terms,
    decreases s.num_terms - i,
{
    if i < s.num_terms {
        let (t, v) = sample(s, i as int, lo, hi, pi, one)->Some_0;
        lemma_samples_len(s, lo, hi, pi, one, ts.push(t), vs.push(v), i + 1);
    }
}

/// Divided differences keep the number of coefficients.
pub proof fn lemma_differences_len(t: Seq<int>, col: Seq<int>, j: nat, one: int)
    requires
        differences_from(t, col, j, one) is Some,
    ensures
        differences_from(t, col, j, one)->Some_0.len() == col.len(),
    decreases t.len() - j,
{
    if j < t.len() {
        lemma_differences_len(t, difference_step(t, col, j as int, one), j + 1, one);
    }
}

/// A fit is determined by its request: two runs on the same request give
/// the same tree, literal for literal, or fail alike.
pub proof fn lemma_fit_is_determined(
    s: ApproximationSpecV,
    first: Result<Expr, Error>,
    second: Result<Expr, Error>,
)
    requires
        result_view(first) == fitted(s),
        result_view(second) == fitted(s),
    ensures
        result_view(first) == result_view(second),
{
}

/// Fits a polynomial to an expression, as the request asks.
pub fn approx(spec: &ApproximationSpec) -> (r: Result<Expr, Error>)
    ensures
        result_view(r) == fitted(spec@),
{
    let p = match Precision::new(spec.digits) {
        Some(p) => p,
        None => {
            return Err(Error::FitFailure);
        },
    };
    if spec.num_terms < 1 {
        return Err(Error::FitFailure);
    }
    let lo = p.read(spec.xmin.as_str());
    let hi = p.read(spec.xmax.as_str());
    let pi = p.pi();
    match (lo, hi) {
        (Some(lo), Some(hi)) => {
            if !big_lt(&lo, &hi) {
                return Err(Error::FitFailure);
            }
            let symmetric = big_eq(&big_add(&lo, &hi), &big_from_i64(0));
            match spec.parity {
                Parity::Neither => {},
                _ => {
                    if !symmetric {
                        return Err(Error::FitFailure);
                    }
                },
            }
            let (ts, vs) = match take_samples(&p, spec, &lo, &hi, &pi) {
                Some(pair) => pair,
                None => {
                    return Err(Error::FitFailure);
                },
            };
            proof {
                lemma_samples_len(
                    spec@,
                    big_value(lo),
                    big_value(hi),
                    big_value(pi),
                    p.one(),
                    Seq::empty(),
                    Seq::empty(),
                    0,
                );
            }
            let a = match differences(&p, &ts, vs) {
                Some(a) => a,
                None => {
                    return Err(Error::FitFailure);
                },
            };
            proof {
                lemma_differences_len(values(ts@), values(vs@), 1, p.one());
            }
            let c = expand(&p, &a, &ts);
            Ok(assemble(&p, &c, spec.variable.as_str(), spec.parity))
        },
        _ => Err(Error::FitFailure),
    }
}

} // verus!
