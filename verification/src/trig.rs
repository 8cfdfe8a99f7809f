//! The trigonometric family: sine, cosine and tangent by range reduction and
//! a polynomial over the reduced interval, and the tests of each.

use crate::approx::{approx, fitted, ApproximationSpec, ApproximationSpecV};
use crate::error::Error;
use crate::expr::{
    binary, binary_v, bind, bind_v, call1, call1_v, cast, cast_v, field, field_v, functions_view,
    if_else, if_else_v, integer, int_v, method0, method0_v, neg, neg_v, num, num_v, pair, pair_v,
    stmts_view, tests_view, var, var_v, BinOp, Expr, ExprV, Family, FamilyV, Function, FunctionV,
    Stmt, TestCase, TestCaseV, Ty,
};
use crate::number::{number_type_of, NumberType, Parity};
use crate::quantize::{quantizer, UseNumberType};
use crate::visitor::{function_result_view, rewrite_function, visit_function};
use vstd::prelude::*;
use vstd::string::StringExecFns;

verus! {

/// The scalar type of a width in bits: single for 32, double for any other.
pub open spec fn scalar_of(num_bits: nat) -> Ty {
    if num_bits == 32 {
        Ty::Single
    } else {
        Ty::Double
    }
}

/// The digits after the point that a fit for a width works with.
pub open spec fn digits_for(num_bits: nat) -> nat {
    if num_bits == 32 {
        40
    } else {
        70
    }
}

/// The terms of the sine over a whole period, for a width.
pub open spec fn single_pass_terms(num_bits: nat) -> nat {
    if num_bits == 32 {
        8
    } else {
        13
    }
}

/// The terms of the sine over a quarter period, for a width.
pub open spec fn quadrant_terms(num_bits: nat) -> nat {
    if num_bits == 32 {
        4
    } else {
        8
    }
}

/// The terms of the tangent, for a width.
pub open spec fn tan_terms(num_bits: nat) -> nat {
    if num_bits == 32 {
        8
    } else {
        14
    }
}

/// The scalar type of a width in bits.
pub fn get_fty(num_bits: usize) -> (ty: Ty)
    ensures
        ty == scalar_of(num_bits as nat),
{
    if num_bits == 32 {
        Ty::Single
    } else {
        Ty::Double
    }
}

/// The digits after the point that a fit for a width works with.
pub fn num_digits_for(num_bits: usize) -> (d: u32)
    ensures
        d == digits_for(num_bits as nat),
{
    if num_bits == 32 {
        40
    } else {
        70
    }
}

/// The terms of the sine over a whole period, for a width.
pub fn get_single_pass_terms(num_bits: usize) -> (n: usize)
    ensures
        n == single_pass_terms(num_bits as nat),
{
    if num_bits == 32 {
        8
    } else {
        13
    }
}

/// The terms of the sine over a quarter period, for a width.
pub fn get_quadrant_terms(num_bits: usize) -> (n: usize)
    ensures
        n == quadrant_terms(num_bits as nat),
{
    if num_bits == 32 {
        4
    } else {
        8
    }
}

/// The terms of the tangent, for a width.
pub fn get_tan_terms(num_bits: usize) -> (n: usize)
    ensures
        n == tan_terms(num_bits as nat),
{
    if num_bits == 32 {
        8
    } else {
        14
    }
}

/// The model of a request over a symmetric domain.
pub open spec fn request_v(
    target: ExprV,
    variable: Seq<char>,
    num_terms: nat,
    xmin: Seq<char>,
    xmax: Seq<char>,
    parity: Parity,
    num_bits: nat,
) -> ApproximationSpecV {
    ApproximationSpecV {
        target,
        variable,
        num_terms,
        xmin,
        xmax,
        parity,
        digits: digits_for(num_bits),
    }
}

/// A request over a symmetric domain.
pub fn request(
    target: Expr,
    variable: &str,
    num_terms: usize,
    xmin: &str,
    xmax: &str,
    parity: Parity,
    num_bits: usize,
) -> (r: ApproximationSpec)
    ensures
        r@ == request_v(
            target@,
            variable@,
            num_terms as nat,
            xmin@,
            xmax@,
            parity,
            num_bits as nat,
        ),
{
    ApproximationSpec {
        target,
        variable: String::from_str(variable),
        num_terms,
        xmin: String::from_str(xmin),
        xmax: String::from_str(xmax),
        parity,
        digits: num_digits_for(num_bits),
    }
}

/// The model of a function of a multiple of pi: `(variable * PI).name()`,
/// or `(variable * PI * 2.0).name()` over a whole period.
pub open spec fn of_turns_v(variable: Seq<char>, name: Seq<char>, whole: bool) -> ExprV {
    let half = binary_v(BinOp::Mul, var_v(variable), var_v("PI"@));
    if whole {
        method0_v(binary_v(BinOp::Mul, half, num_v("2.0"@)), name)
    } else {
        method0_v(half, name)
    }
}

/// A function of a multiple of pi.
pub fn of_turns(variable: &str, name: &str, whole: bool) -> (e: Expr)
    ensures
        e@ == of_turns_v(variable@, name@, whole),
{
    let half = binary(BinOp::Mul, var(variable), var("PI"));
    if whole {
        method0(binary(BinOp::Mul, half, num("2.0")), name)
    } else {
        method0(half, name)
    }
}

/// The model of the argument in periods: `arg * (1.0 / PI)`, or
/// `arg * (1.0 / (PI * 2.0))` for a whole period.
pub open spec fn in_turns_v(whole: bool) -> ExprV {
    let period = if whole {
        binary_v(BinOp::Mul, var_v("PI"@), num_v("2.0"@))
    } else {
        var_v("PI"@)
    };
    binary_v(BinOp::Mul, var_v("arg"@), binary_v(BinOp::Div, num_v("1.0"@), period))
}

/// The argument in periods.
pub fn in_turns(whole: bool) -> (e: Expr)
    ensures
        e@ == in_turns_v(whole),
{
    let period = if whole {
        binary(BinOp::Mul, var("PI"), num("2.0"))
    } else {
        var("PI")
    };
    binary(BinOp::Mul, var("arg"), binary(BinOp::Div, num("1.0"), period))
}

/// The model of what is left of a value after its nearest integer is taken
/// away: `name - name.round()`.
pub open spec fn residual_v(name: Seq<char>) -> ExprV {
    binary_v(BinOp::Sub, var_v(name), method0_v(var_v(name), "round"@))
}

/// What is left of a value after its nearest integer is taken away.
pub fn residual(name: &str) -> (e: Expr)
    ensures
        e@ == residual_v(name@),
{
    binary(BinOp::Sub, var(name), method0(var(name), "round"))
}

/// The model of a routine that reduces its argument to one period and
/// evaluates a polynomial there.
pub open spec fn single_pass_v(
    name: Seq<char>,
    poly: ExprV,
    num_bits: nat,
    tag: Seq<char>,
) -> FunctionV {
    let ty = scalar_of(num_bits);
    FunctionV {
        name,
        scalar: ty,
        number_type: number_type_of(tag),
        param: "arg"@,
        returns_pair: false,
        body: seq![
            bind_v("scaled"@, Some(ty), in_turns_v(true)),
            bind_v("x"@, Some(ty), residual_v("scaled"@)),
        ],
        result: poly,
    }
}

/// A routine that reduces its argument to one period and evaluates a
/// polynomial there.
pub fn single_pass(name: &str, poly: Expr, num_bits: usize, tag: &str) -> (f: Function)
    ensures
        f@ == single_pass_v(name@, poly@, num_bits as nat, tag@),
{
    let ty = get_fty(num_bits);
    let mut body: Vec<Stmt> = Vec::new();
    body.push(bind("scaled", Some(ty), in_turns(true)));
    body.push(bind("x", Some(ty), residual("scaled")));
    assert(stmts_view(body@) =~= seq![
        bind_v("scaled"@, Some(ty), in_turns_v(true)),
        bind_v("x"@, Some(ty), residual_v("scaled"@)),
    ]);
    Function {
        name: String::from_str(name),
        scalar: ty,
        number_type: NumberType::from_tag(tag),
        param: String::from_str("arg"),
        returns_pair: false,
        body,
        result: poly,
    }
}

/// The sine or cosine over a whole period: the fit of
/// `(x * PI * 2.0).name()` over [-0.5, 0.5] in a routine that reduces its
/// argument to one period, with every literal quantized.
pub open spec fn single_pass_spec(
    name: Seq<char>,
    parity: Parity,
    num_terms: nat,
    num_bits: nat,
    tag: Seq<char>,
) -> Result<FunctionV, Error> {
    match fitted(
        request_v(of_turns_v("x"@, name, true), "x"@, num_terms, "-0.5"@, "0.5"@, parity, num_bits),
    ) {
        Ok(poly) => rewrite_function(quantizer(tag), single_pass_v(name, poly, num_bits, tag)),
        Err(x) => Err(x),
    }
}

/// Generates the sine or cosine over a whole period.
pub fn gen_single_pass(
    name: &str,
    parity: Parity,
    num_terms: usize,
    num_bits: usize,
    number_type: &str,
) -> (r: Result<Function, Error>)
    ensures
        function_result_view(r) == single_pass_spec(
            name@,
            parity,
            num_terms as nat,
            num_bits as nat,
            number_type@,
        ),
{
    let spec = request(of_turns("x", name, true), "x", num_terms, "-0.5", "0.5", parity, num_bits);
    let poly = approx(&spec)?;
    let f = single_pass(name, poly, num_bits, number_type);
    visit_function(&UseNumberType::new(number_type), &f)
}

/// Generates `sin` with one polynomial over a whole period: the argument is
/// reduced to [-0.5, 0.5] periods, where an odd polynomial of `num_terms`
/// terms is evaluated.
pub fn gen_single_pass_sin(num_terms: usize, num_bits: usize, number_type: &str) -> (r: Result<
    Function,
    Error,
>)
    ensures
        function_result_view(r) == single_pass_spec(
            "sin"@,
            Parity::Odd,
            num_terms as nat,
            num_bits as nat,
            number_type@,
        ),
{
    gen_single_pass("sin", Parity::Odd, num_terms, num_bits, number_type)
}

/// Generates `cos` with one polynomial over a whole period: the argument is
/// reduced to [-0.5, 0.5] periods, where an even polynomial of `num_terms`
/// terms is evaluated.
pub fn gen_single_pass_cos(num_terms: usize, num_bits: usize, number_type: &str) -> (r: Result<
    Function,
    Error,
>)
    ensures
        function_result_view(r) == single_pass_spec(
            "cos"@,
            Parity::Even,
            num_terms as nat,
            num_bits as nat,
            number_type@,
        ),
{
    gen_single_pass("cos", Parity::Even, num_terms, num_bits, number_type)
}

/// The model of `x * x - 0.25`, which is zero at the poles of the tangent
/// of `x * PI`.
pub open spec fn pole_factor_v() -> ExprV {
    binary_v(BinOp::Sub, binary_v(BinOp::Mul, var_v("x"@), var_v("x"@)), num_v("0.25"@))
}

/// `x * x - 0.25`.
pub fn pole_factor() -> (e: Expr)
    ensures
        e@ == pole_factor_v(),
{
    binary(BinOp::Sub, binary(BinOp::Mul, var("x"), var("x")), num("0.25"))
}

/// The model of the routine of the tangent: the polynomial is the fit of the
/// tangent times the factor that cancels its poles, and is divided by that
/// factor.
pub open spec fn tan_v(poly: ExprV, num_bits: nat, tag: Seq<char>) -> FunctionV {
    let ty = scalar_of(num_bits);
    FunctionV {
        name: "tan"@,
        scalar: ty,
        number_type: number_type_of(tag),
        param: "arg"@,
        returns_pair: false,
        body: seq![
            bind_v("scaled"@, Some(ty), in_turns_v(false)),
            bind_v("x"@, Some(ty), residual_v("scaled"@)),
            bind_v("recip"@, Some(ty), binary_v(BinOp::Div, num_v("1.0"@), pole_factor_v())),
            bind_v("y"@, Some(ty), poly),
        ],
        result: binary_v(BinOp::Mul, var_v("y"@), var_v("recip"@)),
    }
}

/// The tangent: the fit of `(x * PI).tan() * (x * x - 0.25)`, an odd
/// function without poles, over [-0.499999, 0.499999], in a routine that
/// reduces its argument to half a period and divides the polynomial by
/// `x * x - 0.25`, with every literal quantized.
pub open spec fn tan_spec(num_terms: nat, num_bits: nat, tag: Seq<char>) -> Result<
    FunctionV,
    Error,
> {
    match fitted(
        request_v(
            binary_v(BinOp::Mul, of_turns_v("x"@, "tan"@, false), pole_factor_v()),
            "x"@,
            num_terms,
            "-0.499999"@,
            "0.499999"@,
            Parity::Odd,
            num_bits,
        ),
    ) {
        Ok(poly) => rewrite_function(quantizer(tag), tan_v(poly, num_bits, tag)),
        Err(x) => Err(x),
    }
}

/// Generates `tan` by pole cancellation.
pub fn gen_tan(num_terms: usize, num_bits: usize, number_type: &str) -> (r: Result<
    Function,
    Error,
>)
    ensures
        function_result_view(r) == tan_spec(num_terms as nat, num_bits as nat, number_type@),
{
    let target = binary(BinOp::Mul, of_turns("x", "tan", false), pole_factor());
    let spec = request(target, "x", num_terms, "-0.499999", "0.499999", Parity::Odd, num_bits);
    let poly = approx(&spec)?;
    let ty = get_fty(num_bits);
    let mut body: Vec<Stmt> = Vec::new();
    body.push(bind("scaled", Some(ty), in_turns(false)));
    body.push(bind("x", Some(ty), residual("scaled")));
    body.push(bind("recip", Some(ty), binary(BinOp::Div, num("1.0"), pole_factor())));
    body.push(bind("y", Some(ty), poly));
    assert(stmts_view(body@) =~= tan_v(poly@, num_bits as nat, number_type@).body);
    let f = Function {
        name: String::from_str("tan"),
        scalar: ty,
        number_type: NumberType::from_tag(number_type),
        param: String::from_str("arg"),
        returns_pair: false,
        body,
        result: binary(BinOp::Mul, var("y"), var("recip")),
    };
    visit_function(&UseNumberType::new(number_type), &f)
}

/// The routine that gives the sine and the cosine of its argument as a pair,
/// by calls of `sin` and `cos`.
pub open spec fn sin_cos_spec(num_bits: nat, tag: Seq<char>) -> FunctionV {
    FunctionV {
        name: "sin_cos"@,
        scalar: scalar_of(num_bits),
        number_type: number_type_of(tag),
        param: "arg"@,
        returns_pair: true,
        body: Seq::empty(),
        result: pair_v(call1_v("sin"@, var_v("arg"@)), call1_v("cos"@, var_v("arg"@))),
    }
}

/// Generates `sin_cos`, which calls `sin` and `cos`.
pub fn gen_sin_cos(_num_terms: usize, num_bits: usize, number_type: &str) -> (r: Result<
    Function,
    Error,
>)
    ensures
        function_result_view(r) == Ok::<FunctionV, Error>(
            sin_cos_spec(num_bits as nat, number_type@),
        ),
{
    let body: Vec<Stmt> = Vec::new();
    assert(stmts_view(body@) =~= Seq::empty());
    Ok(
        Function {
            name: String::from_str("sin_cos"),
            scalar: get_fty(num_bits),
            number_type: NumberType::from_tag(number_type),
            param: String::from_str("arg"),
            returns_pair: true,
            body,
            result: pair(call1("sin", var("arg")), call1("cos", var("arg"))),
        },
    )
}

/// The model of a value with the sign that an integer's parity gives it:
/// `if (index as i32 & 1) == 0 { value } else { -value }`.
pub open spec fn signed_v(index: Seq<char>, value: Seq<char>) -> ExprV {
    if_else_v(
        binary_v(
            BinOp::Eq,
            binary_v(BinOp::BitAnd, cast_v(var_v(index), Ty::Int), int_v(1)),
            int_v(0),
        ),
        var_v(value),
        neg_v(var_v(value)),
    )
}

/// A value with the sign that an integer's parity gives it.
pub fn signed(index: &str, value: &str) -> (e: Expr)
    ensures
        e@ == signed_v(index@, value@),
{
    if_else(
        binary(BinOp::Eq, binary(BinOp::BitAnd, cast(var(index), Ty::Int), integer(1)), integer(0)),
        var(value),
        neg(var(value)),
    )
}

/// The model of a routine that works by quadrants: the argument, in half
/// periods, is split into its nearest integer and a residual, and so is the
/// argument moved by a quarter period; one polynomial is evaluated at each
/// residual; the parity of each integer gives the sign, and the smaller
/// residual decides which of the two is the result. `first` names the
/// residual of the argument, `second` that of the moved argument.
pub open spec fn quadrant_v(
    name: Seq<char>,
    first: Seq<char>,
    second: Seq<char>,
    sin_poly: ExprV,
    cos_poly: ExprV,
    sin_index: Seq<char>,
    cos_index: Seq<char>,
    num_bits: nat,
    tag: Seq<char>,
) -> FunctionV {
    FunctionV {
        name,
        scalar: scalar_of(num_bits),
        number_type: number_type_of(tag),
        param: "arg"@,
        returns_pair: false,
        body: seq![
            bind_v("x"@, None, in_turns_v(false)),
            bind_v("xh"@, None, binary_v(BinOp::Add, var_v("x"@), num_v("0.5"@))),
            bind_v("xr"@, None, method0_v(var_v("x"@), "round"@)),
            bind_v("xhr"@, None, method0_v(var_v("xh"@), "round"@)),
            bind_v(first, None, binary_v(BinOp::Sub, var_v("x"@), var_v("xr"@))),
            bind_v(second, None, binary_v(BinOp::Sub, var_v("xh"@), var_v("xhr"@))),
            bind_v("sr"@, None, sin_poly),
            bind_v("cr"@, None, cos_poly),
            bind_v("ss"@, None, signed_v(sin_index, "sr"@)),
            bind_v("cs"@, None, signed_v(cos_index, "cr"@)),
        ],
        result: if_else_v(
            binary_v(BinOp::Le, method0_v(var_v("s"@), "abs"@), num_v("0.25"@)),
            var_v("ss"@),
            var_v("cs"@),
        ),
    }
}

/// A routine that works by quadrants.
pub fn quadrant(
    name: &str,
    first: &str,
    second: &str,
    sin_poly: Expr,
    cos_poly: Expr,
    sin_index: &str,
    cos_index: &str,
    num_bits: usize,
    tag: &str,
) -> (f: Function)
    ensures
        f@ == quadrant_v(
            name@,
            first@,
            second@,
            sin_poly@,
            cos_poly@,
            sin_index@,
            cos_index@,
            num_bits as nat,
            tag@,
        ),
{
    let mut body: Vec<Stmt> = Vec::new();
    body.push(bind("x", None, in_turns(false)));
    body.push(bind("xh", None, binary(BinOp::Add, var("x"), num("0.5"))));
    body.push(bind("xr", None, method0(var("x"), "round")));
    body.push(bind("xhr", None, method0(var("xh"), "round")));
    body.push(bind(first, None, binary(BinOp::Sub, var("x"), var("xr"))));
    body.push(bind(second, None, binary(BinOp::Sub, var("xh"), var("xhr"))));
    body.push(bind("sr", None, sin_poly));
    body.push(bind("cr", None, cos_poly));
    body.push(bind("ss", None, signed(sin_index, "sr")));
    body.push(bind("cs", None, signed(cos_index, "cr")));
    assert(stmts_view(body@) =~= quadrant_v(
        name@,
        first@,
        second@,
        sin_poly@,
        cos_poly@,
        sin_index@,
        cos_index@,
        num_bits as nat,
        tag@,
    ).body);
    Function {
        name: String::from_str(name),
        scalar: get_fty(num_bits),
        number_type: NumberType::from_tag(tag),
        param: String::from_str("arg"),
        returns_pair: false,
        body,
        result: if_else(
            binary(BinOp::Le, method0(var("s"), "abs"), num("0.25")),
            var("ss"),
            var("cs"),
        ),
    }
}

/// The model of the request for the sine over a quarter period.
pub open spec fn quadrant_sin_request(num_terms: nat, num_bits: nat) -> ApproximationSpecV {
    request_v(
        of_turns_v("s"@, "sin"@, false),
        "s"@,
        num_terms,
        "-0.25"@,
        "0.25"@,
        Parity::Odd,
        num_bits,
    )
}

/// The model of the request for the cosine over a quarter period, negated
/// or not, with one term more than the sine.
pub open spec fn quadrant_cos_request(negated: bool, num_terms: nat, num_bits: nat) -> ApproximationSpecV {
    request_v(
        if negated {
            neg_v(of_turns_v("c"@, "cos"@, false))
        } else {
            of_turns_v("c"@, "cos"@, false)
        },
        "c"@,
        num_terms + 1,
        "-0.25"@,
        "0.25"@,
        Parity::Even,
        num_bits,
    )
}

/// The fit of the cosine over a quarter period, with one term more than the
/// sine; a fit failure where the machine cannot count that many.
pub open spec fn quadrant_cos_fit(negated: bool, num_terms: nat, num_bits: nat) -> Result<
    ExprV,
    Error,
> {
    if num_terms >= usize::MAX {
        Err(Error::FitFailure)
    } else {
        fitted(quadrant_cos_request(negated, num_terms, num_bits))
    }
}

/// The sine by quadrants: near a multiple of pi it is the fit of
/// `(s * PI).sin()`, elsewhere that of `-(c * PI).cos()` at the argument
/// moved by a quarter period, each over [-0.25, 0.25] and with the sign of
/// its quadrant.
pub open spec fn quadrant_sin_spec(num_terms: nat, num_bits: nat, tag: Seq<char>) -> Result<
    FunctionV,
    Error,
> {
    match fitted(quadrant_sin_request(num_terms, num_bits)) {
        Ok(sin_poly) => match quadrant_cos_fit(true, num_terms, num_bits) {
            Ok(cos_poly) => rewrite_function(
                quantizer(tag),
                quadrant_v(
                    "sin"@,
                    "s"@,
                    "c"@,
                    sin_poly,
                    cos_poly,
                    "xr"@,
                    "xhr"@,
                    num_bits,
                    tag,
                ),
            ),
            Err(x) => Err(x),
        },
        Err(x) => Err(x),
    }
}

/// The cosine by quadrants: near a multiple of pi it is the fit of
/// `(c * PI).cos()`, elsewhere that of `(s * PI).sin()` at the argument
/// moved by a quarter period, each over [-0.25, 0.25] and with the sign of
/// its quadrant.
pub open spec fn quadrant_cos_spec(num_terms: nat, num_bits: nat, tag: Seq<char>) -> Result<
    FunctionV,
    Error,
> {
    match fitted(quadrant_sin_request(num_terms, num_bits)) {
        Ok(sin_poly) => match quadrant_cos_fit(false, num_terms, num_bits) {
            Ok(cos_poly) => rewrite_function(
                quantizer(tag),
                quadrant_v(
                    "cos"@,
                    "c"@,
                    "s"@,
                    sin_poly,
                    cos_poly,
                    "xhr"@,
                    "xr"@,
                    num_bits,
                    tag,
                ),
            ),
            Err(x) => Err(x),
        },
        Err(x) => Err(x),
    }
}

/// Fits the two polynomials of a routine that works by quadrants.
pub fn fit_quadrant(negated: bool, num_terms: usize, num_bits: usize) -> (r: Result<
    (Expr, Expr),
    Error,
>)
    ensures
        match r {
            Ok((s, c)) => fitted(quadrant_sin_request(num_terms as nat, num_bits as nat)) == Ok::<
                ExprV,
                Error,
            >(s@) && quadrant_cos_fit(negated, num_terms as nat, num_bits as nat) == Ok::<
                ExprV,
                Error,
            >(c@),
            Err(x) => match fitted(quadrant_sin_request(num_terms as nat, num_bits as nat)) {
                Ok(s) => quadrant_cos_fit(negated, num_terms as nat, num_bits as nat) == Err::<
                    ExprV,
                    Error,
                >(x),
                Err(y) => x == y,
            },
        },
{
    let sin_spec = request(
        of_turns("s", "sin", false),
        "s",
        num_terms,
        "-0.25",
        "0.25",
        Parity::Odd,
        num_bits,
    );
    let sin_poly = approx(&sin_spec)?;
    if num_terms == usize::MAX {
        return Err(Error::FitFailure);
    }
    let cosine = of_turns("c", "cos", false);
    let target = if negated { neg(cosine) } else { cosine };
    let cos_spec = request(target, "c", num_terms + 1, "-0.25", "0.25", Parity::Even, num_bits);
    let cos_poly = approx(&cos_spec)?;
    Ok((sin_poly, cos_poly))
}

/// Generates `sin` by quadrants.
pub fn gen_quadrant_sin(num_terms: usize, num_bits: usize, number_type: &str) -> (r: Result<
    Function,
    Error,
>)
    ensures
        function_result_view(r) == quadrant_sin_spec(
            num_terms as nat,
            num_bits as nat,
            number_type@,
        ),
{
    let (sin_poly, cos_poly) = fit_quadrant(true, num_terms, num_bits)?;
    let f = quadrant("sin", "s", "c", sin_poly, cos_poly, "xr", "xhr", num_bits, number_type);
    visit_function(&UseNumberType::new(number_type), &f)
}

/// Generates `cos` by quadrants.
pub fn gen_quadrant_cos(num_terms: usize, num_bits: usize, number_type: &str) -> (r: Result<
    Function,
    Error,
>)
    ensures
        function_result_view(r) == quadrant_cos_spec(
            num_terms as nat,
            num_bits as nat,
            number_type@,
        ),
{
    let (sin_poly, cos_poly) = fit_quadrant(false, num_terms, num_bits)?;
    let f = quadrant("cos", "c", "s", sin_poly, cos_poly, "xhr", "xr", num_bits, number_type);
    visit_function(&UseNumberType::new(number_type), &f)
}

/// The model of a test of a routine against the function of the same name
/// in double precision: the routine is called on the sample narrowed to its
/// scalar type, and its result, or one position of it, is widened again.
pub open spec fn test_v(
    name: Seq<char>,
    reference: Seq<char>,
    routine: Seq<char>,
    position: Option<u8>,
    max_ulps: u32,
    num_bits: nat,
    lo: ExprV,
    hi: ExprV,
) -> TestCaseV {
    let called = call1_v(routine, cast_v(var_v("x"@), scalar_of(num_bits)));
    TestCaseV {
        name,
        reference: method0_v(var_v("x"@), reference),
        candidate: cast_v(
            match position {
                Some(i) => field_v(called, i),
                None => called,
            },
            Ty::Double,
        ),
        max_ulps,
        wide: num_bits != 32,
        lo,
        hi,
    }
}

/// A test of a routine against the function of the same name in double
/// precision.
pub fn gen_test(
    name: &str,
    reference: &str,
    routine: &str,
    position: Option<u8>,
    max_ulps: u32,
    num_bits: usize,
    lo: Expr,
    hi: Expr,
) -> (t: TestCase)
    ensures
        t@ == test_v(
            name@,
            reference@,
            routine@,
            position,
            max_ulps,
            num_bits as nat,
            lo@,
            hi@,
        ),
{
    let called = call1(routine, cast(var("x"), get_fty(num_bits)));
    let picked = match position {
        Some(i) => field(called, i),
        None => called,
    };
    TestCase {
        name: String::from_str(name),
        reference: method0(var("x"), reference),
        candidate: cast(picked, Ty::Double),
        max_ulps,
        wide: num_bits != 32,
        lo,
        hi,
    }
}

/// The tests of the trigonometric family: the sine and the cosine, alone and
/// as the two positions of `sin_cos`, over [-PI, PI], and the tangent over
/// [-PI/4, PI/4], each with its tolerance.
pub open spec fn trig_tests_v(sin_ulps: u32, cos_ulps: u32, tan_ulps: u32, num_bits: nat) -> Seq<
    TestCaseV,
> {
    seq![
        test_v(
            "test_sin"@,
            "sin"@,
            "sin"@,
            None,
            sin_ulps,
            num_bits,
            neg_v(var_v("PI"@)),
            var_v("PI"@),
        ),
        test_v(
            "test_cos"@,
            "cos"@,
            "cos"@,
            None,
            cos_ulps,
            num_bits,
            neg_v(var_v("PI"@)),
            var_v("PI"@),
        ),
        test_v(
            "test_tan"@,
            "tan"@,
            "tan"@,
            None,
            tan_ulps,
            num_bits,
            neg_v(var_v("FRAC_PI_4"@)),
            var_v("FRAC_PI_4"@),
        ),
        test_v(
            "test_sin_cos_1"@,
            "sin"@,
            "sin_cos"@,
            Some(0u8),
            sin_ulps,
            num_bits,
            neg_v(var_v("PI"@)),
            var_v("PI"@),
        ),
        test_v(
            "test_sin_cos_2"@,
            "cos"@,
            "sin_cos"@,
            Some(1u8),
            cos_ulps,
            num_bits,
            neg_v(var_v("PI"@)),
            var_v("PI"@),
        ),
    ]
}

/// The tests of the trigonometric family.
pub fn gen_trig_tests(sin_ulps: u32, cos_ulps: u32, tan_ulps: u32, num_bits: usize) -> (r: Vec<
    TestCase,
>)
    ensures
        tests_view(r@) == trig_tests_v(sin_ulps, cos_ulps, tan_ulps, num_bits as nat),
{
    let mut tests: Vec<TestCase> = Vec::new();
    tests.push(gen_test("test_sin", "sin", "sin", None, sin_ulps, num_bits, neg(var("PI")), var("PI")));
    tests.push(gen_test("test_cos", "cos", "cos", None, cos_ulps, num_bits, neg(var("PI")), var("PI")));
    tests.push(
        gen_test(
            "test_tan",
            "tan",
            "tan",
            None,
            tan_ulps,
            num_bits,
            neg(var("FRAC_PI_4")),
            var("FRAC_PI_4"),
        ),
    );
    tests.push(
        gen_test(
            "test_sin_cos_1",
            "sin",
            "sin_cos",
            Some(0),
            sin_ulps,
            num_bits,
            neg(var("PI")),
            var("PI"),
        ),
    );
    tests.push(
        gen_test(
            "test_sin_cos_2",
            "cos",
            "sin_cos",
            Some(1),
            cos_ulps,
            num_bits,
            neg(var("PI")),
            var("PI"),
        ),
    );
    assert(tests_view(tests@) =~= trig_tests_v(sin_ulps, cos_ulps, tan_ulps, num_bits as nat));
    tests
}

/// The model of the outcome of the generation of a family.
pub open spec fn family_result_view(r: Result<Family, Error>) -> Result<FamilyV, Error> {
    match r {
        Ok(f) => Ok(f@),
        Err(x) => Err(x),
    }
}

/// A family of `sin`, `cos`, `tan` and `sin_cos`, in that order, with the
/// five tests of the family; the first routine that fails decides.
pub open spec fn trig_family(
    sin: Result<FunctionV, Error>,
    cos: Result<FunctionV, Error>,
    tan: Result<FunctionV, Error>,
    sin_cos: FunctionV,
    tests: Seq<TestCaseV>,
) -> Result<FamilyV, Error> {
    match sin {
        Ok(s) => match cos {
            Ok(c) => match tan {
                Ok(t) => Ok(FamilyV { functions: seq![s, c, t, sin_cos], tests }),
                Err(x) => Err(x),
            },
            Err(x) => Err(x),
        },
        Err(x) => Err(x),
    }
}

/// The trigonometric family by quadrants: the sine within 12 units in the
/// last place, the cosine within 16, the tangent within 6. The sine and the
/// cosine are put together from two polynomials across a boundary, where
/// the rounding of both compounds, so their bounds are wider than those of
/// the family with one polynomial each.
pub open spec fn quadrant_trig_spec(num_bits: nat, tag: Seq<char>) -> Result<FamilyV, Error> {
    trig_family(
        quadrant_sin_spec(quadrant_terms(num_bits), num_bits, tag),
        quadrant_cos_spec(quadrant_terms(num_bits), num_bits, tag),
        tan_spec(tan_terms(num_bits), num_bits, tag),
        sin_cos_spec(num_bits, tag),
        trig_tests_v(12, 16, 6, num_bits),
    )
}

/// The trigonometric family with one polynomial each: the cosine has one
/// term more than the sine; the sine and the cosine within 8 units in the
/// last place, the tangent within 6.
pub open spec fn single_pass_trig_spec(num_bits: nat, tag: Seq<char>) -> Result<FamilyV, Error> {
    trig_family(
        single_pass_spec("sin"@, Parity::Odd, single_pass_terms(num_bits), num_bits, tag),
        single_pass_spec("cos"@, Parity::Even, single_pass_terms(num_bits) + 1, num_bits, tag),
        tan_spec(tan_terms(num_bits), num_bits, tag),
        sin_cos_spec(num_bits, tag),
        trig_tests_v(8, 8, 6, num_bits),
    )
}

/// Every test of the family by quadrants declares a bound at least as wide
/// as the same test of the family with one polynomial each.
pub proof fn lemma_quadrant_bounds_are_wider(num_bits: nat, tag: Seq<char>, i: int)
    requires
        quadrant_trig_spec(num_bits, tag) is Ok,
        single_pass_trig_spec(num_bits, tag) is Ok,
        0 <= i < 5,
    ensures
        quadrant_trig_spec(num_bits, tag)->Ok_0.tests.len() == 5,
        single_pass_trig_spec(num_bits, tag)->Ok_0.tests.len() == 5,
        quadrant_trig_spec(num_bits, tag)->Ok_0.tests[i].name == single_pass_trig_spec(
            num_bits,
            tag,
        )->Ok_0.tests[i].name,
        quadrant_trig_spec(num_bits, tag)->Ok_0.tests[i].max_ulps >= single_pass_trig_spec(
            num_bits,
            tag,
        )->Ok_0.tests[i].max_ulps,
{
}

/// Puts the four routines and the tests of a family together.
pub fn family(sin: Function, cos: Function, tan: Function, sin_cos: Function, tests: Vec<TestCase>) -> (f: Family)
    ensures
        f@ == (FamilyV { functions: seq![sin@, cos@, tan@, sin_cos@], tests: tests_view(tests@) }),
{
    let mut functions: Vec<Function> = Vec::new();
    functions.push(sin);
    functions.push(cos);
    functions.push(tan);
    functions.push(sin_cos);
    assert(functions_view(functions@) =~= seq![sin@, cos@, tan@, sin_cos@]);
    Family { functions, tests }
}

/// Generates `sin`, `cos`, `tan` and `sin_cos` by quadrants, with their
/// tests.
pub fn gen_quadrant_trig(num_bits: usize, number_type: &str) -> (r: Result<Family, Error>)
    ensures
        family_result_view(r) == quadrant_trig_spec(num_bits as nat, number_type@),
{
    let terms = get_quadrant_terms(num_bits);
    let sin = gen_quadrant_sin(terms, num_bits, number_type)?;
    let cos = gen_quadrant_cos(terms, num_bits, number_type)?;
    let tan = gen_tan(get_tan_terms(num_bits), num_bits, number_type)?;
    let sin_cos = gen_sin_cos(terms, num_bits, number_type)?;
    Ok(family(sin, cos, tan, sin_cos, gen_trig_tests(12, 16, 6, num_bits)))
}

/// Generates `sin`, `cos`, `tan` and `sin_cos` with one polynomial each,
/// with their tests.
pub fn gen_single_pass_trig(num_bits: usize, number_type: &str) -> (r: Result<Family, Error>)
    ensures
        family_result_view(r) == single_pass_trig_spec(num_bits as nat, number_type@),
{
    let terms = get_single_pass_terms(num_bits);
    let sin = gen_single_pass_sin(terms, num_bits, number_type)?;
    let cos = gen_single_pass_cos(terms + 1, num_bits, number_type)?;
    let tan = gen_tan(get_tan_terms(num_bits), num_bits, number_type)?;
    let sin_cos = gen_sin_cos(terms, num_bits, number_type)?;
    Ok(family(sin, cos, tan, sin_cos, gen_trig_tests(8, 8, 6, num_bits)))
}

} // verus!
