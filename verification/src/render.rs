//! The text of an expression in each target language.

use crate::bigint::{decimal, int_text, nat_text, signed_decimal};
use crate::expr::{
    exprs_view, lemma_exprs_view_len, lemma_exprs_view_take, BinOp, Expr, ExprV, Ty,
};
use crate::number::{same_text, NumberType};
use crate::visitor::{no_number, no_numbers};
use vstd::prelude::*;
use vstd::string::StringExecFns;

verus! {

/// The text of a binary operator, with a space on each side.
pub open spec fn op_text(op: BinOp) -> Seq<char> {
    match op {
        BinOp::Add => " + "@,
        BinOp::Sub => " - "@,
        BinOp::Mul => " * "@,
        BinOp::Div => " / "@,
        BinOp::BitAnd => " & "@,
        BinOp::Eq => " == "@,
        BinOp::Le => " <= "@,
    }
}

/// The text of a binary operator.
pub fn op_str(op: BinOp) -> (r: &'static str)
    ensures
        r@ == op_text(op),
{
    match op {
        BinOp::Add => " + ",
        BinOp::Sub => " - ",
        BinOp::Mul => " * ",
        BinOp::Div => " / ",
        BinOp::BitAnd => " & ",
        BinOp::Eq => " == ",
        BinOp::Le => " <= ",
    }
}

/// The name of a scalar type in Rust.
pub open spec fn rust_ty(ty: Ty) -> Seq<char> {
    match ty {
        Ty::Single => "f32"@,
        Ty::Double => "f64"@,
        Ty::Int => "i32"@,
    }
}

/// The name of a scalar type in Rust.
pub fn rust_ty_str(ty: Ty) -> (r: &'static str)
    ensures
        r@ == rust_ty(ty),
{
    match ty {
        Ty::Single => "f32",
        Ty::Double => "f64",
        Ty::Int => "i32",
    }
}

/// The name of a scalar type in C.
pub open spec fn c_ty(ty: Ty) -> Seq<char> {
    match ty {
        Ty::Single => "f32"@,
        Ty::Double => "double"@,
        Ty::Int => "int"@,
    }
}

/// The name of a scalar type in C.
pub fn c_ty_str(ty: Ty) -> (r: &'static str)
    ensures
        r@ == c_ty(ty),
{
    match ty {
        Ty::Single => "f32",
        Ty::Double => "double",
        Ty::Int => "int",
    }
}

/// The text that opens the constructor of a bit pattern in Rust.
pub open spec fn rust_bits_open(nt: NumberType) -> Seq<char> {
    match nt {
        NumberType::F32Hex => "f32::from_bits("@,
        NumberType::F32Simd => "Self::splat(f32::from_bits("@,
        NumberType::F64Hex => "f64::from_bits("@,
        NumberType::F64Simd => "Self::splat(f64::from_bits("@,
    }
}

/// The text that closes the constructor of a bit pattern in Rust.
pub open spec fn rust_bits_close(nt: NumberType) -> Seq<char> {
    match nt {
        NumberType::F32Hex => "u32)"@,
        NumberType::F32Simd => "u32))"@,
        NumberType::F64Hex => "u64)"@,
        NumberType::F64Simd => "u64))"@,
    }
}

/// The constructor of a bit pattern in Rust: the pattern as a typed integer,
/// reinterpreted as a float, and broadcast where the number type has lanes.
pub open spec fn rust_bits(nt: NumberType, b: u64) -> Seq<char> {
    rust_bits_open(nt) + nat_text(b as nat) + rust_bits_close(nt)
}

/// The constructor of a bit pattern in Rust.
pub fn rust_bits_text(nt: NumberType, b: u64) -> (r: String)
    ensures
        r@ == rust_bits(nt, b),
{
    let mut out = String::from_str(
        match nt {
            NumberType::F32Hex => "f32::from_bits(",
            NumberType::F32Simd => "Self::splat(f32::from_bits(",
            NumberType::F64Hex => "f64::from_bits(",
            NumberType::F64Simd => "Self::splat(f64::from_bits(",
        },
    );
    out.append(decimal(b).as_str());
    out.append(
        match nt {
            NumberType::F32Hex => "u32)",
            NumberType::F32Simd => "u32))",
            NumberType::F64Hex => "u64)",
            NumberType::F64Simd => "u64))",
        },
    );
    out
}

/// The name of a variable in Rust: the constants of pi are those of the
/// standard library for the width of the surrounding code.
pub open spec fn rust_name(n: Seq<char>, wide: bool) -> Seq<char> {
    if n == "PI"@ {
        if wide {
            "std::f64::consts::PI"@
        } else {
            "std::f32::consts::PI"@
        }
    } else if n == "FRAC_PI_4"@ {
        if wide {
            "std::f64::consts::FRAC_PI_4"@
        } else {
            "std::f32::consts::FRAC_PI_4"@
        }
    } else {
        n
    }
}

/// The name of a variable in Rust.
pub fn rust_name_text(n: &String, wide: bool) -> (r: String)
    ensures
        r@ == rust_name(n@, wide),
{
    if same_text(n.as_str(), "PI") {
        String::from_str(if wide { "std::f64::consts::PI" } else { "std::f32::consts::PI" })
    } else if same_text(n.as_str(), "FRAC_PI_4") {
        String::from_str(
            if wide {
                "std::f64::consts::FRAC_PI_4"
            } else {
                "std::f32::consts::FRAC_PI_4"
            },
        )
    } else {
        n.clone()
    }
}

/// The text of an expression in Rust, in code of double (`wide`) or single
/// precision. Every operation stands in parentheses, so the text reads as
/// the tree is built.
pub open spec fn rust_expr(e: ExprV, wide: bool) -> Seq<char>
    decreases e,
{
    match e {
        ExprV::Num(t) => t,
        ExprV::Lit(t) => t,
        ExprV::Int(i) => int_text(i as int),
        ExprV::Bits(nt, b) => rust_bits(nt, b),
        ExprV::Var(n) => rust_name(n, wide),
        ExprV::Neg(a) => "(-"@ + rust_expr(*a, wide) + ")"@,
        ExprV::Binary(op, a, b) => "("@ + rust_expr(*a, wide) + op_text(op) + rust_expr(*b, wide)
            + ")"@,
        ExprV::Call(n, args) => n + "("@ + rust_list(args, wide) + ")"@,
        ExprV::Method(r, n, args) => rust_expr(*r, wide) + "."@ + n + "("@ + rust_list(args, wide)
            + ")"@,
        ExprV::Cast(a, ty) => "("@ + rust_expr(*a, wide) + " as "@ + rust_ty(ty) + ")"@,
        ExprV::If(c, a, b) => "(if "@ + rust_expr(*c, wide) + " { "@ + rust_expr(*a, wide)
            + " } else { "@ + rust_expr(*b, wide) + " })"@,
        ExprV::Tuple(items) => "("@ + rust_list(items, wide) + ")"@,
        ExprV::Field(a, i) => rust_expr(*a, wide) + "."@ + nat_text(i as nat),
    }
}

/// The texts of a sequence of expressions in Rust, with a comma and a space
/// between them.
pub open spec fn rust_list(es: Seq<ExprV>, wide: bool) -> Seq<char>
    decreases es,
{
    if es.len() == 0 {
        Seq::empty()
    } else if es.len() == 1 {
        rust_expr(es.last(), wide)
    } else {
        rust_list(es.drop_last(), wide) + ", "@ + rust_expr(es.last(), wide)
    }
}

/// Renders a sequence of expressions in Rust.
pub fn rust_list_text(es: &Vec<Expr>, wide: bool) -> (r: String)
    ensures
        r@ == rust_list(exprs_view(es@), wide),
    decreases es,
{
    let mut out = String::new();
    let mut i: usize = 0;
    assert(exprs_view(es@.take(0)) =~= Seq::empty());
    while i < es.len()
        invariant
            i <= es.len(),
            out@ == rust_list(exprs_view(es@.take(i as int)), wide),
        decreases es.len() - i,
    {
        proof {
            lemma_exprs_view_take(es@, i as int);
            let next = exprs_view(es@.take(i + 1));
            assert(next.drop_last() =~= exprs_view(es@.take(i as int)));
            lemma_exprs_view_len(es@.take(i as int));
        }
        let ghost before = out@;
        if i > 0 {
            out.append(", ");
        }
        let item = rust_text(&es[i], wide);
        out.append(item.as_str());
        assert(i == 0 ==> before =~= Seq::empty() && out@ =~= item@);
        i += 1;
    }
    assert(es@.take(i as int) =~= es@);
    out
}

/// Renders an expression in Rust.
pub fn rust_text(e: &Expr, wide: bool) -> (r: String)
    ensures
        r@ == rust_expr(e@, wide),
    decreases e,
{
    match e {
        Expr::Num(t) => t.clone(),
        Expr::Lit(t) => t.clone(),
        Expr::Int(i) => signed_decimal(*i),
        Expr::Bits(nt, b) => rust_bits_text(*nt, *b),
        Expr::Var(n) => rust_name_text(n, wide),
        Expr::Neg(a) => {
            let mut out = String::from_str("(-");
            out.append(rust_text(a, wide).as_str());
            out.append(")");
            out
        },
        Expr::Binary(op, a, b) => {
            let mut out = String::from_str("(");
            out.append(rust_text(a, wide).as_str());
            out.append(op_str(*op));
            out.append(rust_text(b, wide).as_str());
            out.append(")");
            out
        },
        Expr::Call(n, args) => {
            let mut out = n.clone();
            out.append("(");
            out.append(rust_list_text(args, wide).as_str());
            out.append(")");
            out
        },
        Expr::Method(r, n, args) => {
            let mut out = rust_text(r, wide);
            out.append(".");
            out.append(n.as_str());
            out.append("(");
            out.append(rust_list_text(args, wide).as_str());
            out.append(")");
            out
        },
        Expr::Cast(a, ty) => {
            let mut out = String::from_str("(");
            out.append(rust_text(a, wide).as_str());
            out.append(" as ");
            out.append(rust_ty_str(*ty));
            out.append(")");
            out
        },
        Expr::If(c, a, b) => {
            let mut out = String::from_str("(if ");
            out.append(rust_text(c, wide).as_str());
            out.append(" { ");
            out.append(rust_text(a, wide).as_str());
            out.append(" } else { ");
            out.append(rust_text(b, wide).as_str());
            out.append(" })");
            out
        },
        Expr::Tuple(items) => {
            let mut out = String::from_str("(");
            out.append(rust_list_text(items, wide).as_str());
            out.append(")");
            out
        },
        Expr::Field(a, i) => {
            let mut out = rust_text(a, wide);
            out.append(".");
            out.append(decimal(*i as u64).as_str());
            out
        },
    }
}

/// Whether the C backend can render an expression: it holds no literal, no
/// bit pattern but of the 32-bit scalar type, and no tuple.
pub open spec fn c_supported(e: ExprV) -> bool
    decreases e,
{
    match e {
        ExprV::Num(t) => false,
        ExprV::Lit(t) => false,
        ExprV::Int(i) => true,
        ExprV::Bits(nt, b) => nt == NumberType::F32Hex,
        ExprV::Var(n) => true,
        ExprV::Neg(a) => c_supported(*a),
        ExprV::Binary(op, a, b) => c_supported(*a) && c_supported(*b),
        ExprV::Call(n, args) => c_all_supported(args),
        ExprV::Method(r, n, args) => c_supported(*r) && c_all_supported(args),
        ExprV::Cast(a, ty) => c_supported(*a),
        ExprV::If(c, a, b) => c_supported(*c) && c_supported(*a) && c_supported(*b),
        ExprV::Tuple(items) => false,
        ExprV::Field(a, i) => c_supported(*a),
    }
}

/// Whether the C backend can render every expression of a sequence.
pub open spec fn c_all_supported(es: Seq<ExprV>) -> bool
    decreases es,
{
    es.len() == 0 || (c_all_supported(es.drop_last()) && c_supported(es.last()))
}

/// Whether the C backend can render every expression of a sequence.
pub fn c_renders_all(es: &Vec<Expr>) -> (r: bool)
    ensures
        r == c_all_supported(exprs_view(es@)),
    decreases es,
{
    let mut i: usize = 0;
    assert(exprs_view(es@.take(0)) =~= Seq::empty());
    while i < es.len()
        invariant
            i <= es.len(),
            c_all_supported(exprs_view(es@.take(i as int))),
        decreases es.len() - i,
    {
        proof {
            lemma_exprs_view_take(es@, i as int);
            let next = exprs_view(es@.take(i + 1));
            assert(next.drop_last() =~= exprs_view(es@.take(i as int)));
        }
        if !c_renders(&es[i]) {
            proof {
                lemma_c_unsupported_prefix(exprs_view(es@), i + 1);
                assert(exprs_view(es@).take(i + 1) =~= exprs_view(es@.take(i + 1)));
            }
            return false;
        }
        i += 1;
    }
    assert(es@.take(i as int) =~= es@);
    true
}

/// Where a prefix of a sequence cannot be rendered in C, the sequence
/// cannot.
pub proof fn lemma_c_unsupported_prefix(es: Seq<ExprV>, k: int)
    requires
        0 <= k <= es.len(),
        !c_all_supported(es.take(k)),
    ensures
        !c_all_supported(es),
    decreases es.len() - k,
{
    if k < es.len() {
        assert(es.take(k + 1).drop_last() =~= es.take(k));
        lemma_c_unsupported_prefix(es, k + 1);
    } else {
        assert(es.take(k) =~= es);
    }
}

/// Whether the C backend can render an expression.
pub fn c_renders(e: &Expr) -> (r: bool)
    ensures
        r == c_supported(e@),
    decreases e,
{
    match e {
        Expr::Num(t) => false,
        Expr::Lit(t) => false,
        Expr::Int(i) => true,
        Expr::Bits(nt, b) => *nt == NumberType::F32Hex,
        Expr::Var(n) => true,
        Expr::Neg(a) => c_renders(a),
        Expr::Binary(op, a, b) => c_renders(a) && c_renders(b),
        Expr::Call(n, args) => c_renders_all(args),
        Expr::Method(r, n, args) => c_renders(r) && c_renders_all(args),
        Expr::Cast(a, ty) => c_renders(a),
        Expr::If(c, a, b) => c_renders(c) && c_renders(a) && c_renders(b),
        Expr::Tuple(items) => false,
        Expr::Field(a, i) => c_renders(a),
    }
}

/// Whether no expression of a sequence holds a number as a literal.
pub fn all_number_free(es: &Vec<Expr>) -> (r: bool)
    ensures
        r == no_numbers(exprs_view(es@)),
    decreases es,
{
    let mut i: usize = 0;
    assert(exprs_view(es@.take(0)) =~= Seq::empty());
    while i < es.len()
        invariant
            i <= es.len(),
            no_numbers(exprs_view(es@.take(i as int))),
        decreases es.len() - i,
    {
        proof {
            lemma_exprs_view_take(es@, i as int);
            let next = exprs_view(es@.take(i + 1));
            assert(next.drop_last() =~= exprs_view(es@.take(i as int)));
        }
        if !number_free(&es[i]) {
            proof {
                lemma_number_in_prefix(exprs_view(es@), i + 1);
                assert(exprs_view(es@).take(i + 1) =~= exprs_view(es@.take(i + 1)));
            }
            return false;
        }
        i += 1;
    }
    assert(es@.take(i as int) =~= es@);
    true
}

/// Where a prefix of a sequence holds a number as a literal, the sequence
/// does.
pub proof fn lemma_number_in_prefix(es: Seq<ExprV>, k: int)
    requires
        0 <= k <= es.len(),
        !no_numbers(es.take(k)),
    ensures
        !no_numbers(es),
    decreases es.len() - k,
{
    if k < es.len() {
        assert(es.take(k + 1).drop_last() =~= es.take(k));
        lemma_number_in_prefix(es, k + 1);
    } else {
        assert(es.take(k) =~= es);
    }
}

/// Whether an expression holds no number as a literal, so that every
/// constant of it is exact.
pub fn number_free(e: &Expr) -> (r: bool)
    ensures
        r == no_number(e@),
    decreases e,
{
    match e {
        Expr::Num(t) => false,
        Expr::Lit(t) => true,
        Expr::Int(i) => true,
        Expr::Bits(nt, b) => true,
        Expr::Var(n) => true,
        Expr::Neg(a) => number_free(a),
        Expr::Binary(op, a, b) => number_free(a) && number_free(b),
        Expr::Call(n, args) => all_number_free(args),
        Expr::Method(r, n, args) => number_free(r) && all_number_free(args),
        Expr::Cast(a, ty) => number_free(a),
        Expr::If(c, a, b) => number_free(c) && number_free(a) && number_free(b),
        Expr::Tuple(items) => all_number_free(items),
        Expr::Field(a, i) => number_free(a),
    }
}

/// The name of a variable in C: the constants of pi are those of the math
/// header.
pub open spec fn c_name(n: Seq<char>) -> Seq<char> {
    if n == "PI"@ {
        "M_PI"@
    } else if n == "FRAC_PI_4"@ {
        "M_PI_4"@
    } else {
        n
    }
}

/// The name of the C function that stands for a method: the absolute value
/// is `fabs`, every other keeps its name.
pub open spec fn c_method(n: Seq<char>) -> Seq<char> {
    if n == "abs"@ {
        "fabs"@
    } else {
        n
    }
}

/// The text of an expression in C: a method is a function of its receiver
/// and arguments, a choice is a conditional expression, a bit pattern goes
/// through the helper `from_bits`.
pub open spec fn c_expr(e: ExprV) -> Seq<char>
    decreases e,
{
    match e {
        ExprV::Num(t) => t,
        ExprV::Lit(t) => t,
        ExprV::Int(i) => int_text(i as int),
        ExprV::Bits(nt, b) => "from_bits("@ + nat_text(b as nat) + "u)"@,
        ExprV::Var(n) => c_name(n),
        ExprV::Neg(a) => "(-"@ + c_expr(*a) + ")"@,
        ExprV::Binary(op, a, b) => "("@ + c_expr(*a) + op_text(op) + c_expr(*b) + ")"@,
        ExprV::Call(n, args) => n + "("@ + c_list(args) + ")"@,
        ExprV::Method(r, n, args) => c_method(n) + "("@ + c_expr(*r) + c_rest(args) + ")"@,
        ExprV::Cast(a, ty) => "(("@ + c_ty(ty) + ")"@ + c_expr(*a) + ")"@,
        ExprV::If(c, a, b) => "("@ + c_expr(*c) + " ? "@ + c_expr(*a) + " : "@ + c_expr(*b) + ")"@,
        ExprV::Tuple(items) => "{ "@ + c_list(items) + " }"@,
        ExprV::Field(a, i) => c_expr(*a) + ".v"@ + nat_text(i as nat),
    }
}

/// The texts of a sequence of expressions in C, with a comma and a space
/// between them.
pub open spec fn c_list(es: Seq<ExprV>) -> Seq<char>
    decreases es,
{
    if es.len() == 0 {
        Seq::empty()
    } else if es.len() == 1 {
        c_expr(es.last())
    } else {
        c_list(es.drop_last()) + ", "@ + c_expr(es.last())
    }
}

/// The texts of a sequence of expressions in C, with a comma and a space
/// before each.
pub open spec fn c_rest(es: Seq<ExprV>) -> Seq<char>
    decreases es,
{
    if es.len() == 0 {
        Seq::empty()
    } else {
        c_rest(es.drop_last()) + ", "@ + c_expr(es.last())
    }
}

/// Renders a sequence of expressions in C, with a comma before each
/// (`leading`) or between them.
pub fn c_list_text(es: &Vec<Expr>, leading: bool) -> (r: String)
    ensures
        r@ == if leading {
            c_rest(exprs_view(es@))
        } else {
            c_list(exprs_view(es@))
        },
    decreases es,
{
    let mut out = String::new();
    let mut i: usize = 0;
    assert(exprs_view(es@.take(0)) =~= Seq::empty());
    while i < es.len()
        invariant
            i <= es.len(),
            out@ == if leading {
                c_rest(exprs_view(es@.take(i as int)))
            } else {
                c_list(exprs_view(es@.take(i as int)))
            },
        decreases es.len() - i,
    {
        proof {
            lemma_exprs_view_take(es@, i as int);
            let next = exprs_view(es@.take(i + 1));
            assert(next.drop_last() =~= exprs_view(es@.take(i as int)));
            lemma_exprs_view_len(es@.take(i as int));
        }
        let ghost before = out@;
        if leading || i > 0 {
            out.append(", ");
        }
        let item = c_text(&es[i]);
        out.append(item.as_str());
        assert(!leading && i == 0 ==> before =~= Seq::empty() && out@ =~= item@);
        i += 1;
    }
    assert(es@.take(i as int) =~= es@);
    out
}

/// Renders an expression in C.
pub fn c_text(e: &Expr) -> (r: String)
    ensures
        r@ == c_expr(e@),
    decreases e,
{
    match e {
        Expr::Num(t) => t.clone(),
        Expr::Lit(t) => t.clone(),
        Expr::Int(i) => signed_decimal(*i),
        Expr::Bits(nt, b) => {
            let mut out = String::from_str("from_bits(");
            out.append(decimal(*b).as_str());
            out.append("u)");
            out
        },
        Expr::Var(n) => {
            if same_text(n.as_str(), "PI") {
                String::from_str("M_PI")
            } else if same_text(n.as_str(), "FRAC_PI_4") {
                String::from_str("M_PI_4")
            } else {
                n.clone()
            }
        },
        Expr::Neg(a) => {
            let mut out = String::from_str("(-");
            out.append(c_text(a).as_str());
            out.append(")");
            out
        },
        Expr::Binary(op, a, b) => {
            let mut out = String::from_str("(");
            out.append(c_text(a).as_str());
            out.append(op_str(*op));
            out.append(c_text(b).as_str());
            out.append(")");
            out
        },
        Expr::Call(n, args) => {
            let mut out = n.clone();
            out.append("(");
            out.append(c_list_text(args, false).as_str());
            out.append(")");
            out
        },
        Expr::Method(r, n, args) => {
            let mut out = if same_text(n.as_str(), "abs") {
                String::from_str("fabs")
            } else {
                n.clone()
            };
            out.append("(");
            out.append(c_text(r).as_str());
            out.append(c_list_text(args, true).as_str());
            out.append(")");
            out
        },
        Expr::Cast(a, ty) => {
            let mut out = String::from_str("((");
            out.append(c_ty_str(*ty));
            out.append(")");
            out.append(c_text(a).as_str());
            out.append(")");
            out
        },
        Expr::If(c, a, b) => {
            let mut out = String::from_str("(");
            out.append(c_text(c).as_str());
            out.append(" ? ");
            out.append(c_text(a).as_str());
            out.append(" : ");
            out.append(c_text(b).as_str());
            out.append(")");
            out
        },
        Expr::Tuple(items) => {
            let mut out = String::from_str("{ ");
            out.append(c_list_text(items, false).as_str());
            out.append(" }");
            out
        },
        Expr::Field(a, i) => {
            let mut out = c_text(a);
            out.append(".v");
            out.append(decimal(*i as u64).as_str());
            out
        },
    }
}

} // verus!
