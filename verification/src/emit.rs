//! The code-emission backends: a family of routines and tests becomes source
//! text in Rust or in C.

use crate::bigint::{decimal, nat_text};
use crate::error::Error;
use crate::expr::{
    functions_view, lemma_exprs_view_len, stmts_view, tests_view, Expr, ExprV, Family, FamilyV, Function, FunctionV,
    Stmt, StmtV, TestCase, TestCaseV, Ty,
};
use crate::number::{language_of, Language};
use crate::render::{
    c_expr, c_renders, c_renders_all, c_supported, c_all_supported, c_text, c_ty, c_ty_str,
    number_free, rust_expr, rust_text, rust_ty, rust_ty_str,
};
use crate::trig::{gen_single_pass_trig, single_pass_trig_spec};
use crate::visitor::no_number;
use vstd::prelude::*;
use vstd::string::StringExecFns;

verus! {

/// Whether a backend can render an expression: the Rust backend renders
/// every tree that holds no number as a literal, the C backend what it
/// supports.
pub open spec fn expr_ready(e: ExprV, language: Language) -> bool {
    match language {
        Language::Rust => no_number(e),
        Language::C => c_supported(e),
    }
}

/// Whether a backend can render an expression.
pub fn is_expr_ready(e: &Expr, language: Language) -> (r: bool)
    ensures
        r == expr_ready(e@, language),
{
    match language {
        Language::Rust => number_free(e),
        Language::C => c_renders(e),
    }
}

/// The text of an expression in a language, in code of double (`wide`) or
/// single precision.
pub open spec fn expr_text(e: ExprV, wide: bool, language: Language) -> Seq<char> {
    match language {
        Language::Rust => rust_expr(e, wide),
        Language::C => c_expr(e),
    }
}

/// Renders an expression in a language.
pub fn render_expr(e: &Expr, wide: bool, language: Language) -> (r: String)
    ensures
        r@ == expr_text(e@, wide, language),
{
    match language {
        Language::Rust => rust_text(e, wide),
        Language::C => c_text(e),
    }
}

/// The text of a statement: an indented binding, with the type where it has
/// one. In C a statement without one has the scalar type of its routine.
pub open spec fn stmt_text(s: StmtV, scalar: Ty, language: Language) -> Seq<char> {
    let wide = scalar != Ty::Single;
    match language {
        Language::Rust => "    let "@ + s.name + (match s.ty {
            Some(t) => ": "@ + rust_ty(t),
            None => Seq::empty(),
        }) + " = "@ + rust_expr(s.value, wide) + ";\n"@,
        Language::C => "    "@ + c_ty(
            match s.ty {
                Some(t) => t,
                None => scalar,
            },
        ) + " "@ + s.name + " = "@ + c_expr(s.value) + ";\n"@,
    }
}

/// Renders a statement.
pub fn render_stmt(s: &Stmt, scalar: Ty, language: Language) -> (r: String)
    ensures
        r@ == stmt_text(s@, scalar, language),
{
    let wide = scalar != Ty::Single;
    match language {
        Language::Rust => {
            let mut out = String::from_str("    let ");
            out.append(s.name.as_str());
            match s.ty {
                Some(t) => {
                    let mut note = String::from_str(": ");
                    note.append(rust_ty_str(t));
                    out.append(note.as_str());
                },
                None => {
                    assert(out@ + Seq::<char>::empty() =~= out@);
                },
            }
            out.append(" = ");
            out.append(rust_text(&s.value, wide).as_str());
            out.append(";\n");
            out
        },
        Language::C => {
            let mut out = String::from_str("    ");
            out.append(
                c_ty_str(
                    match s.ty {
                        Some(t) => t,
                        None => scalar,
                    },
                ),
            );
            out.append(" ");
            out.append(s.name.as_str());
            out.append(" = ");
            out.append(c_text(&s.value).as_str());
            out.append(";\n");
            out
        },
    }
}

/// The texts of the statements of a routine, one after the other.
pub open spec fn stmts_text(ss: Seq<StmtV>, scalar: Ty, language: Language) -> Seq<char>
    decreases ss.len(),
{
    if ss.len() == 0 {
        Seq::empty()
    } else {
        stmts_text(ss.drop_last(), scalar, language) + stmt_text(ss.last(), scalar, language)
    }
}

/// Whether a backend can render every statement of a sequence.
pub open spec fn stmts_ready(ss: Seq<StmtV>, language: Language) -> bool
    decreases ss.len(),
{
    ss.len() == 0 || (stmts_ready(ss.drop_last(), language) && expr_ready(
        ss.last().value,
        language,
    ))
}

/// Where a backend cannot render a prefix of the statements, it cannot
/// render them all.
pub proof fn lemma_stmts_unready(ss: Seq<StmtV>, language: Language, k: int)
    requires
        0 <= k <= ss.len(),
        !stmts_ready(ss.take(k), language),
    ensures
        !stmts_ready(ss, language),
    decreases ss.len() - k,
{
    if k < ss.len() {
        assert(ss.take(k + 1).drop_last() =~= ss.take(k));
        lemma_stmts_unready(ss, language, k + 1);
    } else {
        assert(ss.take(k) =~= ss);
    }
}

/// Whether a backend can render a routine. The C backend renders a pair
/// only as the result of a routine that returns one.
pub open spec fn function_ready(f: FunctionV, language: Language) -> bool {
    &&& stmts_ready(f.body, language)
    &&& match language {
        Language::Rust => no_number(f.result),
        Language::C => if f.returns_pair {
            f.result matches ExprV::Tuple(items) && items.len() == 2 && c_all_supported(items)
        } else {
            c_supported(f.result)
        },
    }
}

/// Whether a backend can render a routine.
pub fn is_function_ready(f: &Function, language: Language) -> (r: bool)
    ensures
        r == function_ready(f@, language),
{
    let ghost all = stmts_view(f.body@);
    let mut i: usize = 0;
    assert(all.take(0) =~= Seq::empty());
    while i < f.body.len()
        invariant
            i <= f.body.len(),
            all == stmts_view(f.body@),
            stmts_ready(all.take(i as int), language),
        decreases f.body.len() - i,
    {
        proof {
            assert(all.take(i + 1).drop_last() =~= all.take(i as int));
            assert(all.take(i + 1).last() == f.body@[i as int]@);
        }
        if !is_expr_ready(&f.body[i].value, language) {
            proof {
                lemma_stmts_unready(all, language, i + 1);
            }
            return false;
        }
        i += 1;
    }
    assert(all.take(i as int) =~= all);
    match language {
        Language::Rust => number_free(&f.result),
        Language::C => {
            if f.returns_pair {
                match &f.result {
                    Expr::Tuple(items) => {
                        proof {
                            lemma_exprs_view_len(items@);
                        }
                        items.len() == 2 && c_renders_all(items)
                    },
                    _ => false,
                }
            } else {
                c_renders(&f.result)
            }
        },
    }
}

/// The text of a routine in Rust: its header, its statements, and its
/// result as the last expression.
pub open spec fn rust_function(f: FunctionV) -> Seq<char> {
    let ty = rust_ty(f.scalar);
    "fn "@ + f.name + "("@ + f.param + ": "@ + ty + ") -> "@ + (if f.returns_pair {
        "("@ + ty + ", "@ + ty + ")"@
    } else {
        ty
    }) + " {\n"@ + stmts_text(f.body, f.scalar, Language::Rust) + "    "@ + rust_expr(
        f.result,
        f.scalar != Ty::Single,
    ) + "\n}\n\n"@
}

/// The text of a routine in C: its header, its statements, and the return
/// of its result. A routine that returns a pair declares a structure of two
/// members for it, and returns one.
pub open spec fn c_function(f: FunctionV) -> Seq<char> {
    let ty = c_ty(f.scalar);
    if f.returns_pair {
        "struct "@ + f.name + "_pair { "@ + ty + " v0; "@ + ty + " v1; };\nstruct "@ + f.name
            + "_pair "@ + f.name + "("@ + ty + " "@ + f.param + ") {\n"@ + stmts_text(
            f.body,
            f.scalar,
            Language::C,
        ) + "    struct "@ + f.name + "_pair result = "@ + c_expr(f.result)
            + ";\n    return result;\n}\n\n"@
    } else {
        ty + " "@ + f.name + "("@ + ty + " "@ + f.param + ") {\n"@ + stmts_text(
            f.body,
            f.scalar,
            Language::C,
        ) + "    return "@ + c_expr(f.result) + ";\n}\n\n"@
    }
}

/// The text of a routine in a language.
pub open spec fn function_text(f: FunctionV, language: Language) -> Seq<char> {
    match language {
        Language::Rust => rust_function(f),
        Language::C => c_function(f),
    }
}

/// Renders the statements of a routine.
pub fn render_stmts(body: &Vec<Stmt>, scalar: Ty, language: Language) -> (r: String)
    ensures
        r@ == stmts_text(stmts_view(body@), scalar, language),
{
    let ghost all = stmts_view(body@);
    let mut out = String::new();
    let mut i: usize = 0;
    assert(all.take(0) =~= Seq::empty());
    while i < body.len()
        invariant
            i <= body.len(),
            all == stmts_view(body@),
            out@ == stmts_text(all.take(i as int), scalar, language),
        decreases body.len() - i,
    {
        proof {
            assert(all.take(i + 1).drop_last() =~= all.take(i as int));
            assert(all.take(i + 1).last() == body@[i as int]@);
        }
        out.append(render_stmt(&body[i], scalar, language).as_str());
        i += 1;
    }
    assert(all.take(i as int) =~= all);
    out
}

/// Renders a routine.
pub fn render_function(f: &Function, language: Language) -> (r: String)
    ensures
        r@ == function_text(f@, language),
{
    let stmts = render_stmts(&f.body, f.scalar, language);
    match language {
        Language::Rust => {
            let ty = rust_ty_str(f.scalar);
            let mut out = String::from_str("fn ");
            out.append(f.name.as_str());
            out.append("(");
            out.append(f.param.as_str());
            out.append(": ");
            out.append(ty);
            out.append(") -> ");
            if f.returns_pair {
                let mut both = String::from_str("(");
                both.append(ty);
                both.append(", ");
                both.append(ty);
                both.append(")");
                out.append(both.as_str());
            } else {
                out.append(ty);
            }
            out.append(" {\n");
            out.append(stmts.as_str());
            out.append("    ");
            out.append(rust_text(&f.result, f.scalar != Ty::Single).as_str());
            out.append("\n}\n\n");
            out
        },
        Language::C => {
            let ty = c_ty_str(f.scalar);
            if f.returns_pair {
                let mut out = String::from_str("struct ");
                out.append(f.name.as_str());
                out.append("_pair { ");
                out.append(ty);
                out.append(" v0; ");
                out.append(ty);
                out.append(" v1; };\nstruct ");
                out.append(f.name.as_str());
                out.append("_pair ");
                out.append(f.name.as_str());
                out.append("(");
                out.append(ty);
                out.append(" ");
                out.append(f.param.as_str());
                out.append(") {\n");
                out.append(stmts.as_str());
                out.append("    struct ");
                out.append(f.name.as_str());
                out.append("_pair result = ");
                out.append(c_text(&f.result).as_str());
                out.append(";\n    return result;\n}\n\n");
                out
            } else {
                let mut out = String::from_str(ty);
                out.append(" ");
                out.append(f.name.as_str());
                out.append("(");
                out.append(ty);
                out.append(" ");
                out.append(f.param.as_str());
                out.append(") {\n");
                out.append(stmts.as_str());
                out.append("    return ");
                out.append(c_text(&f.result).as_str());
                out.append(";\n}\n\n");
                out
            }
        },
    }
}

/// Whether a backend can render a test.
pub open spec fn test_ready(t: TestCaseV, language: Language) -> bool {
    &&& expr_ready(t.reference, language)
    &&& expr_ready(t.candidate, language)
    &&& expr_ready(t.lo, language)
    &&& expr_ready(t.hi, language)
}

/// Whether a backend can render a test.
pub fn is_test_ready(t: &TestCase, language: Language) -> (r: bool)
    ensures
        r == test_ready(t@, language),
{
    is_expr_ready(&t.reference, language) && is_expr_ready(&t.candidate, language)
        && is_expr_ready(&t.lo, language) && is_expr_ready(&t.hi, language)
}

/// The unit in the last place of 1, in Rust: two to the power -52 for the
/// double width, -23 for the single, as a bit pattern.
pub open spec fn rust_unit(wide: bool) -> Seq<char> {
    if wide {
        "f64::from_bits(0x3cb0000000000000u64)"@
    } else {
        "f64::from_bits(0x3e80000000000000u64)"@
    }
}

/// The unit in the last place of 1, in C.
pub open spec fn c_unit(wide: bool) -> Seq<char> {
    if wide {
        "0x1p-52"@
    } else {
        "0x1p-23"@
    }
}

/// The text of a test in Rust: over 2^20 + 1 samples of the domain, the
/// candidate differs from the reference by no more than the tolerance.
pub open spec fn rust_test(t: TestCaseV) -> Seq<char> {
    "#[test]\nfn "@ + t.name + "() {\n    const N: i32 = 0x100000;\n    let tmin: f64 = "@
        + rust_expr(t.lo, true) + ";\n    let tmax: f64 = "@ + rust_expr(t.hi, true)
        + ";\n    let mut worst: f64 = 0.0;\n    for i in 0..=N {\n        let x: f64 = tmin + (tmax - tmin) * (i as f64) / (N as f64);\n        let reference: f64 = "@
        + rust_expr(t.reference, true) + ";\n        let candidate: f64 = "@ + rust_expr(
        t.candidate,
        true,
    )
        + ";\n        worst = worst.max((candidate - reference).abs());\n    }\n    assert!(worst <= "@
        + nat_text(t.max_ulps as nat) + ".0 * "@ + rust_unit(t.wide) + ");\n}\n\n"@
}

/// The text of a test in C: a function that returns 1 as soon as a sample
/// is out of tolerance, and 0 where none is.
pub open spec fn c_test(t: TestCaseV) -> Seq<char> {
    "int "@ + t.name + "(void) {\n    const int n = 0x100000;\n    const double tmin = "@ + c_expr(
        t.lo,
    ) + ";\n    const double tmax = "@ + c_expr(t.hi)
        + ";\n    for (int i = 0; i <= n; ++i) {\n        const double x = tmin + (tmax - tmin) * i / n;\n        const double reference = "@
        + c_expr(t.reference) + ";\n        const double candidate = "@ + c_expr(t.candidate)
        + ";\n        if (!(fabs(candidate - reference) <= "@ + nat_text(t.max_ulps as nat)
        + " * "@ + c_unit(t.wide)
        + ")) {\n            return 1;\n        }\n    }\n    return 0;\n}\n\n"@
}

/// The text of a test in a language.
pub open spec fn test_text(t: TestCaseV, language: Language) -> Seq<char> {
    match language {
        Language::Rust => rust_test(t),
        Language::C => c_test(t),
    }
}

/// Renders a test.
pub fn render_test(t: &TestCase, language: Language) -> (r: String)
    ensures
        r@ == test_text(t@, language),
{
    let ulps = decimal(t.max_ulps as u64);
    match language {
        Language::Rust => {
            let mut out = String::from_str("#[test]\nfn ");
            out.append(t.name.as_str());
            out.append("() {\n    const N: i32 = 0x100000;\n    let tmin: f64 = ");
            out.append(rust_text(&t.lo, true).as_str());
            out.append(";\n    let tmax: f64 = ");
            out.append(rust_text(&t.hi, true).as_str());
            out.append(
                ";\n    let mut worst: f64 = 0.0;\n    for i in 0..=N {\n        let x: f64 = tmin + (tmax - tmin) * (i as f64) / (N as f64);\n        let reference: f64 = ",
            );
            out.append(rust_text(&t.reference, true).as_str());
            out.append(";\n        let candidate: f64 = ");
            out.append(rust_text(&t.candidate, true).as_str());
            out.append(
                ";\n        worst = worst.max((candidate - reference).abs());\n    }\n    assert!(worst <= ",
            );
            out.append(ulps.as_str());
            out.append(".0 * ");
            out.append(
                if t.wide {
                    "f64::from_bits(0x3cb0000000000000u64)"
                } else {
                    "f64::from_bits(0x3e80000000000000u64)"
                },
            );
            out.append(");\n}\n\n");
            out
        },
        Language::C => {
            let mut out = String::from_str("int ");
            out.append(t.name.as_str());
            out.append("(void) {\n    const int n = 0x100000;\n    const double tmin = ");
            out.append(c_text(&t.lo).as_str());
            out.append(";\n    const double tmax = ");
            out.append(c_text(&t.hi).as_str());
            out.append(
                ";\n    for (int i = 0; i <= n; ++i) {\n        const double x = tmin + (tmax - tmin) * i / n;\n        const double reference = ",
            );
            out.append(c_text(&t.reference).as_str());
            out.append(";\n        const double candidate = ");
            out.append(c_text(&t.candidate).as_str());
            out.append(";\n        if (!(fabs(candidate - reference) <= ");
            out.append(ulps.as_str());
            out.append(" * ");
            out.append(if t.wide { "0x1p-52" } else { "0x1p-23" });
            out.append(")) {\n            return 1;\n        }\n    }\n    return 0;\n}\n\n");
            out
        },
    }
}

/// The texts of a sequence of routines, one after the other.
pub open spec fn functions_text(fs: Seq<FunctionV>, language: Language) -> Seq<char>
    decreases fs.len(),
{
    if fs.len() == 0 {
        Seq::empty()
    } else {
        functions_text(fs.drop_last(), language) + function_text(fs.last(), language)
    }
}

/// The texts of a sequence of tests, one after the other.
pub open spec fn tests_text(ts: Seq<TestCaseV>, language: Language) -> Seq<char>
    decreases ts.len(),
{
    if ts.len() == 0 {
        Seq::empty()
    } else {
        tests_text(ts.drop_last(), language) + test_text(ts.last(), language)
    }
}

/// Whether a backend can render every routine of a sequence.
pub open spec fn functions_ready(fs: Seq<FunctionV>, language: Language) -> bool
    decreases fs.len(),
{
    fs.len() == 0 || (functions_ready(fs.drop_last(), language) && function_ready(
        fs.last(),
        language,
    ))
}

/// Whether a backend can render every test of a sequence.
pub open spec fn tests_ready(ts: Seq<TestCaseV>, language: Language) -> bool
    decreases ts.len(),
{
    ts.len() == 0 || (tests_ready(ts.drop_last(), language) && test_ready(ts.last(), language))
}

/// The models of a sequence of families, in order.
pub open spec fn families_view(fams: Seq<Family>) -> Seq<FamilyV> {
    Seq::new(fams.len(), |i: int| fams[i]@)
}

/// The texts of the routines of a sequence of families, family by family.
pub open spec fn all_functions_text(fams: Seq<FamilyV>, language: Language) -> Seq<char>
    decreases fams.len(),
{
    if fams.len() == 0 {
        Seq::empty()
    } else {
        all_functions_text(fams.drop_last(), language) + functions_text(
            fams.last().functions,
            language,
        )
    }
}

/// The texts of the tests of a sequence of families, family by family.
pub open spec fn all_tests_text(fams: Seq<FamilyV>, language: Language) -> Seq<char>
    decreases fams.len(),
{
    if fams.len() == 0 {
        Seq::empty()
    } else {
        all_tests_text(fams.drop_last(), language) + tests_text(fams.last().tests, language)
    }
}

/// Whether a backend can render every routine and test of a sequence of
/// families.
pub open spec fn families_ready(fams: Seq<FamilyV>, language: Language) -> bool
    decreases fams.len(),
{
    fams.len() == 0 || (families_ready(fams.drop_last(), language) && functions_ready(
        fams.last().functions,
        language,
    ) && tests_ready(fams.last().tests, language))
}

/// What stands before the routines: nothing in Rust; in C the math header,
/// the helpers for a fused multiply-add and for the reinterpretation of a
/// bit pattern, and the name of the single-precision type.
pub open spec fn preamble(language: Language) -> Seq<char> {
    match language {
        Language::Rust => Seq::empty(),
        Language::C =>
            "#include<math.h>\n\ninline float mul_add(float a, float b, float c) {\n    return a * b + c;\n}\n\ninline float from_bits(unsigned x) {\n    union {\n        float f;\n        unsigned x;\n    } u;\n    u.x = x;\n    return u.f;\n}\n\ntypedef float f32;\n\n"@,
    }
}

/// The source text of a sequence of families: the preamble, every routine,
/// family by family, then every test in the same order. It is an
/// unsupported node where the backend cannot render one of them.
pub open spec fn emitted(fams: Seq<FamilyV>, language: Language) -> Result<Seq<char>, Error> {
    if families_ready(fams, language) {
        Ok(
            preamble(language) + all_functions_text(fams, language) + all_tests_text(
                fams,
                language,
            ),
        )
    } else {
        Err(Error::UnsupportedNode)
    }
}

/// The model of the outcome of an emission.
pub open spec fn text_result_view(r: Result<String, Error>) -> Result<Seq<char>, Error> {
    match r {
        Ok(s) => Ok(s@),
        Err(x) => Err(x),
    }
}

/// Where a backend cannot render a prefix of the routines, it cannot render
/// them all.
pub proof fn lemma_functions_unready(fs: Seq<FunctionV>, language: Language, k: int)
    requires
        0 <= k <= fs.len(),
        !functions_ready(fs.take(k), language),
    ensures
        !functions_ready(fs, language),
    decreases fs.len() - k,
{
    if k < fs.len() {
        assert(fs.take(k + 1).drop_last() =~= fs.take(k));
        lemma_functions_unready(fs, language, k + 1);
    } else {
        assert(fs.take(k) =~= fs);
    }
}

/// Where a backend cannot render a prefix of the tests, it cannot render
/// them all.
pub proof fn lemma_tests_unready(ts: Seq<TestCaseV>, language: Language, k: int)
    requires
        0 <= k <= ts.len(),
        !tests_ready(ts.take(k), language),
    ensures
        !tests_ready(ts, language),
    decreases ts.len() - k,
{
    if k < ts.len() {
        assert(ts.take(k + 1).drop_last() =~= ts.take(k));
        lemma_tests_unready(ts, language, k + 1);
    } else {
        assert(ts.take(k) =~= ts);
    }
}

/// Where a backend cannot render a prefix of the families, it cannot render
/// them all.
pub proof fn lemma_families_unready(fams: Seq<FamilyV>, language: Language, k: int)
    requires
        0 <= k <= fams.len(),
        !families_ready(fams.take(k), language),
    ensures
        !families_ready(fams, language),
    decreases fams.len() - k,
{
    if k < fams.len() {
        assert(fams.take(k + 1).drop_last() =~= fams.take(k));
        lemma_families_unready(fams, language, k + 1);
    } else {
        assert(fams.take(k) =~= fams);
    }
}

/// Renders the routines of a family, if the backend can render them all.
pub fn render_functions(fs: &Vec<Function>, language: Language) -> (r: Option<String>)
    ensures
        match r {
            Some(s) => functions_ready(functions_view(fs@), language) && s@ == functions_text(
                functions_view(fs@),
                language,
            ),
            None => !functions_ready(functions_view(fs@), language),
        },
{
    let ghost all = functions_view(fs@);
    let mut out = String::new();
    let mut i: usize = 0;
    assert(all.take(0) =~= Seq::empty());
    while i < fs.len()
        invariant
            i <= fs.len(),
            all == functions_view(fs@),
            functions_ready(all.take(i as int), language),
            out@ == functions_text(all.take(i as int), language),
        decreases fs.len() - i,
    {
        proof {
            assert(all.take(i + 1).drop_last() =~= all.take(i as int));
            assert(all.take(i + 1).last() == fs@[i as int]@);
        }
        if !is_function_ready(&fs[i], language) {
            proof {
                lemma_functions_unready(all, language, i + 1);
            }
            return None;
        }
        out.append(render_function(&fs[i], language).as_str());
        i += 1;
    }
    assert(all.take(i as int) =~= all);
    Some(out)
}

/// Renders the tests of a family, if the backend can render them all.
pub fn render_tests(ts: &Vec<TestCase>, language: Language) -> (r: Option<String>)
    ensures
        match r {
            Some(s) => tests_ready(tests_view(ts@), language) && s@ == tests_text(
                tests_view(ts@),
                language,
            ),
            None => !tests_ready(tests_view(ts@), language),
        },
{
    let ghost all = tests_view(ts@);
    let mut out = String::new();
    let mut i: usize = 0;
    assert(all.take(0) =~= Seq::empty());
    while i < ts.len()
        invariant
            i <= ts.len(),
            all == tests_view(ts@),
            tests_ready(all.take(i as int), language),
            out@ == tests_text(all.take(i as int), language),
        decreases ts.len() - i,
    {
        proof {
            assert(all.take(i + 1).drop_last() =~= all.take(i as int));
            assert(all.take(i + 1).last() == ts@[i as int]@);
        }
        if !is_test_ready(&ts[i], language) {
            proof {
                lemma_tests_unready(all, language, i + 1);
            }
            return None;
        }
        out.append(render_test(&ts[i], language).as_str());
        i += 1;
    }
    assert(all.take(i as int) =~= all);
    Some(out)
}

/// The preamble of a language.
pub fn preamble_text(language: Language) -> (r: String)
    ensures
        r@ == preamble(language),
{
    match language {
        Language::Rust => String::new(),
        Language::C => String::from_str(
            "#include<math.h>\n\ninline float mul_add(float a, float b, float c) {\n    return a * b + c;\n}\n\ninline float from_bits(unsigned x) {\n    union {\n        float f;\n        unsigned x;\n    } u;\n    u.x = x;\n    return u.f;\n}\n\ntypedef float f32;\n\n",
        ),
    }
}

/// Emits the source text of a sequence of families in a language: the
/// preamble, every routine, then every test. Nothing is emitted where one of
/// them cannot be rendered.
pub fn emit(fams: &Vec<Family>, language: Language) -> (r: Result<String, Error>)
    ensures
        text_result_view(r) == emitted(families_view(fams@), language),
{
    let ghost all = families_view(fams@);
    let mut functions = String::new();
    let mut tests = String::new();
    let mut i: usize = 0;
    assert(all.take(0) =~= Seq::empty());
    while i < fams.len()
        invariant
            i <= fams.len(),
            all == families_view(fams@),
            families_ready(all.take(i as int), language),
            functions@ == all_functions_text(all.take(i as int), language),
            tests@ == all_tests_text(all.take(i as int), language),
        decreases fams.len() - i,
    {
        proof {
            assert(all.take(i + 1).drop_last() =~= all.take(i as int));
            assert(all.take(i + 1).last() == fams@[i as int]@);
        }
        let fs = render_functions(&fams[i].functions, language);
        let ts = render_tests(&fams[i].tests, language);
        match (fs, ts) {
            (Some(f), Some(t)) => {
                functions.append(f.as_str());
                tests.append(t.as_str());
            },
            _ => {
                proof {
                    lemma_families_unready(all, language, i + 1);
                }
                return Err(Error::UnsupportedNode);
            },
        }
        i += 1;
    }
    assert(all.take(i as int) =~= all);
    let mut out = preamble_text(language);
    out.append(functions.as_str());
    out.append(tests.as_str());
    Ok(out)
}

/// The source text of the math library for a width, a number type and a
/// language: the trigonometric family with one polynomial each. An unknown
/// language is refused before anything is generated.
pub open spec fn libm(num_bits: nat, number_type: Seq<char>, language: Seq<char>) -> Result<
    Seq<char>,
    Error,
> {
    match language_of(language) {
        Some(l) => match single_pass_trig_spec(num_bits, number_type) {
            Ok(family) => emitted(seq![family], l),
            Err(x) => Err(x),
        },
        None => Err(Error::UnsupportedLanguage),
    }
}

/// The library is determined by the width, the number type and the
/// language: two runs give the same text, character for character, or fail
/// alike.
pub proof fn lemma_libm_is_determined(
    num_bits: nat,
    number_type: Seq<char>,
    language: Seq<char>,
    first: Result<String, Error>,
    second: Result<String, Error>,
)
    requires
        text_result_view(first) == libm(num_bits, number_type, language),
        text_result_view(second) == libm(num_bits, number_type, language),
    ensures
        text_result_view(first) == text_result_view(second),
{
}

/// An unknown language is refused whatever else is asked for, and nothing
/// is emitted.
pub proof fn lemma_unknown_language(num_bits: nat, number_type: Seq<char>, language: Seq<char>)
    requires
        language_of(language) is None,
    ensures
        libm(num_bits, number_type, language) == Err::<Seq<char>, Error>(
            Error::UnsupportedLanguage,
        ),
{
}

/// Generates the source text of the math library.
pub fn generate_libm(num_bits: usize, number_type: &str, language: &str) -> (r: Result<
    String,
    Error,
>)
    ensures
        text_result_view(r) == libm(num_bits as nat, number_type@, language@),
        language_of(language@) is None ==> r == Err::<String, Error>(Error::UnsupportedLanguage),
{
    let target = match Language::from_tag(language) {
        Some(l) => l,
        None => {
            return Err(Error::UnsupportedLanguage);
        },
    };
    let family = gen_single_pass_trig(num_bits, number_type)?;
    let mut fams: Vec<Family> = Vec::new();
    fams.push(family);
    assert(families_view(fams@) =~= seq![family@]);
    emit(&fams, target)
}

} // verus!
