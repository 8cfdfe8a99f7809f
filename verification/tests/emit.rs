use libmgen::emit::{emit, generate_libm, render_expr, render_function, render_test};
use libmgen::error::Error;
use libmgen::expr::{
    binary, bind, call1, cast, field, if_else, integer, literal, method0, mul_add, neg, num, pair,
    var,
    BinOp, Expr, Family, Function, TestCase, Ty,
};
use libmgen::number::{Language, NumberType};
use libmgen::trig::{gen_quadrant_trig, gen_single_pass_trig};

const PREAMBLE: &str = "#include<math.h>\n\ninline float mul_add(float a, float b, float c) {\n    return a * b + c;\n}\n\ninline float from_bits(unsigned x) {\n    union {\n        float f;\n        unsigned x;\n    } u;\n    u.x = x;\n    return u.f;\n}\n\ntypedef float f32;\n\n";

fn half() -> Function {
    Function {
        name: "half".to_string(),
        scalar: Ty::Single,
        number_type: Some(NumberType::F32Hex),
        param: "arg".to_string(),
        returns_pair: false,
        body: vec![bind("h", Some(Ty::Single), Expr::Bits(NumberType::F32Hex, 0x3f00_0000))],
        result: binary(BinOp::Mul, var("arg"), var("h")),
    }
}

fn both() -> Function {
    Function {
        name: "both".to_string(),
        scalar: Ty::Single,
        number_type: Some(NumberType::F32Hex),
        param: "arg".to_string(),
        returns_pair: true,
        body: vec![bind("t", None, neg(var("arg")))],
        result: pair(var("arg"), var("t")),
    }
}

fn check_half() -> TestCase {
    TestCase {
        name: "test_half".to_string(),
        reference: binary(BinOp::Mul, var("x"), var("PI")),
        candidate: cast(call1("half", cast(var("x"), Ty::Single)), Ty::Double),
        max_ulps: 3,
        wide: false,
        lo: neg(var("PI")),
        hi: var("FRAC_PI_4"),
    }
}

#[test]
fn expressions_render_in_rust() {
    let r = |e: &Expr| render_expr(e, false, Language::Rust);
    assert_eq!(r(&var("x")), "x");
    assert_eq!(r(&var("PI")), "std::f32::consts::PI");
    assert_eq!(render_expr(&var("PI"), true, Language::Rust), "std::f64::consts::PI");
    assert_eq!(r(&var("FRAC_PI_4")), "std::f32::consts::FRAC_PI_4");
    assert_eq!(render_expr(&var("FRAC_PI_4"), true, Language::Rust), "std::f64::consts::FRAC_PI_4");
    assert_eq!(r(&integer(-7)), "-7");
    assert_eq!(r(&num("0.25")), "0.25");
    assert_eq!(r(&neg(var("x"))), "(-x)");
    assert_eq!(r(&binary(BinOp::Add, var("a"), var("b"))), "(a + b)");
    assert_eq!(r(&binary(BinOp::Sub, var("a"), var("b"))), "(a - b)");
    assert_eq!(r(&binary(BinOp::Mul, var("a"), var("b"))), "(a * b)");
    assert_eq!(r(&binary(BinOp::Div, var("a"), var("b"))), "(a / b)");
    assert_eq!(r(&binary(BinOp::BitAnd, var("a"), var("b"))), "(a & b)");
    assert_eq!(r(&binary(BinOp::Eq, var("a"), var("b"))), "(a == b)");
    assert_eq!(r(&binary(BinOp::Le, var("a"), var("b"))), "(a <= b)");
    assert_eq!(r(&call1("sin", var("arg"))), "sin(arg)");
    assert_eq!(r(&Expr::Call("f".to_string(), vec![])), "f()");
    assert_eq!(r(&method0(var("x"), "round")), "x.round()");
    assert_eq!(r(&mul_add(var("a"), var("b"), var("c"))), "a.mul_add(b, c)");
    assert_eq!(r(&cast(var("x"), Ty::Int)), "(x as i32)");
    assert_eq!(r(&cast(var("x"), Ty::Single)), "(x as f32)");
    assert_eq!(r(&cast(var("x"), Ty::Double)), "(x as f64)");
    assert_eq!(r(&if_else(var("c"), var("a"), var("b"))), "(if c { a } else { b })");
    assert_eq!(r(&pair(var("a"), var("b"))), "(a, b)");
    assert_eq!(r(&field(call1("f", var("x")), 1)), "f(x).1");
    assert_eq!(r(&literal("\"text\"")), "\"text\"");
    assert_eq!(r(&literal("true")), "true");
}

#[test]
fn bit_patterns_render_in_rust_by_number_type() {
    let r = |nt| render_expr(&Expr::Bits(nt, 1065353216), false, Language::Rust);
    assert_eq!(r(NumberType::F32Hex), "f32::from_bits(1065353216u32)");
    assert_eq!(r(NumberType::F32Simd), "Self::splat(f32::from_bits(1065353216u32))");
    assert_eq!(r(NumberType::F64Hex), "f64::from_bits(1065353216u64)");
    assert_eq!(r(NumberType::F64Simd), "Self::splat(f64::from_bits(1065353216u64))");
    let big = Expr::Bits(NumberType::F64Hex, u64::MAX);
    assert_eq!(render_expr(&big, true, Language::Rust), "f64::from_bits(18446744073709551615u64)");
    let zero = Expr::Bits(NumberType::F32Hex, 0);
    assert_eq!(render_expr(&zero, false, Language::Rust), "f32::from_bits(0u32)");
}

#[test]
fn expressions_render_in_c() {
    let r = |e: &Expr| render_expr(e, false, Language::C);
    assert_eq!(r(&var("x")), "x");
    assert_eq!(r(&var("PI")), "M_PI");
    assert_eq!(r(&var("FRAC_PI_4")), "M_PI_4");
    assert_eq!(r(&integer(1)), "1");
    assert_eq!(r(&Expr::Bits(NumberType::F32Hex, 1065353216)), "from_bits(1065353216u)");
    assert_eq!(r(&neg(var("x"))), "(-x)");
    assert_eq!(r(&binary(BinOp::Le, var("a"), var("b"))), "(a <= b)");
    assert_eq!(r(&call1("sin", var("arg"))), "sin(arg)");
    assert_eq!(r(&method0(var("x"), "round")), "round(x)");
    assert_eq!(r(&method0(var("x"), "abs")), "fabs(x)");
    assert_eq!(r(&mul_add(var("a"), var("b"), var("c"))), "mul_add(a, b, c)");
    assert_eq!(r(&cast(var("x"), Ty::Int)), "((int)x)");
    assert_eq!(r(&cast(var("x"), Ty::Single)), "((f32)x)");
    assert_eq!(r(&cast(var("x"), Ty::Double)), "((double)x)");
    assert_eq!(r(&if_else(var("c"), var("a"), var("b"))), "(c ? a : b)");
    assert_eq!(r(&field(call1("f", var("x")), 1)), "f(x).v1");
    assert_eq!(r(&pair(var("a"), var("b"))), "{ a, b }");
}

#[test]
fn a_routine_renders_in_rust() {
    assert_eq!(
        render_function(&half(), Language::Rust),
        "fn half(arg: f32) -> f32 {\n    let h: f32 = f32::from_bits(1056964608u32);\n    (arg * h)\n}\n\n"
    );
    assert_eq!(
        render_function(&both(), Language::Rust),
        "fn both(arg: f32) -> (f32, f32) {\n    let t = (-arg);\n    (arg, t)\n}\n\n"
    );
}

#[test]
fn a_routine_renders_in_c() {
    assert_eq!(
        render_function(&half(), Language::C),
        "f32 half(f32 arg) {\n    f32 h = from_bits(1056964608u);\n    return (arg * h);\n}\n\n"
    );
    assert_eq!(
        render_function(&both(), Language::C),
        "struct both_pair { f32 v0; f32 v1; };\nstruct both_pair both(f32 arg) {\n    f32 t = (-arg);\n    struct both_pair result = { arg, t };\n    return result;\n}\n\n"
    );
}

#[test]
fn a_test_renders_in_rust() {
    assert_eq!(
        render_test(&check_half(), Language::Rust),
        "#[test]\nfn test_half() {\n    const N: i32 = 0x100000;\n    let tmin: f64 = (-std::f64::consts::PI);\n    let tmax: f64 = std::f64::consts::FRAC_PI_4;\n    let mut worst: f64 = 0.0;\n    for i in 0..=N {\n        let x: f64 = tmin + (tmax - tmin) * (i as f64) / (N as f64);\n        let reference: f64 = (x * std::f64::consts::PI);\n        let candidate: f64 = (half((x as f32)) as f64);\n        worst = worst.max((candidate - reference).abs());\n    }\n    assert!(worst <= 3.0 * f64::from_bits(0x3e80000000000000u64));\n}\n\n"
    );
}

#[test]
fn a_test_renders_in_c() {
    assert_eq!(
        render_test(&check_half(), Language::C),
        "int test_half(void) {\n    const int n = 0x100000;\n    const double tmin = (-M_PI);\n    const double tmax = M_PI_4;\n    for (int i = 0; i <= n; ++i) {\n        const double x = tmin + (tmax - tmin) * i / n;\n        const double reference = (x * M_PI);\n        const double candidate = ((double)half(((f32)x)));\n        if (!(fabs(candidate - reference) <= 3 * 0x1p-23)) {\n            return 1;\n        }\n    }\n    return 0;\n}\n\n"
    );
}

#[test]
fn the_unit_of_a_test_follows_its_width() {
    let mut t = check_half();
    t.wide = true;
    assert!(render_test(&t, Language::Rust).contains("3.0 * f64::from_bits(0x3cb0000000000000u64)"));
    assert!(render_test(&t, Language::C).contains("3 * 0x1p-52"));
    assert_eq!(f64::from_bits(0x3cb0000000000000), f64::EPSILON);
    assert_eq!(f64::from_bits(0x3e80000000000000), f32::EPSILON as f64);
}

#[test]
fn routines_come_before_tests_family_by_family() {
    let one = Family { functions: vec![half()], tests: vec![check_half()] };
    let two = Family { functions: vec![both()], tests: vec![] };
    let text = emit(&vec![one, two], Language::C).unwrap();
    let want = format!(
        "{}{}{}{}",
        PREAMBLE,
        render_function(&half(), Language::C),
        render_function(&both(), Language::C),
        render_test(&check_half(), Language::C)
    );
    assert_eq!(text, want);
    let one = Family { functions: vec![half()], tests: vec![check_half()] };
    let two = Family { functions: vec![both()], tests: vec![] };
    let text = emit(&vec![one, two], Language::Rust).unwrap();
    let want = format!(
        "{}{}{}",
        render_function(&half(), Language::Rust),
        render_function(&both(), Language::Rust),
        render_test(&check_half(), Language::Rust)
    );
    assert_eq!(text, want);
}

#[test]
fn nothing_is_emitted_for_no_family() {
    assert_eq!(emit(&vec![], Language::Rust), Ok(String::new()));
    assert_eq!(emit(&vec![], Language::C), Ok(PREAMBLE.to_string()));
}

#[test]
fn a_leftover_literal_stops_both_backends() {
    let mut f = half();
    f.result = binary(BinOp::Mul, var("arg"), num("0.5"));
    for language in [Language::Rust, Language::C] {
        let family = Family {
            functions: vec![Function {
                name: f.name.clone(),
                scalar: f.scalar,
                number_type: f.number_type,
                param: f.param.clone(),
                returns_pair: false,
                body: vec![],
                result: binary(BinOp::Mul, var("arg"), num("0.5")),
            }],
            tests: vec![],
        };
        assert_eq!(emit(&vec![family], language), Err(Error::UnsupportedNode));
    }
    let mut t = check_half();
    t.hi = num("1.0");
    let family = Family { functions: vec![], tests: vec![t] };
    assert_eq!(emit(&vec![family], Language::Rust), Err(Error::UnsupportedNode));
}

#[test]
fn the_rust_backend_takes_other_literals() {
    let family = Family {
        functions: vec![Function {
            name: "f".to_string(),
            scalar: Ty::Single,
            number_type: None,
            param: "arg".to_string(),
            returns_pair: false,
            body: vec![],
            result: if_else(literal("true"), var("arg"), neg(var("arg"))),
        }],
        tests: vec![],
    };
    assert_eq!(
        emit(&vec![family], Language::Rust),
        Ok("fn f(arg: f32) -> f32 {\n    (if true { arg } else { (-arg) })\n}\n\n".to_string())
    );
}

#[test]
fn the_c_backend_refuses_what_it_cannot_render() {
    let c = |result: Expr, returns_pair: bool| {
        let family = Family {
            functions: vec![Function {
                name: "f".to_string(),
                scalar: Ty::Single,
                number_type: None,
                param: "arg".to_string(),
                returns_pair,
                body: vec![],
                result,
            }],
            tests: vec![],
        };
        emit(&vec![family], Language::C).map(|_| ())
    };
    assert_eq!(c(var("arg"), false), Ok(()));
    assert_eq!(c(Expr::Bits(NumberType::F32Hex, 0), false), Ok(()));
    assert_eq!(c(Expr::Bits(NumberType::F32Simd, 0), false), Err(Error::UnsupportedNode));
    assert_eq!(c(Expr::Bits(NumberType::F64Hex, 0), false), Err(Error::UnsupportedNode));
    assert_eq!(c(Expr::Bits(NumberType::F64Simd, 0), false), Err(Error::UnsupportedNode));
    assert_eq!(c(pair(var("arg"), var("arg")), false), Err(Error::UnsupportedNode));
    assert_eq!(c(pair(var("arg"), var("arg")), true), Ok(()));
    assert_eq!(c(var("arg"), true), Err(Error::UnsupportedNode));
    assert_eq!(c(Expr::Tuple(vec![var("arg")]), true), Err(Error::UnsupportedNode));
    assert_eq!(c(call1("g", pair(var("arg"), var("arg"))), false), Err(Error::UnsupportedNode));
    assert_eq!(c(literal("true"), false), Err(Error::UnsupportedNode));
}

#[test]
fn an_unknown_language_is_refused() {
    assert_eq!(generate_libm(32, "f32_hex", "fortran"), Err(Error::UnsupportedLanguage));
    assert_eq!(generate_libm(32, "f32_hex", ""), Err(Error::UnsupportedLanguage));
    assert_eq!(generate_libm(32, "f32_hex", "C"), Err(Error::UnsupportedLanguage));
    // The language is looked at before anything else.
    assert_eq!(generate_libm(32, "no such type", "fortran"), Err(Error::UnsupportedLanguage));
    assert_eq!(Language::from_tag("rust"), Some(Language::Rust));
    assert_eq!(Language::from_tag("c"), Some(Language::C));
    assert_eq!(Language::from_tag("Rust"), None);
}

#[test]
fn number_type_tags_are_read() {
    assert_eq!(NumberType::from_tag("f32_hex"), Some(NumberType::F32Hex));
    assert_eq!(NumberType::from_tag("f32_simd"), Some(NumberType::F32Simd));
    assert_eq!(NumberType::from_tag("f64_hex"), Some(NumberType::F64Hex));
    assert_eq!(NumberType::from_tag("f64_simd"), Some(NumberType::F64Simd));
    assert_eq!(NumberType::from_tag("f32"), None);
    assert!(!NumberType::F32Hex.is_wide() && !NumberType::F32Simd.is_wide());
    assert!(NumberType::F64Hex.is_wide() && NumberType::F64Simd.is_wide());
}

#[test]
fn an_unknown_number_type_leaves_literals_that_no_backend_takes() {
    assert_eq!(generate_libm(32, "f16_hex", "rust"), Err(Error::UnsupportedNode));
    assert_eq!(generate_libm(32, "f16_hex", "c"), Err(Error::UnsupportedNode));
}

#[test]
fn the_c_library_starts_with_the_preamble() {
    let text = generate_libm(32, "f32_hex", "c").unwrap();
    assert!(text.starts_with(PREAMBLE));
    let body = &text[PREAMBLE.len()..];
    assert!(body.starts_with("f32 sin(f32 arg) {\n    f32 scaled = (arg * (from_bits(1065353216u) / (M_PI * from_bits(1073741824u))));\n    f32 x = (scaled - round(scaled));\n    return (mul_add("));
    let order: Vec<usize> = [
        "f32 sin(f32 arg) {",
        "f32 cos(f32 arg) {",
        "f32 tan(f32 arg) {",
        "struct sin_cos_pair sin_cos(f32 arg) {",
        "int test_sin(void) {",
        "int test_cos(void) {",
        "int test_tan(void) {",
        "int test_sin_cos_1(void) {",
        "int test_sin_cos_2(void) {",
    ]
    .iter()
    .map(|s| text.find(s).unwrap_or_else(|| panic!("{} is missing", s)))
    .collect();
    assert!(order.windows(2).all(|w| w[0] < w[1]), "{:?}", order);
    assert!(text.contains("    struct sin_cos_pair result = { sin(arg), cos(arg) };\n"));
    assert!(text.contains("const double candidate = ((double)sin_cos(((f32)x)).v1);"));
    assert!(text.contains("8 * 0x1p-23"));
    assert!(text.contains("6 * 0x1p-23"));
}

#[test]
fn the_c_backend_has_no_wide_constants() {
    assert_eq!(generate_libm(64, "f64_hex", "c"), Err(Error::UnsupportedNode));
    assert_eq!(generate_libm(32, "f32_simd", "c"), Err(Error::UnsupportedNode));
}

#[test]
fn the_rust_library_parses_as_rust() {
    for (bits, tag) in [(32, "f32_hex"), (64, "f64_hex"), (32, "f32_simd"), (64, "f64_simd")] {
        let text = generate_libm(bits, tag, "rust").unwrap();
        let file = syn::parse_file(&text).unwrap_or_else(|e| panic!("{}: {}", tag, e));
        let names: Vec<String> = file
            .items
            .iter()
            .map(|item| match item {
                syn::Item::Fn(f) => f.sig.ident.to_string(),
                _ => panic!("not a function"),
            })
            .collect();
        assert_eq!(
            names,
            [
                "sin",
                "cos",
                "tan",
                "sin_cos",
                "test_sin",
                "test_cos",
                "test_tan",
                "test_sin_cos_1",
                "test_sin_cos_2"
            ]
        );
    }
}

#[test]
fn the_rust_library_holds_what_the_family_holds() {
    let text = generate_libm(32, "f32_hex", "rust").unwrap();
    let family = gen_single_pass_trig(32, "f32_hex").unwrap();
    assert_eq!(Ok(text.clone()), emit(&vec![family], Language::Rust));
    assert!(text.starts_with("fn sin(arg: f32) -> f32 {\n    let scaled: f32 = (arg * (f32::from_bits(1065353216u32) / (std::f32::consts::PI * f32::from_bits(1073741824u32))));\n    let x: f32 = (scaled - scaled.round());\n    (f32::from_bits("));
    assert!(text.contains("fn sin_cos(arg: f32) -> (f32, f32) {\n    (sin(arg), cos(arg))\n}\n\n"));
    assert!(text.contains("let recip: f32 = (f32::from_bits(1065353216u32) / ((x * x) - f32::from_bits(1048576000u32)));"));
    assert!(text.contains("    (y * recip)\n}\n\n"));
    assert!(text.contains("let candidate: f64 = (sin_cos((x as f32)).0 as f64);"));
    let wide = generate_libm(64, "f64_simd", "rust").unwrap();
    assert!(wide.starts_with("fn sin(arg: f64) -> f64 {\n    let scaled: f64 = (arg * (Self::splat(f64::from_bits(4607182418800017408u64)) / (std::f64::consts::PI * Self::splat(f64::from_bits(4611686018427387904u64)))));"));
}

#[test]
fn the_quadrant_family_renders_in_both_languages() {
    let rust = emit(&vec![gen_quadrant_trig(32, "f32_hex").unwrap()], Language::Rust).unwrap();
    assert!(syn::parse_file(&rust).is_ok());
    assert!(rust.contains("let ss = (if (((xr as i32) & 1) == 0) { sr } else { (-sr) });"));
    assert!(rust.contains("    (if (s.abs() <= f32::from_bits(1048576000u32)) { ss } else { cs })\n"));
    let c = emit(&vec![gen_quadrant_trig(32, "f32_hex").unwrap()], Language::C).unwrap();
    assert!(c.contains("f32 ss = (((((int)xr) & 1) == 0) ? sr : (-sr));"));
    assert!(c.contains("    return ((fabs(s) <= from_bits(1048576000u)) ? ss : cs);\n"));
}
