use libmgen::approx::{approx, ApproximationSpec};
use libmgen::error::Error;
use libmgen::expr::{binary, call1, method0, neg, num, var, BinOp, Expr, Function, Ty};
use libmgen::number::{NumberType, Parity};
use libmgen::trig::{
    gen_quadrant_cos, gen_quadrant_sin, gen_quadrant_trig, gen_sin_cos, gen_single_pass_cos,
    gen_single_pass_sin, gen_single_pass_trig, gen_tan,
};

/// The arithmetic of one floating-point width.
trait Real: Copy + PartialOrd + std::fmt::Debug {
    fn parse(text: &str) -> Self;
    fn bits(nt: NumberType, b: u64) -> Self;
    fn pi() -> Self;
    fn add(self, o: Self) -> Self;
    fn sub(self, o: Self) -> Self;
    fn mul(self, o: Self) -> Self;
    fn div(self, o: Self) -> Self;
    fn neg(self) -> Self;
    fn round(self) -> Self;
    fn abs(self) -> Self;
    fn fma(self, a: Self, b: Self) -> Self;
    fn truncated(self) -> i32;
}

impl Real for f32 {
    fn parse(text: &str) -> Self {
        text.parse().unwrap()
    }
    fn bits(nt: NumberType, b: u64) -> Self {
        assert!(nt == NumberType::F32Hex || nt == NumberType::F32Simd);
        f32::from_bits(u32::try_from(b).unwrap())
    }
    fn pi() -> Self {
        std::f32::consts::PI
    }
    fn add(self, o: Self) -> Self {
        self + o
    }
    fn sub(self, o: Self) -> Self {
        self - o
    }
    fn mul(self, o: Self) -> Self {
        self * o
    }
    fn div(self, o: Self) -> Self {
        self / o
    }
    fn neg(self) -> Self {
        -self
    }
    fn round(self) -> Self {
        f32::round(self)
    }
    fn abs(self) -> Self {
        f32::abs(self)
    }
    fn fma(self, a: Self, b: Self) -> Self {
        f32::mul_add(self, a, b)
    }
    fn truncated(self) -> i32 {
        self as i32
    }
}

impl Real for f64 {
    fn parse(text: &str) -> Self {
        text.parse().unwrap()
    }
    fn bits(nt: NumberType, b: u64) -> Self {
        assert!(nt == NumberType::F64Hex || nt == NumberType::F64Simd);
        f64::from_bits(b)
    }
    fn pi() -> Self {
        std::f64::consts::PI
    }
    fn add(self, o: Self) -> Self {
        self + o
    }
    fn sub(self, o: Self) -> Self {
        self - o
    }
    fn mul(self, o: Self) -> Self {
        self * o
    }
    fn div(self, o: Self) -> Self {
        self / o
    }
    fn neg(self) -> Self {
        -self
    }
    fn round(self) -> Self {
        f64::round(self)
    }
    fn abs(self) -> Self {
        f64::abs(self)
    }
    fn fma(self, a: Self, b: Self) -> Self {
        f64::mul_add(self, a, b)
    }
    fn truncated(self) -> i32 {
        self as i32
    }
}

#[derive(Clone, Copy, Debug)]
enum Value<R: Real> {
    Float(R),
    Int(i32),
    Bool(bool),
}

fn float<R: Real>(v: Value<R>) -> R {
    match v {
        Value::Float(x) => x,
        other => panic!("not a float: {:?}", other),
    }
}

fn eval<R: Real>(e: &Expr, env: &Vec<(String, R)>) -> Value<R> {
    match e {
        Expr::Num(t) => Value::Float(R::parse(t)),
        Expr::Int(i) => Value::Int(*i as i32),
        Expr::Bits(nt, b) => Value::Float(R::bits(*nt, *b)),
        Expr::Var(n) => {
            if n == "PI" {
                return Value::Float(R::pi());
            }
            let found = env.iter().rev().find(|(name, _)| name == n);
            Value::Float(found.unwrap_or_else(|| panic!("unbound {}", n)).1)
        }
        Expr::Neg(a) => Value::Float(float(eval(a, env)).neg()),
        Expr::Binary(op, a, b) => {
            let (x, y) = (eval(a, env), eval(b, env));
            match (op, x, y) {
                (BinOp::Add, Value::Float(x), Value::Float(y)) => Value::Float(x.add(y)),
                (BinOp::Sub, Value::Float(x), Value::Float(y)) => Value::Float(x.sub(y)),
                (BinOp::Mul, Value::Float(x), Value::Float(y)) => Value::Float(x.mul(y)),
                (BinOp::Div, Value::Float(x), Value::Float(y)) => Value::Float(x.div(y)),
                (BinOp::Le, Value::Float(x), Value::Float(y)) => Value::Bool(x <= y),
                (BinOp::BitAnd, Value::Int(x), Value::Int(y)) => Value::Int(x & y),
                (BinOp::Eq, Value::Int(x), Value::Int(y)) => Value::Bool(x == y),
                other => panic!("ill-typed {:?}", other),
            }
        }
        Expr::Method(r, name, args) => {
            let x = float(eval(r, env));
            match (name.as_str(), args.len()) {
                ("round", 0) => Value::Float(x.round()),
                ("abs", 0) => Value::Float(x.abs()),
                ("mul_add", 2) => {
                    Value::Float(x.fma(float(eval(&args[0], env)), float(eval(&args[1], env))))
                }
                other => panic!("unknown method {:?}", other),
            }
        }
        Expr::Cast(a, Ty::Int) => Value::Int(float(eval(a, env)).truncated()),
        Expr::If(c, a, b) => match eval(c, env) {
            Value::Bool(true) => eval(a, env),
            Value::Bool(false) => eval(b, env),
            other => panic!("not a condition: {:?}", other),
        },
        other => panic!("not evaluated here: {:?}", other),
    }
}

fn run<R: Real>(f: &Function, arg: R) -> R {
    let mut env: Vec<(String, R)> = vec![(f.param.clone(), arg)];
    for s in &f.body {
        let v = float(eval(&s.value, &env));
        env.push((s.name.clone(), v));
    }
    float(eval(&f.result, &env))
}

fn has_literal(e: &Expr) -> bool {
    match e {
        Expr::Num(_) => true,
        Expr::Lit(_) | Expr::Int(_) | Expr::Bits(_, _) | Expr::Var(_) => false,
        Expr::Neg(a) | Expr::Cast(a, _) | Expr::Field(a, _) => has_literal(a),
        Expr::Binary(_, a, b) => has_literal(a) || has_literal(b),
        Expr::Call(_, args) | Expr::Tuple(args) => args.iter().any(has_literal),
        Expr::Method(r, _, args) => has_literal(r) || args.iter().any(has_literal),
        Expr::If(c, a, b) => has_literal(c) || has_literal(a) || has_literal(b),
    }
}

fn function_has_literal(f: &Function) -> bool {
    f.body.iter().any(|s| has_literal(&s.value)) || has_literal(&f.result)
}

fn count_literals(e: &Expr) -> usize {
    match e {
        Expr::Num(_) => 1,
        Expr::Lit(_) | Expr::Int(_) | Expr::Bits(_, _) | Expr::Var(_) => 0,
        Expr::Neg(a) | Expr::Cast(a, _) | Expr::Field(a, _) => count_literals(a),
        Expr::Binary(_, a, b) => count_literals(a) + count_literals(b),
        Expr::Call(_, args) | Expr::Tuple(args) => args.iter().map(count_literals).sum(),
        Expr::Method(r, _, args) => {
            count_literals(r) + args.iter().map(count_literals).sum::<usize>()
        }
        Expr::If(c, a, b) => count_literals(c) + count_literals(a) + count_literals(b),
    }
}

fn request(target: Expr, variable: &str, n: usize, lo: &str, hi: &str, parity: Parity, digits: u32) -> ApproximationSpec {
    ApproximationSpec {
        target,
        variable: variable.to_string(),
        num_terms: n,
        xmin: lo.to_string(),
        xmax: hi.to_string(),
        parity,
        digits,
    }
}

fn sine_of_turns() -> Expr {
    method0(binary(BinOp::Mul, binary(BinOp::Mul, var("x"), var("PI")), num("2.0")), "sin")
}

fn cosine_of_turns() -> Expr {
    method0(binary(BinOp::Mul, binary(BinOp::Mul, var("x"), var("PI")), num("2.0")), "cos")
}

fn at(e: &Expr, x: f64) -> f64 {
    float(eval::<f64>(e, &vec![("x".to_string(), x)]))
}

fn ulps32(got: f32, want: f64) -> f64 {
    ((got as f64) - want).abs() / (2.0_f64).powi(-23)
}

#[test]
fn odd_fit_follows_the_sine() {
    let p = approx(&request(sine_of_turns(), "x", 8, "-0.5", "0.5", Parity::Odd, 40)).unwrap();
    assert_eq!(count_literals(&p), 8);
    let mut worst: f64 = 0.0;
    for i in 0..=1000 {
        let x = -0.5 + (i as f64) / 1000.0;
        let err = (at(&p, x) - (x * std::f64::consts::PI * 2.0).sin()).abs();
        worst = worst.max(err);
    }
    assert!(worst < 2e-8, "{}", worst);
}

#[test]
fn even_fit_follows_the_cosine() {
    let p = approx(&request(cosine_of_turns(), "x", 9, "-0.5", "0.5", Parity::Even, 40)).unwrap();
    assert_eq!(count_literals(&p), 9);
    let mut worst: f64 = 0.0;
    for i in 0..=1000 {
        let x = -0.5 + (i as f64) / 1000.0;
        let err = (at(&p, x) - (x * std::f64::consts::PI * 2.0).cos()).abs();
        worst = worst.max(err);
    }
    assert!(worst < 2e-8, "{}", worst);
}

#[test]
fn fit_with_many_digits_reaches_double_precision() {
    let p = approx(&request(sine_of_turns(), "x", 13, "-0.5", "0.5", Parity::Odd, 70)).unwrap();
    let mut worst: f64 = 0.0;
    for i in 0..=1000 {
        let x = -0.5 + (i as f64) / 1000.0;
        let err = (at(&p, x) - (x * std::f64::consts::PI * 2.0).sin()).abs();
        worst = worst.max(err);
    }
    assert!(worst < 1e-14, "{}", worst);
}

#[test]
fn fit_without_parity_finds_a_polynomial_again() {
    // 1 + 2 x + 3 x^2 over [0, 2] is its own fit with three terms.
    let target = binary(
        BinOp::Add,
        binary(BinOp::Add, num("1"), binary(BinOp::Mul, num("2"), var("x"))),
        binary(BinOp::Mul, num("3"), binary(BinOp::Mul, var("x"), var("x"))),
    );
    let p = approx(&request(target, "x", 3, "0", "2", Parity::Neither, 30)).unwrap();
    for i in 0..=20 {
        let x = (i as f64) / 10.0;
        let want = 1.0 + 2.0 * x + 3.0 * x * x;
        assert!((at(&p, x) - want).abs() < 1e-12, "{} {}", x, at(&p, x));
    }
}

#[test]
fn fit_is_exact_at_a_constant() {
    let p = approx(&request(num("0.75"), "x", 1, "-1", "1", Parity::Even, 10)).unwrap();
    assert_eq!(p, num("0.7500000000"));
}

#[test]
fn odd_fit_is_odd_and_even_fit_is_even() {
    let s = approx(&request(sine_of_turns(), "x", 6, "-0.5", "0.5", Parity::Odd, 40)).unwrap();
    let c = approx(&request(cosine_of_turns(), "x", 6, "-0.5", "0.5", Parity::Even, 40)).unwrap();
    for i in 0..=100 {
        let x = (i as f64) / 200.0;
        assert_eq!(at(&s, -x).to_bits(), (-at(&s, x)).to_bits());
        assert_eq!(at(&c, -x).to_bits(), at(&c, x).to_bits());
    }
}

#[test]
fn fit_is_the_same_on_every_run() {
    let a = approx(&request(sine_of_turns(), "x", 8, "-0.5", "0.5", Parity::Odd, 40));
    let b = approx(&request(sine_of_turns(), "x", 8, "-0.5", "0.5", Parity::Odd, 40));
    assert_eq!(a, b);
    let f = gen_single_pass_sin(8, 32, "f32_hex");
    let g = gen_single_pass_sin(8, 32, "f32_hex");
    assert_eq!(f, g);
}

#[test]
fn fit_has_the_shape_of_horner() {
    let p = approx(&request(var("x"), "x", 2, "-1", "1", Parity::Odd, 3)).unwrap();
    match p {
        Expr::Binary(BinOp::Mul, h, x) => {
            assert_eq!(*x, var("x"));
            match *h {
                Expr::Method(high, name, args) => {
                    assert_eq!(name, "mul_add");
                    assert!(matches!(*high, Expr::Num(_)));
                    assert_eq!(args[0], binary(BinOp::Mul, var("x"), var("x")));
                    assert!(matches!(args[1], Expr::Num(_)));
                }
                other => panic!("{:?}", other),
            }
        }
        other => panic!("{:?}", other),
    }
}

#[test]
fn requests_that_cannot_be_fitted_fail() {
    let fit = |n, lo, hi, parity, digits| approx(&request(sine_of_turns(), "x", n, lo, hi, parity, digits));
    assert_eq!(fit(0, "-0.5", "0.5", Parity::Odd, 40), Err(Error::FitFailure));
    assert_eq!(fit(4, "-0.5", "0.5", Parity::Odd, 0), Err(Error::FitFailure));
    assert!(fit(4, "-0.5", "0.5", Parity::Odd, 101).is_ok());
    assert!(fit(70, "-0.5", "0.5", Parity::Odd, 120).is_ok());
    assert_eq!(fit(4, "0.5", "0.5", Parity::Neither, 40), Err(Error::FitFailure));
    assert_eq!(fit(4, "0.5", "-0.5", Parity::Neither, 40), Err(Error::FitFailure));
    assert_eq!(fit(4, "-0.25", "0.5", Parity::Odd, 40), Err(Error::FitFailure));
    assert_eq!(fit(4, "-0.25", "0.5", Parity::Even, 40), Err(Error::FitFailure));
    assert_eq!(fit(4, "low", "0.5", Parity::Neither, 40), Err(Error::FitFailure));
    assert!(fit(4, "-0.25", "0.5", Parity::Neither, 40).is_ok());
}

#[test]
fn targets_without_a_value_fail() {
    let fit = |target| approx(&request(target, "x", 3, "-1", "1", Parity::Neither, 20));
    assert_eq!(fit(var("y")), Err(Error::FitFailure));
    assert_eq!(fit(call1("f", var("x"))), Err(Error::FitFailure));
    assert_eq!(fit(method0(var("x"), "exp")), Err(Error::FitFailure));
    assert_eq!(fit(binary(BinOp::Div, num("1"), num("0"))), Err(Error::FitFailure));
    assert_eq!(fit(binary(BinOp::Le, var("x"), num("0"))), Err(Error::FitFailure));
    assert_eq!(fit(num("1.0.0")), Err(Error::FitFailure));
    assert!(fit(neg(var("x"))).is_ok());
}

#[test]
fn single_pass_sine_is_exact_at_zero_and_close_at_a_quarter_turn() {
    let f = gen_single_pass_sin(8, 32, "f32_hex").unwrap();
    assert_eq!(f.name, "sin");
    assert_eq!(f.scalar, Ty::Single);
    assert_eq!(f.number_type, Some(NumberType::F32Hex));
    assert!(!function_has_literal(&f));
    assert_eq!(run::<f32>(&f, 0.0).to_bits(), 0.0_f32.to_bits());
    let y = run::<f32>(&f, std::f32::consts::FRAC_PI_2);
    assert!(ulps32(y, 1.0) <= 8.0, "{}", y);
}

#[test]
fn single_pass_sine_stays_close_over_the_period() {
    let f = gen_single_pass_sin(8, 32, "f32_hex").unwrap();
    let mut worst: f64 = 0.0;
    for i in 0..=2000 {
        let x = -std::f64::consts::PI + 2.0 * std::f64::consts::PI * (i as f64) / 2000.0;
        worst = worst.max(ulps32(run::<f32>(&f, x as f32), (x as f32 as f64).sin()));
    }
    assert!(worst <= 8.0, "{}", worst);
}

#[test]
fn single_pass_cosine_stays_close_over_the_period() {
    let f = gen_single_pass_cos(9, 32, "f32_hex").unwrap();
    assert_eq!(f.name, "cos");
    assert!(!function_has_literal(&f));
    assert_eq!(run::<f32>(&f, 0.0), 1.0);
    let mut worst: f64 = 0.0;
    for i in 0..=2000 {
        let x = -std::f64::consts::PI + 2.0 * std::f64::consts::PI * (i as f64) / 2000.0;
        worst = worst.max(ulps32(run::<f32>(&f, x as f32), (x as f32 as f64).cos()));
    }
    assert!(worst <= 8.0, "{}", worst);
}

#[test]
fn tangent_stays_close_over_its_test_domain() {
    let f = gen_tan(8, 32, "f32_hex").unwrap();
    assert_eq!(f.name, "tan");
    assert!(!function_has_literal(&f));
    assert_eq!(run::<f32>(&f, 0.0), 0.0);
    let mut worst: f64 = 0.0;
    for i in 0..=2000 {
        let x = -std::f64::consts::FRAC_PI_4 + std::f64::consts::FRAC_PI_2 * (i as f64) / 2000.0;
        worst = worst.max(ulps32(run::<f32>(&f, x as f32), (x as f32 as f64).tan()));
    }
    assert!(worst <= 6.0, "{}", worst);
}

#[test]
fn tangent_follows_the_tangent_towards_the_pole() {
    let f = gen_tan(14, 64, "f64_hex").unwrap();
    for x in [1.0_f64, 1.5, 1.55, 1.57] {
        let y = run::<f64>(&f, x);
        assert!(y.is_finite());
        assert!(((y - x.tan()) / x.tan()).abs() < 1e-11, "{} {} {}", x, y, x.tan());
    }
}

#[test]
fn quadrant_routines_follow_sine_and_cosine() {
    let s = gen_quadrant_sin(4, 32, "f32_hex").unwrap();
    let c = gen_quadrant_cos(4, 32, "f32_hex").unwrap();
    assert_eq!(s.name, "sin");
    assert_eq!(c.name, "cos");
    assert!(!function_has_literal(&s));
    assert!(!function_has_literal(&c));
    let (mut worst_s, mut worst_c): (f64, f64) = (0.0, 0.0);
    for i in 0..=2000 {
        let x = -std::f64::consts::PI + 2.0 * std::f64::consts::PI * (i as f64) / 2000.0;
        worst_s = worst_s.max(ulps32(run::<f32>(&s, x as f32), (x as f32 as f64).sin()));
        worst_c = worst_c.max(ulps32(run::<f32>(&c, x as f32), (x as f32 as f64).cos()));
    }
    assert!(worst_s <= 12.0, "{}", worst_s);
    assert!(worst_c <= 16.0, "{}", worst_c);
}

#[test]
fn double_routines_reach_double_precision() {
    let s = gen_single_pass_sin(13, 64, "f64_hex").unwrap();
    assert_eq!(s.scalar, Ty::Double);
    assert_eq!(s.number_type, Some(NumberType::F64Hex));
    let mut worst: f64 = 0.0;
    for i in 0..=2000 {
        let x = -std::f64::consts::PI + 2.0 * std::f64::consts::PI * (i as f64) / 2000.0;
        worst = worst.max((run::<f64>(&s, x) - x.sin()).abs());
    }
    assert!(worst <= 8.0 * f64::EPSILON, "{}", worst);
}

#[test]
fn double_cosine_and_tangent_reach_double_precision() {
    let c = gen_single_pass_cos(14, 64, "f64_hex").unwrap();
    let t = gen_tan(14, 64, "f64_hex").unwrap();
    let (mut worst_c, mut worst_t): (f64, f64) = (0.0, 0.0);
    for i in 0..=2000 {
        let x = -std::f64::consts::PI + 2.0 * std::f64::consts::PI * (i as f64) / 2000.0;
        worst_c = worst_c.max((run::<f64>(&c, x) - x.cos()).abs());
        let y = x / 4.0;
        worst_t = worst_t.max((run::<f64>(&t, y) - y.tan()).abs());
    }
    assert!(worst_c <= 8.0 * f64::EPSILON, "{}", worst_c);
    assert!(worst_t <= 6.0 * f64::EPSILON, "{}", worst_t);
}

#[test]
fn double_quadrant_routines_reach_double_precision() {
    let s = gen_quadrant_sin(8, 64, "f64_hex").unwrap();
    let c = gen_quadrant_cos(8, 64, "f64_hex").unwrap();
    let (mut worst_s, mut worst_c): (f64, f64) = (0.0, 0.0);
    for i in 0..=2000 {
        let x = -std::f64::consts::PI + 2.0 * std::f64::consts::PI * (i as f64) / 2000.0;
        worst_s = worst_s.max((run::<f64>(&s, x) - x.sin()).abs());
        worst_c = worst_c.max((run::<f64>(&c, x) - x.cos()).abs());
    }
    assert!(worst_s <= 12.0 * f64::EPSILON, "{}", worst_s);
    assert!(worst_c <= 16.0 * f64::EPSILON, "{}", worst_c);
}

#[test]
fn sin_cos_calls_both() {
    let f = gen_sin_cos(8, 32, "f32_hex").unwrap();
    assert_eq!(f.name, "sin_cos");
    assert!(f.returns_pair);
    assert!(f.body.is_empty());
    assert_eq!(
        f.result,
        Expr::Tuple(vec![call1("sin", var("arg")), call1("cos", var("arg"))])
    );
}

#[test]
fn unknown_number_type_leaves_the_literals() {
    let f = gen_single_pass_sin(8, 32, "f16_hex").unwrap();
    assert_eq!(f.number_type, None);
    assert!(function_has_literal(&f));
}

#[test]
fn no_terms_fail_the_routine() {
    assert_eq!(gen_single_pass_sin(0, 32, "f32_hex"), Err(Error::FitFailure));
    assert_eq!(gen_single_pass_cos(0, 32, "f32_hex"), Err(Error::FitFailure));
    assert_eq!(gen_tan(0, 64, "f64_hex"), Err(Error::FitFailure));
    assert_eq!(gen_quadrant_sin(0, 32, "f32_hex"), Err(Error::FitFailure));
    assert_eq!(gen_quadrant_cos(0, 32, "f32_hex"), Err(Error::FitFailure));
}

#[test]
fn families_hold_four_routines_and_five_tests() {
    for family in [gen_single_pass_trig(32, "f32_hex").unwrap(), gen_quadrant_trig(32, "f32_hex").unwrap()] {
        let names: Vec<&str> = family.functions.iter().map(|f| f.name.as_str()).collect();
        assert_eq!(names, ["sin", "cos", "tan", "sin_cos"]);
        let tests: Vec<&str> = family.tests.iter().map(|t| t.name.as_str()).collect();
        assert_eq!(tests, ["test_sin", "test_cos", "test_tan", "test_sin_cos_1", "test_sin_cos_2"]);
    }
}

#[test]
fn tests_carry_their_tolerance_and_domain() {
    let single = gen_single_pass_trig(32, "f32_hex").unwrap();
    let ulps: Vec<u32> = single.tests.iter().map(|t| t.max_ulps).collect();
    assert_eq!(ulps, [8, 8, 6, 8, 8]);
    let quadrant = gen_quadrant_trig(64, "f64_hex").unwrap();
    let ulps: Vec<u32> = quadrant.tests.iter().map(|t| t.max_ulps).collect();
    assert_eq!(ulps, [12, 16, 6, 12, 16]);
    assert!(quadrant.tests.iter().all(|t| t.wide));
    assert!(single.tests.iter().all(|t| !t.wide));
    for (q, s) in quadrant.tests.iter().zip(single.tests.iter()) {
        assert_eq!(q.name, s.name);
        assert!(q.max_ulps >= s.max_ulps);
    }
    let t = &single.tests[0];
    assert_eq!(t.lo, neg(var("PI")));
    assert_eq!(t.hi, var("PI"));
    assert_eq!(t.reference, method0(var("x"), "sin"));
    assert_eq!(
        t.candidate,
        Expr::Cast(Box::new(call1("sin", Expr::Cast(Box::new(var("x")), Ty::Single))), Ty::Double)
    );
    let t = &single.tests[2];
    assert_eq!(t.lo, neg(var("FRAC_PI_4")));
    assert_eq!(t.hi, var("FRAC_PI_4"));
    let t = &single.tests[4];
    assert_eq!(
        t.candidate,
        Expr::Cast(
            Box::new(Expr::Field(
                Box::new(call1("sin_cos", Expr::Cast(Box::new(var("x")), Ty::Single))),
                1
            )),
            Ty::Double
        )
    );
}
