use libmgen::fixed::Precision;
use num_bigint::BigInt;

#[test]
fn precision_is_bounded() {
    assert!(Precision::new(0).is_none());
    assert!(Precision::new(1).is_some());
    assert!(Precision::new(100).is_some());
    assert!(Precision::new(101).is_some());
    assert_eq!(Precision::new(250).unwrap().count(), 250);
}

#[test]
fn read_scales_to_the_precision() {
    let p = Precision::new(5).unwrap();
    assert_eq!(p.read("3.14159"), Some(BigInt::from(314159)));
    assert_eq!(p.read("-0.5"), Some(BigInt::from(-50000)));
    assert_eq!(p.read("2"), Some(BigInt::from(200000)));
    assert_eq!(p.read("1e2"), Some(BigInt::from(10000000)));
    assert_eq!(p.read("0.1234567"), Some(BigInt::from(12345)));
    assert_eq!(p.read("-0.1234567"), Some(BigInt::from(-12345)));
    assert_eq!(p.read("x"), None);
    assert_eq!(p.read("1e-5"), Some(BigInt::from(1)));
    assert_eq!(p.read("1e-6"), Some(BigInt::from(0)));
    assert_eq!(p.read("-987654321e-5000000000"), Some(BigInt::from(0)));
    assert_eq!(p.read("3e12000"), Some(BigInt::from(3) * BigInt::from(10).pow(12005)));
}

#[test]
fn text_keeps_every_digit() {
    let p = Precision::new(5).unwrap();
    assert_eq!(p.text(&BigInt::from(314159)), "3.14159");
    assert_eq!(p.text(&BigInt::from(-50000)), "-0.50000");
    assert_eq!(p.text(&BigInt::from(0)), "0.00000");
    assert_eq!(p.text(&BigInt::from(7)), "0.00007");
    assert_eq!(p.text(&BigInt::from(-1234567)), "-12.34567");
}

#[test]
fn mul_and_div_round_toward_zero() {
    let p = Precision::new(3).unwrap();
    // 1.5 * 2.5 = 3.75
    assert_eq!(p.mul(&BigInt::from(1500), &BigInt::from(2500)), BigInt::from(3750));
    // 0.001 * 0.5 = 0.0005 -> 0
    assert_eq!(p.mul(&BigInt::from(1), &BigInt::from(500)), BigInt::from(0));
    assert_eq!(p.mul(&BigInt::from(-1), &BigInt::from(500)), BigInt::from(0));
    // 1 / 3 = 0.333
    assert_eq!(p.div(&BigInt::from(1000), &BigInt::from(3000)), Some(BigInt::from(333)));
    assert_eq!(p.div(&BigInt::from(-1000), &BigInt::from(3000)), Some(BigInt::from(-333)));
    assert_eq!(p.div(&BigInt::from(1000), &BigInt::from(0)), None);
}

#[test]
fn series_gives_sine_and_cosine() {
    let p = Precision::new(30).unwrap();
    let zero = BigInt::from(0);
    assert_eq!(p.series(&zero, false), zero);
    assert_eq!(p.series(&zero, true), p.unit());
    // sin(1) = 0.841470984807896506652502321630...
    let one = p.unit();
    let s = p.text(&p.series(&one, false));
    assert!(s.starts_with("0.8414709848078965066525023216"), "{}", s);
    // cos(1) = 0.540302305868139717400936607442...
    let c = p.text(&p.series(&one, true));
    assert!(c.starts_with("0.5403023058681397174009366074"), "{}", c);
    // sin(pi) is 0 to the precision.
    let pi = p.pi();
    let s = p.text(&p.series(&pi, false));
    assert!(s.trim_start_matches('-').starts_with("0.000000000000000000000000000"), "{}", s);
}

#[test]
fn pi_is_pi() {
    let p = Precision::new(60).unwrap();
    let text = p.text(&p.pi());
    assert!(text.starts_with("3.14159265358979323846264338327950288419716939937510582"), "{}", text);
    let p = Precision::new(150).unwrap();
    let text = p.text(&p.pi());
    assert!(
        text.starts_with(
            "3.1415926535897932384626433832795028841971693993751058209749445923078164062862089986280348253421170679821480865132823066470938446095505822317253594"
        ),
        "{}",
        text
    );
    let p = Precision::new(1).unwrap();
    assert_eq!(p.text(&p.pi()), "3.2");
}
