use gem_endgame::num::Num;
use gem_endgame::number_format::{fixed, int_text, signed_fixed, uint_text};
use gem_endgame::number_text::{parse_int, parse_num};

fn n(x: f64) -> Num {
    Num::from_bits(x.to_bits())
}

fn f(x: Num) -> f64 {
    f64::from_bits(x.to_bits())
}

fn same_bits(a: Num, b: f64) -> bool {
    if b.is_nan() {
        a.is_nan()
    } else {
        a.to_bits() == b.to_bits()
    }
}

/// A fixed walk over bit patterns that reaches every kind of double.
fn samples() -> Vec<f64> {
    let mut v = vec![
        0.0,
        -0.0,
        1.0,
        -1.0,
        0.1,
        0.2,
        0.3,
        0.5,
        0.97,
        0.98,
        1e-9,
        1e308,
        -1e308,
        f64::MAX,
        f64::MIN_POSITIVE,
        5e-324,
        f64::INFINITY,
        f64::NEG_INFINITY,
        f64::NAN,
        60_000.0,
        95_432.5,
        9_007_199_254_740_993.0,
    ];
    let mut s: u64 = 0x9E37_79B9_7F4A_7C15;
    for _ in 0..60 {
        s ^= s << 13;
        s ^= s >> 7;
        s ^= s << 17;
        v.push(f64::from_bits(s));
        let e = 1023 - 40 + (s >> 50) % 80;
        v.push(f64::from_bits((s & 0x800F_FFFF_FFFF_FFFF) | (e << 52)));
        v.push(f64::from_bits(s & 0x001F_FFFF_FFFF_FFFF));
    }
    v
}

#[test]
fn addition_matches_hardware() {
    let v = samples();
    for &a in &v {
        for &b in &v {
            assert!(same_bits(n(a) + n(b), a + b), "{a} + {b}");
            assert!(same_bits(n(a) - n(b), a - b), "{a} - {b}");
        }
    }
}

#[test]
fn multiplication_matches_hardware() {
    let v = samples();
    for &a in &v {
        for &b in &v {
            assert!(same_bits(n(a) * n(b), a * b), "{a} * {b}");
        }
    }
}

#[test]
fn division_matches_hardware() {
    let v = samples();
    for &a in &v {
        for &b in &v {
            assert!(same_bits(n(a) / n(b), a / b), "{a} / {b}");
        }
    }
}

#[test]
fn comparisons_match_hardware() {
    let v = samples();
    for &a in &v {
        for &b in &v {
            assert_eq!(n(a).lt(n(b)), a < b);
            assert_eq!(n(a).le(n(b)), a <= b);
            assert_eq!(n(a).gt(n(b)), a > b);
            assert_eq!(n(a).ge(n(b)), a >= b);
            assert_eq!(n(a).same(n(b)), a == b);
            assert!(f(n(a).max(n(b))) == a.max(b) || a.max(b).is_nan());
            assert!(f(n(a).min(n(b))) == a.min(b) || a.min(b).is_nan());
        }
    }
}

#[test]
fn roots_match_hardware() {
    for &a in &samples() {
        assert!(same_bits(n(a).sqrt(), a.sqrt()), "sqrt {a}");
        assert_eq!(n(a).is_finite(), a.is_finite());
        assert_eq!(n(a).is_nan(), a.is_nan());
        assert!(same_bits(n(a).abs(), a.abs()) || a.is_nan());
    }
}

#[test]
fn fixed_decimals_match_the_standard_library() {
    for &a in &samples() {
        for p in [0usize, 1, 2, 4, 6, 8] {
            assert_eq!(fixed(n(a), p), format!("{:.*}", p, a), "{a:?} at {p}");
            assert_eq!(signed_fixed(n(a), p), format!("{:+.*}", p, a), "{a:?} at {p}");
        }
    }
    for a in [0.5, 1.5, 2.5, 0.125, 0.375, 0.25, 0.75, -0.5, -0.001, 1e22, 123456789.987654321] {
        for p in 0usize..7 {
            assert_eq!(fixed(n(a), p), format!("{:.*}", p, a), "{a:?} at {p}");
        }
    }
}

#[test]
fn parsed_numbers_match_the_standard_library() {
    let texts = [
        "0", "1", "-1", "+1", "0.5", ".5", "5.", ".", "", "-", "1e5", "1E-5", "1e", "1e+", "inf",
        "-Infinity", "nan", "NaN", "infinit", "0.97", "95432.50", "1e308", "1e309", "1e-400",
        "5e-324", "2.4703282292062327e-324", "2.4703282292062328e-324", "179769313486231580793e289",
        "123456789012345678901234567890", "0.000000000000000000000000000001", "1_000", " 1", "1 ",
        "0x10", "1e99999999999999999999", "0e99999999999999999999", "1e-99999999999999999999",
        "9007199254740993", "9007199254740992.999999999999999999", "1.7976931348623157e308",
        "1.7976931348623159e308", "00012.50", "--1", "1.2.3", "٣",
    ];
    for t in texts {
        match (parse_num(t), t.parse::<f64>()) {
            (Some(a), Ok(b)) => assert!(same_bits(a, b), "{t}: {} {}", f(a), b),
            (None, Err(_)) => {}
            (a, b) => panic!("{t}: {} {}", a.is_some(), b.is_ok()),
        }
    }
    for &a in &samples() {
        let t = format!("{a:?}");
        let b = parse_num(&t).unwrap();
        assert!(same_bits(b, t.parse::<f64>().unwrap()), "{t}");
        let t = format!("{a:.30}");
        assert!(same_bits(parse_num(&t).unwrap(), t.parse::<f64>().unwrap()), "{t}");
    }
}

#[test]
fn parsed_integers_match_the_standard_library() {
    for t in [
        "0", "-0", "+7", "42", "-42", "9223372036854775807", "9223372036854775808",
        "-9223372036854775808", "-9223372036854775809", "", "-", "+", "1.0", "a", "12a",
        "99999999999999999999999999999999999999999999",
    ] {
        assert_eq!(parse_int(t), t.parse::<i64>().ok(), "{t}");
    }
}

#[test]
fn whole_numbers_are_written_in_decimal() {
    for x in [0u64, 9, 10, 99, 100, u64::MAX] {
        assert_eq!(uint_text(x), format!("{x}"));
    }
    for x in [0i64, -1, 5, i64::MIN, i64::MAX] {
        assert_eq!(int_text(x), format!("{x}"));
        assert_eq!(f(Num::whole(x)), x as f64);
    }
}

#[test]
fn literals_are_the_nearest_doubles() {
    assert_eq!(f(Num::ratio(88, 100)), 0.88);
    assert_eq!(f(Num::ratio(1, 1_000_000_000)), 1e-9);
    assert_eq!(f(Num::ratio(995, 1000)), 0.995);
    assert_eq!(f(Num::uint(70)), 70.0);
    assert_eq!(f(Num::ratio(72, 100) + Num::ratio(28, 100)), 1.0);
    for d in [1u64, 2, 3, 7, 10, 100, 1000, 10_000, 1_000_003, u64::MAX] {
        for m in [0u64, 1, 2, 9, 33, 1234567, u64::MAX] {
            if d < 1 << 53 && m < 1 << 53 {
                assert_eq!(f(Num::ratio(m, d)), m as f64 / d as f64);
            }
        }
    }
}

#[test]
fn clamp_holds_a_number_between_bounds() {
    assert_eq!(f(n(2.0).clamp(n(0.0), n(1.0))), 1.0);
    assert_eq!(f(n(-2.0).clamp(n(0.0), n(1.0))), 0.0);
    assert_eq!(f(n(0.25).clamp(n(0.0), n(1.0))), 0.25);
}
