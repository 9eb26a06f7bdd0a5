use gim::decimal::Decimal;

fn fixed(value: Decimal, places: u8) -> String {
    value.to_fixed(places).unwrap()
}

#[test]
fn fixed_notation_with_two_decimals() {
    assert_eq!(fixed(Decimal::Finite(0), 2), "0.00");
    assert_eq!(fixed(Decimal::Finite(1_000_000), 2), "1.00");
    assert_eq!(fixed(Decimal::Finite(12_340_000), 2), "12.34");
    assert_eq!(fixed(Decimal::Finite(99_999_999), 2), "100.00");
    assert_eq!(fixed(Decimal::Finite(-12_345_678), 2), "-12.35");
    assert_eq!(fixed(Decimal::Finite(4_999), 2), "0.00");
    assert_eq!(fixed(Decimal::Finite(5_001), 2), "0.01");
    assert_eq!(fixed(Decimal::Finite(i64::MAX), 2), "9223372036854.78");
    assert_eq!(fixed(Decimal::Finite(i64::MIN), 2), "-9223372036854.78");
}

#[test]
fn fixed_notation_sends_ties_to_the_even_digit() {
    assert_eq!(fixed(Decimal::Finite(5_000), 2), "0.00");
    assert_eq!(fixed(Decimal::Finite(15_000), 2), "0.02");
    assert_eq!(fixed(Decimal::Finite(25_000), 2), "0.02");
    assert_eq!(fixed(Decimal::Finite(125_000), 2), "0.12");
    assert_eq!(fixed(Decimal::Finite(375_000), 2), "0.38");
    assert_eq!(fixed(Decimal::Finite(-125_000), 2), "-0.12");
    assert_eq!(fixed(Decimal::Finite(250_000), 1), "0.2");
    assert_eq!(fixed(Decimal::Finite(350_000), 1), "0.4");
    assert_eq!(fixed(Decimal::Finite(500_000), 0), "0");
    assert_eq!(fixed(Decimal::Finite(1_500_000), 0), "2");
}

#[test]
fn fixed_notation_with_other_numbers_of_decimals() {
    assert_eq!(fixed(Decimal::Finite(3_141_593), 0), "3");
    assert_eq!(fixed(Decimal::Finite(3_141_593), 1), "3.1");
    assert_eq!(fixed(Decimal::Finite(3_141_593), 3), "3.142");
    assert_eq!(fixed(Decimal::Finite(3_141_593), 6), "3.141593");
    assert_eq!(fixed(Decimal::Finite(-7), 6), "-0.000007");
    assert_eq!(fixed(Decimal::Finite(1_050_000), 1), "1.0");
}

#[test]
fn what_is_not_finite_has_a_name() {
    assert_eq!(fixed(Decimal::NaN, 2), "NaN");
    assert_eq!(fixed(Decimal::PosInfinity, 2), "inf");
    assert_eq!(fixed(Decimal::NegInfinity, 2), "-inf");
    assert!(!Decimal::NaN.is_finite());
    assert!(!Decimal::PosInfinity.is_finite());
    assert!(Decimal::Finite(0).is_finite());
}

#[test]
fn no_more_than_six_decimals() {
    assert_eq!(Decimal::Finite(1).to_fixed(6), Some("0.000001".to_string()));
    assert_eq!(Decimal::Finite(1).to_fixed(7), None);
    assert_eq!(Decimal::NaN.to_fixed(255), None);
    assert_eq!(Decimal::NaN.to_fixed(0), Some("NaN".to_string()));
}

#[test]
fn percentages() {
    assert_eq!(Decimal::percent(1, 2), Decimal::Finite(50_000_000));
    assert_eq!(Decimal::percent(1, 3), Decimal::Finite(33_333_333));
    assert_eq!(Decimal::percent(2, 3), Decimal::Finite(66_666_667));
    assert_eq!(Decimal::percent(0, 5), Decimal::Finite(0));
    assert_eq!(Decimal::percent(5, 5), Decimal::Finite(100_000_000));
    assert_eq!(Decimal::percent(7, 0), Decimal::Finite(0));
    assert_eq!(Decimal::percent(0, 0), Decimal::Finite(0));
    assert_eq!(Decimal::percent(u64::MAX, u64::MAX), Decimal::Finite(100_000_000));
    assert_eq!(Decimal::percent(u64::MAX, 1), Decimal::PosInfinity);
}

#[test]
fn mean_of_finite_values() {
    let values = vec![Decimal::Finite(10_000_000), Decimal::Finite(20_000_000), Decimal::Finite(40_000_000)];
    assert_eq!(Decimal::mean(&values), Decimal::Finite(23_333_333));
    assert_eq!(Decimal::mean(&vec![Decimal::Finite(1), Decimal::Finite(2)]), Decimal::Finite(2));
    assert_eq!(Decimal::mean(&vec![Decimal::Finite(2), Decimal::Finite(3)]), Decimal::Finite(2));
    assert_eq!(Decimal::mean(&vec![Decimal::Finite(-1), Decimal::Finite(-2)]), Decimal::Finite(-2));
    assert_eq!(Decimal::mean(&vec![Decimal::Finite(-5), Decimal::Finite(5)]), Decimal::Finite(0));
    assert_eq!(Decimal::mean(&vec![Decimal::Finite(i64::MAX); 3]), Decimal::Finite(i64::MAX));
    assert_eq!(Decimal::mean(&vec![Decimal::Finite(i64::MIN); 3]), Decimal::Finite(i64::MIN));
}

#[test]
fn mean_of_what_is_not_finite() {
    assert_eq!(Decimal::mean(&vec![]), Decimal::NaN);
    assert_eq!(Decimal::mean(&vec![Decimal::Finite(1), Decimal::NaN]), Decimal::NaN);
    assert_eq!(Decimal::mean(&vec![Decimal::PosInfinity, Decimal::Finite(1)]), Decimal::PosInfinity);
    assert_eq!(Decimal::mean(&vec![Decimal::Finite(1), Decimal::NegInfinity]), Decimal::NegInfinity);
    assert_eq!(Decimal::mean(&vec![Decimal::PosInfinity, Decimal::NegInfinity]), Decimal::NaN);
}

#[test]
fn order_of_values() {
    let ascending = [
        Decimal::NaN,
        Decimal::NegInfinity,
        Decimal::Finite(i64::MIN),
        Decimal::Finite(-1),
        Decimal::Finite(0),
        Decimal::Finite(i64::MAX),
        Decimal::PosInfinity,
    ];
    for pair in ascending.windows(2) {
        assert!(pair[0].key() < pair[1].key());
    }
}

#[test]
fn double_precision_numbers() {
    assert_eq!(Decimal::from_binary64(0.0f64.to_bits()), Decimal::Finite(0));
    assert_eq!(Decimal::from_binary64((-0.0f64).to_bits()), Decimal::Finite(0));
    assert_eq!(Decimal::from_binary64(1.0f64.to_bits()), Decimal::Finite(1_000_000));
    assert_eq!(Decimal::from_binary64(12.5f64.to_bits()), Decimal::Finite(12_500_000));
    assert_eq!(Decimal::from_binary64((-0.25f64).to_bits()), Decimal::Finite(-250_000));
    assert_eq!(Decimal::from_binary64(0.1f64.to_bits()), Decimal::Finite(100_000));
    assert_eq!(Decimal::from_binary64(99.999999f64.to_bits()), Decimal::Finite(99_999_999));
    assert_eq!(Decimal::from_binary64(1e-7f64.to_bits()), Decimal::Finite(0));
    assert_eq!(Decimal::from_binary64(6e-7f64.to_bits()), Decimal::Finite(1));
    assert_eq!(Decimal::from_binary64(f64::MIN_POSITIVE.to_bits()), Decimal::Finite(0));
    assert_eq!(Decimal::from_binary64(5e-324f64.to_bits()), Decimal::Finite(0));
    assert_eq!(Decimal::from_binary64(4_503_599_627_370_496.0f64.to_bits()), Decimal::PosInfinity);
    assert_eq!(Decimal::from_binary64(9_000_000_000_000.0f64.to_bits()), Decimal::Finite(9_000_000_000_000_000_000));
    assert_eq!(Decimal::from_binary64(1e13f64.to_bits()), Decimal::PosInfinity);
    assert_eq!(Decimal::from_binary64((-1e13f64).to_bits()), Decimal::NegInfinity);
    assert_eq!(Decimal::from_binary64(f64::MAX.to_bits()), Decimal::PosInfinity);
    assert_eq!(Decimal::from_binary64(f64::MIN.to_bits()), Decimal::NegInfinity);
}

#[test]
fn double_precision_numbers_that_are_not_finite() {
    assert_eq!(Decimal::from_binary64(f64::NAN.to_bits()), Decimal::NaN);
    assert_eq!(Decimal::from_binary64(f64::INFINITY.to_bits()), Decimal::PosInfinity);
    assert_eq!(Decimal::from_binary64(f64::NEG_INFINITY.to_bits()), Decimal::NegInfinity);
    assert_eq!(Decimal::from_binary64(0xfff8_0000_0000_0001), Decimal::NaN);
}

#[test]
fn double_precision_numbers_agree_with_floating_point_rounding() {
    let mut x: f64 = 0.000_123;
    while x < 5_000_000.0 {
        let expected = (x * 1_000_000.0).round() as i64;
        let got = Decimal::from_binary64(x.to_bits());
        match got {
            Decimal::Finite(m) => assert!((m - expected).abs() <= 1, "{} {} {}", x, m, expected),
            _ => panic!("not finite: {}", x),
        }
        let negative = Decimal::from_binary64((-x).to_bits());
        match (got, negative) {
            (Decimal::Finite(a), Decimal::Finite(b)) => assert_eq!(a, -b),
            _ => panic!("not finite: {}", x),
        }
        x = x * 1.37 + 0.011;
    }
}

#[test]
fn single_precision_numbers() {
    assert_eq!(Decimal::from_binary32(0.0f32.to_bits()), Decimal::Finite(0));
    assert_eq!(Decimal::from_binary32(1.0f32.to_bits()), Decimal::Finite(1_000_000));
    assert_eq!(Decimal::from_binary32(37.5f32.to_bits()), Decimal::Finite(37_500_000));
    assert_eq!(Decimal::from_binary32((-2.75f32).to_bits()), Decimal::Finite(-2_750_000));
    // the single-precision number nearest to 0.1 is 0.100000001490116...
    assert_eq!(Decimal::from_binary32(0.1f32.to_bits()), Decimal::Finite(100_000));
    // the single-precision number nearest to 33.333333 is 33.33333206176758
    assert_eq!(Decimal::from_binary32(33.333333f32.to_bits()), Decimal::Finite(33_333_332));
    assert_eq!(Decimal::from_binary32(f32::NAN.to_bits()), Decimal::NaN);
    assert_eq!(Decimal::from_binary32(f32::INFINITY.to_bits()), Decimal::PosInfinity);
    assert_eq!(Decimal::from_binary32(f32::NEG_INFINITY.to_bits()), Decimal::NegInfinity);
    assert_eq!(Decimal::from_binary32(f32::MAX.to_bits()), Decimal::PosInfinity);
    assert_eq!(Decimal::from_binary32(f32::MIN_POSITIVE.to_bits()), Decimal::Finite(0));
    assert_eq!(Decimal::from_binary32(1u32), Decimal::Finite(0));
}
