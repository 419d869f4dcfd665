use rustnao::similarity::{HUNDREDTHS_CAP, MAX_PERCENT_HUNDREDTHS, MIN_PERCENT_HUNDREDTHS};
use rustnao::Similarity;

fn hundredths(text: &str) -> Option<i64> {
    Similarity::parse(text).map(|s| s.hundredths())
}

#[test]
fn parse_reads_plain_decimals() {
    assert_eq!(hundredths("60.0"), Some(6000));
    assert_eq!(hundredths("92.31"), Some(9231));
    assert_eq!(hundredths("10"), Some(1000));
    assert_eq!(hundredths("0"), Some(0));
    assert_eq!(hundredths("100.00"), Some(10000));
    assert_eq!(hundredths("007.5"), Some(750));
    assert_eq!(hundredths("0.07"), Some(7));
    assert_eq!(hundredths("45.6"), Some(4560));
}

#[test]
fn parse_takes_a_point_at_either_end() {
    assert_eq!(hundredths(".5"), Some(50));
    assert_eq!(hundredths("5."), Some(500));
    assert_eq!(hundredths("+.25"), Some(25));
    assert_eq!(hundredths("-3."), Some(-300));
}

#[test]
fn parse_takes_a_sign() {
    assert_eq!(hundredths("+1.25"), Some(125));
    assert_eq!(hundredths("-1.25"), Some(-125));
    assert_eq!(hundredths("-0.0"), Some(0));
    assert_eq!(hundredths("-0"), Some(0));
}

#[test]
fn parse_rounds_finer_digits_down() {
    assert_eq!(hundredths("0.999"), Some(99));
    assert_eq!(hundredths("1.005"), Some(100));
    assert_eq!(hundredths("59.99999"), Some(5999));
    assert_eq!(hundredths("60.000000"), Some(6000));
    assert_eq!(hundredths("-0.001"), Some(-1));
    assert_eq!(hundredths("-1.259"), Some(-126));
    assert_eq!(hundredths("-1.250"), Some(-125));
}

#[test]
fn parse_holds_great_values_at_the_cap() {
    assert_eq!(HUNDREDTHS_CAP, 100_000_000);
    assert_eq!(hundredths("999999.99"), Some(99_999_999));
    assert_eq!(hundredths("1000000"), Some(100_000_000));
    assert_eq!(hundredths("1000000.55"), Some(100_000_000));
    assert_eq!(hundredths("123456789012345678901234567890"), Some(100_000_000));
    assert_eq!(hundredths("-1000000.01"), Some(-100_000_000));
    assert_eq!(hundredths("-999999.999"), Some(-100_000_000));
    assert_eq!(hundredths("-999999.99"), Some(-99_999_999));
}

#[test]
fn parse_refuses_what_is_no_plain_decimal() {
    for text in [
        "", ".", "+", "-", "+.", "-.", "abc", "inf", "-inf", "+infinity", "Infinity", "NaN", "nan",
        "1.2.3", "1..2", " 1", "1 ", "1,5", "--1", "+-1", "1-", "0x10", "١٢", "1_0", "60.0%", "e5",
        "E5", ".e5", "+e5", "1e", "1E", "1e+", "1e-", "1e5.0", "1e5.", "1e.5", "1e 5", "1ee5",
        "1e5e5", "1e+-5", "1e++5", "e", "1.5e", "1x5", "1e٣",
    ] {
        assert_eq!(hundredths(text), None, "{:?}", text);
    }
}

#[test]
fn parse_takes_an_exponent() {
    assert_eq!(hundredths("1e2"), Some(10_000));
    assert_eq!(hundredths("1E2"), Some(10_000));
    assert_eq!(hundredths("1e+2"), Some(10_000));
    assert_eq!(hundredths("9.231e1"), Some(9231));
    assert_eq!(hundredths("923.1e-1"), Some(9231));
    assert_eq!(hundredths("92310e-3"), Some(9231));
    assert_eq!(hundredths("0.009231E4"), Some(9231));
    assert_eq!(hundredths(".6e2"), Some(6000));
    assert_eq!(hundredths("6.e1"), Some(6000));
    assert_eq!(hundredths("6e0"), Some(600));
    assert_eq!(hundredths("6e-0"), Some(600));
    assert_eq!(hundredths("6e00001"), Some(6000));
    assert_eq!(hundredths("5e-1"), Some(50));
    assert_eq!(hundredths("5e-2"), Some(5));
    assert_eq!(hundredths("5e-3"), Some(0));
    assert_eq!(hundredths("-5e-2"), Some(-5));
    assert_eq!(hundredths("-5e-3"), Some(-1));
    assert_eq!(hundredths("-0e-3"), Some(0));
    assert_eq!(hundredths("+12.5e1"), Some(12_500));
    assert_eq!(hundredths("1.23456e2"), Some(12_345));
    assert_eq!(hundredths("-1.23456e2"), Some(-12_346));
    assert_eq!(hundredths("-1.23450e2"), Some(-12_345));
    assert_eq!(hundredths("123456789e-7"), Some(1234));
    assert_eq!(hundredths("00012e0"), Some(1200));
}

#[test]
fn parse_holds_great_exponents_at_the_cap() {
    assert_eq!(hundredths("1e6"), Some(100_000_000));
    assert_eq!(hundredths("9.9999999e5"), Some(99_999_999));
    assert_eq!(hundredths("1e7"), Some(100_000_000));
    assert_eq!(hundredths("1e400"), Some(100_000_000));
    assert_eq!(hundredths("-1e400"), Some(-100_000_000));
    assert_eq!(hundredths("0.0000001e400"), Some(100_000_000));
    assert_eq!(hundredths("1e99999999999999999999999999999999999999999999"), Some(100_000_000));
    assert_eq!(hundredths("-1e99999999999999999999999999999999999999999999"), Some(-100_000_000));
    assert_eq!(hundredths("0e99999999999999999999999999999999999999999999"), Some(0));
    assert_eq!(hundredths("0.000e99999999999999999999999999999999999999999999"), Some(0));
    assert_eq!(hundredths("1e-400"), Some(0));
    assert_eq!(hundredths("-1e-400"), Some(-1));
    assert_eq!(hundredths("1e-99999999999999999999999999999999999999999999"), Some(0));
    assert_eq!(hundredths("-1e-99999999999999999999999999999999999999999999"), Some(-1));
    assert_eq!(hundredths("-0e-99999999999999999999999999999999999999999999"), Some(0));
    assert_eq!(hundredths("1e1267650600228229401496703205375"), Some(100_000_000));
    assert_eq!(hundredths("1e1267650600228229401496703205376"), Some(100_000_000));
    assert_eq!(hundredths("1e-1267650600228229401496703205376"), Some(0));
    assert_eq!(hundredths("-1e-1267650600228229401496703205377"), Some(-1));
}

#[test]
fn parse_agrees_with_the_float_of_two_decimals() {
    for text in ["10.0", "60.0", "90.0", "33.33", "0.01", "99.99", "100.0", "12.5"] {
        let float: f64 = text.parse().unwrap();
        assert_eq!(hundredths(text), Some((float * 100.0).round() as i64), "{:?}", text);
    }
}

#[test]
fn constructors_hold_what_they_are_given() {
    assert_eq!(Similarity::from_hundredths(6131).hundredths(), 6131);
    assert_eq!(Similarity::from_hundredths(-5).hundredths(), -5);
    assert_eq!(Similarity::from_hundredths(i64::MAX).hundredths(), i64::MAX);
    assert_eq!(Similarity::from_percent(50).hundredths(), 5000);
    assert_eq!(Similarity::from_percent(0).hundredths(), 0);
    assert_eq!(Similarity::from_percent(-1).hundredths(), -100);
    assert_eq!(Similarity::from_percent(i32::MAX).hundredths(), 214_748_364_700);
    assert_eq!(Similarity::from_percent(i32::MIN).hundredths(), -214_748_364_800);
    assert_eq!(Similarity::from_percent(45), Similarity::from_hundredths(4500));
}

#[test]
fn the_range_of_a_threshold_is_zero_to_a_hundred_percent() {
    assert_eq!(MIN_PERCENT_HUNDREDTHS, 0);
    assert_eq!(MAX_PERCENT_HUNDREDTHS, 10_000);
    assert!(Similarity::from_hundredths(0).is_in_range());
    assert!(Similarity::from_hundredths(1).is_in_range());
    assert!(Similarity::from_hundredths(5050).is_in_range());
    assert!(Similarity::from_hundredths(10_000).is_in_range());
    assert!(!Similarity::from_hundredths(-1).is_in_range());
    assert!(!Similarity::from_hundredths(10_001).is_in_range());
    assert!(!Similarity::from_hundredths(i64::MIN).is_in_range());
    assert!(!Similarity::from_hundredths(i64::MAX).is_in_range());
}

#[test]
fn at_least_compares_hundredths() {
    let sixty = Similarity::from_percent(60);
    let fifty = Similarity::from_percent(50);
    assert!(sixty.at_least(&fifty));
    assert!(sixty.at_least(&sixty));
    assert!(!fifty.at_least(&sixty));
    assert!(!Similarity::from_hundredths(5999).at_least(&sixty));
    assert!(Similarity::from_hundredths(6001).at_least(&sixty));
}
