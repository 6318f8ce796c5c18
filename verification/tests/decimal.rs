use sensor_station::decimal::append_decimal;
use sensor_station::decimal::append_digits;

fn decimal(thousandths: i64) -> String {
    let mut out = Vec::new();
    append_decimal(&mut out, thousandths);
    String::from_utf8(out).unwrap()
}

fn digits(n: u64) -> String {
    let mut out = Vec::new();
    append_digits(&mut out, n);
    String::from_utf8(out).unwrap()
}

#[test]
fn digits_of_small_and_large_numbers() {
    assert_eq!(digits(0), "0");
    assert_eq!(digits(9), "9");
    assert_eq!(digits(10), "10");
    assert_eq!(digits(36), "36");
    assert_eq!(digits(1000), "1000");
    assert_eq!(digits(u64::MAX), "18446744073709551615");
}

#[test]
fn digits_are_appended_to_what_is_there() {
    let mut out = vec![b'n', b'='];
    append_digits(&mut out, 407);
    assert_eq!(out, b"n=407".to_vec());
    append_decimal(&mut out, -1500);
    assert_eq!(out, b"n=407-1.5".to_vec());
}

#[test]
fn decimal_keeps_one_fractional_digit() {
    assert_eq!(decimal(0), "0.0");
    assert_eq!(decimal(50000), "50.0");
    assert_eq!(decimal(-7000), "-7.0");
    assert_eq!(decimal(1000), "1.0");
}

#[test]
fn decimal_drops_trailing_zeros() {
    assert_eq!(decimal(24500), "24.5");
    assert_eq!(decimal(55300), "55.3");
    assert_eq!(decimal(-3250), "-3.25");
    assert_eq!(decimal(120), "0.12");
    assert_eq!(decimal(100), "0.1");
    assert_eq!(decimal(10), "0.01");
}

#[test]
fn decimal_shows_all_three_fractional_digits() {
    assert_eq!(decimal(1), "0.001");
    assert_eq!(decimal(-5), "-0.005");
    assert_eq!(decimal(1001), "1.001");
    assert_eq!(decimal(12345), "12.345");
    assert_eq!(decimal(-999), "-0.999");
    assert_eq!(decimal(20305), "20.305");
}

#[test]
fn decimal_of_the_extremes() {
    assert_eq!(decimal(i64::MAX), "9223372036854775.807");
    assert_eq!(decimal(i64::MIN), "-9223372036854775.808");
}

#[test]
fn decimal_text_parses_back_to_the_same_number() {
    for thousandths in [0i64, 1, -1, 10, 999, 1000, 24500, -3250, 55300, 214748364700] {
        let text = decimal(thousandths);
        let parsed: f64 = text.parse().unwrap();
        assert_eq!((parsed * 1000.0).round() as i64, thousandths);
    }
}
