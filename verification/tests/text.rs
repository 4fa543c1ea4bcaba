use ownership_models::text::{digit_str, push_decimal, push_decimal_nat};

fn decimal_of(n: i32) -> String {
    let mut out = String::new();
    push_decimal(&mut out, n);
    out
}

#[test]
fn decimal_of_small_numbers() {
    assert_eq!(decimal_of(0), "0");
    assert_eq!(decimal_of(7), "7");
    assert_eq!(decimal_of(10), "10");
    assert_eq!(decimal_of(42), "42");
    assert_eq!(decimal_of(100), "100");
    assert_eq!(decimal_of(1005), "1005");
}

#[test]
fn decimal_of_negative_numbers() {
    assert_eq!(decimal_of(-1), "-1");
    assert_eq!(decimal_of(-10), "-10");
    assert_eq!(decimal_of(-120), "-120");
}

#[test]
fn decimal_of_the_extremes() {
    assert_eq!(decimal_of(i32::MAX), "2147483647");
    assert_eq!(decimal_of(i32::MIN), "-2147483648");
}

#[test]
fn decimal_goes_onto_the_end() {
    let mut out = String::from("value: ");
    push_decimal(&mut out, 35);
    push_decimal_nat(&mut out, u32::MAX);
    assert_eq!(out, "value: 354294967295");
}

#[test]
fn every_digit_has_its_character() {
    let digits: Vec<&str> = (0u8..10).map(digit_str).collect();
    assert_eq!(digits, vec!["0", "1", "2", "3", "4", "5", "6", "7", "8", "9"]);
}
