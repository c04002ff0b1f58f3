use ledger_core::currency::format_currency;

fn show(amount: f64) -> String {
    format_currency(&format!("{:.2}", amount.abs()), amount < 0.0)
}

#[test]
fn negative_amount_with_thousands() {
    assert_eq!(show(-1234.5), "-1.234,50");
}

#[test]
fn zero_amount() {
    assert_eq!(show(0.0), "0,00");
    assert_eq!(show(-0.0), "0,00");
}

#[test]
fn amounts_below_a_thousand_have_no_point() {
    assert_eq!(show(5.0), "5,00");
    assert_eq!(show(12.5), "12,50");
    assert_eq!(show(999.99), "999,99");
    assert_eq!(show(-999.0), "-999,00");
}

#[test]
fn groups_of_three_from_the_right() {
    assert_eq!(show(1000.0), "1.000,00");
    assert_eq!(show(12345.0), "12.345,00");
    assert_eq!(show(123456.0), "123.456,00");
    assert_eq!(show(1234567.891), "1.234.567,89");
    assert_eq!(show(-1000000.0), "-1.000.000,00");
}

#[test]
fn rounds_to_two_decimals() {
    assert_eq!(show(0.125), "0,12");
    assert_eq!(show(0.375), "0,38");
    assert_eq!(show(999.999), "1.000,00");
    assert_eq!(show(-0.001), "-0,00");
}

#[test]
fn infinite_and_undefined_amounts() {
    assert_eq!(show(f64::INFINITY), "inf,00");
    assert_eq!(show(f64::NEG_INFINITY), "-inf,00");
    assert_eq!(show(f64::NAN), "NaN,00");
}

#[test]
fn text_without_a_point_gets_two_zeros() {
    assert_eq!(format_currency("1234", false), "1.234,00");
    assert_eq!(format_currency("", false), ",00");
    assert_eq!(format_currency("", true), "-,00");
}

#[test]
fn text_with_more_points_keeps_what_stands_between_the_first_two() {
    assert_eq!(format_currency("1.2.3", false), "1,2");
    assert_eq!(format_currency(".5", false), ",5");
    assert_eq!(format_currency("12345.", true), "-12.345,");
    assert_eq!(format_currency("..", false), ",");
}

#[test]
fn groups_whatever_characters_stand_before_the_point() {
    assert_eq!(format_currency("abcdefg.hi", false), "a.bcd.efg,hi");
    assert_eq!(format_currency("ñandúes.00", false), "ñ.and.úes,00");
}
