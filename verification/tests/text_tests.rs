use ledger_core::record::{Amount, Kind};
use ledger_core::text::{chars_of, trim};

#[test]
fn trim_removes_leading_and_trailing_white_space() {
    assert_eq!(trim("  Coffee  "), "Coffee");
    assert_eq!(trim("\t\nCoffee"), "Coffee");
    assert_eq!(trim("Coffee\r\n"), "Coffee");
}

#[test]
fn trim_keeps_white_space_within() {
    assert_eq!(trim("  a  b \t c "), "a  b \t c");
}

#[test]
fn trim_of_white_space_alone_is_empty() {
    assert_eq!(trim(""), "");
    assert_eq!(trim(" "), "");
    assert_eq!(trim(" \t\r\n\u{000B}\u{000C}"), "");
}

#[test]
fn trim_leaves_trimmed_text_alone() {
    assert_eq!(trim("a"), "a");
    assert_eq!(trim("Coffee"), "Coffee");
    assert_eq!(trim(trim("  x y  ")), trim("  x y  "));
}

#[test]
fn trim_knows_white_space_beyond_ascii() {
    assert_eq!(trim("\u{00A0}x\u{3000}"), "x");
    assert_eq!(trim("\u{2003}é\u{2028}"), "é");
    assert_eq!(trim("\u{200B}x"), "\u{200B}x");
}

#[test]
fn trim_counts_characters_and_not_bytes() {
    assert_eq!(trim(" ñandú "), "ñandú");
    assert_eq!(trim("\u{3000}日本語\u{3000}"), "日本語");
}

#[test]
fn chars_of_gives_the_characters_in_order() {
    assert_eq!(chars_of(""), Vec::<char>::new());
    assert_eq!(chars_of("añ1"), vec!['a', 'ñ', '1']);
}

#[test]
fn kind_is_read_from_its_tag() {
    assert_eq!(Kind::parse("Income"), Some(Kind::Income));
    assert_eq!(Kind::parse("Expense"), Some(Kind::Expense));
    assert_eq!(Kind::parse("income"), None);
    assert_eq!(Kind::parse(" Income"), None);
    assert_eq!(Kind::parse(""), None);
}

#[test]
fn kind_tag_reads_back() {
    assert_eq!(Kind::Income.tag(), "Income");
    assert_eq!(Kind::Expense.tag(), "Expense");
    assert_eq!(Kind::parse(Kind::Income.tag()), Some(Kind::Income));
    assert_eq!(Kind::parse(Kind::Expense.tag()), Some(Kind::Expense));
}

#[test]
fn amount_is_positive_exactly_above_zero() {
    let positive = |value: f64| Amount::from_bits(value.to_bits()).is_positive();
    assert!(positive(12.5));
    assert!(positive(f64::MIN_POSITIVE));
    assert!(positive(5e-324));
    assert!(positive(f64::MAX));
    assert!(positive(f64::INFINITY));
    assert!(!positive(0.0));
    assert!(!positive(-0.0));
    assert!(!positive(-12.5));
    assert!(!positive(f64::NEG_INFINITY));
    assert!(!positive(f64::NAN));
    assert!(!positive(-f64::NAN));
}

#[test]
fn amount_keeps_its_bits() {
    let bits = 1234.5f64.to_bits();
    assert_eq!(Amount::from_bits(bits).to_bits(), bits);
    assert_eq!(f64::from_bits(Amount::from_bits(bits).to_bits()), 1234.5);
}

#[test]
fn trim_agrees_with_the_standard_trim_on_every_character() {
    let mut text = String::new();
    for c in (0u32..=0x10FFFF).filter_map(char::from_u32) {
        text.clear();
        text.push(c);
        text.push('x');
        text.push(c);
        assert_eq!(trim(&text), text.trim());
    }
}
