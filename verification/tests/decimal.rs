use poloniex_bot::decimal::{Decimal, EPSILON_UNITS, MAX_UNITS, SCALE};

fn units(text: &str) -> Option<u128> {
    Decimal::parse(text).map(|d| d.units())
}

#[test]
fn parse_reads_whole_and_fraction() {
    assert_eq!(units("101.2"), Some(101_200_000_000_000));
    assert_eq!(units("123.61626625"), Some(123_616_266_250_000));
    assert_eq!(units("0.00000001"), Some(10_000));
    assert_eq!(units("11524758480.50000000"), Some(11_524_758_480_500_000_000_000));
}

#[test]
fn parse_reads_whole_numbers() {
    assert_eq!(units("0"), Some(0));
    assert_eq!(units("7"), Some(7 * SCALE));
    assert_eq!(units("000123"), Some(123 * SCALE));
}

#[test]
fn parse_keeps_twelve_fraction_digits() {
    assert_eq!(units("0.000000000001"), Some(1));
    assert_eq!(units("1.999999999999"), Some(1_999_999_999_999));
    assert_eq!(units("0.0000000000001"), None);
}

#[test]
fn parse_refuses_what_is_no_numeral() {
    for text in ["", ".", "1.", ".5", "-1", "+1", "1e5", "1.2.3", " 1", "1 ", "abc", "1,5", "NaN", "inf", "\u{ff11}", "1\u{e9}"] {
        assert_eq!(units(text), None, "{:?}", text);
    }
}

#[test]
fn parse_holds_the_range() {
    assert_eq!(units("10000000000000000"), Some(MAX_UNITS));
    assert_eq!(units("10000000000000000.000000000000"), Some(MAX_UNITS));
    assert_eq!(units("10000000000000000.000000000001"), None);
    assert_eq!(units("10000000000000001"), None);
    assert_eq!(units("99999999999999999999999999999999999999999999"), None);
    assert_eq!(units("9999999999999999.999999999999"), Some(MAX_UNITS - 1));
}

#[test]
fn from_units_holds_the_range() {
    assert_eq!(Decimal::from_units(0).map(|d| d.units()), Some(0));
    assert_eq!(Decimal::from_units(MAX_UNITS).map(|d| d.units()), Some(MAX_UNITS));
    assert_eq!(Decimal::from_units(MAX_UNITS + 1), None);
    assert_eq!(Decimal::zero().units(), 0);
}

#[test]
fn scaled_rounds_down() {
    let ask = Decimal::parse("101.2").unwrap();
    assert_eq!(ask.scaled(995_000), Decimal::parse("100.694").unwrap());
    let bid = Decimal::parse("110").unwrap();
    assert_eq!(bid.scaled(995_000), Decimal::parse("109.45").unwrap());
    let one_unit = Decimal::from_units(1).unwrap();
    assert_eq!(one_unit.scaled(999_999).units(), 0);
    assert_eq!(one_unit.scaled(1_000_000).units(), 1);
    assert_eq!(Decimal::from_units(MAX_UNITS).unwrap().scaled(1_000_000).units(), MAX_UNITS);
    assert_eq!(Decimal::from_units(3).unwrap().scaled(500_000).units(), 1);
}

#[test]
fn negligible_is_below_the_tenth_decimal() {
    assert_eq!(EPSILON_UNITS, 100);
    assert!(Decimal::parse("0").unwrap().is_negligible());
    assert!(Decimal::parse("0.00000000009").unwrap().is_negligible());
    assert!(!Decimal::parse("0.0000000001").unwrap().is_negligible());
    assert!(!Decimal::parse("0.00000001").unwrap().is_negligible());
}

#[test]
fn differs_needs_more_than_the_tenth_decimal() {
    let a = Decimal::parse("101").unwrap();
    assert!(!a.differs_from(&a));
    assert!(!a.differs_from(&Decimal::parse("101.0000000001").unwrap()));
    assert!(!Decimal::parse("101.0000000001").unwrap().differs_from(&a));
    assert!(a.differs_from(&Decimal::parse("101.000000000101").unwrap()));
    assert!(Decimal::parse("101.000000000101").unwrap().differs_from(&a));
    assert!(a.differs_from(&Decimal::parse("110").unwrap()));
}

#[test]
fn equal_units_are_equal_decimals() {
    assert_eq!(Decimal::parse("1.50").unwrap(), Decimal::parse("1.5").unwrap());
    assert_ne!(Decimal::parse("1.5").unwrap(), Decimal::parse("1.51").unwrap());
}
