use unifimetrics::decimal::Decimal;

#[test]
fn whole_number_has_no_point() {
    assert_eq!(Decimal::new(1500, 0).to_text(), "1500");
    assert_eq!(Decimal::from_int(0).to_text(), "0");
    assert_eq!(Decimal::from_int(-4).to_text(), "-4");
}

#[test]
fn fraction_drops_trailing_zeros() {
    assert_eq!(Decimal::new(573, 1).to_text(), "57.3");
    assert_eq!(Decimal::new(5730, 2).to_text(), "57.3");
    assert_eq!(Decimal::new(1500, 2).to_text(), "15");
    assert_eq!(Decimal::new(0, 3).to_text(), "0");
}

#[test]
fn small_fraction_is_padded() {
    assert_eq!(Decimal::new(5, 3).to_text(), "0.005");
    assert_eq!(Decimal::new(-5, 3).to_text(), "-0.005");
    assert_eq!(Decimal::new(123456789, 9).to_text(), "0.123456789");
}

#[test]
fn extreme_mantissas() {
    assert_eq!(Decimal::new(i64::MIN, 0).to_text(), "-9223372036854775808");
    assert_eq!(Decimal::new(i64::MAX, 19).to_text(), "0.9223372036854775807");
}

#[test]
fn ratio_is_percentage_over_hundred() {
    assert_eq!(Decimal::new(573, 1).to_ratio_text(), "0.573");
    assert_eq!(Decimal::from_int(50).to_ratio_text(), "0.5");
    assert_eq!(Decimal::from_int(100).to_ratio_text(), "1");
    assert_eq!(Decimal::from_int(0).to_ratio_text(), "0");
    assert_eq!(Decimal::new(1255, 1).to_ratio_text(), "1.255");
}

#[test]
fn parse_plain_and_fractional() {
    assert_eq!(Decimal::parse("57.3"), Some(Decimal::new(573, 1)));
    assert_eq!(Decimal::parse("1500"), Some(Decimal::new(1500, 0)));
    assert_eq!(Decimal::parse("-3.25"), Some(Decimal::new(-325, 2)));
    assert_eq!(Decimal::parse("0.005"), Some(Decimal::new(5, 3)));
    assert_eq!(Decimal::parse("-0"), Some(Decimal::new(0, 0)));
}

#[test]
fn parse_rejects_other_forms() {
    assert_eq!(Decimal::parse(""), None);
    assert_eq!(Decimal::parse("-"), None);
    assert_eq!(Decimal::parse(".5"), None);
    assert_eq!(Decimal::parse("5."), None);
    assert_eq!(Decimal::parse("1.2.3"), None);
    assert_eq!(Decimal::parse("NaN"), None);
    assert_eq!(Decimal::parse("inf"), None);
    assert_eq!(Decimal::parse("1e5"), None);
    assert_eq!(Decimal::parse("+1"), None);
}

#[test]
fn parse_limits_of_the_mantissa() {
    assert_eq!(Decimal::parse("9223372036854775807"), Some(Decimal::new(i64::MAX, 0)));
    assert_eq!(Decimal::parse("-9223372036854775808"), Some(Decimal::new(i64::MIN, 0)));
    assert_eq!(Decimal::parse("9223372036854775808"), None);
    assert_eq!(Decimal::parse("-9223372036854775809"), None);
}

#[test]
fn parse_then_render_round_trip() {
    for text in ["57.3", "-4", "0.005", "1500", "0.123456789"] {
        assert_eq!(Decimal::parse(text).unwrap().to_text(), text);
    }
}
