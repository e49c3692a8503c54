use solcli::amount::{
    parse_display_amount, AccountBalance, AmountError, BASE_UNITS_PER_DISPLAY_UNIT,
    DISPLAY_DECIMALS,
};

#[test]
fn balance_of_two_and_a_half_units() {
    assert_eq!(AccountBalance::new(2_500_000_000).display(), "2.5");
}

#[test]
fn balance_of_zero() {
    assert_eq!(AccountBalance::new(0).display(), "0");
}

#[test]
fn balance_display_is_exact() {
    assert_eq!(AccountBalance::new(1).display(), "0.000000001");
    assert_eq!(AccountBalance::new(10).display(), "0.00000001");
    assert_eq!(AccountBalance::new(999_999_999).display(), "0.999999999");
    assert_eq!(AccountBalance::new(1_000_000_000).display(), "1");
    assert_eq!(AccountBalance::new(1_000_000_001).display(), "1.000000001");
    assert_eq!(AccountBalance::new(1_230_000_000).display(), "1.23");
    assert_eq!(AccountBalance::new(100_010_000_000).display(), "100.01");
    assert_eq!(AccountBalance::new(u64::MAX).display(), "18446744073.709551615");
}

#[test]
fn balance_parts() {
    let balance = AccountBalance::new(2_500_000_001);
    assert_eq!(balance.base_units(), 2_500_000_001);
    assert_eq!(balance.whole_units(), 2);
    assert_eq!(balance.fractional_base_units(), 500_000_001);
    assert_eq!(AccountBalance::new(u64::MAX).whole_units(), 18_446_744_073);
    assert_eq!(AccountBalance::new(u64::MAX).fractional_base_units(), 709_551_615);
}

#[test]
fn scale_constants() {
    assert_eq!(BASE_UNITS_PER_DISPLAY_UNIT, 1_000_000_000);
    assert_eq!(DISPLAY_DECIMALS, 9);
    assert_eq!(10u64.pow(DISPLAY_DECIMALS), BASE_UNITS_PER_DISPLAY_UNIT);
}

#[test]
fn airdrop_amount_is_truncated() {
    assert_eq!(parse_display_amount("1.0000000015"), Ok(1_000_000_001));
    assert_eq!(parse_display_amount("1.0000000019999"), Ok(1_000_000_001));
    assert_eq!(parse_display_amount("0.9999999999"), Ok(999_999_999));
}

#[test]
fn amounts_convert_exactly() {
    assert_eq!(parse_display_amount("1"), Ok(1_000_000_000));
    assert_eq!(parse_display_amount("2.5"), Ok(2_500_000_000));
    assert_eq!(parse_display_amount("0.000000001"), Ok(1));
    assert_eq!(parse_display_amount("0.1"), Ok(100_000_000));
    assert_eq!(parse_display_amount("12.000000034"), Ok(12_000_000_034));
    assert_eq!(parse_display_amount("0001.50"), Ok(1_500_000_000));
    assert_eq!(parse_display_amount(".5"), Ok(500_000_000));
    assert_eq!(parse_display_amount("5."), Ok(5_000_000_000));
}

#[test]
fn amount_below_one_base_unit_is_zero_base_units() {
    assert_eq!(parse_display_amount("0.0000000001"), Ok(0));
    assert_eq!(parse_display_amount("0.0000000009"), Ok(0));
}

#[test]
fn amount_at_the_upper_limit() {
    assert_eq!(parse_display_amount("18446744073.709551615"), Ok(u64::MAX));
    assert_eq!(parse_display_amount("18446744073.7095516159"), Ok(u64::MAX));
    assert_eq!(parse_display_amount("18446744073.709551616"), Err(AmountError::OutOfRange));
    assert_eq!(parse_display_amount("18446744074"), Err(AmountError::OutOfRange));
    assert_eq!(
        parse_display_amount("99999999999999999999999999"),
        Err(AmountError::OutOfRange)
    );
    assert_eq!(
        parse_display_amount("000000000000000000000000000001"),
        Ok(1_000_000_000)
    );
}

#[test]
fn zero_amounts_are_refused() {
    assert_eq!(parse_display_amount("0"), Err(AmountError::NotPositive));
    assert_eq!(parse_display_amount("0.0"), Err(AmountError::NotPositive));
    assert_eq!(parse_display_amount("000.000000000000"), Err(AmountError::NotPositive));
    assert_eq!(parse_display_amount(".0"), Err(AmountError::NotPositive));
}

#[test]
fn malformed_amounts_are_refused() {
    assert_eq!(parse_display_amount(""), Err(AmountError::Malformed));
    assert_eq!(parse_display_amount("."), Err(AmountError::Malformed));
    assert_eq!(parse_display_amount("1.2.3"), Err(AmountError::Malformed));
    assert_eq!(parse_display_amount("-1"), Err(AmountError::Malformed));
    assert_eq!(parse_display_amount("+1"), Err(AmountError::Malformed));
    assert_eq!(parse_display_amount("1e3"), Err(AmountError::Malformed));
    assert_eq!(parse_display_amount(" 1"), Err(AmountError::Malformed));
    assert_eq!(parse_display_amount("1,5"), Err(AmountError::Malformed));
    assert_eq!(parse_display_amount("abc"), Err(AmountError::Malformed));
    assert_eq!(parse_display_amount("1.5x"), Err(AmountError::Malformed));
    assert_eq!(parse_display_amount("\u{ff11}"), Err(AmountError::Malformed));
    assert_eq!(parse_display_amount("1.\u{e9}"), Err(AmountError::Malformed));
    assert_eq!(
        parse_display_amount("99999999999999999999999999x"),
        Err(AmountError::Malformed)
    );
}

#[test]
fn display_and_parse_agree() {
    for base_units in [1u64, 9, 10, 123, 999_999_999, 1_000_000_000, 2_500_000_000, u64::MAX] {
        let text = AccountBalance::new(base_units).display();
        assert_eq!(parse_display_amount(&text), Ok(base_units));
    }
}

#[test]
fn amounts_given_as_floats_convert_through_their_text() {
    assert_eq!(parse_display_amount(&1.0000000015f64.to_string()), Ok(1_000_000_001));
    assert_eq!(parse_display_amount(&2.5f64.to_string()), Ok(2_500_000_000));
    assert_eq!(parse_display_amount(&1f64.to_string()), Ok(1_000_000_000));
    assert_eq!(parse_display_amount(&1e-9f64.to_string()), Ok(1));
    assert_eq!(parse_display_amount(&4.35f64.to_string()), Ok(4_350_000_000));
    assert_eq!(parse_display_amount(&0f64.to_string()), Err(AmountError::NotPositive));
    assert_eq!(parse_display_amount(&(-1f64).to_string()), Err(AmountError::Malformed));
    assert_eq!(parse_display_amount(&f64::INFINITY.to_string()), Err(AmountError::Malformed));
    assert_eq!(parse_display_amount(&f64::NAN.to_string()), Err(AmountError::Malformed));
    assert_eq!(parse_display_amount(&1e30f64.to_string()), Err(AmountError::OutOfRange));
}
