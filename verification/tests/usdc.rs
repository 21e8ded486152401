use dina::usdc::{checked_parse_usdc_amount, deploy_fee, format_usdc, parse_usdc_amount, UsdcError};

#[test]
fn test_format_usdc() {
    assert_eq!(format_usdc(100_500_000), "100.500000 USDC");
    assert_eq!(format_usdc(0), "0.000000 USDC");
    assert_eq!(format_usdc(1), "0.000001 USDC");
    assert_eq!(format_usdc(u64::MAX), "18446744073709.551615 USDC");
}

#[test]
fn test_plain_integers_are_micro_usdc() {
    assert_eq!(parse_usdc_amount("1500"), Ok(1500));
    assert_eq!(parse_usdc_amount("+7"), Ok(7));
    assert_eq!(parse_usdc_amount("18446744073709551615"), Ok(u64::MAX));
}

#[test]
fn test_decimal_amounts() {
    assert_eq!(parse_usdc_amount("100.50"), Ok(100_500_000));
    assert_eq!(parse_usdc_amount("0.000001"), Ok(1));
    assert_eq!(parse_usdc_amount("3."), Ok(3_000_000));
    assert_eq!(parse_usdc_amount("1.+5"), Ok(1_050_000));
}

#[test]
fn test_errors() {
    assert_eq!(parse_usdc_amount("abc"), Err(UsdcError::NotAnAmount));
    assert_eq!(parse_usdc_amount(""), Err(UsdcError::NotAnAmount));
    assert_eq!(parse_usdc_amount("x.5"), Err(UsdcError::InvalidAmount));
    assert_eq!(parse_usdc_amount(".5"), Err(UsdcError::InvalidAmount));
    assert_eq!(parse_usdc_amount("1.1234567"), Err(UsdcError::TooManyDecimals));
    assert_eq!(parse_usdc_amount("1.é"), Err(UsdcError::TooManyDecimals));
    assert_eq!(parse_usdc_amount("1.5x"), Err(UsdcError::InvalidFraction));
    assert_eq!(parse_usdc_amount("1.2.3"), Err(UsdcError::InvalidFraction));
    assert_eq!(parse_usdc_amount("-1"), Err(UsdcError::NotAnAmount));
}

#[test]
fn test_checked_parse_refuses_overflow() {
    assert_eq!(checked_parse_usdc_amount("18446744073709.551615"), Some(Ok(u64::MAX)));
    assert_eq!(checked_parse_usdc_amount("18446744073709.551616"), None);
    assert_eq!(checked_parse_usdc_amount("18446744073710.0"), None);
    assert_eq!(checked_parse_usdc_amount("2.5"), Some(Ok(2_500_000)));
    assert_eq!(checked_parse_usdc_amount("zz"), Some(Err(UsdcError::NotAnAmount)));
}

#[test]
fn test_format_then_parse_round_trip() {
    for micro in [0u64, 1, 999_999, 1_000_000, 123_456_789, u64::MAX] {
        let text = format_usdc(micro);
        let number = text.strip_suffix(" USDC").unwrap();
        assert_eq!(checked_parse_usdc_amount(number), Some(Ok(micro)));
    }
}

#[test]
fn test_deploy_fee() {
    assert_eq!(deploy_fee(0), 1000);
    assert_eq!(deploy_fee(99), 1000);
    assert_eq!(deploy_fee(12_345), 1123);
}
