use wecom_gpt::money::cost_of;
use wecom_gpt::{CREDIT_SCALE, PRICE_SCALE};
use wecom_gpt::numfmt::{format_credit, format_credit_3, format_u64, parse_bool, parse_credit, parse_u64};

#[test]
fn test_cost_formula() {
    // (5 * 0.06 + 7 * 0.12) / 1000 credits, in units of 10^-9.
    assert_eq!(cost_of(5, 7, 60_000, 120_000), 1_140_000);
    assert_eq!(cost_of(0, 0, 60_000, 120_000), 0);
    assert_eq!(cost_of(1000, 0, 60_000, 0), 60_000_000);
}

#[test]
fn test_scales_relate_tokens_to_credits() {
    // One token at one unit of price costs one unit of credit: the
    // price scale times 1000 (tokens) equals the credit scale.
    assert_eq!(PRICE_SCALE * 1000, CREDIT_SCALE * 1);
    assert_eq!(parse_credit("1"), Some(CREDIT_SCALE));
}

#[test]
fn test_parse_credit_whole_and_fraction() {
    assert_eq!(parse_credit("10"), Some(10_000_000_000));
    assert_eq!(parse_credit("3.5"), Some(3_500_000_000));
    assert_eq!(parse_credit("-0.5"), Some(-500_000_000));
    assert_eq!(parse_credit("0"), Some(0));
    assert_eq!(parse_credit(".5"), Some(500_000_000));
    assert_eq!(parse_credit("2."), Some(2_000_000_000));
    // Digits beyond the ninth are dropped.
    assert_eq!(parse_credit("0.0000000019"), Some(1));
}

#[test]
fn test_parse_credit_rejects_junk() {
    assert_eq!(parse_credit(""), None);
    assert_eq!(parse_credit("-"), None);
    assert_eq!(parse_credit("."), None);
    assert_eq!(parse_credit("abc"), None);
    assert_eq!(parse_credit("1.2.3"), None);
    assert_eq!(parse_credit("1e3"), None);
    assert_eq!(parse_credit("99999999999999999999"), None);
}

#[test]
fn test_format_credit() {
    assert_eq!(format_credit(10_000_000_000), "10");
    assert_eq!(format_credit(0), "0");
    assert_eq!(format_credit(-1_140_000), "-0.00114");
    assert_eq!(format_credit(3_500_000_000), "3.5");
    assert_eq!(format_credit(-500_000_000), "-0.5");
}

#[test]
fn test_format_credit_three_decimals() {
    assert_eq!(format_credit_3(-500_000_000), "-0.500");
    assert_eq!(format_credit_3(0), "0.000");
    assert_eq!(format_credit_3(1_140_000), "0.001");
    assert_eq!(format_credit_3(10_000_000_000), "10.000");
}

#[test]
fn test_format_u64() {
    assert_eq!(format_u64(0), "0");
    assert_eq!(format_u64(7), "7");
    assert_eq!(format_u64(1708218294), "1708218294");
}

#[test]
fn test_parse_u64() {
    assert_eq!(parse_u64("1708218294"), Some(1708218294));
    assert_eq!(parse_u64("0012"), Some(12));
    assert_eq!(parse_u64(""), None);
    assert_eq!(parse_u64("12a"), None);
    assert_eq!(parse_u64("18446744073709551615"), Some(u64::MAX));
    assert_eq!(parse_u64("18446744073709551616"), None);
}

#[test]
fn test_parse_bool() {
    assert_eq!(parse_bool("true"), Some(true));
    assert_eq!(parse_bool("false"), Some(false));
    assert_eq!(parse_bool("True"), None);
    assert_eq!(parse_bool(""), None);
}
