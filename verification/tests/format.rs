use discord_rpc::numfmt::{format_number, i64_dec, u64_dec};

#[test]
fn plain_decimal_small() {
    assert_eq!(u64_dec(0).as_str(), "0");
    assert_eq!(u64_dec(7).as_str(), "7");
    assert_eq!(u64_dec(42).as_str(), "42");
    assert_eq!(u64_dec(999).as_str(), "999");
    assert_eq!(u64_dec(18_446_744_073_709_551_615).as_str(), "18446744073709551615");
}

#[test]
fn signed_decimal() {
    assert_eq!(i64_dec(0).as_str(), "0");
    assert_eq!(i64_dec(-1).as_str(), "-1");
    assert_eq!(i64_dec(-987).as_str(), "-987");
    assert_eq!(i64_dec(i64::MAX).as_str(), "9223372036854775807");
    assert_eq!(i64_dec(i64::MIN).as_str(), "-9223372036854775808");
}

#[test]
fn format_below_thousand_is_plain() {
    assert_eq!(format_number(0).as_str(), "0");
    assert_eq!(format_number(999).as_str(), "999");
    assert_eq!(format_number(-12345).as_str(), "-12345");
}

#[test]
fn format_thousands_one_decimal() {
    assert_eq!(format_number(12345).as_str(), "12.3K");
    assert_eq!(format_number(654321).as_str(), "654.3K");
    assert_eq!(format_number(1000).as_str(), "1.0K");
    assert_eq!(format_number(999999).as_str(), "1000.0K");
}

#[test]
fn format_thousands_rounds_to_nearest_tenth() {
    assert_eq!(format_number(1049).as_str(), "1.0K");
    assert_eq!(format_number(1050).as_str(), "1.1K");
    assert_eq!(format_number(2949).as_str(), "2.9K");
    assert_eq!(format_number(2950).as_str(), "3.0K");
}

#[test]
fn format_millions_one_decimal() {
    assert_eq!(format_number(1_000_000).as_str(), "1.0M");
    assert_eq!(format_number(7_890_123).as_str(), "7.9M");
    assert_eq!(format_number(9_876_543).as_str(), "9.9M");
    assert_eq!(format_number(1_049_999).as_str(), "1.0M");
    assert_eq!(format_number(1_050_000).as_str(), "1.1M");
}
