use ammalgram_assistant::decimal::{parse_amount, parse_unsigned, round_scaled, unsigned_text, Amount};

fn amount(negative: bool, mantissa: u128, shift: u16) -> Option<Amount> {
    Some(Amount { negative, mantissa, shift })
}

#[test]
fn amount_of_a_plain_fraction() {
    assert_eq!(parse_amount("0.02"), amount(false, 2, 398));
    assert_eq!(parse_amount("2.5"), amount(false, 25, 399));
    assert_eq!(parse_amount("0.05"), amount(false, 5, 398));
    assert_eq!(parse_amount("100.0"), amount(false, 1000, 399));
    assert_eq!(Amount::parse("0.05"), parse_amount("0.05"));
}

#[test]
fn amount_of_whole_numbers_and_signs() {
    assert_eq!(parse_amount("0"), amount(false, 0, 400));
    assert_eq!(parse_amount("1001"), amount(false, 1001, 400));
    assert_eq!(parse_amount("-1"), amount(true, 1, 400));
    assert_eq!(parse_amount("+0.5"), amount(false, 5, 399));
    assert_eq!(parse_amount("-0"), amount(true, 0, 400));
    assert_eq!(parse_amount("007"), amount(false, 7, 400));
    assert_eq!(parse_amount("18446744073709551615"), amount(false, u64::MAX as u128, 400));
    assert_eq!(Some(Amount::whole(1001)), parse_amount("1001"));
    assert_eq!(Amount::zero(), Amount { negative: false, mantissa: 0, shift: 0 });
}

#[test]
fn amount_of_numerals_with_a_bare_point() {
    assert_eq!(parse_amount("5."), amount(false, 5, 400));
    assert_eq!(parse_amount(".5"), amount(false, 5, 399));
    assert_eq!(parse_amount("."), None);
    assert_eq!(parse_amount("-."), None);
}

#[test]
fn amount_of_numerals_with_an_exponent() {
    assert_eq!(parse_amount("1e-7"), amount(false, 1, 393));
    assert_eq!(parse_amount("1.5e-7"), amount(false, 15, 392));
    assert_eq!(parse_amount("1.004e-7"), amount(false, 1004, 390));
    assert_eq!(parse_amount("1e-6"), amount(false, 1, 394));
    assert_eq!(parse_amount("1.5e3"), amount(false, 15, 402));
    assert_eq!(parse_amount("1E2"), amount(false, 1, 402));
    assert_eq!(parse_amount("25e+1"), amount(false, 25, 401));
    assert_eq!(parse_amount("-2e0"), amount(true, 2, 400));
    assert_eq!(parse_amount("1e30"), amount(false, 1, 430));
}

#[test]
fn amounts_are_not_rounded() {
    assert_eq!(parse_amount("0.0000000004"), amount(false, 4, 390));
    assert_eq!(parse_amount("1.0000000015"), amount(false, 10000000015, 390));
    assert_eq!(parse_amount("1000.0000000001"), amount(false, 10000000000001, 390));
    assert_eq!(parse_amount("-0.00000000000000000000000000001"), amount(true, 1, 371));
}

#[test]
fn amount_refuses_what_is_no_numeral() {
    for text in [
        "", "-", "+", "e5", "1e", "1e+", "1e-", "abc", "1.2.3", " 1", "1 ", "0x10", "inf", "NaN",
        "1,5", "1e5.0", "--1", "1_000", "１２",
    ] {
        assert_eq!(parse_amount(text), None, "{text:?}");
    }
}

#[test]
fn every_float_and_every_integer_of_64_bits_is_an_amount() {
    assert_eq!(parse_amount("5e-324"), amount(false, 5, 76));
    assert_eq!(parse_amount("2.2250738585072014e-308"), amount(false, 22250738585072014, 76));
    assert_eq!(parse_amount("1.7976931348623157e308"), amount(false, 17976931348623157, 692));
    assert_eq!(parse_amount("-1.7976931348623157e308"), amount(true, 17976931348623157, 692));
    assert_eq!(parse_amount("-9223372036854775808"), amount(true, 1 << 63, 400));
    assert_eq!(parse_amount("1e300"), amount(false, 1, 700));
}

#[test]
fn amounts_at_the_limits_of_what_is_held() {
    assert_eq!(parse_amount("1e-400"), amount(false, 1, 0));
    assert_eq!(parse_amount("1e-401"), None);
    assert_eq!(parse_amount("0.1e-400"), None);
    assert_eq!(parse_amount("0e-401"), None);
    assert_eq!(parse_amount("1e600"), amount(false, 1, 1000));
    assert_eq!(parse_amount("1e601"), None);
    assert_eq!(parse_amount("10e600"), amount(false, 10, 1000));
    assert_eq!(parse_amount("10e601"), None);
    assert_eq!(parse_amount("0.1e601"), amount(false, 1, 1000));
    assert_eq!(parse_amount("0e400"), amount(false, 0, 800));
    assert_eq!(parse_amount("1e99999999999999999999999999999999999999999999"), None);
    assert_eq!(parse_amount("-7e-99999999999999999999999999999999999999999999"), None);
    assert_eq!(parse_amount("1e18446744073709551616"), None);
    assert_eq!(
        parse_amount("340282366920938463463374607431768211455"),
        amount(false, u128::MAX, 400)
    );
    assert_eq!(parse_amount("340282366920938463463374607431768211456"), None);
    assert_eq!(
        parse_amount("340282366920938463463374607431768211455e-400"),
        amount(false, u128::MAX, 0)
    );
    assert_eq!(parse_amount("1.0000000000000000000000000000000000000000"), None);
}

#[test]
fn scaling_rounds_to_the_nearest_whole_number() {
    assert_eq!(round_scaled(0, 0), Some(0));
    assert_eq!(round_scaled(0, 1000), Some(0));
    assert_eq!(round_scaled(0, -1000), Some(0));
    assert_eq!(round_scaled(15, -1), Some(2));
    assert_eq!(round_scaled(14, -1), Some(1));
    assert_eq!(round_scaled(25, -1), Some(3));
    assert_eq!(round_scaled(149, -2), Some(1));
    assert_eq!(round_scaled(150, -2), Some(2));
    assert_eq!(round_scaled(7, 3), Some(7000));
    assert_eq!(round_scaled(7, -1), Some(1));
    assert_eq!(round_scaled(4, -1), Some(0));
    assert_eq!(round_scaled(u128::MAX, -39), Some(0));
    assert_eq!(round_scaled(u128::MAX, -38), Some(3));
    assert_eq!(round_scaled(u128::MAX, i32::MIN), Some(0));
    assert_eq!(round_scaled(1, 38), Some(100000000000000000000000000000000000000));
    assert_eq!(round_scaled(1, 39), None);
    assert_eq!(round_scaled(2, 38), None);
    assert_eq!(round_scaled(1, i32::MAX), None);
    assert_eq!(round_scaled(i128::MAX as u128, 0), Some(i128::MAX as u128));
    assert_eq!(round_scaled(i128::MAX as u128 + 1, 0), None);
}

#[test]
fn unsigned_reads_decimal_digits() {
    assert_eq!(parse_unsigned("500", u64::MAX), Some(500));
    assert_eq!(parse_unsigned("+7", u64::MAX), Some(7));
    assert_eq!(parse_unsigned("007", u64::MAX), Some(7));
    assert_eq!(parse_unsigned("0", 0), Some(0));
    assert_eq!(parse_unsigned("18446744073709551615", u64::MAX), Some(u64::MAX));
}

#[test]
fn unsigned_refuses_what_is_no_number_or_too_large() {
    for text in ["", "+", "-1", "12a", "1.0", " 5", "5 ", "++5", "１２", "1e3"] {
        assert_eq!(parse_unsigned(text, u64::MAX), None, "{text:?}");
    }
    assert_eq!(parse_unsigned("18446744073709551616", u64::MAX), None);
    assert_eq!(parse_unsigned("99999999999999999999999999999999999999999999", u64::MAX), None);
    assert_eq!(parse_unsigned("65536", 65535), None);
    assert_eq!(parse_unsigned("65535", 65535), Some(65535));
}

#[test]
fn unsigned_text_writes_decimal_digits() {
    assert_eq!(unsigned_text(0), "0");
    assert_eq!(unsigned_text(9), "9");
    assert_eq!(unsigned_text(10), "10");
    assert_eq!(unsigned_text(50_000_000), "50000000");
    assert_eq!(unsigned_text(1_000_000_007), "1000000007");
    assert_eq!(unsigned_text(u64::MAX), "18446744073709551615");
}

#[test]
fn unsigned_text_is_read_back() {
    for n in [0u64, 1, 9, 10, 99, 100, 12345, 500, u64::MAX - 1, u64::MAX] {
        assert_eq!(parse_unsigned(&unsigned_text(n), u64::MAX), Some(n));
    }
}
