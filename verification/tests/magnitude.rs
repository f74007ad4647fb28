use ammalgram_assistant::decimal::Amount;
use ammalgram_assistant::magnitude::{add_mag, expand, gap_sign, same_amount, Sign};

fn at(text: &str) -> Amount {
    Amount::parse(text).expect("an amount")
}

fn digits(text: &str) -> Vec<u8> {
    text.bytes().rev().map(|b| b - b'0').collect()
}

#[test]
fn sums_carry_from_place_to_place() {
    assert_eq!(add_mag(&digits("1"), &digits("2")), digits("3"));
    assert_eq!(add_mag(&digits("5"), &digits("5")), digits("10"));
    assert_eq!(add_mag(&digits("999"), &digits("1")), digits("1000"));
    assert_eq!(add_mag(&digits("1"), &digits("999")), digits("1000"));
    assert_eq!(add_mag(&digits("123456789"), &digits("987654321")), digits("1111111110"));
    assert_eq!(add_mag(&vec![], &vec![]), Vec::<u8>::new());
    assert_eq!(add_mag(&vec![], &digits("42")), digits("42"));
    assert_eq!(add_mag(&digits("0042"), &digits("8")), digits("0050"));
}

#[test]
fn sums_of_items_that_are_no_digits_are_written_in_digits() {
    // 255 + 255 * 10 = 2805, twice
    assert_eq!(add_mag(&vec![255, 255], &vec![255, 255]), digits("5610"));
    assert_eq!(add_mag(&vec![12], &vec![]), digits("12"));
    assert_eq!(add_mag(&vec![255], &vec![255]), digits("510"));
}

#[test]
fn an_amount_is_written_out_in_units() {
    assert_eq!(expand(Amount { negative: false, mantissa: 0, shift: 0 }), Vec::<u8>::new());
    assert_eq!(expand(Amount { negative: false, mantissa: 7, shift: 0 }), digits("7"));
    assert_eq!(expand(Amount { negative: true, mantissa: 120, shift: 2 }), digits("12000"));
    assert_eq!(expand(Amount { negative: false, mantissa: 0, shift: 3 }), digits("000"));
    assert_eq!(expand(at("1e-399")), digits("10"));
    assert_eq!(expand(at("2.5")).len(), 401);
    assert_eq!(
        expand(Amount { negative: false, mantissa: u128::MAX, shift: 1 }),
        digits("3402823669209384634633746074317682114550")
    );
}

#[test]
fn the_sign_of_a_gap_between_gaps() {
    let zero = Amount::zero();
    assert_eq!(gap_sign(at("1"), at("1"), zero, zero), Sign::Zero);
    assert_eq!(gap_sign(at("2"), at("1"), zero, zero), Sign::Positive);
    assert_eq!(gap_sign(at("1"), at("2"), zero, zero), Sign::Negative);
    assert_eq!(gap_sign(at("0.6"), at("0"), at("0.5"), at("0")), Sign::Positive);
    assert_eq!(gap_sign(at("0.3"), at("0.2"), at("0.1"), zero), Sign::Zero);
    assert_eq!(gap_sign(at("0.3"), at("0.2"), at("0.7"), at("0.6")), Sign::Zero);
    assert_eq!(gap_sign(at("-1"), at("-2"), at("1"), zero), Sign::Zero);
    assert_eq!(gap_sign(at("-1"), at("-2"), at("2"), at("0.5")), Sign::Negative);
    assert_eq!(gap_sign(at("-3"), at("4"), at("-8"), at("-1")), Sign::Zero);
    assert_eq!(gap_sign(zero, zero, zero, zero), Sign::Zero);
    assert_eq!(gap_sign(at("-0"), at("0.000"), at("0e5"), at("-0e-5")), Sign::Zero);
}

#[test]
fn gaps_between_amounts_far_apart_are_exact() {
    let zero = Amount::zero();
    assert_eq!(gap_sign(at("1e300"), at("1e300"), at("5e-324"), zero), Sign::Negative);
    assert_eq!(gap_sign(at("1e300"), at("1e300"), zero, at("5e-324")), Sign::Positive);
    assert_eq!(gap_sign(at("1e300"), zero, at("1e300"), at("5e-324")), Sign::Positive);
    assert_eq!(gap_sign(at("5.0"), at("1e30"), at("1e-7"), zero), Sign::Negative);
    assert_eq!(gap_sign(at("1e30"), zero, at("1e-7"), zero), Sign::Positive);
    assert_eq!(gap_sign(at("1.00001e30"), at("1e30"), at("1e25"), zero), Sign::Zero);
    assert_eq!(gap_sign(at("1.7976931348623157e308"), at("1.7976931348623157e308"), zero, zero), Sign::Zero);
    assert_eq!(
        gap_sign(
            Amount { negative: false, mantissa: u128::MAX, shift: u16::MAX },
            Amount { negative: true, mantissa: u128::MAX, shift: u16::MAX },
            Amount { negative: false, mantissa: u128::MAX, shift: u16::MAX },
            Amount { negative: true, mantissa: u128::MAX, shift: u16::MAX },
        ),
        Sign::Zero
    );
    assert_eq!(
        gap_sign(
            Amount { negative: false, mantissa: u128::MAX, shift: u16::MAX },
            Amount { negative: true, mantissa: u128::MAX, shift: u16::MAX },
            Amount { negative: false, mantissa: u128::MAX, shift: u16::MAX },
            Amount { negative: true, mantissa: u128::MAX - 1, shift: u16::MAX },
        ),
        Sign::Positive
    );
}

#[test]
fn amounts_written_differently_are_worth_the_same() {
    assert!(same_amount(at("2.5"), at("2.50")));
    assert!(same_amount(at("2.5"), at("25e-1")));
    assert!(same_amount(at("2.5"), at("0.025e2")));
    assert!(same_amount(at("0"), at("-0")));
    assert!(same_amount(at("0"), Amount::zero()));
    assert!(same_amount(at("1000"), Amount::whole(1000)));
    assert!(!same_amount(at("2.5"), at("-2.5")));
    assert!(!same_amount(at("2.5"), at("2.5000000000000000001")));
    assert_ne!(at("2.5"), at("2.50"));
}
