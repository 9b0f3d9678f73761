use radix_engine::decimal::Decimal;
use radix_engine::wide::{add_carry, div_step, mul_wide, wide_ge, wide_sub};

const ONE: i128 = 1_000_000_000_000_000_000;

fn units(n: i128) -> Decimal {
    Decimal::from_attos(n * ONE)
}

/// The smallest amount, -2^255 attos.
fn min_value() -> Decimal {
    Decimal { hi: i128::MIN, lo: 0 }
}

#[test]
fn from_attos_layout() {
    assert_eq!(Decimal::from_attos(5), Decimal { hi: 0, lo: 5 });
    assert_eq!(Decimal::from_attos(-1), Decimal { hi: -1, lo: u128::MAX });
    assert_eq!(Decimal::from_attos(i128::MIN), Decimal { hi: -1, lo: 1u128 << 127 });
    assert_eq!(Decimal::from_attos(i128::MAX), Decimal { hi: 0, lo: (1u128 << 127) - 1 });
}

#[test]
fn checked_mul_of_whole_units() {
    assert_eq!(units(3).checked_mul(units(4)), Some(units(12)));
}

#[test]
fn checked_mul_rounds_toward_zero() {
    // 0.000000000000000003 * 0.5 = 0.0000000000000000015, rounded to 1 atto
    assert_eq!(Decimal::from_attos(3).checked_mul(Decimal::from_attos(ONE / 2)), Some(Decimal::from_attos(1)));
    assert_eq!(Decimal::from_attos(-3).checked_mul(Decimal::from_attos(ONE / 2)), Some(Decimal::from_attos(-1)));
}

#[test]
fn checked_mul_signs() {
    assert_eq!(units(-2).checked_mul(units(5)), Some(units(-10)));
    assert_eq!(units(-2).checked_mul(units(-5)), Some(units(10)));
    assert_eq!(units(0).checked_mul(units(-5)), Some(units(0)));
}

#[test]
fn checked_mul_beyond_128_bits() {
    // 10^20 units squared is 10^40 units = 10^58 attos
    let big = units(100_000_000_000_000_000_000);
    let square = big.checked_mul(big).unwrap();
    let expected = units(10_000_000_000_000_000_000).checked_mul(units(10_000_000_000_000_000_000)).unwrap();
    assert_eq!(square.checked_div(units(100)), Some(expected));
    assert_eq!(square.checked_div(big), Some(big));
}

#[test]
fn checked_mul_overflow_is_none() {
    assert_eq!(Decimal::max_value().checked_mul(units(2)), None);
    assert_eq!(min_value().checked_mul(units(-1)), None);
    assert_eq!(min_value().checked_mul(units(1)), Some(min_value()));
    assert_eq!(Decimal::max_value().checked_mul(units(1)), Some(Decimal::max_value()));
    assert_eq!(Decimal::max_value().checked_mul(units(-1)), Some(Decimal { hi: i128::MIN, lo: 1 }));
}

#[test]
fn checked_div_values() {
    assert_eq!(units(12).checked_div(units(4)), Some(units(3)));
    assert_eq!(units(1).checked_div(units(3)), Some(Decimal::from_attos(333_333_333_333_333_333)));
    assert_eq!(units(-1).checked_div(units(3)), Some(Decimal::from_attos(-333_333_333_333_333_333)));
    assert_eq!(Decimal::from_attos(-7).checked_div(units(2)), Some(Decimal::from_attos(-3)));
    assert_eq!(Decimal::max_value().checked_div(Decimal::max_value()), Some(Decimal::one()));
}

#[test]
fn checked_div_by_zero_is_none() {
    assert_eq!(units(1).checked_div(units(0)), None);
}

#[test]
fn checked_div_overflow_is_none() {
    assert_eq!(Decimal::max_value().checked_div(Decimal::from_attos(1)), None);
    assert_eq!(min_value().checked_div(units(-1)), None);
    assert_eq!(min_value().checked_div(units(1)), Some(min_value()));
}

#[test]
fn checked_add_and_sub() {
    assert_eq!(units(1).checked_add(units(2)), Some(units(3)));
    assert_eq!(Decimal::max_value().checked_add(Decimal::from_attos(1)), None);
    assert_eq!(units(1).checked_sub(units(2)), Some(units(-1)));
    assert_eq!(min_value().checked_sub(Decimal::from_attos(1)), None);
    assert_eq!(min_value().checked_add(Decimal::from_attos(-1)), None);
    assert_eq!(Decimal::max_value().checked_sub(Decimal::from_attos(-1)), None);
    assert_eq!(Decimal::max_value().checked_add(min_value()), Some(Decimal::from_attos(-1)));
    assert_eq!(
        Decimal::from_attos(i128::MAX).checked_add(Decimal::from_attos(1)),
        Some(Decimal { hi: 0, lo: 1u128 << 127 })
    );
    assert_eq!(
        Decimal { hi: 0, lo: u128::MAX }.checked_add(Decimal::from_attos(1)),
        Some(Decimal { hi: 1, lo: 0 })
    );
    assert_eq!(
        Decimal { hi: 1, lo: 0 }.checked_sub(Decimal::from_attos(1)),
        Some(Decimal { hi: 0, lo: u128::MAX })
    );
}

#[test]
fn predicates_and_constants() {
    assert!(Decimal::zero().is_zero());
    assert!(Decimal::one().is_positive());
    assert_eq!(Decimal::one(), units(1));
    assert!(units(-1).is_negative());
    assert!(!units(-1).is_positive());
    assert!(Decimal { hi: 0, lo: 1 }.is_positive());
    assert!(!Decimal { hi: 1, lo: 0 }.is_zero());
    assert_eq!(Decimal::max_value(), Decimal { hi: i128::MAX, lo: u128::MAX });
}

#[test]
fn to_be_bytes_values() {
    let mut expected = vec![0u8; 32];
    expected[31] = 1;
    assert_eq!(Decimal::from_attos(1).to_be_bytes(), expected);
    assert_eq!(Decimal::from_attos(-1).to_be_bytes(), vec![255u8; 32]);
    let mut max = vec![255u8; 32];
    max[0] = 0x7f;
    assert_eq!(Decimal::max_value().to_be_bytes(), max);
    assert_eq!(Decimal::from_attos(0x0102).to_be_bytes()[30..], [1u8, 2u8]);
    let mut high = vec![0u8; 32];
    high[15] = 1;
    assert_eq!(Decimal { hi: 1, lo: 0 }.to_be_bytes(), high);
}

#[test]
fn mul_wide_values() {
    assert_eq!(mul_wide(u128::MAX, u128::MAX), (u128::MAX - 1, 1));
    assert_eq!(mul_wide(1u128 << 64, 1u128 << 64), (1, 0));
    assert_eq!(mul_wide(7, 6), (0, 42));
}

#[test]
fn word_arithmetic_values() {
    assert_eq!(add_carry(u128::MAX, 2), (1, 1));
    assert_eq!(add_carry(3, 4), (0, 7));
    assert!(wide_ge(1, 0, 0, u128::MAX));
    assert!(!wide_ge(0, 5, 0, 6));
    assert_eq!(wide_sub(1, 0, 0, 1), (0, u128::MAX));
}

#[test]
fn div_step_values() {
    assert_eq!(div_step(0, 0, 42, 0, 5), (8, 0, 2));
    // (1 * 2^128 + 0) / 2 = 2^127
    assert_eq!(div_step(0, 1, 0, 0, 2), (1u128 << 127, 0, 0));
    let d = 1_000_000_000_000_000_000u128;
    let (hi, lo) = mul_wide(123_456_789, d);
    assert_eq!(div_step(0, hi, lo, 0, d), (123_456_789, 0, 0));
    // a divisor above 2^128: (2^128 + 5) * 2^128 + 7 divided by 2^128 + 6
    // is 2^128 - 1, leaving 13
    assert_eq!(div_step(1, 5, 7, 1, 6), (u128::MAX, 0, 13));
}
