use oracle_program::error::OracleError;
use oracle_program::uint256::{pow10_u256, u256_from_be_slice, u256_to_u128, U256, SCALE};

const TWO_POW_128: U256 = U256 { w0: 0, w1: 0, w2: 1, w3: 0 };

#[test]
fn scale_is_one_million() {
    assert_eq!(SCALE, 1_000_000);
}

#[test]
fn widening_keeps_the_value() {
    let v = U256::from_u128(u128::MAX);
    assert_eq!(v, U256 { w0: u64::MAX, w1: u64::MAX, w2: 0, w3: 0 });
    assert_eq!(v.low_u128(), u128::MAX);
    assert!(v.fits_u128());
    assert!(!TWO_POW_128.fits_u128());
}

#[test]
fn zero_and_one() {
    assert!(U256::zero().is_zero());
    assert!(!U256::one().is_zero());
    assert_eq!(U256::one(), U256::from_u128(1));
}

#[test]
fn order_goes_by_the_most_significant_word() {
    let small = U256 { w0: u64::MAX, w1: u64::MAX, w2: u64::MAX, w3: 0 };
    let large = U256 { w0: 0, w1: 0, w2: 0, w3: 1 };
    assert!(small.lt(&large));
    assert!(!large.lt(&small));
    assert!(small.le(&small));
    assert!(!small.lt(&small));
    assert!(small.equals(&small));
    assert!(!small.equals(&large));
}

#[test]
fn saturating_multiply_is_exact_where_the_product_fits() {
    let a = U256::from_u128(u128::MAX);
    let product = a.saturating_mul(U256::from_u128(2));
    assert_eq!(product, U256 { w0: u64::MAX - 1, w1: u64::MAX, w2: 1, w3: 0 });
}

#[test]
fn saturating_multiply_stops_at_the_largest_value() {
    let product = U256::max().saturating_mul(U256::from_u128(2));
    assert_eq!(product, U256::max());
    let square = TWO_POW_128.saturating_mul(TWO_POW_128);
    assert_eq!(square, U256::max());
}

#[test]
fn saturating_add_stops_at_the_largest_value() {
    assert_eq!(U256::max().saturating_add(U256::one()), U256::max());
    assert_eq!(
        U256::from_u128(u128::MAX).saturating_add(U256::one()),
        TWO_POW_128
    );
}

#[test]
fn saturating_subtract_stops_at_zero() {
    assert_eq!(U256::one().saturating_sub(U256::from_u128(2)), U256::zero());
    assert_eq!(
        TWO_POW_128.saturating_sub(U256::one()),
        U256::from_u128(u128::MAX)
    );
}

#[test]
fn checked_multiply_reports_what_does_not_fit() {
    assert_eq!(
        U256::max().checked_mul(U256::from_u128(2)),
        Err(OracleError::RangeError)
    );
    assert_eq!(
        U256::from_u128(6).checked_mul(U256::from_u128(7)),
        Ok(U256::from_u128(42))
    );
}

#[test]
fn checked_add_reports_what_does_not_fit() {
    assert_eq!(U256::max().checked_add(U256::one()), Err(OracleError::RangeError));
    assert_eq!(
        U256::from_u128(40).checked_add(U256::from_u128(2)),
        Ok(U256::from_u128(42))
    );
}

#[test]
fn division_rounds_down_and_refuses_zero() {
    assert_eq!(
        U256::from_u128(7).checked_div(U256::from_u128(2)),
        Ok(U256::from_u128(3))
    );
    assert_eq!(
        U256::from_u128(7).checked_div(U256::zero()),
        Err(OracleError::DivideByZero)
    );
    assert_eq!(
        TWO_POW_128.checked_div(U256::from_u128(2)),
        Ok(U256::from_u128(1u128 << 127))
    );
}

#[test]
fn powers_of_ten() {
    assert_eq!(pow10_u256(0), U256::one());
    assert_eq!(pow10_u256(6), U256::from_u128(1_000_000));
    assert_eq!(pow10_u256(18), U256::from_u128(1_000_000_000_000_000_000));
    assert_eq!(pow10_u256(38), U256::from_u128(10u128.pow(38)));
    let ten_39 = U256::from_u128(10u128.pow(38)).checked_mul(U256::from_u128(10)).unwrap();
    assert_eq!(pow10_u256(39), ten_39);
}

#[test]
fn powers_of_ten_stop_at_the_largest_value() {
    assert!(pow10_u256(77).lt(&U256::max()));
    assert_eq!(pow10_u256(78), U256::max());
    assert_eq!(pow10_u256(255), U256::max());
}

#[test]
fn narrowing_fails_beyond_128_bits() {
    assert_eq!(u256_to_u128(U256::from_u128(u128::MAX)), Ok(u128::MAX));
    assert_eq!(u256_to_u128(TWO_POW_128), Err(OracleError::RangeError));
    assert_eq!(u256_to_u128(U256::zero()), Ok(0));
}

#[test]
fn big_endian_bytes_are_padded_on_the_left() {
    assert_eq!(u256_from_be_slice(&[]), U256::zero());
    assert_eq!(u256_from_be_slice(&[0x01, 0x00]), U256::from_u128(256));
    let mut word = [0u8; 32];
    word[0] = 0x80;
    word[31] = 0x07;
    assert_eq!(
        u256_from_be_slice(&word),
        U256 { w0: 7, w1: 0, w2: 0, w3: 0x8000_0000_0000_0000 }
    );
    let mut low = [0u8; 32];
    low[15] = 1;
    assert_eq!(u256_from_be_slice(&low), TWO_POW_128);
}
