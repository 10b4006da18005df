use oracle_program::median::{median, median_u128};
use oracle_program::uint256::U256;

fn wide(values: &[u128]) -> Vec<U256> {
    values.iter().map(|v| U256::from_u128(*v)).collect()
}

#[test]
fn median_of_a_single_value_is_that_value() {
    assert_eq!(median_u128(&[5]), Ok(5));
}

#[test]
fn median_of_three_values_is_the_middle_one() {
    assert_eq!(median_u128(&[1, 2, 3]), Ok(2));
}

#[test]
fn median_of_four_values_is_the_midpoint_rounded_down() {
    assert_eq!(median_u128(&[1, 2, 3, 4]), Ok(2));
}

#[test]
fn median_does_not_depend_on_the_order() {
    let a = median(&wide(&[9, 1, 7, 3, 5])).unwrap();
    let b = median(&wide(&[5, 3, 9, 7, 1])).unwrap();
    assert!(a.equals(&b));
    assert!(a.equals(&U256::from_u128(5)));
}

#[test]
fn median_of_no_value_fails() {
    assert_eq!(median_u128(&[]), Err(oracle_program::error::OracleError::NoData));
    assert_eq!(median(&[]), Err(oracle_program::error::OracleError::NoData));
}

#[test]
fn median_of_two_values_rounds_down() {
    assert_eq!(median_u128(&[1, 2]), Ok(1));
    assert_eq!(median_u128(&[2, 1]), Ok(1));
    assert_eq!(median_u128(&[0, u128::MAX]), Ok(u128::MAX / 2));
    assert_eq!(median_u128(&[u128::MAX, u128::MAX]), Ok(u128::MAX));
}

#[test]
fn median_of_values_that_repeat() {
    assert_eq!(median_u128(&[4, 4, 4, 1, 9]), Ok(4));
    assert_eq!(median_u128(&[3, 1, 3, 1]), Ok(2));
}

#[test]
fn sorted_copy_is_ascending_and_keeps_every_value() {
    let sorted = oracle_program::median::sorted_copy(&wide(&[5, 1, 4, 1, 3]));
    assert_eq!(sorted, wide(&[1, 1, 3, 4, 5]));
    assert_eq!(oracle_program::median::sorted_copy(&[]), Vec::new());
}

#[test]
fn middle_of_values_in_order() {
    let middle = oracle_program::median::median_sorted(&wide(&[1, 2, 3, 10]));
    assert_eq!(middle, U256::from_u128(2));
    let single = oracle_program::median::median_sorted(&wide(&[8]));
    assert_eq!(single, U256::from_u128(8));
}

#[test]
fn median_of_each_field() {
    let rows = vec![wide(&[1, 20]), wide(&[3, 10]), wide(&[2, 30])];
    assert_eq!(
        oracle_program::median::median_each_field(&rows),
        Ok(wide(&[2, 20]))
    );
}

#[test]
fn rows_of_different_length_are_a_mismatch() {
    let rows = vec![wide(&[1, 2]), wide(&[3])];
    assert_eq!(
        oracle_program::median::median_each_field(&rows),
        Err(oracle_program::error::OracleError::ArityMismatch)
    );
    assert_eq!(
        oracle_program::median::median_each_field(&[]),
        Err(oracle_program::error::OracleError::NoValues)
    );
}
