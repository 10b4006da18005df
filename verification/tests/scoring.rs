use oracle_program::error::OracleError;
use oracle_program::scoring::{
    abs_diff_u128, build_flags, confidence_score, fair_price, liquidity_score, ratio_scaled_u128,
    score_set, temporal_score, ScoreSet, CONFIDENCE_WARN_SCORE, DIVERGENCE_WARN_1E6, LIQUIDITY_TARGET_USDC_1E6,
    LIQUIDITY_WARN_SCORE,
};
use oracle_program::uint256::U256;

#[test]
fn absolute_difference_in_both_directions() {
    assert_eq!(abs_diff_u128(10, 3), 7);
    assert_eq!(abs_diff_u128(3, 10), 7);
    assert_eq!(abs_diff_u128(5, 5), 0);
    assert_eq!(abs_diff_u128(0, u128::MAX), u128::MAX);
}

#[test]
fn ratio_is_scaled_and_capped() {
    assert_eq!(ratio_scaled_u128(1, 4), Ok(250_000));
    assert_eq!(ratio_scaled_u128(1, 3), Ok(333_333));
    assert_eq!(ratio_scaled_u128(5, 5), Ok(1_000_000));
    assert_eq!(ratio_scaled_u128(9, 5), Ok(1_000_000));
    assert_eq!(ratio_scaled_u128(0, 5), Ok(0));
}

#[test]
fn ratio_of_a_huge_numerator_is_capped_not_lost() {
    assert_eq!(ratio_scaled_u128(u128::MAX, 1), Ok(1_000_000));
    assert_eq!(ratio_scaled_u128(u128::MAX, u128::MAX), Ok(1_000_000));
}

#[test]
fn ratio_with_zero_denominator_fails() {
    assert_eq!(ratio_scaled_u128(1, 0), Err(OracleError::DivideByZero));
    assert_eq!(ratio_scaled_u128(0, 0), Err(OracleError::DivideByZero));
}

#[test]
fn liquidity_score_is_the_share_of_the_target() {
    assert_eq!(liquidity_score(U256::zero()), Ok(0));
    assert_eq!(liquidity_score(U256::from_u128(125_000_000_000)), Ok(250_000));
    assert_eq!(liquidity_score(U256::from_u128(499_999_999_999)), Ok(999_999));
    assert_eq!(
        liquidity_score(U256::from_u128(LIQUIDITY_TARGET_USDC_1E6)),
        Ok(1_000_000)
    );
    assert_eq!(liquidity_score(U256::max()), Ok(1_000_000));
}

#[test]
fn time_score_decays_to_zero_at_the_threshold() {
    assert_eq!(temporal_score(0), 1_000_000);
    assert_eq!(temporal_score(25_000), 500_000);
    assert_eq!(temporal_score(1), 999_980);
    assert_eq!(temporal_score(49_999), 20);
    assert_eq!(temporal_score(DIVERGENCE_WARN_1E6), 0);
    assert_eq!(temporal_score(u128::MAX), 0);
}

#[test]
fn confidence_weighs_sixty_to_forty() {
    assert_eq!(confidence_score(1_000_000, 1_000_000), 1_000_000);
    assert_eq!(confidence_score(1_000_000, 0), 600_000);
    assert_eq!(confidence_score(0, 1_000_000), 400_000);
    assert_eq!(confidence_score(1_000_000, 500_000), 800_000);
    assert_eq!(confidence_score(1, 1), 1);
    assert_eq!(confidence_score(1, 0), 0);
}

#[test]
fn confidence_of_values_beyond_the_scale_does_not_overflow() {
    assert_eq!(
        confidence_score(u128::MAX, u128::MAX),
        u128::MAX
    );
}

#[test]
fn fair_price_weighs_two_to_one_and_rounds_down() {
    assert_eq!(fair_price(100_000, 98_000), 99_333);
    assert_eq!(fair_price(10, 11), 10);
    assert_eq!(fair_price(1, 0), 0);
    assert_eq!(fair_price(0, 2), 0);
    assert_eq!(fair_price(u128::MAX, u128::MAX), u128::MAX);
}

#[test]
fn all_three_flags_together_are_seven() {
    let flags = build_flags(
        DIVERGENCE_WARN_1E6 + 1,
        LIQUIDITY_WARN_SCORE - 1,
        CONFIDENCE_WARN_SCORE - 1,
    );
    assert_eq!(flags, 1 | 2 | 4);
    assert_eq!(flags, 7);
}

#[test]
fn each_flag_has_its_own_bit() {
    assert_eq!(build_flags(0, 1_000_000, 1_000_000), 0);
    assert_eq!(build_flags(50_001, 1_000_000, 1_000_000), 1);
    assert_eq!(build_flags(0, 199_999, 1_000_000), 2);
    assert_eq!(build_flags(0, 1_000_000, 199_999), 4);
    assert_eq!(build_flags(50_001, 199_999, 1_000_000), 3);
    assert_eq!(build_flags(50_001, 1_000_000, 199_999), 5);
    assert_eq!(build_flags(0, 199_999, 199_999), 6);
}

#[test]
fn flags_at_the_thresholds_are_not_raised() {
    assert_eq!(build_flags(50_000, 200_000, 200_000), 0);
}

#[test]
fn scores_of_a_calm_and_liquid_pool() {
    assert_eq!(
        score_set(U256::from_u128(600_000_000_000), 100_000, 98_000),
        Ok(ScoreSet {
            liquidity_score: 1_000_000,
            time_score: 600_000,
            confidence_score: 840_000,
            flags: 0,
        })
    );
}

#[test]
fn scores_of_a_thin_pool_whose_price_has_moved() {
    assert_eq!(
        score_set(U256::from_u128(50_000_000_000), 100_000, 120_000),
        Ok(ScoreSet {
            liquidity_score: 100_000,
            time_score: 0,
            confidence_score: 60_000,
            flags: 7,
        })
    );
}

#[test]
fn scores_with_a_zero_price_fail() {
    assert_eq!(
        score_set(U256::from_u128(1), 0, 1),
        Err(OracleError::DivideByZero)
    );
}
