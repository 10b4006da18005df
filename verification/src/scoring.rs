//! Risk and confidence scores of a price sample, all in units of one
//! millionth.

use crate::error::OracleError;
use crate::uint256::{words_add, words_div, words_mul, U256, SCALE};
use vstd::prelude::*;

verus! {

/// The quote-side reserve, in millionths of a quote unit, at which a pool
/// counts as fully liquid.
pub const LIQUIDITY_TARGET_USDC_1E6: u128 = 500_000_000_000;

/// A liquidity score below this raises the liquidity flag.
pub const LIQUIDITY_WARN_SCORE: u128 = 200_000;

/// A confidence score below this raises the confidence flag.
pub const CONFIDENCE_WARN_SCORE: u128 = 200_000;

/// A divergence from the earlier price at which the time score reaches
/// zero; one above it raises the divergence flag.
pub const DIVERGENCE_WARN_1E6: u128 = 50_000;

/// The flag bit for a divergence above its threshold.
pub const FLAG_DIVERGENCE: u128 = 1;

/// The flag bit for a liquidity score below its threshold.
pub const FLAG_LOW_LIQUIDITY: u128 = 2;

/// The flag bit for a confidence score below its threshold.
pub const FLAG_LOW_CONFIDENCE: u128 = 4;

/// The scores of a price sample. Each score lies between zero and `SCALE`;
/// the flags are a bitmask.
#[derive(Clone, Copy, Debug, PartialEq, Eq, Structural)]
pub struct ScoreSet {
    pub liquidity_score: u128,
    pub time_score: u128,
    pub confidence_score: u128,
    pub flags: u128,
}

/// `|a - b|`.
pub open spec fn abs_diff(a: nat, b: nat) -> nat {
    if a >= b {
        (a - b) as nat
    } else {
        (b - a) as nat
    }
}

/// `numerator * SCALE / denominator`, capped at `SCALE`.
pub open spec fn ratio_scaled(numerator: nat, denominator: nat) -> nat
    recommends
        denominator != 0,
{
    let ratio = numerator * (SCALE as nat) / denominator;
    if ratio <= SCALE {
        ratio
    } else {
        SCALE as nat
    }
}

/// The share of the liquidity target that a quote reserve reaches, capped
/// at `SCALE`.
pub open spec fn liquidity_score_of(quote_reserve: nat) -> nat {
    if quote_reserve >= LIQUIDITY_TARGET_USDC_1E6 {
        SCALE as nat
    } else {
        quote_reserve * (SCALE as nat) / (LIQUIDITY_TARGET_USDC_1E6 as nat)
    }
}

/// The time score of a divergence: `SCALE` at none, falling linearly to
/// zero at the divergence threshold.
pub open spec fn temporal_score_of(delta: nat) -> nat {
    if delta >= DIVERGENCE_WARN_1E6 {
        0
    } else {
        (SCALE - delta * (SCALE as nat) / (DIVERGENCE_WARN_1E6 as nat)) as nat
    }
}

/// Sixty parts liquidity score and forty parts time score.
pub open spec fn confidence_score_of(liquidity: nat, time: nat) -> nat {
    (600_000 * liquidity + 400_000 * time) / (SCALE as nat)
}

/// The diagnostic bitmask: bit 0 for a divergence above its threshold,
/// bit 1 for a liquidity score below its threshold, bit 2 for a confidence
/// score below its threshold.
pub open spec fn flags_of(delta: nat, liquidity: nat, confidence: nat) -> nat {
    let divergence: nat = if delta > DIVERGENCE_WARN_1E6 {
        1
    } else {
        0
    };
    let low_liquidity: nat = if liquidity < LIQUIDITY_WARN_SCORE {
        2
    } else {
        0
    };
    let low_confidence: nat = if confidence < CONFIDENCE_WARN_SCORE {
        4
    } else {
        0
    };
    divergence + low_liquidity + low_confidence
}

/// The divergence of the price now from the price of a day before, as a
/// share of the price now, capped at `SCALE`.
pub open spec fn divergence_of(spot_now: nat, price_24h: nat) -> nat
    recommends
        spot_now != 0,
{
    ratio_scaled(abs_diff(spot_now, price_24h), spot_now)
}

/// The scores of a pool with the given quote reserve, price now and price
/// of a day before. It is `DivideByZero` where the price now is zero.
pub open spec fn score_set_of(quote_reserve: nat, spot_now: nat, price_24h: nat) -> Result<
    ScoreSet,
    OracleError,
> {
    if spot_now == 0 {
        Err(OracleError::DivideByZero)
    } else {
        let liquidity = liquidity_score_of(quote_reserve);
        let delta = divergence_of(spot_now, price_24h);
        let time = temporal_score_of(delta);
        let confidence = confidence_score_of(liquidity, time);
        Ok(
            ScoreSet {
                liquidity_score: liquidity as u128,
                time_score: time as u128,
                confidence_score: confidence as u128,
                flags: flags_of(delta, liquidity, confidence) as u128,
            },
        )
    }
}

/// The fair price: two parts of the current price and one part of the
/// earlier one, rounded down.
pub open spec fn fair_price_of(spot_now: nat, price_24h: nat) -> nat {
    (2 * spot_now + price_24h) / 3
}

pub fn abs_diff_u128(a: u128, b: u128) -> (r: u128)
    ensures
        r == abs_diff(a as nat, b as nat),
{
    if a >= b {
        a - b
    } else {
        b - a
    }
}

/// `numerator * SCALE / denominator`, capped at `SCALE`; fails with
/// `DivideByZero` on a zero denominator and on nothing else.
pub fn ratio_scaled_u128(numerator: u128, denominator: u128) -> (r: Result<u128, OracleError>)
    ensures
        denominator == 0 ==> r == Err::<u128, OracleError>(OracleError::DivideByZero),
        denominator != 0 ==> r == Ok::<u128, OracleError>(
            ratio_scaled(numerator as nat, denominator as nat) as u128,
        ),
        r matches Ok(v) ==> v <= SCALE,
{
    if denominator == 0 {
        return Err(OracleError::DivideByZero);
    }
    let scaled = words_mul(U256::from_u128(numerator), U256::from_u128(SCALE));
    let value = words_div(scaled, U256::from_u128(denominator));
    if value.le(&U256::from_u128(SCALE)) {
        Ok(value.low_u128())
    } else {
        Ok(SCALE)
    }
}

/// The liquidity score of a quote-side reserve. It never fails.
pub fn liquidity_score(quote_reserve: U256) -> (r: Result<u128, OracleError>)
    ensures
        r == Ok::<u128, OracleError>(liquidity_score_of(quote_reserve.value()) as u128),
        liquidity_score_of(quote_reserve.value()) <= SCALE,
{
    let target = U256::from_u128(LIQUIDITY_TARGET_USDC_1E6);
    if target.le(&quote_reserve) {
        return Ok(SCALE);
    }
    let score = words_div(words_mul(quote_reserve, U256::from_u128(SCALE)), target);
    Ok(score.low_u128())
}

/// The time score of a divergence.
pub fn temporal_score(delta_1e6: u128) -> (r: u128)
    ensures
        r == temporal_score_of(delta_1e6 as nat),
        r <= SCALE,
{
    if delta_1e6 >= DIVERGENCE_WARN_1E6 {
        return 0;
    }
    let penalty = words_div(
        words_mul(U256::from_u128(delta_1e6), U256::from_u128(SCALE)),
        U256::from_u128(DIVERGENCE_WARN_1E6),
    );
    let score = U256::from_u128(SCALE).saturating_sub(penalty);
    score.low_u128()
}

/// The confidence score of a liquidity score and a time score.
pub fn confidence_score(liquidity_score: u128, time_score: u128) -> (r: u128)
    ensures
        r == confidence_score_of(liquidity_score as nat, time_score as nat),
        liquidity_score <= SCALE && time_score <= SCALE ==> r <= SCALE,
{
    let liquidity_weight = U256::from_u128(600_000);
    let time_weight = U256::from_u128(400_000);
    let liquidity = U256::from_u128(liquidity_score);
    let time = U256::from_u128(time_score);
    assert(liquidity_weight.value() * liquidity.value() == 600_000 * liquidity_score)
        by (nonlinear_arith)
        requires
            liquidity_weight.value() == 600_000,
            liquidity.value() == liquidity_score,
    ;
    assert(time_weight.value() * time.value() == 400_000 * time_score) by (nonlinear_arith)
        requires
            time_weight.value() == 400_000,
            time.value() == time_score,
    ;
    let weighted_liquidity = words_mul(liquidity_weight, liquidity);
    let weighted_time = words_mul(time_weight, time);
    let sum = words_add(weighted_liquidity, weighted_time);
    let million = U256::from_u128(SCALE);
    let score = words_div(sum, million);
    let ghost total: nat = (600_000 * liquidity_score + 400_000 * time_score) as nat;
    assert(sum.value() / million.value() == total / 1_000_000) by (nonlinear_arith)
        requires
            sum.value() == total,
            million.value() == 1_000_000,
    ;
    assert(total / 1_000_000 <= u128::MAX);
    score.low_u128()
}

/// The fair price of a current and an earlier price.
pub fn fair_price(spot_now: u128, price_24h: u128) -> (r: u128)
    ensures
        r == fair_price_of(spot_now as nat, price_24h as nat),
{
    let doubled = words_mul(U256::from_u128(spot_now), U256::from_u128(2));
    let sum = words_add(doubled, U256::from_u128(price_24h));
    let third = words_div(sum, U256::from_u128(3));
    third.low_u128()
}

/// The diagnostic bitmask of a divergence and two scores.
pub fn build_flags(delta_1e6: u128, liquidity_score: u128, confidence_score: u128) -> (flags: u128)
    ensures
        flags == flags_of(delta_1e6 as nat, liquidity_score as nat, confidence_score as nat),
        delta_1e6 > DIVERGENCE_WARN_1E6 && liquidity_score < LIQUIDITY_WARN_SCORE
            && confidence_score < CONFIDENCE_WARN_SCORE ==> flags == 7,
        flags & FLAG_DIVERGENCE != 0 <==> delta_1e6 > DIVERGENCE_WARN_1E6,
        flags & FLAG_LOW_LIQUIDITY != 0 <==> liquidity_score < LIQUIDITY_WARN_SCORE,
        flags & FLAG_LOW_CONFIDENCE != 0 <==> confidence_score < CONFIDENCE_WARN_SCORE,
{
    let mut flags: u128 = 0;
    if delta_1e6 > DIVERGENCE_WARN_1E6 {
        flags |= 1;
    }
    if liquidity_score < LIQUIDITY_WARN_SCORE {
        flags |= 2;
    }
    if confidence_score < CONFIDENCE_WARN_SCORE {
        flags |= 4;
    }
    proof {
        assert(0u128 | 1 == 1 && 0u128 | 2 == 2 && 1u128 | 2 == 3 && 0u128 | 4 == 4 && 1u128 | 4
            == 5 && 2u128 | 4 == 6 && 3u128 | 4 == 7) by (bit_vector);
        assert(0u128 & 1 == 0 && 1u128 & 1 == 1 && 2u128 & 1 == 0 && 3u128 & 1 == 1 && 4u128 & 1
            == 0 && 5u128 & 1 == 1 && 6u128 & 1 == 0 && 7u128 & 1 == 1) by (bit_vector);
        assert(0u128 & 2 == 0 && 1u128 & 2 == 0 && 2u128 & 2 == 2 && 3u128 & 2 == 2 && 4u128 & 2
            == 0 && 5u128 & 2 == 0 && 6u128 & 2 == 2 && 7u128 & 2 == 2) by (bit_vector);
        assert(0u128 & 4 == 0 && 1u128 & 4 == 0 && 2u128 & 4 == 0 && 3u128 & 4 == 0 && 4u128 & 4
            == 4 && 5u128 & 4 == 4 && 6u128 & 4 == 4 && 7u128 & 4 == 4) by (bit_vector);
    }
    flags
}

/// The scores of a pool with the given quote reserve, price now and price
/// of a day before.
pub fn score_set(quote_reserve: U256, spot_now: u128, price_24h: u128) -> (r: Result<
    ScoreSet,
    OracleError,
>)
    ensures
        r == score_set_of(quote_reserve.value(), spot_now as nat, price_24h as nat),
        r matches Ok(scores) ==> scores.liquidity_score <= SCALE && scores.time_score <= SCALE
            && scores.confidence_score <= SCALE && scores.flags <= 7,
{
    let liquidity = match liquidity_score(quote_reserve) {
        Ok(v) => v,
        Err(e) => {
            return Err(e);
        },
    };
    let delta = match ratio_scaled_u128(abs_diff_u128(spot_now, price_24h), spot_now) {
        Ok(v) => v,
        Err(e) => {
            return Err(e);
        },
    };
    let time = temporal_score(delta);
    let confidence = confidence_score(liquidity, time);
    let flags = build_flags(delta, liquidity, confidence);
    Ok(ScoreSet { liquidity_score: liquidity, time_score: time, confidence_score: confidence, flags })
}

} // verus!

