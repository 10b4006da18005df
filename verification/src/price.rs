//! The price of a base token in a quote token, in millionths, derived
//! from the state of a liquidity pool.
//!
//! A constant-product pool is read by its two reserves, a concentrated-
//! liquidity pool by the square root of its price over `2^96`. Which side
//! of the pool is the base token is settled by the pool's first token.

use crate::codec::{eq_ignore_ascii_case, hex_bytes_of, hex_to_bytes, same_ignoring_ascii_case};
use crate::error::OracleError;
use crate::uint256::{
    be_value, max_value, pow10_u256, saturated, u256_from_be_slice, u256_to_u128, words_div,
    words_saturating_mul, words_value, U256, SCALE,
};
use vstd::arithmetic::power::pow;
use vstd::prelude::*;
use vstd::slice::slice_subrange;

verus! {

/// A pair of tokens and the pool that trades them.
#[derive(Clone, Copy, Debug)]
pub struct PairConfig {
    /// The address of the pool.
    pub pair: &'static str,
    /// The address of the base token.
    pub base: &'static str,
    /// The address of the quote token.
    pub quote: &'static str,
    /// The decimals of the base token.
    pub base_decimals: u8,
    /// The decimals of the quote token.
    pub quote_decimals: u8,
}

/// Which of the pair's tokens is the pool's first.
#[derive(Clone, Copy, Debug, PartialEq, Eq, Structural)]
pub enum TokenOrder {
    BaseFirst,
    QuoteFirst,
}

/// The reserves of a constant-product pool, in the pool's own order.
#[derive(Clone, Copy, Debug, PartialEq, Eq, Structural)]
pub struct Reserves {
    pub reserve0: U256,
    pub reserve1: U256,
}

/// A price of the base token in the quote token, in millionths, and the
/// height of the block that it was observed at.
#[derive(Clone, Copy, Debug, PartialEq, Eq, Structural)]
pub struct PriceSample {
    pub price: u128,
    pub block: u64,
}

/// What a pool was read as.
#[derive(Clone, Copy, Debug)]
pub enum PoolState {
    /// The reserves of a constant-product pool.
    ConstantProduct(Reserves),
    /// The square root of the price of a concentrated-liquidity pool, over
    /// `2^96`.
    ConcentratedLiquidity(U256),
}

/// `2^192`.
pub open spec fn q192() -> nat {
    0x1_0000_0000_0000_0000_0000_0000_0000_0000_0000_0000_0000_0000nat
}

/// Ten to the power `exp`, capped at `2^256 - 1`.
pub open spec fn pow10_of(exp: nat) -> nat {
    saturated(pow(10, exp) as nat)
}

/// The order that the pool's first token settles, compared with the
/// pair's addresses without regard to the case of letters; `None` where
/// it is neither token of the pair.
pub open spec fn token_order_of(config: PairConfig, token0: Seq<char>) -> Option<TokenOrder> {
    if same_ignoring_ascii_case(token0, config.base@) {
        Some(TokenOrder::BaseFirst)
    } else if same_ignoring_ascii_case(token0, config.quote@) {
        Some(TokenOrder::QuoteFirst)
    } else {
        None
    }
}

/// A quotient narrowed to 128 bits.
pub open spec fn narrowed(value: nat) -> Result<nat, OracleError> {
    if value > u128::MAX {
        Err(OracleError::RangeError)
    } else {
        Ok(value)
    }
}

/// The price of a constant-product pool,
/// `quote_reserve * 10^base_decimals * SCALE / (base_reserve * 10^quote_decimals)`,
/// each product capped at `2^256 - 1`.
///
/// It is `ZeroReserve` where the base reserve is zero and `RangeError`
/// where the price does not fit in 128 bits.
pub open spec fn reserve_price(
    base_reserve: nat,
    quote_reserve: nat,
    base_decimals: nat,
    quote_decimals: nat,
) -> Result<nat, OracleError> {
    if base_reserve == 0 {
        Err(OracleError::ZeroReserve)
    } else {
        let numerator = saturated(
            saturated(quote_reserve * pow10_of(base_decimals)) * (SCALE as nat),
        );
        let denominator = saturated(base_reserve * pow10_of(quote_decimals));
        narrowed(numerator / denominator)
    }
}

/// The reserve of the base token of reserves in the pool's own order.
pub open spec fn base_side_of(order: TokenOrder, reserve0: nat, reserve1: nat) -> nat {
    match order {
        TokenOrder::BaseFirst => reserve0,
        TokenOrder::QuoteFirst => reserve1,
    }
}

/// The reserve of the quote token of reserves in the pool's own order.
pub open spec fn quote_side_of(order: TokenOrder, reserve0: nat, reserve1: nat) -> nat {
    match order {
        TokenOrder::BaseFirst => reserve1,
        TokenOrder::QuoteFirst => reserve0,
    }
}

/// The price of a constant-product pool whose reserves are given in the
/// pool's own order.
pub open spec fn price_from_reserves_of(
    order: TokenOrder,
    reserve0: nat,
    reserve1: nat,
    base_decimals: nat,
    quote_decimals: nat,
) -> Result<nat, OracleError> {
    reserve_price(
        base_side_of(order, reserve0, reserve1),
        quote_side_of(order, reserve0, reserve1),
        base_decimals,
        quote_decimals,
    )
}

/// The price of a concentrated-liquidity pool. The square of the root is
/// the price of the first token in the second, over `2^192`.
///
/// With the base token first the price is
/// `ratio * 10^6 * 10^base_decimals / (2^192 * 10^quote_decimals)`. With
/// the quote token first it is the inverse,
/// `10^6 * 10^quote_decimals * 2^192 / (10^base_decimals * ratio)`, and
/// `ZeroPrice` where the ratio is zero. Each product is capped at
/// `2^256 - 1`; it is `RangeError` where the price does not fit in 128 bits.
pub open spec fn sqrt_price_of(
    order: TokenOrder,
    sqrt_price_x96: nat,
    base_decimals: nat,
    quote_decimals: nat,
) -> Result<nat, OracleError> {
    let ratio = saturated(sqrt_price_x96 * sqrt_price_x96);
    match order {
        TokenOrder::BaseFirst => {
            let numerator = saturated(
                saturated(ratio * pow10_of(6)) * pow10_of(base_decimals),
            );
            let denominator = saturated(q192() * pow10_of(quote_decimals));
            narrowed(numerator / denominator)
        },
        TokenOrder::QuoteFirst => {
            if ratio == 0 {
                Err(OracleError::ZeroPrice)
            } else {
                let numerator = saturated(
                    saturated(pow10_of(6) * pow10_of(quote_decimals)) * q192(),
                );
                let denominator = saturated(pow10_of(base_decimals) * ratio);
                narrowed(numerator / denominator)
            }
        },
    }
}

/// A power of ten is at least one.
pub proof fn lemma_pow10_positive(exp: nat)
    ensures
        pow10_of(exp) >= 1,
{
    vstd::arithmetic::power::lemma_pow_positive(10, exp);
}

/// The order of the reserves follows the pool's first token: a pool that
/// holds the quote token first has the price of the pool that holds the
/// same reserves the other way round, base token first.
pub proof fn lemma_price_order_symmetric(
    reserve0: nat,
    reserve1: nat,
    base_decimals: nat,
    quote_decimals: nat,
)
    ensures
        price_from_reserves_of(
            TokenOrder::QuoteFirst,
            reserve0,
            reserve1,
            base_decimals,
            quote_decimals,
        ) == price_from_reserves_of(
            TokenOrder::BaseFirst,
            reserve1,
            reserve0,
            base_decimals,
            quote_decimals,
        ),
{
}

/// Where no product exceeds `2^256 - 1`, the price of a constant-product
/// pool is the plain quotient.
pub proof fn lemma_reserve_price_exact(
    base_reserve: nat,
    quote_reserve: nat,
    base_decimals: nat,
    quote_decimals: nat,
)
    requires
        base_reserve != 0,
        quote_reserve * pow(10, base_decimals) * SCALE <= max_value(),
        base_reserve * pow(10, quote_decimals) <= max_value(),
    ensures
        reserve_price(base_reserve, quote_reserve, base_decimals, quote_decimals) == narrowed(
            ((quote_reserve * pow(10, base_decimals) * SCALE) / (base_reserve * pow(
                10,
                quote_decimals,
            ))) as nat,
        ),
{
    vstd::arithmetic::power::lemma_pow_positive(10, base_decimals);
    vstd::arithmetic::power::lemma_pow_positive(10, quote_decimals);
    let pb = pow(10, base_decimals);
    let pq = pow(10, quote_decimals);
    assert(pq <= base_reserve * pq) by (nonlinear_arith)
        requires
            base_reserve >= 1,
            pq >= 1,
    ;
    assert(quote_reserve * pb <= quote_reserve * pb * SCALE) by (nonlinear_arith)
        requires
            quote_reserve * pb >= 0,
    ;
    if quote_reserve == 0 {
        assert(quote_reserve * pow10_of(base_decimals) == 0) by (nonlinear_arith)
            requires
                quote_reserve == 0,
        ;
        assert(quote_reserve * pb == 0) by (nonlinear_arith)
            requires
                quote_reserve == 0,
        ;
    } else {
        assert(pb <= quote_reserve * pb) by (nonlinear_arith)
            requires
                quote_reserve >= 1,
                pb >= 1,
        ;
    }
}

/// The order that the pool's first token settles, or `TokenMismatch`
/// where it is neither token of the pair.
pub fn token_order(config: &PairConfig, token0: &str) -> (r: Result<TokenOrder, OracleError>)
    ensures
        match token_order_of(*config, token0@) {
            Some(order) => r == Ok::<TokenOrder, OracleError>(order),
            None => r == Err::<TokenOrder, OracleError>(OracleError::TokenMismatch),
        },
{
    if eq_ignore_ascii_case(token0, config.base) {
        Ok(TokenOrder::BaseFirst)
    } else if eq_ignore_ascii_case(token0, config.quote) {
        Ok(TokenOrder::QuoteFirst)
    } else {
        Err(OracleError::TokenMismatch)
    }
}

impl Reserves {
    /// The reserve of the quote token, or `TokenMismatch`.
    pub fn quote_reserve(&self, token0: &str, config: &PairConfig) -> (r: Result<
        U256,
        OracleError,
    >)
        ensures
            match token_order_of(*config, token0@) {
                Some(TokenOrder::BaseFirst) => r == Ok::<U256, OracleError>(self.reserve1),
                Some(TokenOrder::QuoteFirst) => r == Ok::<U256, OracleError>(self.reserve0),
                None => r == Err::<U256, OracleError>(OracleError::TokenMismatch),
            },
    {
        match token_order(config, token0) {
            Ok(TokenOrder::BaseFirst) => Ok(self.reserve1),
            Ok(TokenOrder::QuoteFirst) => Ok(self.reserve0),
            Err(e) => Err(e),
        }
    }

    /// The reserve of the base token, or `TokenMismatch`.
    pub fn base_reserve(&self, token0: &str, config: &PairConfig) -> (r: Result<
        U256,
        OracleError,
    >)
        ensures
            match token_order_of(*config, token0@) {
                Some(TokenOrder::BaseFirst) => r == Ok::<U256, OracleError>(self.reserve0),
                Some(TokenOrder::QuoteFirst) => r == Ok::<U256, OracleError>(self.reserve1),
                None => r == Err::<U256, OracleError>(OracleError::TokenMismatch),
            },
    {
        match token_order(config, token0) {
            Ok(TokenOrder::BaseFirst) => Ok(self.reserve0),
            Ok(TokenOrder::QuoteFirst) => Ok(self.reserve1),
            Err(e) => Err(e),
        }
    }
}

/// The price of a constant-product pool whose first token is known.
///
/// It fails with `ZeroReserve` where the base reserve is zero and with
/// `RangeError` where the price does not fit in 128 bits.
pub fn price_of_reserves(
    order: TokenOrder,
    reserves: &Reserves,
    base_decimals: u8,
    quote_decimals: u8,
) -> (r: Result<u128, OracleError>)
    ensures
        match price_from_reserves_of(
            order,
            reserves.reserve0.value(),
            reserves.reserve1.value(),
            base_decimals as nat,
            quote_decimals as nat,
        ) {
            Ok(price) => r == Ok::<u128, OracleError>(price as u128) && price <= u128::MAX,
            Err(e) => r == Err::<u128, OracleError>(e),
        },
        base_side_of(order, reserves.reserve0.value(), reserves.reserve1.value()) == 0 ==> r
            == Err::<u128, OracleError>(OracleError::ZeroReserve),
{
    let (base_reserve, quote_reserve) = match order {
        TokenOrder::BaseFirst => (reserves.reserve0, reserves.reserve1),
        TokenOrder::QuoteFirst => (reserves.reserve1, reserves.reserve0),
    };
    if base_reserve.is_zero() {
        return Err(OracleError::ZeroReserve);
    }
    let scale = pow10_u256(base_decimals as u32);
    let quote_scale = pow10_u256(quote_decimals as u32);
    let numerator = words_saturating_mul(
        words_saturating_mul(quote_reserve, scale),
        U256::from_u128(SCALE),
    );
    let denominator = words_saturating_mul(base_reserve, quote_scale);
    proof {
        lemma_pow10_positive(quote_decimals as nat);
        assert(base_reserve.value() * quote_scale.value() >= 1) by (nonlinear_arith)
            requires
                base_reserve.value() >= 1,
                quote_scale.value() >= 1,
        ;
    }
    let price_scaled = words_div(numerator, denominator);
    u256_to_u128(price_scaled)
}

/// The price of a constant-product pool.
///
/// It fails with `TokenMismatch` where the pool's first token is neither
/// token of the pair, with `ZeroReserve` where the base reserve is zero,
/// and with `RangeError` where the price does not fit in 128 bits.
pub fn price_from_reserves(config: &PairConfig, token0: &str, reserves: &Reserves) -> (r: Result<
    u128,
    OracleError,
>)
    ensures
        match token_order_of(*config, token0@) {
            None => r == Err::<u128, OracleError>(OracleError::TokenMismatch),
            Some(order) => match price_from_reserves_of(
                order,
                reserves.reserve0.value(),
                reserves.reserve1.value(),
                config.base_decimals as nat,
                config.quote_decimals as nat,
            ) {
                Ok(price) => r == Ok::<u128, OracleError>(price as u128),
                Err(e) => r == Err::<u128, OracleError>(e),
            },
        },
        token_order_of(*config, token0@) matches Some(order) && base_side_of(
            order,
            reserves.reserve0.value(),
            reserves.reserve1.value(),
        ) == 0 ==> r == Err::<u128, OracleError>(OracleError::ZeroReserve),
{
    match token_order(config, token0) {
        Ok(order) => price_of_reserves(
            order,
            reserves,
            config.base_decimals,
            config.quote_decimals,
        ),
        Err(e) => Err(e),
    }
}

/// The price of a concentrated-liquidity pool, from the square root of
/// its price over `2^96`.
///
/// It fails with `PoolTokenMismatch` where the pool's first token is neither
/// token of the pair, with `ZeroPrice` where the quote token is first and
/// the price ratio is zero, and with `RangeError` where the price does
/// not fit in 128 bits.
pub fn price_from_sqrt_price(config: &PairConfig, token0: &str, sqrt_price_x96: U256) -> (r:
    Result<u128, OracleError>)
    ensures
        match token_order_of(*config, token0@) {
            None => r == Err::<u128, OracleError>(OracleError::PoolTokenMismatch),
            Some(order) => match sqrt_price_of(
                order,
                sqrt_price_x96.value(),
                config.base_decimals as nat,
                config.quote_decimals as nat,
            ) {
                Ok(price) => r == Ok::<u128, OracleError>(price as u128),
                Err(e) => r == Err::<u128, OracleError>(e),
            },
        },
{
    let order = match token_order(config, token0) {
        Ok(order) => order,
        Err(_) => {
            return Err(OracleError::PoolTokenMismatch);
        },
    };
    let ratio = words_saturating_mul(sqrt_price_x96, sqrt_price_x96);
    let fixed_point_one = U256 { w0: 0, w1: 0, w2: 0, w3: 1 };
    proof {
        reveal(words_value);
    }
    assert(fixed_point_one.value() == q192());
    let million = pow10_u256(6);
    let base_scale = pow10_u256(config.base_decimals as u32);
    let quote_scale = pow10_u256(config.quote_decimals as u32);
    proof {
        lemma_pow10_positive(config.base_decimals as nat);
        lemma_pow10_positive(config.quote_decimals as nat);
    }
    let price_scaled = match order {
        TokenOrder::BaseFirst => {
            let numerator = words_saturating_mul(
                words_saturating_mul(ratio, million),
                base_scale,
            );
            let denominator = words_saturating_mul(fixed_point_one, quote_scale);
            proof {
                assert(fixed_point_one.value() * quote_scale.value() >= 1) by (nonlinear_arith)
                    requires
                        fixed_point_one.value() >= 1,
                        quote_scale.value() >= 1,
                ;
            }
            words_div(numerator, denominator)
        },
        TokenOrder::QuoteFirst => {
            if ratio.is_zero() {
                return Err(OracleError::ZeroPrice);
            }
            let numerator = words_saturating_mul(
                words_saturating_mul(million, quote_scale),
                fixed_point_one,
            );
            let denominator = words_saturating_mul(base_scale, ratio);
            proof {
                assert(base_scale.value() * ratio.value() >= 1) by (nonlinear_arith)
                    requires
                        base_scale.value() >= 1,
                        ratio.value() >= 1,
                ;
            }
            words_div(numerator, denominator)
        },
    };
    u256_to_u128(price_scaled)
}

/// The price of a pool, by its kind.
pub fn pool_price(config: &PairConfig, token0: &str, state: &PoolState) -> (r: Result<
    u128,
    OracleError,
>)
    ensures
        match token_order_of(*config, token0@) {
            None => r == Err::<u128, OracleError>(
                match *state {
                    PoolState::ConstantProduct(_) => OracleError::TokenMismatch,
                    PoolState::ConcentratedLiquidity(_) => OracleError::PoolTokenMismatch,
                },
            ),
            Some(order) => match (match *state {
                PoolState::ConstantProduct(reserves) => price_from_reserves_of(
                    order,
                    reserves.reserve0.value(),
                    reserves.reserve1.value(),
                    config.base_decimals as nat,
                    config.quote_decimals as nat,
                ),
                PoolState::ConcentratedLiquidity(sqrt_price_x96) => sqrt_price_of(
                    order,
                    sqrt_price_x96.value(),
                    config.base_decimals as nat,
                    config.quote_decimals as nat,
                ),
            }) {
                Ok(price) => r == Ok::<u128, OracleError>(price as u128),
                Err(e) => r == Err::<u128, OracleError>(e),
            },
        },
{
    match state {
        PoolState::ConstantProduct(reserves) => price_from_reserves(config, token0, reserves),
        PoolState::ConcentratedLiquidity(sqrt_price_x96) => price_from_sqrt_price(
            config,
            token0,
            *sqrt_price_x96,
        ),
    }
}

/// The reserves in the answer to a call of `getReserves`: the first two
/// words of at least three.
pub open spec fn reserves_of_hex(s: Seq<char>) -> Result<(nat, nat), OracleError> {
    match hex_bytes_of(s) {
        None => Err(OracleError::ReservesHex),
        Some(bytes) => if bytes.len() < 96 {
            Err(OracleError::ReservesTooShort)
        } else {
            Ok((be_value(bytes.subrange(0, 32)), be_value(bytes.subrange(32, 64))))
        },
    }
}

/// The square root of the price in the answer to a call of `slot0`: the
/// first word.
pub open spec fn sqrt_price_of_hex(s: Seq<char>) -> Result<nat, OracleError> {
    match hex_bytes_of(s) {
        None => Err(OracleError::Slot0Hex),
        Some(bytes) => if bytes.len() < 32 {
            Err(OracleError::Slot0TooShort)
        } else {
            Ok(be_value(bytes.subrange(0, 32)))
        },
    }
}

/// The reserves in the answer to a call of `getReserves`.
///
/// It fails with `ReservesHex` where the answer is no hexadecimal text
/// and with `ReservesTooShort` where it holds fewer than 96 bytes.
pub fn reserves_from_hex(result: &str) -> (r: Result<Reserves, OracleError>)
    ensures
        match reserves_of_hex(result@) {
            Ok((reserve0, reserve1)) => r matches Ok(reserves) && reserves.reserve0.value()
                == reserve0 && reserves.reserve1.value() == reserve1,
            Err(e) => r matches Err(f) && f == e,
        },
{
    let bytes = match hex_to_bytes(result) {
        Some(bytes) => bytes,
        None => {
            return Err(OracleError::ReservesHex);
        },
    };
    if bytes.len() < 96 {
        return Err(OracleError::ReservesTooShort);
    }
    let reserve0 = u256_from_be_slice(slice_subrange(bytes.as_slice(), 0, 32));
    let reserve1 = u256_from_be_slice(slice_subrange(bytes.as_slice(), 32, 64));
    Ok(Reserves { reserve0, reserve1 })
}

/// The square root of the price in the answer to a call of `slot0`.
///
/// It fails with `Slot0Hex` where the answer is no hexadecimal text and
/// with `Slot0TooShort` where it holds fewer than 32 bytes.
pub fn sqrt_price_from_hex(result: &str) -> (r: Result<U256, OracleError>)
    ensures
        match sqrt_price_of_hex(result@) {
            Ok(value) => r matches Ok(v) && v.value() == value,
            Err(e) => r matches Err(f) && f == e,
        },
{
    let bytes = match hex_to_bytes(result) {
        Some(bytes) => bytes,
        None => {
            return Err(OracleError::Slot0Hex);
        },
    };
    if bytes.len() < 32 {
        return Err(OracleError::Slot0TooShort);
    }
    Ok(u256_from_be_slice(slice_subrange(bytes.as_slice(), 0, 32)))
}

} // verus!
