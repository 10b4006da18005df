//! The execution of one node: from the answers of the chain to the signal
//! that the node reveals.
//!
//! The node asks the chain four things in turn: the pool's first token,
//! the height of the chain, the reserves at that height and the reserves
//! of about a day before. What to ask next, and what to make of an answer,
//! is decided here; asking is left to the caller.

use crate::abi::{
    abi_encode, int_array_encoding, int_shapes, lemma_array_encoding_head, AbiValue,
};
use crate::aggregator::{all_ints, decoded_reveal, int_values};
use crate::median::values_of;
use crate::codec::{
    address_of_word, block_number_of, parse_address_from_32byte, parse_block_number,
};
use crate::error::OracleError;
use crate::input::{is_request_failure, names_served_pair, parse_input_pair};
use crate::price::{
    base_side_of, price_from_reserves_of, price_of_reserves, quote_side_of, reserves_from_hex,
    reserves_of_hex, token_order, token_order_of, PairConfig, PriceSample, Reserves, TokenOrder,
};
use crate::scoring::{fair_price, fair_price_of, score_set, score_set_of};
use crate::sizing::{max_safe_execution_size, max_safe_size, SLIPPAGE_LIMIT_1E6};
use crate::uint256::U256;
use vstd::prelude::*;

verus! {

/// The number of blocks that the chain is taken to make in a day.
pub const BLOCKS_24H_ESTIMATE: u64 = 17_280;

/// The signal of a node: what it reveals.
#[derive(Clone, Copy, Debug, PartialEq, Eq, Structural)]
pub struct Signal {
    pub fair_price: u128,
    pub confidence_score: u128,
    pub max_safe_execution_size: u128,
    pub flags: u128,
}

/// What the node asks the chain.
#[derive(Clone, Copy, Debug, PartialEq, Eq, Structural)]
pub enum Request {
    /// The pool's first token.
    Token0,
    /// The height of the chain.
    BlockNumber,
    /// The pool's reserves at a height.
    Reserves { block: u64 },
}

/// How far an execution has come: the answer that it waits for, and what
/// it keeps of the answers before.
#[derive(Clone, Copy, Debug)]
pub enum ExecutionState {
    AwaitToken0,
    AwaitBlockNumber { first_token: Option<TokenOrder> },
    AwaitLatestReserves { first_token: Option<TokenOrder>, latest_block: u64 },
    AwaitEarlierReserves { order: TokenOrder, latest: Reserves, spot_now: PriceSample },
}

/// What an execution does next.
#[derive(Clone, Debug)]
pub enum Step {
    /// Ask the chain, and go on from the state with its answer.
    Call(ExecutionState, Request),
    /// Reveal the signal.
    Succeed(Signal),
    /// Give up.
    Fail(OracleError),
}

/// What an [`ExecutionState`] holds.
pub enum StateView {
    AwaitToken0,
    AwaitBlockNumber { first_token: Option<TokenOrder> },
    AwaitLatestReserves { first_token: Option<TokenOrder>, latest_block: u64 },
    AwaitEarlierReserves {
        order: TokenOrder,
        reserve0: nat,
        reserve1: nat,
        spot_now: PriceSample,
    },
}

/// What a [`Step`] holds.
pub enum StepView {
    Call(StateView, Request),
    Succeed(Signal),
    Fail(OracleError),
}

impl ExecutionState {
    pub open spec fn view(self) -> StateView {
        match self {
            ExecutionState::AwaitToken0 => StateView::AwaitToken0,
            ExecutionState::AwaitBlockNumber {
                first_token,
            } => StateView::AwaitBlockNumber { first_token },
            ExecutionState::AwaitLatestReserves {
                first_token,
                latest_block,
            } => StateView::AwaitLatestReserves { first_token, latest_block },
            ExecutionState::AwaitEarlierReserves {
                order,
                latest,
                spot_now,
            } => StateView::AwaitEarlierReserves {
                order,
                reserve0: latest.reserve0.value(),
                reserve1: latest.reserve1.value(),
                spot_now,
            },
        }
    }
}

impl Step {
    pub open spec fn view(self) -> StepView {
        match self {
            Step::Call(state, request) => StepView::Call(state.view(), request),
            Step::Succeed(signal) => StepView::Succeed(signal),
            Step::Fail(e) => StepView::Fail(e),
        }
    }
}

/// The height of about a day before `latest_block`, not below zero.
pub open spec fn earlier_block(latest_block: u64) -> u64 {
    if latest_block >= BLOCKS_24H_ESTIMATE {
        (latest_block - BLOCKS_24H_ESTIMATE) as u64
    } else {
        0
    }
}

/// The signal of a pool with the given reserves, price now and price of a
/// day before: the fair price, the confidence and the flags of its scores,
/// and the largest safe size of a trade of the quote token for the base
/// token. The failure of the scores or of the sizing is the signal's.
pub open spec fn signal_of(quote_reserve: nat, base_reserve: nat, spot_now: nat, price_24h: nat)
    -> Result<Signal, OracleError> {
    match score_set_of(quote_reserve, spot_now, price_24h) {
        Err(e) => Err(e),
        Ok(scores) => match max_safe_size(
            quote_reserve,
            base_reserve,
            spot_now,
            SLIPPAGE_LIMIT_1E6 as nat,
        ) {
            Err(e) => Err(e),
            Ok(size) => Ok(
                Signal {
                    fair_price: fair_price_of(spot_now, price_24h) as u128,
                    confidence_score: scores.confidence_score,
                    max_safe_execution_size: size as u128,
                    flags: scores.flags,
                },
            ),
        },
    }
}

/// What an execution in `state` does with an answer.
///
/// - The answer for the first token must be a word, else `Token0Address`;
///   the height is asked for next.
/// - The answer for the height must be a hexadecimal number, else
///   `BlockNumber`; the reserves at that height are asked for next.
/// - The answer for the reserves now must hold them, and the pool's first
///   token must be of the pair, else `TokenMismatch`; the price now must
///   be defined. The reserves of a day before are asked for next.
/// - The answer for the reserves of a day before must hold them, and the
///   price then must be defined; the signal follows.
pub open spec fn step_of(config: PairConfig, state: StateView, answer: Seq<char>) -> StepView {
    match state {
        StateView::AwaitToken0 => match address_of_word(answer) {
            None => StepView::Fail(OracleError::Token0Address),
            Some(token0) => StepView::Call(
                StateView::AwaitBlockNumber { first_token: token_order_of(config, token0) },
                Request::BlockNumber,
            ),
        },
        StateView::AwaitBlockNumber { first_token } => match block_number_of(answer) {
            None => StepView::Fail(OracleError::BlockNumber),
            Some(latest_block) => StepView::Call(
                StateView::AwaitLatestReserves { first_token, latest_block },
                Request::Reserves { block: latest_block },
            ),
        },
        StateView::AwaitLatestReserves {
            first_token,
            latest_block,
        } => match reserves_of_hex(answer) {
            Err(e) => StepView::Fail(e),
            Ok((reserve0, reserve1)) => match first_token {
                None => StepView::Fail(OracleError::TokenMismatch),
                Some(order) => match price_from_reserves_of(
                    order,
                    reserve0,
                    reserve1,
                    config.base_decimals as nat,
                    config.quote_decimals as nat,
                ) {
                    Err(e) => StepView::Fail(e),
                    Ok(spot_now) => StepView::Call(
                        StateView::AwaitEarlierReserves {
                            order,
                            reserve0,
                            reserve1,
                            spot_now: PriceSample {
                                price: spot_now as u128,
                                block: latest_block,
                            },
                        },
                        Request::Reserves { block: earlier_block(latest_block) },
                    ),
                },
            },
        },
        StateView::AwaitEarlierReserves {
            order,
            reserve0,
            reserve1,
            spot_now,
        } => match reserves_of_hex(answer) {
            Err(e) => StepView::Fail(e),
            Ok((earlier0, earlier1)) => match price_from_reserves_of(
                order,
                earlier0,
                earlier1,
                config.base_decimals as nat,
                config.quote_decimals as nat,
            ) {
                Err(e) => StepView::Fail(e),
                Ok(price_24h) => match signal_of(
                    quote_side_of(order, reserve0, reserve1),
                    base_side_of(order, reserve0, reserve1),
                    spot_now.price as nat,
                    price_24h,
                ) {
                    Err(e) => StepView::Fail(e),
                    Ok(signal) => StepView::Succeed(signal),
                },
            },
        },
    }
}

/// The signal of a pool with the given reserves, price now and price of a
/// day before.
pub fn execution_signal(quote_reserve: U256, base_reserve: U256, spot_now: u128, price_24h: u128)
    -> (r: Result<Signal, OracleError>)
    ensures
        r == signal_of(
            quote_reserve.value(),
            base_reserve.value(),
            spot_now as nat,
            price_24h as nat,
        ),
{
    let fair = fair_price(spot_now, price_24h);
    let scores = match score_set(quote_reserve, spot_now, price_24h) {
        Ok(scores) => scores,
        Err(e) => {
            return Err(e);
        },
    };
    let size = match max_safe_execution_size(quote_reserve, base_reserve, spot_now) {
        Ok(v) => v,
        Err(e) => {
            return Err(e);
        },
    };
    Ok(
        Signal {
            fair_price: fair,
            confidence_score: scores.confidence_score,
            max_safe_execution_size: size,
            flags: scores.flags,
        },
    )
}

/// The four fields of a signal, in the order in which they are revealed.
pub open spec fn signal_fields(signal: Signal) -> Seq<nat> {
    seq![
        signal.fair_price as nat,
        signal.confidence_score as nat,
        signal.max_safe_execution_size as nat,
        signal.flags as nat,
    ]
}

/// The signal as it is revealed: the encoding, as an array of `int256`, of
/// fair price, confidence, largest safe size and flags. The aggregation
/// reads it as these four fields.
pub fn encode_signal(signal: &Signal) -> (r: Vec<u8>)
    ensures
        r@ == int_array_encoding(signal_fields(*signal)),
        decoded_reveal(r@) == Some(signal_fields(*signal)),
{
    let mut values: Vec<U256> = Vec::new();
    values.push(U256::from_u128(signal.fair_price));
    values.push(U256::from_u128(signal.confidence_score));
    values.push(U256::from_u128(signal.max_safe_execution_size));
    values.push(U256::from_u128(signal.flags));
    let ghost fields = signal_fields(*signal);
    assert(values_of(values@) =~= fields);
    let bytes = abi_encode(&AbiValue::IntArray(values));
    proof {
        lemma_array_encoding_head(fields);
        let shapes = int_shapes(fields);
        assert(all_ints(shapes));
        assert(int_values(shapes) =~= fields);
    }
    bytes
}

/// The first step of an execution: the request is read, and the pool's
/// first token is asked for.
///
/// A request that does not name the pair that is served fails, as
/// [`parse_input_pair`] does, before anything is asked of the chain.
pub fn begin(input: &str) -> (r: Step)
    ensures
        names_served_pair(input@) ==> r.view() == StepView::Call(
            StateView::AwaitToken0,
            Request::Token0,
        ),
        !names_served_pair(input@) ==> (r matches Step::Fail(e) && is_request_failure(e, input@)),
{
    match parse_input_pair(input) {
        Ok(_) => Step::Call(ExecutionState::AwaitToken0, Request::Token0),
        Err(e) => Step::Fail(e),
    }
}

/// What an execution in `state` does with the answer to what it asked.
pub fn execution_phase(config: &PairConfig, state: ExecutionState, answer: &str) -> (r: Step)
    ensures
        r.view() == step_of(*config, state.view(), answer@),
{
    match state {
        ExecutionState::AwaitToken0 => {
            match parse_address_from_32byte(answer) {
                None => Step::Fail(OracleError::Token0Address),
                Some(token0) => {
                    let first_token = match token_order(config, token0.as_str()) {
                        Ok(order) => Some(order),
                        Err(_) => None,
                    };
                    Step::Call(
                        ExecutionState::AwaitBlockNumber { first_token },
                        Request::BlockNumber,
                    )
                },
            }
        },
        ExecutionState::AwaitBlockNumber { first_token } => {
            match parse_block_number(answer) {
                None => Step::Fail(OracleError::BlockNumber),
                Some(latest_block) => Step::Call(
                    ExecutionState::AwaitLatestReserves { first_token, latest_block },
                    Request::Reserves { block: latest_block },
                ),
            }
        },
        ExecutionState::AwaitLatestReserves { first_token, latest_block } => {
            let latest = match reserves_from_hex(answer) {
                Ok(reserves) => reserves,
                Err(e) => {
                    return Step::Fail(e);
                },
            };
            let order = match first_token {
                Some(order) => order,
                None => {
                    return Step::Fail(OracleError::TokenMismatch);
                },
            };
            let spot_now = match price_of_reserves(
                order,
                &latest,
                config.base_decimals,
                config.quote_decimals,
            ) {
                Ok(price) => PriceSample { price, block: latest_block },
                Err(e) => {
                    return Step::Fail(e);
                },
            };
            let block = if latest_block >= BLOCKS_24H_ESTIMATE {
                latest_block - BLOCKS_24H_ESTIMATE
            } else {
                0
            };
            Step::Call(
                ExecutionState::AwaitEarlierReserves { order, latest, spot_now },
                Request::Reserves { block },
            )
        },
        ExecutionState::AwaitEarlierReserves { order, latest, spot_now } => {
            let earlier = match reserves_from_hex(answer) {
                Ok(reserves) => reserves,
                Err(e) => {
                    return Step::Fail(e);
                },
            };
            let price_24h = match price_of_reserves(
                order,
                &earlier,
                config.base_decimals,
                config.quote_decimals,
            ) {
                Ok(price) => price,
                Err(e) => {
                    return Step::Fail(e);
                },
            };
            let (quote_reserve, base_reserve) = match order {
                TokenOrder::BaseFirst => (latest.reserve1, latest.reserve0),
                TokenOrder::QuoteFirst => (latest.reserve0, latest.reserve1),
            };
            match execution_signal(quote_reserve, base_reserve, spot_now.price, price_24h) {
                Ok(signal) => Step::Succeed(signal),
                Err(e) => Step::Fail(e),
            }
        },
    }
}

} // verus!
