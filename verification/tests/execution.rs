use oracle_program::error::OracleError;
use oracle_program::execution::{
    begin, encode_signal, execution_phase, execution_signal, ExecutionState, Request, Signal, Step,
    BLOCKS_24H_ESTIMATE,
};
use oracle_program::price::{PairConfig, PriceSample, Reserves, TokenOrder};
use oracle_program::uint256::U256;

const CONFIG: PairConfig = PairConfig {
    pair: "0xE61Db569E231B3f5530168Aa2C9D50246525b6d6",
    base: "0x5C7F8A570d578ED84E63fdFA7b1eE72dEae1AE23",
    quote: "0xc21223249CA28397B4B6541dfFaEcC539BfF0c59",
    base_decimals: 18,
    quote_decimals: 6,
};

const QUOTE_WORD: &str = "0x000000000000000000000000c21223249ca28397b4b6541dffaecc539bff0c59";
const BASE_WORD: &str = "0x0000000000000000000000005c7f8a570d578ed84e63fdfa7b1ee72deae1ae23";
const OTHER_WORD: &str = "0x0000000000000000000000002d03bece6747adc00e1a131bba1469c15fd11e03";

fn n(v: u128) -> U256 {
    U256::from_u128(v)
}

fn reserves_answer(reserve0: u128, reserve1: u128) -> String {
    format!("0x{:064x}{:064x}{:064x}", reserve0, reserve1, 1_700_000_000u128)
}

fn next_state(step: Step) -> (ExecutionState, Request) {
    match step {
        Step::Call(state, request) => (state, request),
        other => panic!("the execution ended: {:?}", other),
    }
}

fn failure(step: Step) -> OracleError {
    match step {
        Step::Fail(e) => e,
        other => panic!("the execution went on: {:?}", other),
    }
}

#[test]
fn a_day_is_17280_blocks() {
    assert_eq!(BLOCKS_24H_ESTIMATE, 17_280);
}

#[test]
fn signal_of_a_calm_and_liquid_pool() {
    let signal = execution_signal(
        n(600_000 * 10u128.pow(6)),
        n(6_000_000 * 10u128.pow(18)),
        100_000,
        98_000,
    );
    assert_eq!(
        signal,
        Ok(Signal {
            fair_price: 99_333,
            confidence_score: 840_000,
            max_safe_execution_size: 4_194_583_741,
            flags: 0,
        })
    );
}

#[test]
fn signal_of_a_thin_pool_whose_price_has_moved() {
    let rising = execution_signal(
        n(50_000 * 10u128.pow(6)),
        n(500_000 * 10u128.pow(18)),
        100_000,
        120_000,
    );
    assert_eq!(
        rising,
        Ok(Signal {
            fair_price: 106_666,
            confidence_score: 60_000,
            max_safe_execution_size: 349_548_642,
            flags: 7,
        })
    );
    let falling = execution_signal(
        n(50_000 * 10u128.pow(6)),
        n(500_000 * 10u128.pow(18)),
        100_000,
        90_000,
    );
    let falling = falling.unwrap();
    assert_eq!(falling.fair_price, 96_666);
    assert_eq!(falling.flags, 7);
}

#[test]
fn signal_with_a_zero_price_fails() {
    assert_eq!(
        execution_signal(n(1_000_000), n(1_000_000), 0, 5),
        Err(OracleError::DivideByZero)
    );
}

#[test]
fn signal_with_a_zero_reserve_fails() {
    assert_eq!(
        execution_signal(n(0), n(1_000_000), 5, 5),
        Err(OracleError::ZeroReserves)
    );
    assert_eq!(
        execution_signal(n(1_000_000), n(0), 5, 5),
        Err(OracleError::ZeroReserves)
    );
}

#[test]
fn signal_is_encoded_as_four_integers() {
    let signal = Signal {
        fair_price: 99_333,
        confidence_score: 840_000,
        max_safe_execution_size: 4_194_583_741,
        flags: 5,
    };
    let bytes = encode_signal(&signal);
    assert_eq!(bytes.len(), 6 * 32);
    let words: Vec<u128> = bytes
        .chunks(32)
        .map(|w| {
            assert!(w[..16].iter().all(|b| *b == 0));
            let mut low = [0u8; 16];
            low.copy_from_slice(&w[16..]);
            u128::from_be_bytes(low)
        })
        .collect();
    assert_eq!(words, vec![32, 4, 99_333, 840_000, 4_194_583_741, 5]);
}

#[test]
fn a_valid_request_asks_for_the_first_token() {
    let (state, request) = next_state(begin("{\"pair\":\"wcro-usdc\"}"));
    assert!(matches!(state, ExecutionState::AwaitToken0));
    assert_eq!(request, Request::Token0);
}

#[test]
fn an_invalid_request_asks_for_nothing() {
    assert_eq!(failure(begin("")), OracleError::MissingInput);
    assert_eq!(failure(begin("{}")), OracleError::MissingPair);
    assert_eq!(
        failure(begin("BTC-USD")),
        OracleError::UnsupportedPair("BTC-USD".to_string())
    );
}

#[test]
fn an_execution_from_the_request_to_the_signal() {
    let (state, request) = next_state(begin("WCRO-USDC"));
    assert_eq!(request, Request::Token0);

    let (state, request) = next_state(execution_phase(&CONFIG, state, QUOTE_WORD));
    assert_eq!(request, Request::BlockNumber);
    assert!(matches!(
        state,
        ExecutionState::AwaitBlockNumber { first_token: Some(TokenOrder::QuoteFirst) }
    ));

    let (state, request) = next_state(execution_phase(&CONFIG, state, "0x10000"));
    assert_eq!(request, Request::Reserves { block: 65_536 });

    let latest = reserves_answer(600_000 * 10u128.pow(6), 6_000_000 * 10u128.pow(18));
    let (state, request) = next_state(execution_phase(&CONFIG, state, &latest));
    assert_eq!(request, Request::Reserves { block: 65_536 - 17_280 });
    match state {
        ExecutionState::AwaitEarlierReserves { order, latest, spot_now } => {
            assert_eq!(order, TokenOrder::QuoteFirst);
            assert_eq!(
                latest,
                Reserves {
                    reserve0: n(600_000 * 10u128.pow(6)),
                    reserve1: n(6_000_000 * 10u128.pow(18)),
                }
            );
            assert_eq!(spot_now, PriceSample { price: 100_000, block: 65_536 });
        }
        other => panic!("unexpected state: {:?}", other),
    }

    let earlier = reserves_answer(588_000 * 10u128.pow(6), 6_000_000 * 10u128.pow(18));
    match execution_phase(&CONFIG, state, &earlier) {
        Step::Succeed(signal) => assert_eq!(
            signal,
            Signal {
                fair_price: 99_333,
                confidence_score: 840_000,
                max_safe_execution_size: 4_194_583_741,
                flags: 0,
            }
        ),
        other => panic!("unexpected step: {:?}", other),
    }
}

#[test]
fn the_same_pool_read_the_other_way_round_gives_the_same_signal() {
    let state = ExecutionState::AwaitLatestReserves {
        first_token: Some(TokenOrder::BaseFirst),
        latest_block: 100,
    };
    let latest = reserves_answer(6_000_000 * 10u128.pow(18), 600_000 * 10u128.pow(6));
    let (state, request) = next_state(execution_phase(&CONFIG, state, &latest));
    assert_eq!(request, Request::Reserves { block: 0 });
    let earlier = reserves_answer(6_000_000 * 10u128.pow(18), 588_000 * 10u128.pow(6));
    match execution_phase(&CONFIG, state, &earlier) {
        Step::Succeed(signal) => {
            assert_eq!(signal.fair_price, 99_333);
            assert_eq!(signal.max_safe_execution_size, 4_194_583_741);
        }
        other => panic!("unexpected step: {:?}", other),
    }
}

#[test]
fn an_answer_that_is_no_word_fails() {
    assert_eq!(
        failure(execution_phase(&CONFIG, ExecutionState::AwaitToken0, "0x1234")),
        OracleError::Token0Address
    );
}

#[test]
fn a_first_token_outside_the_pair_fails_once_the_reserves_are_read() {
    let (state, request) = next_state(execution_phase(
        &CONFIG,
        ExecutionState::AwaitToken0,
        OTHER_WORD,
    ));
    assert_eq!(request, Request::BlockNumber);
    let (state, _) = next_state(execution_phase(&CONFIG, state, "0x1"));
    let latest = reserves_answer(1, 1);
    assert_eq!(
        failure(execution_phase(&CONFIG, state, &latest)),
        OracleError::TokenMismatch
    );
}

#[test]
fn a_height_that_is_no_number_fails() {
    let state = ExecutionState::AwaitBlockNumber { first_token: Some(TokenOrder::BaseFirst) };
    assert_eq!(
        failure(execution_phase(&CONFIG, state, "0xnope")),
        OracleError::BlockNumber
    );
}

#[test]
fn reserves_that_cannot_be_read_fail() {
    let state = ExecutionState::AwaitLatestReserves {
        first_token: Some(TokenOrder::BaseFirst),
        latest_block: 5,
    };
    assert_eq!(
        failure(execution_phase(&CONFIG, state, "0x00")),
        OracleError::ReservesTooShort
    );
    assert_eq!(
        failure(execution_phase(&CONFIG, state, "0x0")),
        OracleError::ReservesHex
    );
    let earlier = ExecutionState::AwaitEarlierReserves {
        order: TokenOrder::BaseFirst,
        latest: Reserves { reserve0: n(1), reserve1: n(1) },
        spot_now: PriceSample { price: 1, block: 5 },
    };
    assert_eq!(
        failure(execution_phase(&CONFIG, earlier, "zz")),
        OracleError::ReservesHex
    );
}

#[test]
fn a_pool_without_base_tokens_has_no_price() {
    let state = ExecutionState::AwaitLatestReserves {
        first_token: Some(TokenOrder::BaseFirst),
        latest_block: 5,
    };
    assert_eq!(
        failure(execution_phase(&CONFIG, state, &reserves_answer(0, 5))),
        OracleError::ZeroReserve
    );
    let (_, request) = next_state(execution_phase(
        &CONFIG,
        ExecutionState::AwaitToken0,
        BASE_WORD,
    ));
    assert_eq!(request, Request::BlockNumber);
}

#[test]
fn a_signal_that_is_revealed_is_read_back_by_the_aggregation() {
    let signal = Signal {
        fair_price: 99_333,
        confidence_score: 840_000,
        max_safe_execution_size: 4_194_583_741,
        flags: 5,
    };
    let reveal = encode_signal(&signal);
    assert_eq!(
        oracle_program::aggregator::decode_values(&reveal),
        Ok(vec![n(99_333), n(840_000), n(4_194_583_741), n(5)])
    );
    let other = encode_signal(&Signal { fair_price: u128::MAX, ..signal });
    assert_eq!(
        oracle_program::aggregator::tally_phase(&vec![reveal.clone(), other]),
        Ok(encode_signal(&Signal {
            fair_price: 99_333 + (u128::MAX - 99_333) / 2,
            ..signal
        }))
    );
}
