use oracle_program::error::{ErrorKind, OracleError};

fn all() -> Vec<OracleError> {
    vec![
        OracleError::MissingInput,
        OracleError::MissingPair,
        OracleError::UnsupportedPair("BTC-USD".to_string()),
        OracleError::Token0Address,
        OracleError::PairAddress,
        OracleError::BlockNumber,
        OracleError::ReservesHex,
        OracleError::ReservesTooShort,
        OracleError::Slot0Hex,
        OracleError::Slot0TooShort,
        OracleError::TokenMismatch,
        OracleError::PoolTokenMismatch,
        OracleError::ZeroReserve,
        OracleError::ZeroPrice,
        OracleError::DivideByZero,
        OracleError::ZeroReserves,
        OracleError::ZeroDenominator,
        OracleError::RangeError,
        OracleError::ReplicationFactor,
        OracleError::PoolNotFound,
        OracleError::RevealCount,
        OracleError::NoPoolInResponse,
        OracleError::PriceUnreadable,
        OracleError::InvalidData,
        OracleError::AbiDecode("Invalid name: none".to_string()),
        OracleError::ExpectedArrayToken,
        OracleError::ExpectedFourValues(3),
        OracleError::ExpectedIntToken,
        OracleError::MalformedReveal,
        OracleError::NoConsensus,
        OracleError::NoValues,
        OracleError::NoData,
        OracleError::ArityMismatch,
    ]
}

#[test]
fn every_failure_has_a_message_of_its_own() {
    let all = all();
    for (i, a) in all.iter().enumerate() {
        assert!(!a.message().is_empty());
        for b in all.iter().skip(i + 1) {
            assert_ne!(a.message(), b.message());
        }
    }
}

#[test]
fn messages_of_a_request_that_fails() {
    assert_eq!(OracleError::MissingInput.message(), "Missing input: pair required");
    assert_eq!(OracleError::MissingPair.message(), "Missing pair in input");
    assert_eq!(
        OracleError::UnsupportedPair("BTC-USD".to_string()).message(),
        "Unsupported pair: BTC-USD"
    );
    assert_eq!(
        OracleError::UnsupportedPair(String::new()).message(),
        "Unsupported pair: "
    );
}

#[test]
fn messages_of_answers_that_cannot_be_read() {
    assert_eq!(OracleError::Token0Address.message(), "Failed to parse token0 address");
    assert_eq!(OracleError::PairAddress.message(), "Failed to parse pair address");
    assert_eq!(OracleError::BlockNumber.message(), "Invalid block number");
    assert_eq!(OracleError::ReservesHex.message(), "Failed to parse reserves hex");
    assert_eq!(OracleError::ReservesTooShort.message(), "Reserves result too short");
    assert_eq!(OracleError::Slot0Hex.message(), "Failed to parse slot0 hex");
    assert_eq!(OracleError::Slot0TooShort.message(), "slot0 result too short");
}

#[test]
fn messages_of_computations_without_a_result() {
    assert_eq!(OracleError::TokenMismatch.message(), "token0 mismatch for pair");
    assert_eq!(OracleError::PoolTokenMismatch.message(), "token0 mismatch for pool");
    assert_eq!(OracleError::ZeroReserve.message(), "Base reserve is zero");
    assert_eq!(OracleError::ZeroPrice.message(), "Price is zero");
    assert_eq!(OracleError::DivideByZero.message(), "Division by zero");
    assert_eq!(OracleError::ZeroReserves.message(), "Reserves are zero");
    assert_eq!(OracleError::ZeroDenominator.message(), "AMM denominator is zero");
    assert_eq!(OracleError::RangeError.message(), "Value exceeds u128 range");
}

#[test]
fn messages_of_the_feed() {
    assert_eq!(OracleError::ReplicationFactor.message(), "Invalid replication factor");
    assert_eq!(OracleError::PoolNotFound.message(), "WCRO/USDC pool not found");
    assert_eq!(OracleError::RevealCount.message(), "Invalid number of reveals");
    assert_eq!(
        OracleError::NoPoolInResponse.message(),
        "No WCRO/USDC pool found in VVS response"
    );
    assert_eq!(OracleError::PriceUnreadable.message(), "Failed to parse WCRO/USD price");
}

#[test]
fn messages_of_the_aggregation() {
    assert_eq!(OracleError::InvalidData.message(), "Invalid data");
    assert_eq!(
        OracleError::AbiDecode("Invalid name: none".to_string()).message(),
        "Invalid name: none"
    );
    assert_eq!(OracleError::ExpectedArrayToken.message(), "Expected array token");
    assert_eq!(OracleError::ExpectedFourValues(0).message(), "Expected 4 values, got 0");
    assert_eq!(OracleError::ExpectedFourValues(3).message(), "Expected 4 values, got 3");
    assert_eq!(OracleError::ExpectedFourValues(10).message(), "Expected 4 values, got 10");
    assert_eq!(
        OracleError::ExpectedFourValues(1_234_567_890).message(),
        "Expected 4 values, got 1234567890"
    );
    assert_eq!(OracleError::ExpectedIntToken.message(), "Expected int256 token");
    assert_eq!(OracleError::MalformedReveal.message(), "Failed to parse revealed prices");
    assert_eq!(
        OracleError::NoConsensus.message(),
        "No consensus among revealed results"
    );
    assert_eq!(OracleError::NoValues.message(), "No values to aggregate");
    assert_eq!(
        OracleError::NoData.message(),
        "No valid data available for median calculation"
    );
    assert_eq!(
        OracleError::ArityMismatch.message(),
        "Mismatched value length in reveals"
    );
}

#[test]
fn failures_by_kind() {
    assert_eq!(OracleError::MissingInput.kind(), ErrorKind::InvalidInput);
    assert_eq!(OracleError::MissingPair.kind(), ErrorKind::InvalidInput);
    assert_eq!(
        OracleError::UnsupportedPair("X".to_string()).kind(),
        ErrorKind::InvalidInput
    );
    assert_eq!(OracleError::ReservesHex.kind(), ErrorKind::Decode);
    assert_eq!(OracleError::ExpectedFourValues(1).kind(), ErrorKind::Decode);
    assert_eq!(OracleError::ZeroReserve.kind(), ErrorKind::Domain);
    assert_eq!(OracleError::RangeError.kind(), ErrorKind::Domain);
    assert_eq!(OracleError::TokenMismatch.kind(), ErrorKind::Domain);
    assert_eq!(OracleError::NoConsensus.kind(), ErrorKind::Consensus);
    assert_eq!(OracleError::ArityMismatch.kind(), ErrorKind::Consensus);
    let kinds = [
        ErrorKind::InvalidInput,
        ErrorKind::Decode,
        ErrorKind::Domain,
        ErrorKind::Consensus,
    ];
    for error in all() {
        assert!(kinds.contains(&error.kind()));
    }
}
