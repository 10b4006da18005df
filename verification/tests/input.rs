use oracle_program::error::OracleError;
use oracle_program::input::{parse_input_pair, select_pair, TARGET_PAIR};

fn unsupported(pair: &str) -> OracleError {
    OracleError::UnsupportedPair(pair.to_string())
}

#[test]
fn the_pair_is_read_from_a_json_object() {
    assert_eq!(
        parse_input_pair("{\"pair\":\"WCRO-USDC\"}"),
        Ok("WCRO-USDC".to_string())
    );
    assert_eq!(
        parse_input_pair("  {\"pair\": \"wcro-usdc\", \"other\": 1}\n"),
        Ok("WCRO-USDC".to_string())
    );
}

#[test]
fn the_pair_is_read_from_bare_text_and_from_a_json_string() {
    assert_eq!(parse_input_pair("WCRO-USDC"), Ok(TARGET_PAIR.to_string()));
    assert_eq!(parse_input_pair(" wcro-usdc "), Ok(TARGET_PAIR.to_string()));
    assert_eq!(parse_input_pair("\"Wcro-Usdc\""), Ok(TARGET_PAIR.to_string()));
}

#[test]
fn an_empty_request_fails() {
    assert_eq!(parse_input_pair(""), Err(OracleError::MissingInput));
    assert_eq!(parse_input_pair(" \n\t "), Err(OracleError::MissingInput));
}

#[test]
fn another_pair_fails() {
    assert_eq!(parse_input_pair("BTC-USD"), Err(unsupported("BTC-USD")));
    assert_eq!(parse_input_pair("btc-usd"), Err(unsupported("BTC-USD")));
    assert_eq!(
        parse_input_pair("{\"pair\":\"btc-usd\"}"),
        Err(unsupported("BTC-USD"))
    );
    assert_eq!(parse_input_pair("\"eth-usd\""), Err(unsupported("ETH-USD")));
    assert_eq!(parse_input_pair("{\"pair\":"), Err(unsupported("{\"PAIR\":")));
    assert_eq!(
        parse_input_pair("[\"WCRO-USDC\"]"),
        Err(unsupported("[\"WCRO-USDC\"]"))
    );
    assert_eq!(parse_input_pair("WCRO USDC"), Err(unsupported("WCRO USDC")));
}

#[test]
fn the_member_goes_before_the_string_and_the_string_before_the_request() {
    assert_eq!(
        select_pair("x", Some("wcro-usdc"), Some("y")),
        Ok("WCRO-USDC".to_string())
    );
    assert_eq!(
        select_pair("wcro-usdc", Some("x"), Some("wcro-usdc")),
        Err(unsupported("X"))
    );
    assert_eq!(
        select_pair("x", None, Some("WCRO-usdc")),
        Ok("WCRO-USDC".to_string())
    );
    assert_eq!(
        select_pair("wcro-usdc", None, Some("y")),
        Err(unsupported("Y"))
    );
    assert_eq!(select_pair("wcro-USDC", None, None), Ok("WCRO-USDC".to_string()));
    assert_eq!(select_pair("z", None, None), Err(unsupported("Z")));
}

#[test]
fn a_json_object_without_a_pair_fails() {
    assert_eq!(parse_input_pair("{}"), Err(OracleError::MissingPair));
    assert_eq!(parse_input_pair("{\"pair\":5}"), Err(OracleError::MissingPair));
    assert_eq!(parse_input_pair("{\"pair\":null}"), Err(OracleError::MissingPair));
    assert_eq!(
        parse_input_pair(" {\"other\":\"WCRO-USDC\"} "),
        Err(OracleError::MissingPair)
    );
}

#[test]
fn a_failed_request_tells_the_pair_that_it_named() {
    assert_eq!(
        parse_input_pair("btc-usd").unwrap_err().message(),
        "Unsupported pair: BTC-USD"
    );
    assert_eq!(
        parse_input_pair("").unwrap_err().message(),
        "Missing input: pair required"
    );
    assert_eq!(
        parse_input_pair("{}").unwrap_err().message(),
        "Missing pair in input"
    );
}
