use oracle_program::error::OracleError;
use oracle_program::price::{
    pool_price, price_from_reserves, price_from_sqrt_price, price_of_reserves, reserves_from_hex,
    sqrt_price_from_hex, token_order, PairConfig, PoolState, Reserves, TokenOrder,
};
use oracle_program::uint256::U256;

const BASE: &str = "0x5C7F8A570d578ED84E63fdFA7b1eE72dEae1AE23";
const QUOTE: &str = "0xc21223249CA28397B4B6541dfFaEcC539BfF0c59";
const OTHER: &str = "0x2D03bECE6747ADC00E1a131BBA1469C15fD11e03";

fn config(base_decimals: u8, quote_decimals: u8) -> PairConfig {
    PairConfig {
        pair: "0xE61Db569E231B3f5530168Aa2C9D50246525b6d6",
        base: BASE,
        quote: QUOTE,
        base_decimals,
        quote_decimals,
    }
}

fn n(v: u128) -> U256 {
    U256::from_u128(v)
}

const TWO_POW_96: U256 = U256 { w0: 0, w1: 1 << 32, w2: 0, w3: 0 };

#[test]
fn first_token_settles_the_order_whatever_its_case() {
    let config = config(18, 6);
    assert_eq!(token_order(&config, BASE), Ok(TokenOrder::BaseFirst));
    assert_eq!(
        token_order(&config, "0x5c7f8a570d578ed84e63fdfa7b1ee72deae1ae23"),
        Ok(TokenOrder::BaseFirst)
    );
    assert_eq!(
        token_order(&config, "0xC21223249CA28397B4B6541DFFAECC539BFF0C59"),
        Ok(TokenOrder::QuoteFirst)
    );
    assert_eq!(token_order(&config, OTHER), Err(OracleError::TokenMismatch));
    assert_eq!(token_order(&config, ""), Err(OracleError::TokenMismatch));
}

#[test]
fn price_follows_the_order_of_the_reserves() {
    let config = config(18, 6);
    let quote_first = Reserves {
        reserve0: n(2000 * 10u128.pow(6)),
        reserve1: n(1000 * 10u128.pow(18)),
    };
    let base_first = Reserves {
        reserve0: n(1000 * 10u128.pow(18)),
        reserve1: n(2000 * 10u128.pow(6)),
    };
    let a = price_from_reserves(&config, QUOTE, &quote_first);
    let b = price_from_reserves(&config, BASE, &base_first);
    assert_eq!(a, Ok(2_000_000));
    assert_eq!(a, b);
}

#[test]
fn zero_base_reserve_fails() {
    let config = config(18, 6);
    let reserves = Reserves { reserve0: n(0), reserve1: n(2000 * 10u128.pow(6)) };
    assert_eq!(
        price_from_reserves(&config, BASE, &reserves),
        Err(OracleError::ZeroReserve)
    );
    let swapped = Reserves { reserve0: n(2000 * 10u128.pow(6)), reserve1: n(0) };
    assert_eq!(
        price_from_reserves(&config, QUOTE, &swapped),
        Err(OracleError::ZeroReserve)
    );
}

#[test]
fn zero_quote_reserve_is_a_price_of_zero() {
    let config = config(18, 6);
    let reserves = Reserves { reserve0: n(5), reserve1: n(0) };
    assert_eq!(price_from_reserves(&config, BASE, &reserves), Ok(0));
}

#[test]
fn unknown_first_token_fails() {
    let config = config(18, 6);
    let reserves = Reserves { reserve0: n(1), reserve1: n(1) };
    assert_eq!(
        price_from_reserves(&config, OTHER, &reserves),
        Err(OracleError::TokenMismatch)
    );
}

#[test]
fn price_rounds_down() {
    let reserves = Reserves { reserve0: n(3), reserve1: n(10) };
    assert_eq!(
        price_of_reserves(TokenOrder::BaseFirst, &reserves, 0, 0),
        Ok(3_333_333)
    );
    assert_eq!(
        price_of_reserves(TokenOrder::QuoteFirst, &reserves, 0, 0),
        Ok(300_000)
    );
}

#[test]
fn price_beyond_128_bits_fails() {
    let reserves = Reserves { reserve0: n(1), reserve1: n(u128::MAX) };
    assert_eq!(
        price_of_reserves(TokenOrder::BaseFirst, &reserves, 18, 0),
        Err(OracleError::RangeError)
    );
}

#[test]
fn products_are_capped_at_256_bits() {
    let reserves = Reserves { reserve0: U256::max(), reserve1: U256::max() };
    assert_eq!(price_of_reserves(TokenOrder::BaseFirst, &reserves, 0, 0), Ok(1));
}

#[test]
fn square_root_price_of_one() {
    let config = config(6, 6);
    assert_eq!(price_from_sqrt_price(&config, BASE, TWO_POW_96), Ok(1_000_000));
    assert_eq!(price_from_sqrt_price(&config, QUOTE, TWO_POW_96), Ok(1_000_000));
}

#[test]
fn square_root_price_is_inverted_with_the_quote_token_first() {
    let config = config(6, 6);
    let doubled = U256 { w0: 0, w1: 1 << 33, w2: 0, w3: 0 };
    assert_eq!(price_from_sqrt_price(&config, BASE, doubled), Ok(4_000_000));
    assert_eq!(price_from_sqrt_price(&config, QUOTE, doubled), Ok(250_000));
}

#[test]
fn square_root_price_of_zero_cannot_be_inverted() {
    let config = config(6, 6);
    assert_eq!(
        price_from_sqrt_price(&config, QUOTE, n(0)),
        Err(OracleError::ZeroPrice)
    );
    assert_eq!(price_from_sqrt_price(&config, BASE, n(0)), Ok(0));
}

#[test]
fn square_root_price_with_unknown_first_token_fails() {
    let config = config(6, 6);
    assert_eq!(
        price_from_sqrt_price(&config, OTHER, TWO_POW_96),
        Err(OracleError::PoolTokenMismatch)
    );
}

#[test]
fn square_root_price_beyond_128_bits_fails() {
    let config = config(0, 77);
    assert_eq!(
        price_from_sqrt_price(&config, QUOTE, n(1)),
        Err(OracleError::RangeError)
    );
}

#[test]
fn square_root_price_is_capped_at_256_bits() {
    let config = config(0, 0);
    let root = U256 { w0: 0, w1: 1 << 63, w2: 0, w3: 0 };
    assert_eq!(
        price_from_sqrt_price(&config, BASE, root),
        Ok(18_446_744_073_709_551_615)
    );
}

#[test]
fn pool_price_goes_by_the_kind_of_pool() {
    let config = config(6, 6);
    let reserves = Reserves { reserve0: n(4), reserve1: n(2) };
    assert_eq!(
        pool_price(&config, BASE, &PoolState::ConstantProduct(reserves)),
        Ok(500_000)
    );
    assert_eq!(
        pool_price(&config, BASE, &PoolState::ConcentratedLiquidity(TWO_POW_96)),
        Ok(1_000_000)
    );
    assert_eq!(
        pool_price(&config, OTHER, &PoolState::ConcentratedLiquidity(TWO_POW_96)),
        Err(OracleError::PoolTokenMismatch)
    );
    assert_eq!(
        pool_price(&config, OTHER, &PoolState::ConstantProduct(reserves)),
        Err(OracleError::TokenMismatch)
    );
}

#[test]
fn reserves_are_the_first_two_of_three_words() {
    let answer = format!("0x{:064x}{:064x}{:064x}", 2000u128, 1000u128, 1_700_000_000u128);
    assert_eq!(
        reserves_from_hex(&answer),
        Ok(Reserves { reserve0: n(2000), reserve1: n(1000) })
    );
    let bare = format!("{:064X}{:064X}{:064X}", u128::MAX, 0xabcdefu128, 0u128);
    assert_eq!(
        reserves_from_hex(&bare),
        Ok(Reserves { reserve0: n(u128::MAX), reserve1: n(0xabcdef) })
    );
}

#[test]
fn reserves_of_a_short_answer_fail() {
    let answer = format!("0x{:064x}{:064x}", 2000u128, 1000u128);
    assert_eq!(reserves_from_hex(&answer), Err(OracleError::ReservesTooShort));
    assert_eq!(reserves_from_hex("0x"), Err(OracleError::ReservesTooShort));
}

#[test]
fn reserves_of_what_is_no_hexadecimal_text_fail() {
    assert_eq!(reserves_from_hex("0xzz"), Err(OracleError::ReservesHex));
    assert_eq!(reserves_from_hex("0x123"), Err(OracleError::ReservesHex));
}

#[test]
fn square_root_price_is_the_first_word() {
    let answer = format!("0x{:064x}{:064x}", 79_228_162_514_264_337_593_543_950_336u128, 5u128);
    assert_eq!(sqrt_price_from_hex(&answer), Ok(TWO_POW_96));
    assert_eq!(sqrt_price_from_hex("0x00"), Err(OracleError::Slot0TooShort));
    assert_eq!(sqrt_price_from_hex("0x0g"), Err(OracleError::Slot0Hex));
}
