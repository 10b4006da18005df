//! The failures that the analytics and the aggregation report, and what
//! each tells the host.

use vstd::prelude::*;
use vstd::string::*;

verus! {

/// Why a computation failed.
#[derive(Clone, Debug, PartialEq, Eq)]
pub enum OracleError {
    /// The request is empty.
    MissingInput,
    /// The request is a JSON object that names no pair.
    MissingPair,
    /// The request names a pair, held here in upper case, that is not
    /// served.
    UnsupportedPair(String),
    /// The answer for the pool's first token is no word.
    Token0Address,
    /// The answer for the pool's address is no word.
    PairAddress,
    /// The answer for the height of the chain is no hexadecimal number of
    /// 64 bits.
    BlockNumber,
    /// The answer for the reserves is no hexadecimal text.
    ReservesHex,
    /// The answer for the reserves holds fewer than three words.
    ReservesTooShort,
    /// The answer for the square root of the price is no hexadecimal text.
    Slot0Hex,
    /// The answer for the square root of the price holds no word.
    Slot0TooShort,
    /// The first token of a constant-product pool is neither the base nor
    /// the quote token.
    TokenMismatch,
    /// The first token of a concentrated-liquidity pool is neither the
    /// base nor the quote token.
    PoolTokenMismatch,
    /// The base reserve, which a price divides by, is zero.
    ZeroReserve,
    /// The price ratio of a concentrated-liquidity pool is zero.
    ZeroPrice,
    /// A ratio was asked for with a zero denominator.
    DivideByZero,
    /// A reserve of the pool that a trade is sized for is zero.
    ZeroReserves,
    /// The pool has nothing to divide a trade's output by.
    ZeroDenominator,
    /// A value does not fit the integer type that must hold it.
    RangeError,
    /// The feed is run by another number of nodes than one.
    ReplicationFactor,
    /// The factory knows no pool of the pair.
    PoolNotFound,
    /// The number of reveals is not the one that the feed is run with.
    RevealCount,
    /// No pool of the wanted pair is among the pools reported.
    NoPoolInResponse,
    /// The price of the selected pool is no decimal text, or stands for a
    /// number beyond 128 bits.
    PriceUnreadable,
    /// The first word of a reveal does not hold the offset of a word
    /// within the reveal.
    InvalidData,
    /// A reveal does not decode; the text is the decoder's.
    AbiDecode(String),
    /// The first token of a reveal is no array.
    ExpectedArrayToken,
    /// A reveal holds the given number of values and not four.
    ExpectedFourValues(usize),
    /// A value of a reveal is no integer.
    ExpectedIntToken,
    /// A reveal of a single value is not 16 bytes long.
    MalformedReveal,
    /// No reveal could be decoded.
    NoConsensus,
    /// There is no row to take the median of each field of.
    NoValues,
    /// There is no value to take the median of.
    NoData,
    /// The accepted reveals do not all have the same number of fields.
    ArityMismatch,
}

/// The kinds of failure.
#[derive(Clone, Copy, Debug, PartialEq, Eq, Structural)]
pub enum ErrorKind {
    /// The request is missing or names what is not served.
    InvalidInput,
    /// Text or bytes do not decode.
    Decode,
    /// A computation has no result on its inputs.
    Domain,
    /// The reveals give no result.
    Consensus,
}

/// The character of a decimal digit.
pub open spec fn decimal_char(d: nat) -> char
    recommends
        d < 10,
{
    (48 + d) as char
}

/// A number in decimal digits, without leading zeros.
pub open spec fn decimal_text(n: nat) -> Seq<char>
    decreases n,
{
    if n < 10 {
        seq![decimal_char(n)]
    } else {
        decimal_text(n / 10).push(decimal_char(n % 10))
    }
}

/// A decimal digit as text.
fn decimal_digit_text(d: u8) -> (r: &'static str)
    requires
        d < 10,
    ensures
        r@ == seq![decimal_char(d as nat)],
{
    proof {
        reveal_strlit("0");
        reveal_strlit("1");
        reveal_strlit("2");
        reveal_strlit("3");
        reveal_strlit("4");
        reveal_strlit("5");
        reveal_strlit("6");
        reveal_strlit("7");
        reveal_strlit("8");
        reveal_strlit("9");
    }
    let r = if d == 0 {
        "0"
    } else if d == 1 {
        "1"
    } else if d == 2 {
        "2"
    } else if d == 3 {
        "3"
    } else if d == 4 {
        "4"
    } else if d == 5 {
        "5"
    } else if d == 6 {
        "6"
    } else if d == 7 {
        "7"
    } else if d == 8 {
        "8"
    } else {
        "9"
    };
    assert(r@ =~= seq![decimal_char(d as nat)]);
    r
}

/// Appends a number in decimal digits.
fn append_decimal(text: &mut String, n: usize)
    ensures
        final(text)@ == old(text)@ + decimal_text(n as nat),
    decreases n,
{
    if n >= 10 {
        append_decimal(text, n / 10);
    }
    text.append(decimal_digit_text((n % 10) as u8));
    assert(text@ =~= old(text)@ + decimal_text(n as nat));
}

impl OracleError {
    /// The kind of the failure.
    pub open spec fn kind_of(self) -> ErrorKind {
        match self {
            OracleError::MissingInput
            | OracleError::MissingPair
            | OracleError::UnsupportedPair(_) => ErrorKind::InvalidInput,
            OracleError::Token0Address
            | OracleError::PairAddress
            | OracleError::BlockNumber
            | OracleError::ReservesHex
            | OracleError::ReservesTooShort
            | OracleError::Slot0Hex
            | OracleError::Slot0TooShort
            | OracleError::PriceUnreadable
            | OracleError::InvalidData
            | OracleError::AbiDecode(_)
            | OracleError::ExpectedArrayToken
            | OracleError::ExpectedFourValues(_)
            | OracleError::ExpectedIntToken
            | OracleError::MalformedReveal => ErrorKind::Decode,
            OracleError::TokenMismatch
            | OracleError::PoolTokenMismatch
            | OracleError::ZeroReserve
            | OracleError::ZeroPrice
            | OracleError::DivideByZero
            | OracleError::ZeroReserves
            | OracleError::ZeroDenominator
            | OracleError::RangeError
            | OracleError::PoolNotFound
            | OracleError::NoPoolInResponse => ErrorKind::Domain,
            OracleError::ReplicationFactor
            | OracleError::RevealCount
            | OracleError::NoConsensus
            | OracleError::NoValues
            | OracleError::NoData
            | OracleError::ArityMismatch => ErrorKind::Consensus,
        }
    }

    /// The message that says what failed.
    pub open spec fn message_of(self) -> Seq<char> {
        match self {
            OracleError::MissingInput => "Missing input: pair required"@,
            OracleError::MissingPair => "Missing pair in input"@,
            OracleError::UnsupportedPair(pair) => "Unsupported pair: "@ + pair@,
            OracleError::Token0Address => "Failed to parse token0 address"@,
            OracleError::PairAddress => "Failed to parse pair address"@,
            OracleError::BlockNumber => "Invalid block number"@,
            OracleError::ReservesHex => "Failed to parse reserves hex"@,
            OracleError::ReservesTooShort => "Reserves result too short"@,
            OracleError::Slot0Hex => "Failed to parse slot0 hex"@,
            OracleError::Slot0TooShort => "slot0 result too short"@,
            OracleError::TokenMismatch => "token0 mismatch for pair"@,
            OracleError::PoolTokenMismatch => "token0 mismatch for pool"@,
            OracleError::ZeroReserve => "Base reserve is zero"@,
            OracleError::ZeroPrice => "Price is zero"@,
            OracleError::DivideByZero => "Division by zero"@,
            OracleError::ZeroReserves => "Reserves are zero"@,
            OracleError::ZeroDenominator => "AMM denominator is zero"@,
            OracleError::RangeError => "Value exceeds u128 range"@,
            OracleError::ReplicationFactor => "Invalid replication factor"@,
            OracleError::PoolNotFound => "WCRO/USDC pool not found"@,
            OracleError::RevealCount => "Invalid number of reveals"@,
            OracleError::NoPoolInResponse => "No WCRO/USDC pool found in VVS response"@,
            OracleError::PriceUnreadable => "Failed to parse WCRO/USD price"@,
            OracleError::InvalidData => "Invalid data"@,
            OracleError::AbiDecode(text) => text@,
            OracleError::ExpectedArrayToken => "Expected array token"@,
            OracleError::ExpectedFourValues(n) => "Expected 4 values, got "@ + decimal_text(
                n as nat,
            ),
            OracleError::ExpectedIntToken => "Expected int256 token"@,
            OracleError::MalformedReveal => "Failed to parse revealed prices"@,
            OracleError::NoConsensus => "No consensus among revealed results"@,
            OracleError::NoValues => "No values to aggregate"@,
            OracleError::NoData => "No valid data available for median calculation"@,
            OracleError::ArityMismatch => "Mismatched value length in reveals"@,
        }
    }

    /// The kind of the failure.
    pub fn kind(&self) -> (r: ErrorKind)
        ensures
            r == self.kind_of(),
    {
        match self {
            OracleError::MissingInput
            | OracleError::MissingPair
            | OracleError::UnsupportedPair(_) => ErrorKind::InvalidInput,
            OracleError::Token0Address
            | OracleError::PairAddress
            | OracleError::BlockNumber
            | OracleError::ReservesHex
            | OracleError::ReservesTooShort
            | OracleError::Slot0Hex
            | OracleError::Slot0TooShort
            | OracleError::PriceUnreadable
            | OracleError::InvalidData
            | OracleError::AbiDecode(_)
            | OracleError::ExpectedArrayToken
            | OracleError::ExpectedFourValues(_)
            | OracleError::ExpectedIntToken
            | OracleError::MalformedReveal => ErrorKind::Decode,
            OracleError::TokenMismatch
            | OracleError::PoolTokenMismatch
            | OracleError::ZeroReserve
            | OracleError::ZeroPrice
            | OracleError::DivideByZero
            | OracleError::ZeroReserves
            | OracleError::ZeroDenominator
            | OracleError::RangeError
            | OracleError::PoolNotFound
            | OracleError::NoPoolInResponse => ErrorKind::Domain,
            OracleError::ReplicationFactor
            | OracleError::RevealCount
            | OracleError::NoConsensus
            | OracleError::NoValues
            | OracleError::NoData
            | OracleError::ArityMismatch => ErrorKind::Consensus,
        }
    }

    /// The message that says what failed.
    pub fn message(&self) -> (r: String)
        ensures
            r@ == self.message_of(),
    {
        match self {
            OracleError::MissingInput => String::from_str("Missing input: pair required"),
            OracleError::MissingPair => String::from_str("Missing pair in input"),
            OracleError::UnsupportedPair(pair) => {
                let mut text = String::from_str("Unsupported pair: ");
                text.append(pair.as_str());
                text
            },
            OracleError::Token0Address => String::from_str("Failed to parse token0 address"),
            OracleError::PairAddress => String::from_str("Failed to parse pair address"),
            OracleError::BlockNumber => String::from_str("Invalid block number"),
            OracleError::ReservesHex => String::from_str("Failed to parse reserves hex"),
            OracleError::ReservesTooShort => String::from_str("Reserves result too short"),
            OracleError::Slot0Hex => String::from_str("Failed to parse slot0 hex"),
            OracleError::Slot0TooShort => String::from_str("slot0 result too short"),
            OracleError::TokenMismatch => String::from_str("token0 mismatch for pair"),
            OracleError::PoolTokenMismatch => String::from_str("token0 mismatch for pool"),
            OracleError::ZeroReserve => String::from_str("Base reserve is zero"),
            OracleError::ZeroPrice => String::from_str("Price is zero"),
            OracleError::DivideByZero => String::from_str("Division by zero"),
            OracleError::ZeroReserves => String::from_str("Reserves are zero"),
            OracleError::ZeroDenominator => String::from_str("AMM denominator is zero"),
            OracleError::RangeError => String::from_str("Value exceeds u128 range"),
            OracleError::ReplicationFactor => String::from_str("Invalid replication factor"),
            OracleError::PoolNotFound => String::from_str("WCRO/USDC pool not found"),
            OracleError::RevealCount => String::from_str("Invalid number of reveals"),
            OracleError::NoPoolInResponse => String::from_str(
                "No WCRO/USDC pool found in VVS response",
            ),
            OracleError::PriceUnreadable => String::from_str("Failed to parse WCRO/USD price"),
            OracleError::InvalidData => String::from_str("Invalid data"),
            OracleError::AbiDecode(text) => text.clone(),
            OracleError::ExpectedArrayToken => String::from_str("Expected array token"),
            OracleError::ExpectedFourValues(n) => {
                let mut text = String::from_str("Expected 4 values, got ");
                append_decimal(&mut text, *n);
                text
            },
            OracleError::ExpectedIntToken => String::from_str("Expected int256 token"),
            OracleError::MalformedReveal => String::from_str("Failed to parse revealed prices"),
            OracleError::NoConsensus => String::from_str(
                "No consensus among revealed results",
            ),
            OracleError::NoValues => String::from_str("No values to aggregate"),
            OracleError::NoData => String::from_str(
                "No valid data available for median calculation",
            ),
            OracleError::ArityMismatch => String::from_str("Mismatched value length in reveals"),
        }
    }
}

} // verus!
