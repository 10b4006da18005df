//! The contract ABI encoding of the values that cross the node boundary.
//!
//! Encoding and decoding are done by `ethabi`. What is decoded arrives as
//! [`AbiToken`]s, which hold what the aggregation reads of `ethabi::Token`;
//! what is encoded is an [`AbiValue`].

use crate::median::values_of;
use crate::uint256::{be_value, U256};
use vstd::arithmetic::power::pow;
use vstd::prelude::*;

verus! {

/// An element of a decoded array, as far as the aggregation reads it.
#[derive(Clone, Copy, Debug)]
pub enum AbiItem {
    /// A signed 256-bit integer, held as its 256 bits.
    Int(U256),
    /// Anything else.
    Other,
}

/// A decoded token, as far as the aggregation reads it.
#[derive(Debug)]
pub enum AbiToken {
    /// A dynamic array.
    Array(Vec<AbiItem>),
    /// Anything else.
    Other,
}

/// What an [`AbiItem`] holds.
pub enum ItemShape {
    Int(nat),
    Other,
}

/// What an [`AbiToken`] holds.
pub enum TokenShape {
    Array(Seq<ItemShape>),
    Other,
}

impl AbiItem {
    pub open spec fn shape(self) -> ItemShape {
        match self {
            AbiItem::Int(v) => ItemShape::Int(v.value()),
            AbiItem::Other => ItemShape::Other,
        }
    }
}

impl AbiToken {
    pub open spec fn shape(self) -> TokenShape {
        match self {
            AbiToken::Array(items) => TokenShape::Array(
                Seq::new(items@.len(), |i: int| items@[i].shape()),
            ),
            AbiToken::Other => TokenShape::Other,
        }
    }
}

/// The shapes of integers.
pub open spec fn int_shapes(values: Seq<nat>) -> Seq<ItemShape> {
    Seq::new(values.len(), |i: int| ItemShape::Int(values[i]))
}

/// What a sequence of tokens holds.
pub open spec fn shapes_of(tokens: Seq<AbiToken>) -> Seq<TokenShape> {
    Seq::new(tokens.len(), |i: int| tokens[i].shape())
}

/// A value to encode.
#[derive(Debug)]
pub enum AbiValue {
    /// A single `uint256`.
    Uint(U256),
    /// A dynamic array of `int256`.
    IntArray(Vec<U256>),
}

/// The 32 bytes of a number below `2^256`, most significant first.
pub open spec fn be_word(v: nat) -> Seq<u8> {
    Seq::new(32, |i: int| ((v / (pow(256, (31 - i) as nat) as nat)) % 256) as u8)
}

/// The words of the numbers, one after the other.
pub open spec fn be_words(values: Seq<nat>) -> Seq<u8>
    decreases values.len(),
{
    if values.len() == 0 {
        Seq::empty()
    } else {
        be_words(values.drop_last()) + be_word(values.last())
    }
}

/// The encoding of an array as the only argument of a call: the offset of
/// its data, 32, then its length, then the word of each element.
pub open spec fn int_array_encoding(values: Seq<nat>) -> Seq<u8> {
    be_word(32) + be_word(values.len()) + be_words(values)
}

/// The encoding of a value as the only argument of a call: a `uint256` is
/// its word, an array its array encoding.
pub open spec fn encoding_of(value: AbiValue) -> Seq<u8> {
    match value {
        AbiValue::Uint(v) => be_word(v.value()),
        AbiValue::IntArray(items) => int_array_encoding(values_of(items@)),
    }
}

/// Whether the encoder's 32-bit lengths can hold the value's size.
pub open spec fn encodable(value: AbiValue) -> bool {
    match value {
        AbiValue::Uint(_) => true,
        AbiValue::IntArray(items) => 64 + 32 * items@.len() <= u32::MAX,
    }
}

/// The offset that the first word of a payload holds: the number of its
/// last four bytes, where the payload holds a word and the 28 bytes before
/// them are zero.
pub open spec fn head_offset(bytes: Seq<u8>) -> Option<nat> {
    if bytes.len() >= 32 && (forall|i: int| 0 <= i < 28 ==> #[trigger] bytes[i] == 0) {
        Some(be_value(bytes.subrange(28, 32)))
    } else {
        None
    }
}

/// Whether a payload begins with the offset of a word that lies within
/// it.
pub open spec fn head_in_bounds(bytes: Seq<u8>) -> bool {
    head_offset(bytes) matches Some(offset) && offset + 32 <= bytes.len()
}

/// Whether a payload begins with the offset of a word that lies within
/// it.
pub fn has_head_in_bounds(bytes: &[u8]) -> (r: bool)
    ensures
        r == head_in_bounds(bytes@),
{
    if bytes.len() < 32 {
        return false;
    }
    let mut i: usize = 0;
    while i < 28
        invariant
            i <= 28,
            bytes@.len() >= 32,
            forall|k: int| 0 <= k < i ==> #[trigger] bytes@[k] == 0,
        decreases 28 - i,
    {
        if bytes[i] != 0 {
            return false;
        }
        i = i + 1;
    }
    let offset: u64 = (bytes[28] as u64) * 0x100_0000 + (bytes[29] as u64) * 0x1_0000 + (
    bytes[30] as u64) * 0x100 + (bytes[31] as u64);
    proof {
        let word = bytes@.subrange(28, 32);
        reveal_with_fuel(be_value, 5);
        assert(word.drop_last() =~= bytes@.subrange(28, 31));
        assert(word.drop_last().drop_last() =~= bytes@.subrange(28, 30));
        assert(word.drop_last().drop_last().drop_last() =~= bytes@.subrange(28, 29));
        assert(word.drop_last().drop_last().drop_last().drop_last() =~= Seq::<u8>::empty());
        assert(be_value(word) == offset);
    }
    let length = bytes.len() as u64;
    offset + 32 <= length
}

/// The encoding of an array begins with the offset of a word that lies
/// within it.
pub proof fn lemma_array_encoding_head(values: Seq<nat>)
    ensures
        head_in_bounds(int_array_encoding(values)),
{
    let bytes = int_array_encoding(values);
    let head = be_word(32);
    assert(bytes.len() >= 64);
    assert forall|i: int| 0 <= i < 32 implies #[trigger] bytes[i] == head[i] by {}
    assert forall|i: int| 0 <= i < 31 implies #[trigger] head[i] == 0 by {
        let k = (31 - i) as nat;
        vstd::arithmetic::power::lemma_pow1(256);
        vstd::arithmetic::power::lemma_pow_increases(256, 1, k);
        vstd::arithmetic::div_mod::lemma_basic_div(32, pow(256, k));
    }
    assert(head[31] == 32) by {
        vstd::arithmetic::power::lemma_pow0(256);
        assert(pow(256, (31 - 31) as nat) == 1);
        assert(32nat / 1 == 32);
    }
    let word = bytes.subrange(28, 32);
    reveal_with_fuel(be_value, 5);
    assert(word.drop_last() =~= bytes.subrange(28, 31));
    assert(word.drop_last().drop_last() =~= bytes.subrange(28, 30));
    assert(word.drop_last().drop_last().drop_last() =~= bytes.subrange(28, 29));
    assert(word.drop_last().drop_last().drop_last().drop_last() =~= Seq::<u8>::empty());
    assert(be_value(word) == 32);
}

/// The error of `ethabi`.
#[verifier::external_type_specification]
#[verifier::external_body]
pub struct ExAbiError(ethabi::Error);

/// What `ethabi::decode` returns for the one parameter type `int256[]`:
/// the shapes of the tokens, or `None` where it fails.
pub uninterp spec fn abi_decoded(bytes: Seq<u8>) -> Option<Seq<TokenShape>>;

/// `ethabi::decode` with the one parameter type `int256[]`. The result
/// depends on the bytes alone.
///
/// The decoder adds 32 to the offset in the first word of the payload
/// without a test, which can exceed what a 32-bit machine counts; the
/// precondition leaves out the payloads whose offset points beyond them.
#[verifier::external_body]
pub(crate) fn abi_decode_int_array(bytes: &[u8]) -> (r: Result<Vec<AbiToken>, ethabi::Error>)
    requires
        head_in_bounds(bytes@),
    ensures
        r matches Ok(tokens) ==> abi_decoded(bytes@) == Some(shapes_of(tokens@)),
        r is Err ==> abi_decoded(bytes@) is None,
{
    let kinds = [ethabi::ParamType::Array(Box::new(ethabi::ParamType::Int(256)))];
    let tokens = ethabi::decode(&kinds, bytes)?;
    Ok(tokens.into_iter().map(|token| match token {
        ethabi::Token::Array(items) => AbiToken::Array(items.into_iter().map(|item| match item {
            ethabi::Token::Int(v) => AbiItem::Int(U256 { w0: v.0[0], w1: v.0[1], w2: v.0[2], w3: v.0[3] }),
            _ => AbiItem::Other,
        }).collect()),
        _ => AbiToken::Other,
    }).collect())
}

/// The `to_string` of `ethabi::Error`: what the decoder says of a failure.
#[verifier::external_body]
pub(crate) fn abi_error_text(error: &ethabi::Error) -> (r: String) {
    error.to_string()
}

/// `ethabi::encode` of one token: `Token::Uint` for a single value, and
/// `Token::Array` of `Token::Int` for an array. The encoder counts bytes
/// in 32 bits; the precondition leaves out what it cannot count. What it
/// makes of an array, `ethabi::decode` reads as that array.
#[verifier::external_body]
pub(crate) fn abi_encode(value: &AbiValue) -> (r: Vec<u8>)
    requires
        encodable(*value),
    ensures
        r@ == encoding_of(*value),
        *value matches AbiValue::IntArray(items) ==> abi_decoded(r@) == Some(
            seq![TokenShape::Array(int_shapes(values_of(items@)))],
        ),
{
    let token = match value {
        AbiValue::Uint(v) => ethabi::Token::Uint(ethabi::ethereum_types::U256([v.w0, v.w1, v.w2, v.w3])),
        AbiValue::IntArray(items) => ethabi::Token::Array(items.iter().map(|v| {
            ethabi::Token::Int(ethabi::ethereum_types::U256([v.w0, v.w1, v.w2, v.w3]))
        }).collect()),
    };
    ethabi::encode(&[token])
}

} // verus!
