//! The aggregation of the reveals of many nodes into one result: the
//! median of each field over the reveals that decode.
//!
//! A reveal that does not decode is left out; it never stops the others.
//! Where none decodes there is no consensus, and no result.

use crate::abi::{
    abi_decode_int_array, abi_decoded, abi_encode, abi_error_text, has_head_in_bounds,
    head_in_bounds, int_array_encoding, int_shapes, lemma_array_encoding_head, shapes_of, AbiItem,
    AbiToken, AbiValue, ItemShape, TokenShape,
};
use crate::error::OracleError;
use crate::median::{
    column, median_each_field, median_of, median_u128, numbers_of, same_arity, values_of,
};
use crate::uint256::U256;
use vstd::prelude::*;

verus! {

/// The number of fields of a reveal: fair price, confidence, largest safe
/// size and flags.
pub const REVEAL_FIELDS: usize = 4;

/// Whether every item is an integer.
pub open spec fn all_ints(items: Seq<ItemShape>) -> bool {
    forall|i: int| 0 <= i < items.len() ==> (#[trigger] items[i]) is Int
}

/// The numbers of items that are all integers.
pub open spec fn int_values(items: Seq<ItemShape>) -> Seq<nat> {
    Seq::new(items.len(), |i: int| items[i]->Int_0)
}

/// The fields that decoded tokens stand for. The first token must be an
/// array, else `ExpectedArrayToken`; of exactly four values, else
/// `ExpectedFourValues` with their number; each an integer, else
/// `ExpectedIntToken`.
pub open spec fn reveal_fields(tokens: Seq<TokenShape>) -> Result<Seq<nat>, OracleError> {
    if tokens.len() == 0 || !(tokens[0] is Array) {
        Err(OracleError::ExpectedArrayToken)
    } else if tokens[0]->Array_0.len() != REVEAL_FIELDS {
        Err(OracleError::ExpectedFourValues(tokens[0]->Array_0.len() as usize))
    } else if !all_ints(tokens[0]->Array_0) {
        Err(OracleError::ExpectedIntToken)
    } else {
        Ok(int_values(tokens[0]->Array_0))
    }
}

/// The fields that decoded tokens stand for, or `None` where the first
/// token is not an array of exactly four integers.
pub open spec fn reveal_values(tokens: Seq<TokenShape>) -> Option<Seq<nat>> {
    match reveal_fields(tokens) {
        Ok(fields) => Some(fields),
        Err(_) => None,
    }
}

/// The fields that a reveal stands for, or `None` where its first word
/// points beyond it or it does not decode to an array of exactly four
/// integers.
pub open spec fn decoded_reveal(bytes: Seq<u8>) -> Option<Seq<nat>> {
    if head_in_bounds(bytes) {
        match abi_decoded(bytes) {
            Some(tokens) => reveal_values(tokens),
            None => None,
        }
    } else {
        None
    }
}

/// The fields of the reveals that decode, in the order of the reveals.
pub open spec fn accepted_rows(reveals: Seq<Vec<u8>>) -> Seq<Seq<nat>>
    decreases reveals.len(),
{
    if reveals.len() == 0 {
        Seq::empty()
    } else {
        let earlier = accepted_rows(reveals.drop_last());
        match decoded_reveal(reveals.last()@) {
            Some(fields) => earlier.push(fields),
            None => earlier,
        }
    }
}

/// Field `k` of every row, in the order of the rows.
pub open spec fn field(rows: Seq<Seq<nat>>, k: int) -> Seq<nat> {
    Seq::new(rows.len(), |i: int| rows[i][k])
}

/// The median of each of the four fields over the rows.
pub open spec fn field_medians(rows: Seq<Seq<nat>>) -> Seq<nat> {
    Seq::new(REVEAL_FIELDS as nat, |k: int| median_of(field(rows, k)))
}

/// A reveal that does not decode changes nothing: the reveals with it
/// among them give the rows that they give without it.
pub proof fn lemma_undecodable_reveal_is_left_out(
    before: Seq<Vec<u8>>,
    reveal: Vec<u8>,
    after: Seq<Vec<u8>>,
)
    requires
        decoded_reveal(reveal@) is None,
    ensures
        accepted_rows(before.push(reveal) + after) == accepted_rows(before + after),
    decreases after.len(),
{
    if after.len() == 0 {
        assert(before.push(reveal) + after =~= before.push(reveal));
        assert(before + after =~= before);
        assert(before.push(reveal).drop_last() =~= before);
    } else {
        lemma_undecodable_reveal_is_left_out(before, reveal, after.drop_last());
        assert((before.push(reveal) + after).drop_last() =~= before.push(reveal)
            + after.drop_last());
        assert((before + after).drop_last() =~= before + after.drop_last());
    }
}

/// The fields that decoded tokens stand for.
pub fn values_from_tokens(tokens: &Vec<AbiToken>) -> (r: Result<Vec<U256>, OracleError>)
    ensures
        match reveal_fields(shapes_of(tokens@)) {
            Ok(fields) => r matches Ok(v) && values_of(v@) == fields,
            Err(e) => r == Err::<Vec<U256>, OracleError>(e),
        },
{
    if tokens.len() == 0 {
        return Err(OracleError::ExpectedArrayToken);
    }
    let items = match &tokens[0] {
        AbiToken::Array(items) => items,
        AbiToken::Other => {
            return Err(OracleError::ExpectedArrayToken);
        },
    };
    let ghost shapes = shapes_of(tokens@)[0]->Array_0;
    assert(shapes.len() == items@.len());
    if items.len() != REVEAL_FIELDS {
        return Err(OracleError::ExpectedFourValues(items.len()));
    }
    let mut values: Vec<U256> = Vec::new();
    let mut i: usize = 0;
    while i < items.len()
        invariant
            i <= items.len(),
            values@.len() == i,
            tokens@.len() > 0,
            shapes_of(tokens@)[0] is Array,
            shapes == shapes_of(tokens@)[0]->Array_0,
            items@.len() == REVEAL_FIELDS,
            shapes.len() == items@.len(),
            forall|k: int| 0 <= k < shapes.len() ==> shapes[k] == items@[k].shape(),
            forall|k: int| 0 <= k < i ==> (#[trigger] shapes[k]) is Int,
            forall|k: int| 0 <= k < i ==> (#[trigger] values@[k]).value() == shapes[k]->Int_0,
        decreases items.len() - i,
    {
        match items[i] {
            AbiItem::Int(v) => {
                values.push(v);
            },
            AbiItem::Other => {
                assert(!(shapes[i as int] is Int));
                return Err(OracleError::ExpectedIntToken);
            },
        }
        i = i + 1;
    }
    assert(values_of(values@) =~= int_values(shapes));
    Ok(values)
}

/// The four fields of a reveal.
///
/// It fails with `InvalidData` where the first word of the reveal does
/// not hold the offset of a word within it, with `AbiDecode` and the
/// decoder's words where the reveal does not decode, and as
/// [`values_from_tokens`] does where it decodes to something else than an
/// array of four integers.
pub fn decode_values(bytes: &[u8]) -> (r: Result<Vec<U256>, OracleError>)
    ensures
        match decoded_reveal(bytes@) {
            Some(fields) => r matches Ok(v) && values_of(v@) == fields,
            None => r is Err,
        },
        !head_in_bounds(bytes@) ==> r == Err::<Vec<U256>, OracleError>(OracleError::InvalidData),
        head_in_bounds(bytes@) ==> match abi_decoded(bytes@) {
            None => r matches Err(OracleError::AbiDecode(_)),
            Some(tokens) => match reveal_fields(tokens) {
                Ok(fields) => r matches Ok(v) && values_of(v@) == fields,
                Err(e) => r == Err::<Vec<U256>, OracleError>(e),
            },
        },
        r matches Ok(v) ==> v@.len() == REVEAL_FIELDS,
{
    if !has_head_in_bounds(bytes) {
        return Err(OracleError::InvalidData);
    }
    let tokens = match abi_decode_int_array(bytes) {
        Ok(tokens) => tokens,
        Err(error) => {
            return Err(OracleError::AbiDecode(abi_error_text(&error)));
        },
    };
    let r = values_from_tokens(&tokens);
    proof {
        if r is Ok {
            assert(values_of(r->Ok_0@).len() == r->Ok_0@.len());
        }
    }
    r
}

/// The median of each field over the reveals that decode, or
/// `NoConsensus` where none does.
pub fn aggregate(reveals: &Vec<Vec<u8>>) -> (r: Result<Vec<U256>, OracleError>)
    ensures
        accepted_rows(reveals@).len() == 0 ==> r == Err::<Vec<U256>, OracleError>(
            OracleError::NoConsensus,
        ),
        accepted_rows(reveals@).len() > 0 ==> (r matches Ok(m) && values_of(m@) == field_medians(
            accepted_rows(reveals@),
        )),
{
    let mut rows: Vec<Vec<U256>> = Vec::new();
    let mut i: usize = 0;
    assert(reveals@.subrange(0, 0) =~= Seq::<Vec<u8>>::empty());
    while i < reveals.len()
        invariant
            i <= reveals.len(),
            rows@.len() == accepted_rows(reveals@.subrange(0, i as int)).len(),
            forall|k: int|
                0 <= k < rows@.len() ==> values_of((#[trigger] rows@[k])@) == accepted_rows(
                    reveals@.subrange(0, i as int),
                )[k],
            forall|k: int| 0 <= k < rows@.len() ==> (#[trigger] rows@[k])@.len() == REVEAL_FIELDS,
        decreases reveals.len() - i,
    {
        assert(reveals@.subrange(0, i + 1).drop_last() =~= reveals@.subrange(0, i as int));
        assert(reveals@.subrange(0, i + 1).last() == reveals@[i as int]);
        match decode_values(reveals[i].as_slice()) {
            Ok(values) => {
                rows.push(values);
            },
            Err(_) => {},
        }
        i = i + 1;
    }
    assert(reveals@.subrange(0, i as int) =~= reveals@);
    if rows.len() == 0 {
        return Err(OracleError::NoConsensus);
    }
    let ghost accepted = accepted_rows(reveals@);
    assert(same_arity(rows@));
    let medians = match median_each_field(rows.as_slice()) {
        Ok(medians) => medians,
        Err(e) => {
            return Err(e);
        },
    };
    proof {
        assert forall|k: int| 0 <= k < REVEAL_FIELDS implies column(rows@, k) == field(
            accepted,
            k,
        ) by {
            assert forall|j: int| 0 <= j < rows@.len() implies rows@[j]@[k].value()
                == accepted[j][k] by {
                assert(values_of(rows@[j]@)[k] == accepted[j][k]);
            }
            assert(column(rows@, k) =~= field(accepted, k));
        }
        assert(values_of(medians@) =~= field_medians(accepted));
    }
    Ok(medians)
}

/// The result of the aggregation as it is published: the encoding, as an
/// array of `int256`, of the median of each field over the reveals that
/// decode. Where no reveal decodes it is `NoConsensus`. What is published
/// reads as a reveal of the four medians.
pub fn tally_phase(reveals: &Vec<Vec<u8>>) -> (r: Result<Vec<u8>, OracleError>)
    ensures
        accepted_rows(reveals@).len() == 0 ==> r == Err::<Vec<u8>, OracleError>(
            OracleError::NoConsensus,
        ),
        accepted_rows(reveals@).len() > 0 ==> (r matches Ok(bytes) && bytes@ == int_array_encoding(
            field_medians(accepted_rows(reveals@)),
        ) && decoded_reveal(bytes@) == Some(field_medians(accepted_rows(reveals@)))),
{
    let medians = match aggregate(reveals) {
        Ok(medians) => medians,
        Err(e) => {
            return Err(e);
        },
    };
    let ghost fields = field_medians(accepted_rows(reveals@));
    assert(values_of(medians@).len() == medians@.len());
    let value = AbiValue::IntArray(medians);
    let bytes = abi_encode(&value);
    proof {
        lemma_array_encoding_head(fields);
        let shapes = int_shapes(fields);
        assert(all_ints(shapes));
        assert(int_values(shapes) =~= fields);
    }
    Ok(bytes)
}

/// The number that bytes stand for, least significant first.
pub open spec fn le_value(bytes: Seq<u8>) -> nat
    decreases bytes.len(),
{
    if bytes.len() == 0 {
        0
    } else {
        bytes[0] as nat + 256 * le_value(bytes.drop_first())
    }
}

/// The value that a reveal of a single value stands for: exactly 16
/// bytes, least significant first.
pub open spec fn decoded_scalar(bytes: Seq<u8>) -> Option<nat> {
    if bytes.len() == 16 {
        Some(le_value(bytes))
    } else {
        None
    }
}

/// The values of the reveals that decode, in the order of the reveals.
pub open spec fn accepted_scalars(reveals: Seq<Vec<u8>>) -> Seq<nat>
    decreases reveals.len(),
{
    if reveals.len() == 0 {
        Seq::empty()
    } else {
        let earlier = accepted_scalars(reveals.drop_last());
        match decoded_scalar(reveals.last()@) {
            Some(value) => earlier.push(value),
            None => earlier,
        }
    }
}

/// The value of a reveal of a single value, or `MalformedReveal` where it
/// is not 16 bytes long.
pub fn decode_scalar(bytes: &[u8]) -> (r: Result<u128, OracleError>)
    ensures
        match decoded_scalar(bytes@) {
            Some(value) => r == Ok::<u128, OracleError>(value as u128) && value <= u128::MAX,
            None => r == Err::<u128, OracleError>(OracleError::MalformedReveal),
        },
{
    if bytes.len() != 16 {
        return Err(OracleError::MalformedReveal);
    }
    let mut acc: u128 = 0;
    let mut i: usize = 16;
    assert(bytes@.subrange(16, 16) =~= Seq::<u8>::empty());
    while i > 0
        invariant
            i <= 16,
            bytes@.len() == 16,
            acc == le_value(bytes@.subrange(i as int, 16)),
            acc <= (u128::MAX >> ((8 * i) as u128)),
        decreases i,
    {
        let b = bytes[i - 1];
        proof {
            let shift = (8 * i) as u128;
            let less = (8 * (i - 1)) as u128;
            assert((acc << 8) + (b as u128) <= (u128::MAX >> less) && (acc << 8) == acc * 256)
                by (bit_vector)
                requires
                    acc <= (u128::MAX >> shift),
                    8 <= shift <= 128,
                    less == shift - 8,
                    b <= 255,
            ;
            assert(bytes@.subrange(i - 1, 16).drop_first() =~= bytes@.subrange(i as int, 16));
        }
        acc = acc * 256 + b as u128;
        i = i - 1;
    }
    assert(bytes@.subrange(0, 16) =~= bytes@);
    Ok(acc)
}

/// The result, as it is published, of the aggregation of reveals of a
/// single value: the encoding, as an array of one `int256`, of the median
/// of the reveals that decode. Where none decodes it is `NoConsensus`.
pub fn tally_scalars(reveals: &Vec<Vec<u8>>) -> (r: Result<Vec<u8>, OracleError>)
    ensures
        accepted_scalars(reveals@).len() == 0 ==> r == Err::<Vec<u8>, OracleError>(
            OracleError::NoConsensus,
        ),
        accepted_scalars(reveals@).len() > 0 ==> (r matches Ok(bytes) && bytes@
            == int_array_encoding(seq![median_of(accepted_scalars(reveals@))])),
{
    let mut values: Vec<u128> = Vec::new();
    let mut i: usize = 0;
    assert(reveals@.subrange(0, 0) =~= Seq::<Vec<u8>>::empty());
    while i < reveals.len()
        invariant
            i <= reveals.len(),
            numbers_of(values@) == accepted_scalars(reveals@.subrange(0, i as int)),
        decreases reveals.len() - i,
    {
        assert(reveals@.subrange(0, i + 1).drop_last() =~= reveals@.subrange(0, i as int));
        assert(reveals@.subrange(0, i + 1).last() == reveals@[i as int]);
        let ghost before = numbers_of(values@);
        match decode_scalar(reveals[i].as_slice()) {
            Ok(value) => {
                values.push(value);
                assert(numbers_of(values@) =~= before.push(value as nat));
            },
            Err(_) => {},
        }
        i = i + 1;
    }
    assert(reveals@.subrange(0, i as int) =~= reveals@);
    assert(numbers_of(values@).len() == values@.len());
    if values.len() == 0 {
        return Err(OracleError::NoConsensus);
    }
    let price = match median_u128(values.as_slice()) {
        Ok(price) => price,
        Err(e) => {
            return Err(e);
        },
    };
    let mut medians: Vec<U256> = Vec::new();
    medians.push(U256::from_u128(price));
    assert(values_of(medians@) =~= seq![median_of(accepted_scalars(reveals@))]);
    Ok(abi_encode(&AbiValue::IntArray(medians)))
}

} // verus!
