//! 256-bit unsigned integers and the scaled-integer arithmetic built on them.
//!
//! A [`U256`] holds four 64-bit words, least significant first, the layout
//! of `ethereum_types::U256`. Construction, comparison and narrowing are
//! verified here; multiplication, division, addition and subtraction are
//! done by `ethereum_types::U256` behind wrappers whose contracts state the
//! mathematical result.

use crate::error::OracleError;
use vstd::arithmetic::power::pow;
use vstd::prelude::*;

verus! {

/// The fixed-point scale: one unit is one millionth.
pub const SCALE: u128 = 1_000_000;

/// The largest value a [`U256`] holds, `2^256 - 1`.
pub open spec fn max_value() -> nat {
    0xffff_ffff_ffff_ffff_ffff_ffff_ffff_ffff_ffff_ffff_ffff_ffff_ffff_ffff_ffff_ffffnat
}

/// The number that four 64-bit words stand for, least significant first.
#[verifier::opaque]
pub open spec fn words_value(w0: u64, w1: u64, w2: u64, w3: u64) -> nat {
    (w0 as nat) + (w1 as nat) * 0x1_0000_0000_0000_0000nat + (w2 as nat)
        * 0x1_0000_0000_0000_0000_0000_0000_0000_0000nat + (w3 as nat)
        * 0x1_0000_0000_0000_0000_0000_0000_0000_0000_0000_0000_0000_0000nat
}

/// A 256-bit unsigned integer: four 64-bit words, least significant first.
#[derive(Clone, Copy, Debug, PartialEq, Eq, Structural)]
pub struct U256 {
    pub w0: u64,
    pub w1: u64,
    pub w2: u64,
    pub w3: u64,
}

impl U256 {
    /// The mathematical value.
    pub open spec fn value(self) -> nat {
        words_value(self.w0, self.w1, self.w2, self.w3)
    }

    /// Zero.
    pub fn zero() -> (r: U256)
        ensures
            r.value() == 0,
    {
        proof {
            reveal(words_value);
        }
        U256 { w0: 0, w1: 0, w2: 0, w3: 0 }
    }

    /// One.
    pub fn one() -> (r: U256)
        ensures
            r.value() == 1,
    {
        proof {
            reveal(words_value);
        }
        U256 { w0: 1, w1: 0, w2: 0, w3: 0 }
    }

    /// The largest value, `2^256 - 1`.
    pub fn max() -> (r: U256)
        ensures
            r.value() == max_value(),
    {
        proof {
            reveal(words_value);
        }
        U256 { w0: u64::MAX, w1: u64::MAX, w2: u64::MAX, w3: u64::MAX }
    }

    /// Widens a 128-bit value.
    pub fn from_u128(v: u128) -> (r: U256)
        ensures
            r.value() == v,
    {
        proof {
            reveal(words_value);
        }
        let lo: u64 = (v & 0xffff_ffff_ffff_ffff) as u64;
        let hi: u64 = (v >> 64) as u64;
        assert((v & 0xffff_ffff_ffff_ffff) + (v >> 64) * 0x1_0000_0000_0000_0000 == v
            && (v & 0xffff_ffff_ffff_ffff) <= 0xffff_ffff_ffff_ffff
            && (v >> 64) <= 0xffff_ffff_ffff_ffff) by (bit_vector);
        U256 { w0: lo, w1: hi, w2: 0, w3: 0 }
    }

    /// Whether the value is zero.
    pub fn is_zero(&self) -> (r: bool)
        ensures
            r == (self.value() == 0),
    {
        proof {
            reveal(words_value);
        }
        self.w0 == 0 && self.w1 == 0 && self.w2 == 0 && self.w3 == 0
    }

    /// Whether the value fits in 128 bits.
    pub fn fits_u128(&self) -> (r: bool)
        ensures
            r == (self.value() <= u128::MAX),
    {
        proof {
            reveal(words_value);
        }
        self.w2 == 0 && self.w3 == 0
    }

    /// The low 128 bits.
    pub fn low_u128(&self) -> (r: u128)
        ensures
            r == self.value() % 0x1_0000_0000_0000_0000_0000_0000_0000_0000nat,
    {
        proof {
            reveal(words_value);
        }
        let lo: u128 = self.w0 as u128;
        let hi: u128 = self.w1 as u128;
        assert(hi << 64 == hi * 0x1_0000_0000_0000_0000) by (bit_vector)
            requires
                hi <= 0xffff_ffff_ffff_ffff,
        ;
        (hi << 64) + lo
    }

    /// Whether the value is below `other`.
    pub fn lt(&self, other: &U256) -> (r: bool)
        ensures
            r == (self.value() < other.value()),
    {
        proof {
            reveal(words_value);
        }
        if self.w3 != other.w3 {
            self.w3 < other.w3
        } else if self.w2 != other.w2 {
            self.w2 < other.w2
        } else if self.w1 != other.w1 {
            self.w1 < other.w1
        } else {
            self.w0 < other.w0
        }
    }

    /// Whether the value is at most `other`.
    pub fn le(&self, other: &U256) -> (r: bool)
        ensures
            r == (self.value() <= other.value()),
    {
        !other.lt(self)
    }

    /// Whether the value is `other`.
    pub fn equals(&self, other: &U256) -> (r: bool)
        ensures
            r == (self.value() == other.value()),
            r == (*self == *other),
    {
        proof {
            reveal(words_value);
        }
        self.w0 == other.w0 && self.w1 == other.w1 && self.w2 == other.w2 && self.w3 == other.w3
    }
}

/// A value never exceeds `2^256 - 1`.
pub proof fn lemma_value_bounded(a: U256)
    ensures
        a.value() <= max_value(),
{
    reveal(words_value);
}

/// A number capped at `2^256 - 1`.
pub open spec fn saturated(x: nat) -> nat {
    if x <= max_value() {
        x
    } else {
        max_value()
    }
}

/// The difference, or zero where the second number is the larger.
pub open spec fn floored_sub(a: nat, b: nat) -> nat {
    if a >= b {
        (a - b) as nat
    } else {
        0
    }
}

/// The number that bytes stand for, most significant first.
pub open spec fn be_value(bytes: Seq<u8>) -> nat
    decreases bytes.len(),
{
    if bytes.len() == 0 {
        0
    } else {
        be_value(bytes.drop_last()) * 256 + bytes.last() as nat
    }
}

/// `ethereum_types::U256::saturating_mul`: the product, or `2^256 - 1`
/// where the product does not fit in 256 bits.
#[verifier::external_body]
pub(crate) fn words_saturating_mul(a: U256, b: U256) -> (r: U256)
    ensures
        r.value() == saturated(a.value() * b.value()),
{
    let x = ethabi::ethereum_types::U256([a.w0, a.w1, a.w2, a.w3]);
    let y = ethabi::ethereum_types::U256([b.w0, b.w1, b.w2, b.w3]);
    let p = x.saturating_mul(y);
    U256 { w0: p.0[0], w1: p.0[1], w2: p.0[2], w3: p.0[3] }
}

/// `ethereum_types::U256::checked_mul`: the product where it fits in 256
/// bits, and `None` exactly where it does not.
#[verifier::external_body]
pub(crate) fn words_checked_mul(a: U256, b: U256) -> (r: Option<U256>)
    ensures
        r is Some <==> a.value() * b.value() <= max_value(),
        r matches Some(p) ==> p.value() == a.value() * b.value(),
{
    let x = ethabi::ethereum_types::U256([a.w0, a.w1, a.w2, a.w3]);
    let y = ethabi::ethereum_types::U256([b.w0, b.w1, b.w2, b.w3]);
    match x.checked_mul(y) {
        Some(p) => Some(U256 { w0: p.0[0], w1: p.0[1], w2: p.0[2], w3: p.0[3] }),
        None => None,
    }
}

/// The `*` of `ethereum_types::U256`: the product. It panics where the
/// product does not fit in 256 bits, which the precondition leaves out.
#[verifier::external_body]
pub(crate) fn words_mul(a: U256, b: U256) -> (r: U256)
    requires
        a.value() * b.value() <= max_value(),
    ensures
        r.value() == a.value() * b.value(),
{
    let x = ethabi::ethereum_types::U256([a.w0, a.w1, a.w2, a.w3]);
    let y = ethabi::ethereum_types::U256([b.w0, b.w1, b.w2, b.w3]);
    let p = x * y;
    U256 { w0: p.0[0], w1: p.0[1], w2: p.0[2], w3: p.0[3] }
}

/// The `+` of `ethereum_types::U256`: the sum. It panics where the sum
/// does not fit in 256 bits, which the precondition leaves out.
#[verifier::external_body]
pub(crate) fn words_add(a: U256, b: U256) -> (r: U256)
    requires
        a.value() + b.value() <= max_value(),
    ensures
        r.value() == a.value() + b.value(),
{
    let x = ethabi::ethereum_types::U256([a.w0, a.w1, a.w2, a.w3]);
    let y = ethabi::ethereum_types::U256([b.w0, b.w1, b.w2, b.w3]);
    let p = x + y;
    U256 { w0: p.0[0], w1: p.0[1], w2: p.0[2], w3: p.0[3] }
}

/// `ethereum_types::U256::saturating_add`: the sum, or `2^256 - 1` where
/// the sum does not fit in 256 bits.
#[verifier::external_body]
pub(crate) fn words_saturating_add(a: U256, b: U256) -> (r: U256)
    ensures
        r.value() == saturated(a.value() + b.value()),
{
    let x = ethabi::ethereum_types::U256([a.w0, a.w1, a.w2, a.w3]);
    let y = ethabi::ethereum_types::U256([b.w0, b.w1, b.w2, b.w3]);
    let p = x.saturating_add(y);
    U256 { w0: p.0[0], w1: p.0[1], w2: p.0[2], w3: p.0[3] }
}

/// `ethereum_types::U256::checked_add`: the sum where it fits in 256 bits,
/// and `None` exactly where it does not.
#[verifier::external_body]
pub(crate) fn words_checked_add(a: U256, b: U256) -> (r: Option<U256>)
    ensures
        r is Some <==> a.value() + b.value() <= max_value(),
        r matches Some(p) ==> p.value() == a.value() + b.value(),
{
    let x = ethabi::ethereum_types::U256([a.w0, a.w1, a.w2, a.w3]);
    let y = ethabi::ethereum_types::U256([b.w0, b.w1, b.w2, b.w3]);
    match x.checked_add(y) {
        Some(p) => Some(U256 { w0: p.0[0], w1: p.0[1], w2: p.0[2], w3: p.0[3] }),
        None => None,
    }
}

/// `ethereum_types::U256::saturating_sub`: the difference, or zero where
/// the second value is the larger.
#[verifier::external_body]
pub(crate) fn words_saturating_sub(a: U256, b: U256) -> (r: U256)
    ensures
        r.value() == floored_sub(a.value(), b.value()),
{
    let x = ethabi::ethereum_types::U256([a.w0, a.w1, a.w2, a.w3]);
    let y = ethabi::ethereum_types::U256([b.w0, b.w1, b.w2, b.w3]);
    let p = x.saturating_sub(y);
    U256 { w0: p.0[0], w1: p.0[1], w2: p.0[2], w3: p.0[3] }
}

/// The `/` of `ethereum_types::U256`, which is the quotient of `div_mod`:
/// the integer quotient, rounded down. It panics on a zero divisor, which
/// the precondition leaves out.
#[verifier::external_body]
pub(crate) fn words_div(a: U256, b: U256) -> (r: U256)
    requires
        b.value() != 0,
    ensures
        r.value() == a.value() / b.value(),
{
    let x = ethabi::ethereum_types::U256([a.w0, a.w1, a.w2, a.w3]);
    let y = ethabi::ethereum_types::U256([b.w0, b.w1, b.w2, b.w3]);
    let p = x / y;
    U256 { w0: p.0[0], w1: p.0[1], w2: p.0[2], w3: p.0[3] }
}

/// `ethereum_types::U256::from_big_endian`: the number that at most 32
/// bytes stand for, most significant first. It panics on a longer slice,
/// which the precondition leaves out.
#[verifier::external_body]
pub(crate) fn words_from_big_endian(bytes: &[u8]) -> (r: U256)
    requires
        bytes@.len() <= 32,
    ensures
        r.value() == be_value(bytes@),
{
    let p = ethabi::ethereum_types::U256::from_big_endian(bytes);
    U256 { w0: p.0[0], w1: p.0[1], w2: p.0[2], w3: p.0[3] }
}

impl U256 {
    /// The product, capped at `2^256 - 1`.
    pub fn saturating_mul(self, other: U256) -> (r: U256)
        ensures
            r.value() == saturated(self.value() * other.value()),
    {
        words_saturating_mul(self, other)
    }

    /// The sum, capped at `2^256 - 1`.
    pub fn saturating_add(self, other: U256) -> (r: U256)
        ensures
            r.value() == saturated(self.value() + other.value()),
    {
        words_saturating_add(self, other)
    }

    /// The difference, or zero where `other` is the larger.
    pub fn saturating_sub(self, other: U256) -> (r: U256)
        ensures
            r.value() == floored_sub(self.value(), other.value()),
    {
        words_saturating_sub(self, other)
    }

    /// The product, or `RangeError` where it does not fit in 256 bits.
    pub fn checked_mul(self, other: U256) -> (r: Result<U256, OracleError>)
        ensures
            r is Ok <==> self.value() * other.value() <= max_value(),
            r matches Ok(p) ==> p.value() == self.value() * other.value(),
            r matches Err(e) ==> e == OracleError::RangeError,
    {
        match words_checked_mul(self, other) {
            Some(p) => Ok(p),
            None => Err(OracleError::RangeError),
        }
    }

    /// The sum, or `RangeError` where it does not fit in 256 bits.
    pub fn checked_add(self, other: U256) -> (r: Result<U256, OracleError>)
        ensures
            r is Ok <==> self.value() + other.value() <= max_value(),
            r matches Ok(p) ==> p.value() == self.value() + other.value(),
            r matches Err(e) ==> e == OracleError::RangeError,
    {
        match words_checked_add(self, other) {
            Some(p) => Ok(p),
            None => Err(OracleError::RangeError),
        }
    }

    /// The integer quotient, rounded down, or `DivideByZero`.
    pub fn checked_div(self, other: U256) -> (r: Result<U256, OracleError>)
        ensures
            r is Ok <==> other.value() != 0,
            r matches Ok(q) ==> q.value() == self.value() / other.value(),
            r matches Err(e) ==> e == OracleError::DivideByZero,
    {
        if other.is_zero() {
            Err(OracleError::DivideByZero)
        } else {
            Ok(words_div(self, other))
        }
    }
}

/// Ten to the power `exp`, capped at `2^256 - 1`.
pub fn pow10_u256(exp: u32) -> (r: U256)
    ensures
        r.value() == saturated(pow(10, exp as nat) as nat),
{
    let mut value = U256::one();
    let ten = U256::from_u128(10);
    let mut i: u32 = 0;
    proof {
        vstd::arithmetic::power::lemma_pow0(10);
    }
    while i < exp
        invariant
            i <= exp,
            ten.value() == 10,
            value.value() == saturated(pow(10, i as nat) as nat),
        decreases exp - i,
    {
        proof {
            vstd::arithmetic::power::lemma_pow_positive(10, i as nat);
            vstd::arithmetic::power::lemma_pow_adds(10, i as nat, 1);
            vstd::arithmetic::power::lemma_pow1(10);
        }
        value = words_saturating_mul(value, ten);
        i = i + 1;
    }
    value
}

/// Narrows to 128 bits, or fails with `RangeError` where the value does
/// not fit.
pub fn u256_to_u128(value: U256) -> (r: Result<u128, OracleError>)
    ensures
        r is Ok <==> value.value() <= u128::MAX,
        r matches Ok(v) ==> v == value.value(),
        r matches Err(e) ==> e == OracleError::RangeError,
{
    if !value.fits_u128() {
        return Err(OracleError::RangeError);
    }
    Ok(value.low_u128())
}

/// Reads at most 32 bytes as a big-endian number, as if padded with zero
/// bytes on the left.
pub fn u256_from_be_slice(slice: &[u8]) -> (r: U256)
    requires
        slice@.len() <= 32,
    ensures
        r.value() == be_value(slice@),
{
    words_from_big_endian(slice)
}

/// Narrows a value that fits in 128 bits.
pub fn to_u128(value: U256) -> (r: u128)
    requires
        value.value() <= u128::MAX,
    ensures
        r == value.value(),
{
    proof {
        reveal(words_value);
    }
    value.low_u128()
}

} // verus!
