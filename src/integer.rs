//! Arbitrary-precision integers held as two's-complement little-endian bytes.
//! The arithmetic itself is done by `num_bigint`.
use num_bigint::BigInt;
use vstd::prelude::*;

verus! {

/// Unsigned value of little-endian bytes.
pub open spec fn unsigned_le(b: Seq<u8>) -> nat
    decreases b.len(),
{
    if b.len() == 0 {
        0
    } else {
        b[0] as nat + 256 * unsigned_le(b.drop_first())
    }
}

/// 256 to the power `n`.
pub open spec fn pow256(n: nat) -> nat
    decreases n,
{
    if n == 0 {
        1
    } else {
        256 * pow256((n - 1) as nat)
    }
}

/// Value of two's-complement little-endian bytes; no bytes stand for zero.
pub open spec fn signed_le(b: Seq<u8>) -> int {
    if b.len() > 0 && b.last() >= 128 {
        unsigned_le(b) - pow256(b.len())
    } else {
        unsigned_le(b) as int
    }
}

/// An exact integer of any size.
#[derive(Debug)]
pub struct Int {
    pub bytes: Vec<u8>,
}

impl Int {
    /// The integer that `self` stands for.
    pub open spec fn value(&self) -> int {
        signed_le(self.bytes@)
    }

    /// The integer `n`.
    pub fn from_i64(n: i64) -> (r: Int)
        ensures
            r.value() == n,
    {
        int_from_i64(n)
    }
}

/// Relies on `BigInt::from` and `BigInt::to_signed_bytes_le`: the bytes of a
/// machine integer.
#[verifier::external_body]
pub(crate) fn int_from_i64(n: i64) -> (r: Int)
    ensures
        r.value() == n,
{
    Int { bytes: BigInt::from(n).to_signed_bytes_le() }
}

/// Relies on `BigInt + BigInt` (with the byte conversions of `BigInt`): the
/// exact sum.
#[verifier::external_body]
pub(crate) fn int_add(a: &Int, b: &Int) -> (r: Int)
    ensures
        r.value() == a.value() + b.value(),
{
    let s = BigInt::from_signed_bytes_le(&a.bytes) + BigInt::from_signed_bytes_le(&b.bytes);
    Int { bytes: s.to_signed_bytes_le() }
}

/// Relies on `BigInt - BigInt` (with the byte conversions of `BigInt`): the
/// exact difference.
#[verifier::external_body]
pub(crate) fn int_sub(a: &Int, b: &Int) -> (r: Int)
    ensures
        r.value() == a.value() - b.value(),
{
    let s = BigInt::from_signed_bytes_le(&a.bytes) - BigInt::from_signed_bytes_le(&b.bytes);
    Int { bytes: s.to_signed_bytes_le() }
}

/// Relies on `BigInt * BigInt` (with the byte conversions of `BigInt`): the
/// exact product.
#[verifier::external_body]
pub(crate) fn int_mul(a: &Int, b: &Int) -> (r: Int)
    ensures
        r.value() == a.value() * b.value(),
{
    let s = BigInt::from_signed_bytes_le(&a.bytes) * BigInt::from_signed_bytes_le(&b.bytes);
    Int { bytes: s.to_signed_bytes_le() }
}

/// Relies on `Zero::is_zero` of `BigInt`.
#[verifier::external_body]
pub(crate) fn int_is_zero(a: &Int) -> (r: bool)
    ensures
        r == (a.value() == 0),
{
    num_traits::Zero::is_zero(&BigInt::from_signed_bytes_le(&a.bytes))
}

} // verus!
