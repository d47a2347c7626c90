//! Fixed-width unsigned decoding of byte buffers under a byte-order policy,
//! and byte-sequence repetition.
//!
//! The selector is one of the case-sensitive strings `native`, `little`,
//! `big`; any other selector is reported as `UnknownByteOrder`. The buffer
//! must hold exactly the width of the requested integer: 4, 8 or 16 bytes.

use vstd::prelude::*;

use byteorder::BigEndian;
use byteorder::ByteOrder;
use byteorder::LittleEndian;
use byteorder::NativeEndian;

use crate::error::Error;
use crate::str_utils::str_eq;
use crate::vec_utils::repeated;

verus! {

/// The unsigned value of `bytes` read least-significant byte first.
pub open spec fn le_value(bytes: Seq<u8>) -> nat
    decreases bytes.len(),
{
    if bytes.len() == 0 {
        0
    } else {
        (bytes.first() + 256 * le_value(bytes.drop_first())) as nat
    }
}

/// The unsigned value of `bytes` read most-significant byte first.
pub open spec fn be_value(bytes: Seq<u8>) -> nat
    decreases bytes.len(),
{
    if bytes.len() == 0 {
        0
    } else {
        (256 * be_value(bytes.drop_last()) + bytes.last()) as nat
    }
}

/// The three selector strings are pairwise distinct: they already differ in
/// their first character.
proof fn selectors_distinct()
    ensures
        "native"@ != "little"@,
        "native"@ != "big"@,
        "little"@ != "big"@,
{
    reveal_strlit("native");
    reveal_strlit("little");
    reveal_strlit("big");
    assert("native"@[0] == 'n');
    assert("little"@[0] == 'l');
    assert("big"@[0] == 'b');
}

/// Relies on `byteorder::LittleEndian::read_u32`: the four bytes as a
/// little-endian unsigned integer (`u32::from_le_bytes` in its source).
#[verifier::external_body]
fn read_u32_le(bytes: &[u8]) -> (r: u32)
    requires
        bytes@.len() == 4,
    ensures
        r == le_value(bytes@),
{
    LittleEndian::read_u32(bytes)
}

/// Relies on `byteorder::BigEndian::read_u32`: the four bytes as a
/// big-endian unsigned integer (`u32::from_be_bytes` in its source).
#[verifier::external_body]
fn read_u32_be(bytes: &[u8]) -> (r: u32)
    requires
        bytes@.len() == 4,
    ensures
        r == be_value(bytes@),
{
    BigEndian::read_u32(bytes)
}

/// Relies on `byteorder::NativeEndian::read_u32`: an alias for the little- or
/// big-endian read, whichever the machine uses, so only the disjunction is
/// promised.
#[verifier::external_body]
fn read_u32_ne(bytes: &[u8]) -> (r: u32)
    requires
        bytes@.len() == 4,
    ensures
        r == le_value(bytes@) || r == be_value(bytes@),
{
    NativeEndian::read_u32(bytes)
}

/// Relies on `byteorder::LittleEndian::read_u64`: the eight bytes as a
/// little-endian unsigned integer (`u64::from_le_bytes` in its source).
#[verifier::external_body]
fn read_u64_le(bytes: &[u8]) -> (r: u64)
    requires
        bytes@.len() == 8,
    ensures
        r == le_value(bytes@),
{
    LittleEndian::read_u64(bytes)
}

/// Relies on `byteorder::BigEndian::read_u64`: the eight bytes as a
/// big-endian unsigned integer (`u64::from_be_bytes` in its source).
#[verifier::external_body]
fn read_u64_be(bytes: &[u8]) -> (r: u64)
    requires
        bytes@.len() == 8,
    ensures
        r == be_value(bytes@),
{
    BigEndian::read_u64(bytes)
}

/// Relies on `byteorder::NativeEndian::read_u64`: an alias for the little- or
/// big-endian read, whichever the machine uses, so only the disjunction is
/// promised.
#[verifier::external_body]
fn read_u64_ne(bytes: &[u8]) -> (r: u64)
    requires
        bytes@.len() == 8,
    ensures
        r == le_value(bytes@) || r == be_value(bytes@),
{
    NativeEndian::read_u64(bytes)
}

/// Relies on `byteorder::LittleEndian::read_u128`: the sixteen bytes as a
/// little-endian unsigned integer (`u128::from_le_bytes` in its source).
#[verifier::external_body]
fn read_u128_le(bytes: &[u8]) -> (r: u128)
    requires
        bytes@.len() == 16,
    ensures
        r == le_value(bytes@),
{
    LittleEndian::read_u128(bytes)
}

/// Relies on `byteorder::BigEndian::read_u128`: the sixteen bytes as a
/// big-endian unsigned integer (`u128::from_be_bytes` in its source).
#[verifier::external_body]
fn read_u128_be(bytes: &[u8]) -> (r: u128)
    requires
        bytes@.len() == 16,
    ensures
        r == be_value(bytes@),
{
    BigEndian::read_u128(bytes)
}

/// Relies on `byteorder::NativeEndian::read_u128`: an alias for the little-
/// or big-endian read, whichever the machine uses, so only the disjunction is
/// promised.
#[verifier::external_body]
fn read_u128_ne(bytes: &[u8]) -> (r: u128)
    requires
        bytes@.len() == 16,
    ensures
        r == le_value(bytes@) || r == be_value(bytes@),
{
    NativeEndian::read_u128(bytes)
}

/// Decodes a 4-byte buffer as an unsigned 32-bit integer under the selected
/// byte order; `Err(UnknownByteOrder)` for any selector other than `native`,
/// `little`, `big`.
pub fn to_u32(bytes: &[u8], endian: &str) -> (r: Result<u32, Error>)
    requires
        bytes@.len() == 4,
    ensures
        endian@ == "little"@ ==> (r matches Ok(x) && x == le_value(bytes@)),
        endian@ == "big"@ ==> (r matches Ok(x) && x == be_value(bytes@)),
        endian@ == "native"@ ==> (r matches Ok(x) && (x == le_value(bytes@) || x == be_value(
            bytes@,
        ))),
        endian@ != "native"@ && endian@ != "little"@ && endian@ != "big"@ ==> r == Err::<u32, Error>(
            Error::UnknownByteOrder,
        ),
{
    proof {
        selectors_distinct();
    }
    if str_eq(endian, "native") {
        Ok(read_u32_ne(bytes))
    } else if str_eq(endian, "little") {
        Ok(read_u32_le(bytes))
    } else if str_eq(endian, "big") {
        Ok(read_u32_be(bytes))
    } else {
        Err(Error::UnknownByteOrder)
    }
}

/// Decodes an 8-byte buffer as an unsigned 64-bit integer under the selected
/// byte order; `Err(UnknownByteOrder)` for any selector other than `native`,
/// `little`, `big`.
pub fn to_u64(bytes: &[u8], endian: &str) -> (r: Result<u64, Error>)
    requires
        bytes@.len() == 8,
    ensures
        endian@ == "little"@ ==> (r matches Ok(x) && x == le_value(bytes@)),
        endian@ == "big"@ ==> (r matches Ok(x) && x == be_value(bytes@)),
        endian@ == "native"@ ==> (r matches Ok(x) && (x == le_value(bytes@) || x == be_value(
            bytes@,
        ))),
        endian@ != "native"@ && endian@ != "little"@ && endian@ != "big"@ ==> r == Err::<u64, Error>(
            Error::UnknownByteOrder,
        ),
{
    proof {
        selectors_distinct();
    }
    if str_eq(endian, "native") {
        Ok(read_u64_ne(bytes))
    } else if str_eq(endian, "little") {
        Ok(read_u64_le(bytes))
    } else if str_eq(endian, "big") {
        Ok(read_u64_be(bytes))
    } else {
        Err(Error::UnknownByteOrder)
    }
}

/// Decodes a 16-byte buffer as an unsigned 128-bit integer under the selected
/// byte order; `Err(UnknownByteOrder)` for any selector other than `native`,
/// `little`, `big`.
pub fn to_u128(bytes: &[u8], endian: &str) -> (r: Result<u128, Error>)
    requires
        bytes@.len() == 16,
    ensures
        endian@ == "little"@ ==> (r matches Ok(x) && x == le_value(bytes@)),
        endian@ == "big"@ ==> (r matches Ok(x) && x == be_value(bytes@)),
        endian@ == "native"@ ==> (r matches Ok(x) && (x == le_value(bytes@) || x == be_value(
            bytes@,
        ))),
        endian@ != "native"@ && endian@ != "little"@ && endian@ != "big"@ ==> r == Err::<
            u128,
            Error,
        >(Error::UnknownByteOrder),
{
    proof {
        selectors_distinct();
    }
    if str_eq(endian, "native") {
        Ok(read_u128_ne(bytes))
    } else if str_eq(endian, "little") {
        Ok(read_u128_le(bytes))
    } else if str_eq(endian, "big") {
        Ok(read_u128_be(bytes))
    } else {
        Err(Error::UnknownByteOrder)
    }
}

/// Returns `bytes` repeated `n` times, copies in order; a non-positive count
/// yields an empty buffer.
pub fn bytes_mul(bytes: &[u8], n: i32) -> (r: Vec<u8>)
    ensures
        r@ == repeated(bytes@, if n >= 0 { n as nat } else { 0 }),
{
    let mut res: Vec<u8> = Vec::new();
    if n <= 0 {
        return res;
    }
    let mut k: i32 = 0;
    while k < n
        invariant
            0 <= k <= n,
            res@ == repeated(bytes@, k as nat),
        decreases n - k,
    {
        let mut i: usize = 0;
        while i < bytes.len()
            invariant
                i <= bytes@.len(),
                res@ == repeated(bytes@, k as nat) + bytes@.take(i as int),
            decreases bytes@.len() - i,
        {
            res.push(bytes[i]);
            proof {
                assert(bytes@.take(i + 1) =~= bytes@.take(i as int).push(bytes@[i as int]));
            }
            i = i + 1;
        }
        proof {
            assert(repeated(bytes@, k as nat) + bytes@.take(bytes@.len() as int) =~= repeated(
                bytes@,
                (k + 1) as nat,
            ));
        }
        k = k + 1;
    }
    res
}

} // verus!
