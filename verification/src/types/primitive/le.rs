//! Little-endian reads and writes of fixed-width integers, as `byteorder`
//! performs them on byte slices and byte vectors.
//!
//! Nothing here is proved: each function states what the `byteorder` method
//! it calls does. A read takes the integer from the front of the slice and
//! fails only where the slice is shorter than the integer. A write appends
//! the integer's bytes to the vector, which takes whatever is appended.
use vstd::prelude::*;
use vstd::bytes::{spec_u128_from_le_bytes, spec_u128_to_le_bytes};
use vstd::bytes::{spec_u16_from_le_bytes, spec_u16_to_le_bytes};
use vstd::bytes::{spec_u32_from_le_bytes, spec_u32_to_le_bytes};
use vstd::bytes::{spec_u64_from_le_bytes, spec_u64_to_le_bytes};
use byteorder::{LittleEndian, ReadBytesExt, WriteBytesExt};

verus! {

/// `ReadBytesExt::read_u8` on a slice: its first byte, or an error where
/// the slice is empty.
#[verifier::external_body]
pub(crate) fn read_u8(bytes: &[u8]) -> (r: Result<u8, std::io::Error>)
    ensures
        r is Ok <==> bytes@.len() >= 1,
        r is Ok ==> r->Ok_0 == bytes@[0],
{
    let mut reader = bytes;
    reader.read_u8()
}

/// `ReadBytesExt::read_u16::<LittleEndian>` on a slice: the integer whose
/// little-endian bytes are the first two, or an error where the slice
/// is shorter.
#[verifier::external_body]
pub(crate) fn read_u16_le(bytes: &[u8]) -> (r: Result<u16, std::io::Error>)
    ensures
        r is Ok <==> bytes@.len() >= 2,
        r is Ok ==> r->Ok_0 == spec_u16_from_le_bytes(bytes@.subrange(0, 2)),
{
    let mut reader = bytes;
    reader.read_u16::<LittleEndian>()
}

/// `WriteBytesExt::write_u16::<LittleEndian>` on a vector: appends the
/// two little-endian bytes of `n`.
#[verifier::external_body]
pub(crate) fn write_u16_le(buf: &mut Vec<u8>, n: u16) -> (r: Result<(), std::io::Error>)
    ensures
        r is Ok,
        final(buf)@ == old(buf)@ + spec_u16_to_le_bytes(n),
{
    buf.write_u16::<LittleEndian>(n)
}

/// `ReadBytesExt::read_u32::<LittleEndian>` on a slice: the integer whose
/// little-endian bytes are the first four, or an error where the slice
/// is shorter.
#[verifier::external_body]
pub(crate) fn read_u32_le(bytes: &[u8]) -> (r: Result<u32, std::io::Error>)
    ensures
        r is Ok <==> bytes@.len() >= 4,
        r is Ok ==> r->Ok_0 == spec_u32_from_le_bytes(bytes@.subrange(0, 4)),
{
    let mut reader = bytes;
    reader.read_u32::<LittleEndian>()
}

/// `WriteBytesExt::write_u32::<LittleEndian>` on a vector: appends the
/// four little-endian bytes of `n`.
#[verifier::external_body]
pub(crate) fn write_u32_le(buf: &mut Vec<u8>, n: u32) -> (r: Result<(), std::io::Error>)
    ensures
        r is Ok,
        final(buf)@ == old(buf)@ + spec_u32_to_le_bytes(n),
{
    buf.write_u32::<LittleEndian>(n)
}

/// `ReadBytesExt::read_u64::<LittleEndian>` on a slice: the integer whose
/// little-endian bytes are the first eight, or an error where the slice
/// is shorter.
#[verifier::external_body]
pub(crate) fn read_u64_le(bytes: &[u8]) -> (r: Result<u64, std::io::Error>)
    ensures
        r is Ok <==> bytes@.len() >= 8,
        r is Ok ==> r->Ok_0 == spec_u64_from_le_bytes(bytes@.subrange(0, 8)),
{
    let mut reader = bytes;
    reader.read_u64::<LittleEndian>()
}

/// `WriteBytesExt::write_u64::<LittleEndian>` on a vector: appends the
/// eight little-endian bytes of `n`.
#[verifier::external_body]
pub(crate) fn write_u64_le(buf: &mut Vec<u8>, n: u64) -> (r: Result<(), std::io::Error>)
    ensures
        r is Ok,
        final(buf)@ == old(buf)@ + spec_u64_to_le_bytes(n),
{
    buf.write_u64::<LittleEndian>(n)
}

/// `ReadBytesExt::read_u128::<LittleEndian>` on a slice: the integer whose
/// little-endian bytes are the first sixteen, or an error where the slice
/// is shorter.
#[verifier::external_body]
pub(crate) fn read_u128_le(bytes: &[u8]) -> (r: Result<u128, std::io::Error>)
    ensures
        r is Ok <==> bytes@.len() >= 16,
        r is Ok ==> r->Ok_0 == spec_u128_from_le_bytes(bytes@.subrange(0, 16)),
{
    let mut reader = bytes;
    reader.read_u128::<LittleEndian>()
}

/// `WriteBytesExt::write_u128::<LittleEndian>` on a vector: appends the
/// sixteen little-endian bytes of `n`.
#[verifier::external_body]
pub(crate) fn write_u128_le(buf: &mut Vec<u8>, n: u128) -> (r: Result<(), std::io::Error>)
    ensures
        r is Ok,
        final(buf)@ == old(buf)@ + spec_u128_to_le_bytes(n),
{
    buf.write_u128::<LittleEndian>(n)
}

/// `ReadBytesExt::read_i16::<LittleEndian>` on a slice: the first two
/// bytes read as a little-endian `u16` and reinterpreted in two's
/// complement, or an error where the slice is shorter.
#[verifier::external_body]
pub(crate) fn read_i16_le(bytes: &[u8]) -> (r: Result<i16, std::io::Error>)
    ensures
        r is Ok <==> bytes@.len() >= 2,
        r is Ok ==> r->Ok_0 == spec_u16_from_le_bytes(bytes@.subrange(0, 2)) as i16,
{
    let mut reader = bytes;
    reader.read_i16::<LittleEndian>()
}

/// `WriteBytesExt::write_i16::<LittleEndian>` on a vector: appends the
/// two little-endian bytes of `n`, taken in two's complement.
#[verifier::external_body]
pub(crate) fn write_i16_le(buf: &mut Vec<u8>, n: i16) -> (r: Result<(), std::io::Error>)
    ensures
        r is Ok,
        final(buf)@ == old(buf)@ + spec_u16_to_le_bytes(n as u16),
{
    buf.write_i16::<LittleEndian>(n)
}

/// `ReadBytesExt::read_i32::<LittleEndian>` on a slice: the first four
/// bytes read as a little-endian `u32` and reinterpreted in two's
/// complement, or an error where the slice is shorter.
#[verifier::external_body]
pub(crate) fn read_i32_le(bytes: &[u8]) -> (r: Result<i32, std::io::Error>)
    ensures
        r is Ok <==> bytes@.len() >= 4,
        r is Ok ==> r->Ok_0 == spec_u32_from_le_bytes(bytes@.subrange(0, 4)) as i32,
{
    let mut reader = bytes;
    reader.read_i32::<LittleEndian>()
}

/// `WriteBytesExt::write_i32::<LittleEndian>` on a vector: appends the
/// four little-endian bytes of `n`, taken in two's complement.
#[verifier::external_body]
pub(crate) fn write_i32_le(buf: &mut Vec<u8>, n: i32) -> (r: Result<(), std::io::Error>)
    ensures
        r is Ok,
        final(buf)@ == old(buf)@ + spec_u32_to_le_bytes(n as u32),
{
    buf.write_i32::<LittleEndian>(n)
}

/// `ReadBytesExt::read_i64::<LittleEndian>` on a slice: the first eight
/// bytes read as a little-endian `u64` and reinterpreted in two's
/// complement, or an error where the slice is shorter.
#[verifier::external_body]
pub(crate) fn read_i64_le(bytes: &[u8]) -> (r: Result<i64, std::io::Error>)
    ensures
        r is Ok <==> bytes@.len() >= 8,
        r is Ok ==> r->Ok_0 == spec_u64_from_le_bytes(bytes@.subrange(0, 8)) as i64,
{
    let mut reader = bytes;
    reader.read_i64::<LittleEndian>()
}

/// `WriteBytesExt::write_i64::<LittleEndian>` on a vector: appends the
/// eight little-endian bytes of `n`, taken in two's complement.
#[verifier::external_body]
pub(crate) fn write_i64_le(buf: &mut Vec<u8>, n: i64) -> (r: Result<(), std::io::Error>)
    ensures
        r is Ok,
        final(buf)@ == old(buf)@ + spec_u64_to_le_bytes(n as u64),
{
    buf.write_i64::<LittleEndian>(n)
}

/// `ReadBytesExt::read_i128::<LittleEndian>` on a slice: the first sixteen
/// bytes read as a little-endian `u128` and reinterpreted in two's
/// complement, or an error where the slice is shorter.
#[verifier::external_body]
pub(crate) fn read_i128_le(bytes: &[u8]) -> (r: Result<i128, std::io::Error>)
    ensures
        r is Ok <==> bytes@.len() >= 16,
        r is Ok ==> r->Ok_0 == spec_u128_from_le_bytes(bytes@.subrange(0, 16)) as i128,
{
    let mut reader = bytes;
    reader.read_i128::<LittleEndian>()
}

/// `WriteBytesExt::write_i128::<LittleEndian>` on a vector: appends the
/// sixteen little-endian bytes of `n`, taken in two's complement.
#[verifier::external_body]
pub(crate) fn write_i128_le(buf: &mut Vec<u8>, n: i128) -> (r: Result<(), std::io::Error>)
    ensures
        r is Ok,
        final(buf)@ == old(buf)@ + spec_u128_to_le_bytes(n as u128),
{
    buf.write_i128::<LittleEndian>(n)
}

} // verus!
