//! Fixed-width integers: their bytes, low byte first.
//!
//! An integer of N bytes encodes to exactly N bytes. Decoding reads the
//! first N bytes and ignores what follows them.
use vstd::prelude::*;
use vstd::bytes::{lemma_auto_spec_u128_to_from_le_bytes, spec_u128_from_le_bytes, spec_u128_to_le_bytes};
use vstd::bytes::{lemma_auto_spec_u16_to_from_le_bytes, spec_u16_from_le_bytes, spec_u16_to_le_bytes};
use vstd::bytes::{lemma_auto_spec_u32_to_from_le_bytes, spec_u32_from_le_bytes, spec_u32_to_le_bytes};
use vstd::bytes::{lemma_auto_spec_u64_to_from_le_bytes, spec_u64_from_le_bytes, spec_u64_to_le_bytes};
use crate::error::{DecodeError, EncodeError};
use crate::traits::{BytesDecode, BytesDecodeOwned, BytesEncode, RoundTrip};
use super::le;

verus! {

impl BytesEncode for u8 {
    type EItem = u8;

    open spec fn encodable(item: &u8) -> bool {
        true
    }

    open spec fn encoding(item: &u8) -> Seq<u8> {
        seq![*item]
    }

    fn bytes_encode(item: &u8) -> (r: Result<Vec<u8>, EncodeError>) {
        let mut buf: Vec<u8> = Vec::new();
        buf.push(*item);
        assert(buf@ =~= seq![*item]);
        Ok(buf)
    }
}

impl BytesDecode<'_> for u8 {
    type DItem = u8;

    open spec fn decodable(bytes: Seq<u8>) -> bool {
        bytes.len() >= 1
    }

    open spec fn decodes(bytes: Seq<u8>, item: &u8) -> bool {
        bytes.len() >= 1 && *item == bytes[0]
    }

    fn bytes_decode(bytes: &[u8]) -> (r: Result<u8, DecodeError>)
        ensures
            r is Err ==> r->Err_0 is Io,
    {
        match le::read_u8(bytes) {
            Ok(v) => Ok(v),
            Err(e) => Err(DecodeError::Io(e)),
        }
    }
}

impl BytesDecodeOwned for u8 {
    type DItem = u8;

    open spec fn decodable(bytes: Seq<u8>) -> bool {
        bytes.len() >= 1
    }

    open spec fn decodes(bytes: Seq<u8>, item: &u8) -> bool {
        bytes.len() >= 1 && *item == bytes[0]
    }

    fn bytes_decode_owned(bytes: &[u8]) -> (r: Result<u8, DecodeError>)
        ensures
            r is Err ==> r->Err_0 is Io,
    {
        match le::read_u8(bytes) {
            Ok(v) => Ok(v),
            Err(e) => Err(DecodeError::Io(e)),
        }
    }
}

impl RoundTrip for u8 {
    open spec fn same(item: &u8, decoded: &u8) -> bool {
        item == decoded
    }

    proof fn encoding_decodes(item: &u8) {
    }

    proof fn round_trip(item: &u8, decoded: &u8) {
    }
}

impl BytesEncode for u16 {
    type EItem = u16;

    open spec fn encodable(item: &u16) -> bool {
        true
    }

    open spec fn encoding(item: &u16) -> Seq<u8> {
        spec_u16_to_le_bytes(*item)
    }

    fn bytes_encode(item: &u16) -> (r: Result<Vec<u8>, EncodeError>) {
        let mut buf: Vec<u8> = Vec::new();
        match le::write_u16_le(&mut buf, *item) {
            Ok(()) => {
                assert(buf@ =~= Self::encoding(item));
                Ok(buf)
            },
            Err(e) => Err(EncodeError::Io(e)),
        }
    }
}

impl BytesDecode<'_> for u16 {
    type DItem = u16;

    open spec fn decodable(bytes: Seq<u8>) -> bool {
        bytes.len() >= 2
    }

    open spec fn decodes(bytes: Seq<u8>, item: &u16) -> bool {
        bytes.len() >= 2 && *item == spec_u16_from_le_bytes(bytes.subrange(0, 2))
    }

    fn bytes_decode(bytes: &[u8]) -> (r: Result<u16, DecodeError>)
        ensures
            r is Err ==> r->Err_0 is Io,
    {
        match le::read_u16_le(bytes) {
            Ok(v) => Ok(v),
            Err(e) => Err(DecodeError::Io(e)),
        }
    }
}

impl BytesDecodeOwned for u16 {
    type DItem = u16;

    open spec fn decodable(bytes: Seq<u8>) -> bool {
        bytes.len() >= 2
    }

    open spec fn decodes(bytes: Seq<u8>, item: &u16) -> bool {
        bytes.len() >= 2 && *item == spec_u16_from_le_bytes(bytes.subrange(0, 2))
    }

    fn bytes_decode_owned(bytes: &[u8]) -> (r: Result<u16, DecodeError>)
        ensures
            r is Err ==> r->Err_0 is Io,
    {
        match le::read_u16_le(bytes) {
            Ok(v) => Ok(v),
            Err(e) => Err(DecodeError::Io(e)),
        }
    }
}

impl RoundTrip for u16 {
    open spec fn same(item: &u16, decoded: &u16) -> bool {
        item == decoded
    }

    proof fn encoding_decodes(item: &u16) {
        lemma_auto_spec_u16_to_from_le_bytes();
        let bytes = Self::encoding(item);
        assert(bytes.subrange(0, 2) =~= bytes);
    }

    proof fn round_trip(item: &u16, decoded: &u16) {
        lemma_auto_spec_u16_to_from_le_bytes();
        let bytes = Self::encoding(item);
        assert(bytes.subrange(0, 2) =~= bytes);
    }
}

impl BytesEncode for u32 {
    type EItem = u32;

    open spec fn encodable(item: &u32) -> bool {
        true
    }

    open spec fn encoding(item: &u32) -> Seq<u8> {
        spec_u32_to_le_bytes(*item)
    }

    fn bytes_encode(item: &u32) -> (r: Result<Vec<u8>, EncodeError>) {
        let mut buf: Vec<u8> = Vec::new();
        match le::write_u32_le(&mut buf, *item) {
            Ok(()) => {
                assert(buf@ =~= Self::encoding(item));
                Ok(buf)
            },
            Err(e) => Err(EncodeError::Io(e)),
        }
    }
}

impl BytesDecode<'_> for u32 {
    type DItem = u32;

    open spec fn decodable(bytes: Seq<u8>) -> bool {
        bytes.len() >= 4
    }

    open spec fn decodes(bytes: Seq<u8>, item: &u32) -> bool {
        bytes.len() >= 4 && *item == spec_u32_from_le_bytes(bytes.subrange(0, 4))
    }

    fn bytes_decode(bytes: &[u8]) -> (r: Result<u32, DecodeError>)
        ensures
            r is Err ==> r->Err_0 is Io,
    {
        match le::read_u32_le(bytes) {
            Ok(v) => Ok(v),
            Err(e) => Err(DecodeError::Io(e)),
        }
    }
}

impl BytesDecodeOwned for u32 {
    type DItem = u32;

    open spec fn decodable(bytes: Seq<u8>) -> bool {
        bytes.len() >= 4
    }

    open spec fn decodes(bytes: Seq<u8>, item: &u32) -> bool {
        bytes.len() >= 4 && *item == spec_u32_from_le_bytes(bytes.subrange(0, 4))
    }

    fn bytes_decode_owned(bytes: &[u8]) -> (r: Result<u32, DecodeError>)
        ensures
            r is Err ==> r->Err_0 is Io,
    {
        match le::read_u32_le(bytes) {
            Ok(v) => Ok(v),
            Err(e) => Err(DecodeError::Io(e)),
        }
    }
}

impl RoundTrip for u32 {
    open spec fn same(item: &u32, decoded: &u32) -> bool {
        item == decoded
    }

    proof fn encoding_decodes(item: &u32) {
        lemma_auto_spec_u32_to_from_le_bytes();
        let bytes = Self::encoding(item);
        assert(bytes.subrange(0, 4) =~= bytes);
    }

    proof fn round_trip(item: &u32, decoded: &u32) {
        lemma_auto_spec_u32_to_from_le_bytes();
        let bytes = Self::encoding(item);
        assert(bytes.subrange(0, 4) =~= bytes);
    }
}

impl BytesEncode for u64 {
    type EItem = u64;

    open spec fn encodable(item: &u64) -> bool {
        true
    }

    open spec fn encoding(item: &u64) -> Seq<u8> {
        spec_u64_to_le_bytes(*item)
    }

    fn bytes_encode(item: &u64) -> (r: Result<Vec<u8>, EncodeError>) {
        let mut buf: Vec<u8> = Vec::new();
        match le::write_u64_le(&mut buf, *item) {
            Ok(()) => {
                assert(buf@ =~= Self::encoding(item));
                Ok(buf)
            },
            Err(e) => Err(EncodeError::Io(e)),
        }
    }
}

impl BytesDecode<'_> for u64 {
    type DItem = u64;

    open spec fn decodable(bytes: Seq<u8>) -> bool {
        bytes.len() >= 8
    }

    open spec fn decodes(bytes: Seq<u8>, item: &u64) -> bool {
        bytes.len() >= 8 && *item == spec_u64_from_le_bytes(bytes.subrange(0, 8))
    }

    fn bytes_decode(bytes: &[u8]) -> (r: Result<u64, DecodeError>)
        ensures
            r is Err ==> r->Err_0 is Io,
    {
        match le::read_u64_le(bytes) {
            Ok(v) => Ok(v),
            Err(e) => Err(DecodeError::Io(e)),
        }
    }
}

impl BytesDecodeOwned for u64 {
    type DItem = u64;

    open spec fn decodable(bytes: Seq<u8>) -> bool {
        bytes.len() >= 8
    }

    open spec fn decodes(bytes: Seq<u8>, item: &u64) -> bool {
        bytes.len() >= 8 && *item == spec_u64_from_le_bytes(bytes.subrange(0, 8))
    }

    fn bytes_decode_owned(bytes: &[u8]) -> (r: Result<u64, DecodeError>)
        ensures
            r is Err ==> r->Err_0 is Io,
    {
        match le::read_u64_le(bytes) {
            Ok(v) => Ok(v),
            Err(e) => Err(DecodeError::Io(e)),
        }
    }
}

impl RoundTrip for u64 {
    open spec fn same(item: &u64, decoded: &u64) -> bool {
        item == decoded
    }

    proof fn encoding_decodes(item: &u64) {
        lemma_auto_spec_u64_to_from_le_bytes();
        let bytes = Self::encoding(item);
        assert(bytes.subrange(0, 8) =~= bytes);
    }

    proof fn round_trip(item: &u64, decoded: &u64) {
        lemma_auto_spec_u64_to_from_le_bytes();
        let bytes = Self::encoding(item);
        assert(bytes.subrange(0, 8) =~= bytes);
    }
}

impl BytesEncode for u128 {
    type EItem = u128;

    open spec fn encodable(item: &u128) -> bool {
        true
    }

    open spec fn encoding(item: &u128) -> Seq<u8> {
        spec_u128_to_le_bytes(*item)
    }

    fn bytes_encode(item: &u128) -> (r: Result<Vec<u8>, EncodeError>) {
        let mut buf: Vec<u8> = Vec::new();
        match le::write_u128_le(&mut buf, *item) {
            Ok(()) => {
                assert(buf@ =~= Self::encoding(item));
                Ok(buf)
            },
            Err(e) => Err(EncodeError::Io(e)),
        }
    }
}

impl BytesDecode<'_> for u128 {
    type DItem = u128;

    open spec fn decodable(bytes: Seq<u8>) -> bool {
        bytes.len() >= 16
    }

    open spec fn decodes(bytes: Seq<u8>, item: &u128) -> bool {
        bytes.len() >= 16 && *item == spec_u128_from_le_bytes(bytes.subrange(0, 16))
    }

    fn bytes_decode(bytes: &[u8]) -> (r: Result<u128, DecodeError>)
        ensures
            r is Err ==> r->Err_0 is Io,
    {
        match le::read_u128_le(bytes) {
            Ok(v) => Ok(v),
            Err(e) => Err(DecodeError::Io(e)),
        }
    }
}

impl BytesDecodeOwned for u128 {
    type DItem = u128;

    open spec fn decodable(bytes: Seq<u8>) -> bool {
        bytes.len() >= 16
    }

    open spec fn decodes(bytes: Seq<u8>, item: &u128) -> bool {
        bytes.len() >= 16 && *item == spec_u128_from_le_bytes(bytes.subrange(0, 16))
    }

    fn bytes_decode_owned(bytes: &[u8]) -> (r: Result<u128, DecodeError>)
        ensures
            r is Err ==> r->Err_0 is Io,
    {
        match le::read_u128_le(bytes) {
            Ok(v) => Ok(v),
            Err(e) => Err(DecodeError::Io(e)),
        }
    }
}

impl RoundTrip for u128 {
    open spec fn same(item: &u128, decoded: &u128) -> bool {
        item == decoded
    }

    proof fn encoding_decodes(item: &u128) {
        lemma_auto_spec_u128_to_from_le_bytes();
        let bytes = Self::encoding(item);
        assert(bytes.subrange(0, 16) =~= bytes);
    }

    proof fn round_trip(item: &u128, decoded: &u128) {
        lemma_auto_spec_u128_to_from_le_bytes();
        let bytes = Self::encoding(item);
        assert(bytes.subrange(0, 16) =~= bytes);
    }
}

impl BytesEncode for i16 {
    type EItem = i16;

    open spec fn encodable(item: &i16) -> bool {
        true
    }

    open spec fn encoding(item: &i16) -> Seq<u8> {
        spec_u16_to_le_bytes(*item as u16)
    }

    fn bytes_encode(item: &i16) -> (r: Result<Vec<u8>, EncodeError>) {
        let mut buf: Vec<u8> = Vec::new();
        match le::write_i16_le(&mut buf, *item) {
            Ok(()) => {
                assert(buf@ =~= Self::encoding(item));
                Ok(buf)
            },
            Err(e) => Err(EncodeError::Io(e)),
        }
    }
}

impl BytesDecode<'_> for i16 {
    type DItem = i16;

    open spec fn decodable(bytes: Seq<u8>) -> bool {
        bytes.len() >= 2
    }

    open spec fn decodes(bytes: Seq<u8>, item: &i16) -> bool {
        bytes.len() >= 2 && *item == spec_u16_from_le_bytes(bytes.subrange(0, 2)) as i16
    }

    fn bytes_decode(bytes: &[u8]) -> (r: Result<i16, DecodeError>)
        ensures
            r is Err ==> r->Err_0 is Io,
    {
        match le::read_i16_le(bytes) {
            Ok(v) => Ok(v),
            Err(e) => Err(DecodeError::Io(e)),
        }
    }
}

impl BytesDecodeOwned for i16 {
    type DItem = i16;

    open spec fn decodable(bytes: Seq<u8>) -> bool {
        bytes.len() >= 2
    }

    open spec fn decodes(bytes: Seq<u8>, item: &i16) -> bool {
        bytes.len() >= 2 && *item == spec_u16_from_le_bytes(bytes.subrange(0, 2)) as i16
    }

    fn bytes_decode_owned(bytes: &[u8]) -> (r: Result<i16, DecodeError>)
        ensures
            r is Err ==> r->Err_0 is Io,
    {
        match le::read_i16_le(bytes) {
            Ok(v) => Ok(v),
            Err(e) => Err(DecodeError::Io(e)),
        }
    }
}

impl RoundTrip for i16 {
    open spec fn same(item: &i16, decoded: &i16) -> bool {
        item == decoded
    }

    proof fn encoding_decodes(item: &i16) {
        lemma_auto_spec_u16_to_from_le_bytes();
        let bytes = Self::encoding(item);
        assert(bytes.subrange(0, 2) =~= bytes);
        assert((*item as u16) as i16 == *item) by (bit_vector);
    }

    proof fn round_trip(item: &i16, decoded: &i16) {
        lemma_auto_spec_u16_to_from_le_bytes();
        let bytes = Self::encoding(item);
        assert(bytes.subrange(0, 2) =~= bytes);
        assert((*item as u16) as i16 == *item) by (bit_vector);
    }
}

impl BytesEncode for i32 {
    type EItem = i32;

    open spec fn encodable(item: &i32) -> bool {
        true
    }

    open spec fn encoding(item: &i32) -> Seq<u8> {
        spec_u32_to_le_bytes(*item as u32)
    }

    fn bytes_encode(item: &i32) -> (r: Result<Vec<u8>, EncodeError>) {
        let mut buf: Vec<u8> = Vec::new();
        match le::write_i32_le(&mut buf, *item) {
            Ok(()) => {
                assert(buf@ =~= Self::encoding(item));
                Ok(buf)
            },
            Err(e) => Err(EncodeError::Io(e)),
        }
    }
}

impl BytesDecode<'_> for i32 {
    type DItem = i32;

    open spec fn decodable(bytes: Seq<u8>) -> bool {
        bytes.len() >= 4
    }

    open spec fn decodes(bytes: Seq<u8>, item: &i32) -> bool {
        bytes.len() >= 4 && *item == spec_u32_from_le_bytes(bytes.subrange(0, 4)) as i32
    }

    fn bytes_decode(bytes: &[u8]) -> (r: Result<i32, DecodeError>)
        ensures
            r is Err ==> r->Err_0 is Io,
    {
        match le::read_i32_le(bytes) {
            Ok(v) => Ok(v),
            Err(e) => Err(DecodeError::Io(e)),
        }
    }
}

impl BytesDecodeOwned for i32 {
    type DItem = i32;

    open spec fn decodable(bytes: Seq<u8>) -> bool {
        bytes.len() >= 4
    }

    open spec fn decodes(bytes: Seq<u8>, item: &i32) -> bool {
        bytes.len() >= 4 && *item == spec_u32_from_le_bytes(bytes.subrange(0, 4)) as i32
    }

    fn bytes_decode_owned(bytes: &[u8]) -> (r: Result<i32, DecodeError>)
        ensures
            r is Err ==> r->Err_0 is Io,
    {
        match le::read_i32_le(bytes) {
            Ok(v) => Ok(v),
            Err(e) => Err(DecodeError::Io(e)),
        }
    }
}

impl RoundTrip for i32 {
    open spec fn same(item: &i32, decoded: &i32) -> bool {
        item == decoded
    }

    proof fn encoding_decodes(item: &i32) {
        lemma_auto_spec_u32_to_from_le_bytes();
        let bytes = Self::encoding(item);
        assert(bytes.subrange(0, 4) =~= bytes);
        assert((*item as u32) as i32 == *item) by (bit_vector);
    }

    proof fn round_trip(item: &i32, decoded: &i32) {
        lemma_auto_spec_u32_to_from_le_bytes();
        let bytes = Self::encoding(item);
        assert(bytes.subrange(0, 4) =~= bytes);
        assert((*item as u32) as i32 == *item) by (bit_vector);
    }
}

impl BytesEncode for i64 {
    type EItem = i64;

    open spec fn encodable(item: &i64) -> bool {
        true
    }

    open spec fn encoding(item: &i64) -> Seq<u8> {
        spec_u64_to_le_bytes(*item as u64)
    }

    fn bytes_encode(item: &i64) -> (r: Result<Vec<u8>, EncodeError>) {
        let mut buf: Vec<u8> = Vec::new();
        match le::write_i64_le(&mut buf, *item) {
            Ok(()) => {
                assert(buf@ =~= Self::encoding(item));
                Ok(buf)
            },
            Err(e) => Err(EncodeError::Io(e)),
        }
    }
}

impl BytesDecode<'_> for i64 {
    type DItem = i64;

    open spec fn decodable(bytes: Seq<u8>) -> bool {
        bytes.len() >= 8
    }

    open spec fn decodes(bytes: Seq<u8>, item: &i64) -> bool {
        bytes.len() >= 8 && *item == spec_u64_from_le_bytes(bytes.subrange(0, 8)) as i64
    }

    fn bytes_decode(bytes: &[u8]) -> (r: Result<i64, DecodeError>)
        ensures
            r is Err ==> r->Err_0 is Io,
    {
        match le::read_i64_le(bytes) {
            Ok(v) => Ok(v),
            Err(e) => Err(DecodeError::Io(e)),
        }
    }
}

impl BytesDecodeOwned for i64 {
    type DItem = i64;

    open spec fn decodable(bytes: Seq<u8>) -> bool {
        bytes.len() >= 8
    }

    open spec fn decodes(bytes: Seq<u8>, item: &i64) -> bool {
        bytes.len() >= 8 && *item == spec_u64_from_le_bytes(bytes.subrange(0, 8)) as i64
    }

    fn bytes_decode_owned(bytes: &[u8]) -> (r: Result<i64, DecodeError>)
        ensures
            r is Err ==> r->Err_0 is Io,
    {
        match le::read_i64_le(bytes) {
            Ok(v) => Ok(v),
            Err(e) => Err(DecodeError::Io(e)),
        }
    }
}

impl RoundTrip for i64 {
    open spec fn same(item: &i64, decoded: &i64) -> bool {
        item == decoded
    }

    proof fn encoding_decodes(item: &i64) {
        lemma_auto_spec_u64_to_from_le_bytes();
        let bytes = Self::encoding(item);
        assert(bytes.subrange(0, 8) =~= bytes);
        assert((*item as u64) as i64 == *item) by (bit_vector);
    }

    proof fn round_trip(item: &i64, decoded: &i64) {
        lemma_auto_spec_u64_to_from_le_bytes();
        let bytes = Self::encoding(item);
        assert(bytes.subrange(0, 8) =~= bytes);
        assert((*item as u64) as i64 == *item) by (bit_vector);
    }
}

impl BytesEncode for i128 {
    type EItem = i128;

    open spec fn encodable(item: &i128) -> bool {
        true
    }

    open spec fn encoding(item: &i128) -> Seq<u8> {
        spec_u128_to_le_bytes(*item as u128)
    }

    fn bytes_encode(item: &i128) -> (r: Result<Vec<u8>, EncodeError>) {
        let mut buf: Vec<u8> = Vec::new();
        match le::write_i128_le(&mut buf, *item) {
            Ok(()) => {
                assert(buf@ =~= Self::encoding(item));
                Ok(buf)
            },
            Err(e) => Err(EncodeError::Io(e)),
        }
    }
}

impl BytesDecode<'_> for i128 {
    type DItem = i128;

    open spec fn decodable(bytes: Seq<u8>) -> bool {
        bytes.len() >= 16
    }

    open spec fn decodes(bytes: Seq<u8>, item: &i128) -> bool {
        bytes.len() >= 16 && *item == spec_u128_from_le_bytes(bytes.subrange(0, 16)) as i128
    }

    fn bytes_decode(bytes: &[u8]) -> (r: Result<i128, DecodeError>)
        ensures
            r is Err ==> r->Err_0 is Io,
    {
        match le::read_i128_le(bytes) {
            Ok(v) => Ok(v),
            Err(e) => Err(DecodeError::Io(e)),
        }
    }
}

impl BytesDecodeOwned for i128 {
    type DItem = i128;

    open spec fn decodable(bytes: Seq<u8>) -> bool {
        bytes.len() >= 16
    }

    open spec fn decodes(bytes: Seq<u8>, item: &i128) -> bool {
        bytes.len() >= 16 && *item == spec_u128_from_le_bytes(bytes.subrange(0, 16)) as i128
    }

    fn bytes_decode_owned(bytes: &[u8]) -> (r: Result<i128, DecodeError>)
        ensures
            r is Err ==> r->Err_0 is Io,
    {
        match le::read_i128_le(bytes) {
            Ok(v) => Ok(v),
            Err(e) => Err(DecodeError::Io(e)),
        }
    }
}

impl RoundTrip for i128 {
    open spec fn same(item: &i128, decoded: &i128) -> bool {
        item == decoded
    }

    proof fn encoding_decodes(item: &i128) {
        lemma_auto_spec_u128_to_from_le_bytes();
        let bytes = Self::encoding(item);
        assert(bytes.subrange(0, 16) =~= bytes);
        assert((*item as u128) as i128 == *item) by (bit_vector);
    }

    proof fn round_trip(item: &i128, decoded: &i128) {
        lemma_auto_spec_u128_to_from_le_bytes();
        let bytes = Self::encoding(item);
        assert(bytes.subrange(0, 16) =~= bytes);
        assert((*item as u128) as i128 == *item) by (bit_vector);
    }
}

} // verus!
