//! Raw bytes: they stand for themselves.
use vstd::prelude::*;
use vstd::slice::slice_to_vec;
use crate::error::{DecodeError, EncodeError};
use crate::traits::{BytesDecode, BytesDecodeOwned, BytesEncode, RoundTrip};

verus! {

/// `TryFrom<&[u8]>` for `[u8; L]`: the array that holds the bytes of the
/// slice, where the slice has exactly `L` of them, and nothing otherwise.
#[verifier::external_body]
fn array_of_slice<const L: usize>(bytes: &[u8]) -> (r: Option<[u8; L]>)
    ensures
        r is Some <==> bytes@.len() == L,
        r is Some ==> r->Some_0@ == bytes@,
{
    <[u8; L]>::try_from(bytes).ok()
}

impl BytesEncode for &[u8] {
    type EItem = [u8];

    open spec fn encodable(item: &[u8]) -> bool {
        true
    }

    open spec fn encoding(item: &[u8]) -> Seq<u8> {
        item@
    }

    fn bytes_encode(item: &[u8]) -> (r: Result<Vec<u8>, EncodeError>) {
        Ok(slice_to_vec(item))
    }
}

impl BytesEncode for Vec<u8> {
    type EItem = [u8];

    open spec fn encodable(item: &[u8]) -> bool {
        true
    }

    open spec fn encoding(item: &[u8]) -> Seq<u8> {
        item@
    }

    fn bytes_encode(item: &[u8]) -> (r: Result<Vec<u8>, EncodeError>) {
        Ok(slice_to_vec(item))
    }
}

impl<const L: usize> BytesDecode<'_> for [u8; L] {
    type DItem = [u8; L];

    open spec fn decodable(bytes: Seq<u8>) -> bool {
        bytes.len() == L
    }

    open spec fn decodes(bytes: Seq<u8>, item: &[u8; L]) -> bool {
        item@ == bytes
    }

    fn bytes_decode(bytes: &[u8]) -> (r: Result<[u8; L], DecodeError>)
        ensures
            r is Err ==> r->Err_0 is SizeMismatch,
    {
        match array_of_slice::<L>(bytes) {
            Some(array) => Ok(array),
            None => Err(DecodeError::SizeMismatch),
        }
    }
}

impl<'a> BytesDecode<'a> for &[u8] {
    type DItem = &'a [u8];

    open spec fn decodable(bytes: Seq<u8>) -> bool {
        true
    }

    open spec fn decodes(bytes: Seq<u8>, item: &&'a [u8]) -> bool {
        item@ == bytes
    }

    fn bytes_decode(bytes: &'a [u8]) -> (r: Result<&'a [u8], DecodeError>) {
        Ok(bytes)
    }
}

impl BytesDecodeOwned for &[u8] {
    type DItem = Vec<u8>;

    open spec fn decodable(bytes: Seq<u8>) -> bool {
        true
    }

    open spec fn decodes(bytes: Seq<u8>, item: &Vec<u8>) -> bool {
        item@ == bytes
    }

    fn bytes_decode_owned(bytes: &[u8]) -> (r: Result<Vec<u8>, DecodeError>) {
        Ok(slice_to_vec(bytes))
    }
}

impl BytesDecodeOwned for Vec<u8> {
    type DItem = Vec<u8>;

    open spec fn decodable(bytes: Seq<u8>) -> bool {
        true
    }

    open spec fn decodes(bytes: Seq<u8>, item: &Vec<u8>) -> bool {
        item@ == bytes
    }

    fn bytes_decode_owned(bytes: &[u8]) -> (r: Result<Vec<u8>, DecodeError>) {
        Ok(slice_to_vec(bytes))
    }
}

impl RoundTrip for &[u8] {
    open spec fn same(item: &[u8], decoded: &Vec<u8>) -> bool {
        item@ == decoded@
    }

    proof fn encoding_decodes(item: &[u8]) {
    }

    proof fn round_trip(item: &[u8], decoded: &Vec<u8>) {
    }
}

impl RoundTrip for Vec<u8> {
    open spec fn same(item: &[u8], decoded: &Vec<u8>) -> bool {
        item@ == decoded@
    }

    proof fn encoding_decodes(item: &[u8]) {
    }

    proof fn round_trip(item: &[u8], decoded: &Vec<u8>) {
    }
}

} // verus!
