//! The unit type: no bytes at all.
use vstd::prelude::*;
use crate::error::{DecodeError, EncodeError};
use crate::traits::{BytesDecode, BytesDecodeOwned, BytesEncode, RoundTrip};

verus! {

impl BytesEncode for () {
    type EItem = ();

    open spec fn encodable(item: &()) -> bool {
        true
    }

    open spec fn encoding(item: &()) -> Seq<u8> {
        Seq::empty()
    }

    fn bytes_encode(item: &()) -> (r: Result<Vec<u8>, EncodeError>) {
        Ok(Vec::new())
    }
}

impl BytesDecode<'static> for () {
    type DItem = ();

    open spec fn decodable(bytes: Seq<u8>) -> bool {
        bytes.len() == 0
    }

    open spec fn decodes(bytes: Seq<u8>, item: &()) -> bool {
        bytes.len() == 0
    }

    fn bytes_decode(bytes: &'static [u8]) -> (r: Result<(), DecodeError>)
        ensures
            r is Err ==> r->Err_0 is SizeMismatch,
    {
        if bytes.len() == 0 {
            Ok(())
        } else {
            Err(DecodeError::SizeMismatch)
        }
    }
}

impl BytesDecodeOwned for () {
    type DItem = ();

    open spec fn decodable(bytes: Seq<u8>) -> bool {
        bytes.len() == 0
    }

    open spec fn decodes(bytes: Seq<u8>, item: &()) -> bool {
        bytes.len() == 0
    }

    fn bytes_decode_owned(bytes: &[u8]) -> (r: Result<(), DecodeError>)
        ensures
            r is Err ==> r->Err_0 is SizeMismatch,
    {
        if bytes.len() == 0 {
            Ok(())
        } else {
            Err(DecodeError::SizeMismatch)
        }
    }
}

impl RoundTrip for () {
    open spec fn same(item: &(), decoded: &()) -> bool {
        item == decoded
    }

    proof fn encoding_decodes(item: &()) {
    }

    proof fn round_trip(item: &(), decoded: &()) {
    }
}

} // verus!
