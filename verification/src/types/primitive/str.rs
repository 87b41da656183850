//! Strings: their UTF-8 bytes.
use vstd::prelude::*;
use vstd::string::StringSliceAdditionalSpecFns;
use vstd::utf8::{decode_utf8, encode_utf8, valid_utf8};
use vstd::utf8::{encode_utf8_decode_utf8, encode_utf8_valid_utf8};
use crate::error::{DecodeError, EncodeError};
use crate::traits::{BytesDecode, BytesDecodeOwned, BytesEncode, RoundTrip};

verus! {

/// `core::str::Utf8Error`, carried through without being looked into.
#[verifier::external_type_specification]
#[verifier::external_body]
pub struct ExUtf8Error(core::str::Utf8Error);

/// `core::str::from_utf8` succeeds on exactly the byte strings that are
/// valid UTF-8, and the string slice it then gives is made of those bytes.
pub assume_specification[ core::str::from_utf8 ](v: &[u8]) -> (r: Result<&str, core::str::Utf8Error>)
    ensures
        r is Ok <==> valid_utf8(v@),
        r is Ok ==> r->Ok_0.spec_bytes() == v@,
;

/// Copies the UTF-8 bytes of `item`.
fn str_bytes(item: &str) -> (r: Vec<u8>)
    ensures
        r@ == encode_utf8(item@),
{
    vstd::slice::slice_to_vec(item.as_bytes())
}

/// Reads `bytes` as a string slice over the same bytes.
pub(crate) fn str_of_bytes<'a>(bytes: &'a [u8]) -> (r: Result<&'a str, DecodeError>)
    ensures
        r is Ok <==> valid_utf8(bytes@),
        r is Ok ==> r->Ok_0@ == decode_utf8(bytes@),
        r is Err ==> r->Err_0 is InvalidUtf8,
{
    match core::str::from_utf8(bytes) {
        Ok(s) => {
            proof {
                encode_utf8_decode_utf8(s@);
            }
            Ok(s)
        },
        Err(_) => Err(DecodeError::InvalidUtf8),
    }
}

impl BytesEncode for &str {
    type EItem = str;

    open spec fn encodable(item: &str) -> bool {
        true
    }

    open spec fn encoding(item: &str) -> Seq<u8> {
        encode_utf8(item@)
    }

    fn bytes_encode(item: &str) -> (r: Result<Vec<u8>, EncodeError>) {
        Ok(str_bytes(item))
    }
}

impl BytesEncode for String {
    type EItem = str;

    open spec fn encodable(item: &str) -> bool {
        true
    }

    open spec fn encoding(item: &str) -> Seq<u8> {
        encode_utf8(item@)
    }

    fn bytes_encode(item: &str) -> (r: Result<Vec<u8>, EncodeError>) {
        Ok(str_bytes(item))
    }
}

impl<'a> BytesDecode<'a> for &'a str {
    type DItem = &'a str;

    open spec fn decodable(bytes: Seq<u8>) -> bool {
        valid_utf8(bytes)
    }

    open spec fn decodes(bytes: Seq<u8>, item: &&'a str) -> bool {
        item@ == decode_utf8(bytes)
    }

    fn bytes_decode(bytes: &'a [u8]) -> (r: Result<&'a str, DecodeError>)
        ensures
            r is Err ==> r->Err_0 is InvalidUtf8,
    {
        str_of_bytes(bytes)
    }
}

impl BytesDecodeOwned for &str {
    type DItem = String;

    open spec fn decodable(bytes: Seq<u8>) -> bool {
        valid_utf8(bytes)
    }

    open spec fn decodes(bytes: Seq<u8>, item: &String) -> bool {
        item@ == decode_utf8(bytes)
    }

    fn bytes_decode_owned(bytes: &[u8]) -> (r: Result<String, DecodeError>)
        ensures
            r is Err ==> r->Err_0 is InvalidUtf8,
    {
        match str_of_bytes(bytes) {
            Ok(s) => Ok(s.to_owned()),
            Err(e) => Err(e),
        }
    }
}

impl BytesDecodeOwned for String {
    type DItem = String;

    open spec fn decodable(bytes: Seq<u8>) -> bool {
        valid_utf8(bytes)
    }

    open spec fn decodes(bytes: Seq<u8>, item: &String) -> bool {
        item@ == decode_utf8(bytes)
    }

    fn bytes_decode_owned(bytes: &[u8]) -> (r: Result<String, DecodeError>)
        ensures
            r is Err ==> r->Err_0 is InvalidUtf8,
    {
        match str_of_bytes(bytes) {
            Ok(s) => Ok(s.to_owned()),
            Err(e) => Err(e),
        }
    }
}

impl RoundTrip for &str {
    open spec fn same(item: &str, decoded: &String) -> bool {
        item@ == decoded@
    }

    proof fn encoding_decodes(item: &str) {
        encode_utf8_valid_utf8(item@);
        encode_utf8_decode_utf8(item@);
    }

    proof fn round_trip(item: &str, decoded: &String) {
        encode_utf8_valid_utf8(item@);
        encode_utf8_decode_utf8(item@);
    }
}

impl RoundTrip for String {
    open spec fn same(item: &str, decoded: &String) -> bool {
        item@ == decoded@
    }

    proof fn encoding_decodes(item: &str) {
        encode_utf8_valid_utf8(item@);
        encode_utf8_decode_utf8(item@);
    }

    proof fn round_trip(item: &str, decoded: &String) {
        encode_utf8_valid_utf8(item@);
        encode_utf8_decode_utf8(item@);
    }
}

} // verus!
