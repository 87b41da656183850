//! UUIDs: their sixteen bytes.
use vstd::prelude::*;
use vstd::slice::slice_to_vec;
use crate::error::{DecodeError, EncodeError};
use crate::traits::{BytesDecode, BytesDecodeOwned, BytesEncode};

verus! {

/// `uuid::Uuid`, of which the contracts see the bytes alone.
#[verifier::external_type_specification]
#[verifier::external_body]
pub struct ExUuid(uuid::Uuid);

/// The sixteen bytes that a UUID is made of.
pub uninterp spec fn uuid_bytes(id: uuid::Uuid) -> Seq<u8>;

/// `Uuid::as_bytes`: the bytes of the UUID, of which there are sixteen.
#[verifier::external_body]
fn as_bytes(id: &uuid::Uuid) -> (r: &[u8])
    ensures
        r@ == uuid_bytes(*id),
        r@.len() == 16,
{
    id.as_bytes()
}

/// `Uuid::from_slice`: the UUID made of the given bytes, where there are
/// sixteen of them, and otherwise the parser's message.
#[verifier::external_body]
fn from_slice(bytes: &[u8]) -> (r: Result<uuid::Uuid, String>)
    ensures
        r is Ok <==> bytes@.len() == 16,
        r is Ok ==> uuid_bytes(r->Ok_0) == bytes@,
{
    uuid::Uuid::from_slice(bytes).map_err(|e| e.to_string())
}

impl BytesEncode for uuid::Uuid {
    type EItem = uuid::Uuid;

    open spec fn encodable(item: &uuid::Uuid) -> bool {
        true
    }

    open spec fn encoding(item: &uuid::Uuid) -> Seq<u8> {
        uuid_bytes(*item)
    }

    fn bytes_encode(item: &uuid::Uuid) -> (r: Result<Vec<u8>, EncodeError>)
        ensures
            r is Ok ==> r->Ok_0@.len() == 16,
    {
        Ok(slice_to_vec(as_bytes(item)))
    }
}

impl BytesDecode<'_> for uuid::Uuid {
    type DItem = uuid::Uuid;

    open spec fn decodable(bytes: Seq<u8>) -> bool {
        bytes.len() == 16
    }

    open spec fn decodes(bytes: Seq<u8>, item: &uuid::Uuid) -> bool {
        uuid_bytes(*item) == bytes
    }

    fn bytes_decode(bytes: &[u8]) -> (r: Result<uuid::Uuid, DecodeError>)
        ensures
            r is Err ==> r->Err_0 is Uuid,
    {
        match from_slice(bytes) {
            Ok(id) => Ok(id),
            Err(message) => Err(DecodeError::Uuid(message)),
        }
    }
}

impl BytesDecodeOwned for uuid::Uuid {
    type DItem = uuid::Uuid;

    open spec fn decodable(bytes: Seq<u8>) -> bool {
        bytes.len() == 16
    }

    open spec fn decodes(bytes: Seq<u8>, item: &uuid::Uuid) -> bool {
        uuid_bytes(*item) == bytes
    }

    fn bytes_decode_owned(bytes: &[u8]) -> (r: Result<uuid::Uuid, DecodeError>)
        ensures
            r is Err ==> r->Err_0 is Uuid,
    {
        match from_slice(bytes) {
            Ok(id) => Ok(id),
            Err(message) => Err(DecodeError::Uuid(message)),
        }
    }
}

} // verus!
