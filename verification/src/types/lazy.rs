//! Decoding put off: the bytes are kept and read only when asked for.
use vstd::prelude::*;
use vstd::slice::slice_to_vec;
use std::marker::PhantomData;
use crate::error::DecodeError;
use crate::traits::{BytesDecode, BytesDecodeOwned};

verus! {

/// The codec that hands out bytes undecoded, to be decoded by `C` later.
pub struct LazyDecode<C>(PhantomData<C>);

/// Borrowed bytes that `C` can decode on demand.
pub struct Lazy<'a, C> {
    data: &'a [u8],
    marker: PhantomData<C>,
}

/// Owned bytes that `C` can decode on demand.
pub struct LazyVec<C> {
    data: Vec<u8>,
    marker: PhantomData<C>,
}

impl<'a, C> Lazy<'a, C> {
    /// The bytes that were kept.
    pub closed spec fn view(&self) -> Seq<u8> {
        self.data@
    }
}

impl<C> LazyVec<C> {
    /// The bytes that were kept.
    pub closed spec fn view(&self) -> Seq<u8> {
        self.data@
    }
}

impl<'a, C> BytesDecode<'a> for LazyDecode<C> {
    type DItem = Lazy<'a, C>;

    open spec fn decodable(bytes: Seq<u8>) -> bool {
        true
    }

    open spec fn decodes(bytes: Seq<u8>, item: &Lazy<'a, C>) -> bool {
        item@ == bytes
    }

    fn bytes_decode(bytes: &'a [u8]) -> (r: Result<Lazy<'a, C>, DecodeError>) {
        Ok(Lazy { data: bytes, marker: PhantomData })
    }
}

impl<'a, C: BytesDecode<'a>> Lazy<'a, C> {
    /// Decodes the kept bytes with `C`.
    pub fn decode(&self) -> (r: Result<C::DItem, DecodeError>)
        ensures
            r is Ok <==> C::decodable(self@),
            r is Ok ==> C::decodes(self@, &r->Ok_0),
    {
        C::bytes_decode(self.data)
    }
}

impl<C> BytesDecodeOwned for LazyDecode<C> {
    type DItem = LazyVec<C>;

    open spec fn decodable(bytes: Seq<u8>) -> bool {
        true
    }

    open spec fn decodes(bytes: Seq<u8>, item: &LazyVec<C>) -> bool {
        item@ == bytes
    }

    fn bytes_decode_owned(bytes: &[u8]) -> (r: Result<LazyVec<C>, DecodeError>) {
        Ok(LazyVec { data: slice_to_vec(bytes), marker: PhantomData })
    }
}

impl<C: BytesDecodeOwned> LazyVec<C> {
    /// Decodes the kept bytes with `C`.
    pub fn decode(&self) -> (r: Result<C::DItem, DecodeError>)
        ensures
            r is Ok <==> C::decodable(self@),
            r is Ok ==> C::decodes(self@, &r->Ok_0),
    {
        C::bytes_decode_owned(self.data.as_slice())
    }
}

} // verus!
