//! The codecs that come with the layer, and the values that decode late.
use vstd::prelude::*;
use std::marker::PhantomData;
use crate::backend::RefBytes;
use crate::error::Error;
use crate::traits::BytesDecode;

pub mod bytes;
pub mod lazy;
pub mod primitive;
pub mod id;

verus! {

/// A stored value that the engine lends out in place of a copy, with the
/// codec `Val` that can decode it.
///
/// `T` is the engine's own reference to the stored bytes. The value is
/// decoded only when [`RefValue::deserialize`] is called.
pub struct RefValue<T, Val> {
    data: T,
    marker: PhantomData<Val>,
}

impl<T: RefBytes, Val> RefValue<T, Val> {
    /// The bytes that are lent.
    pub closed spec fn view(&self) -> Seq<u8> {
        self.data@
    }

    /// Wraps the engine's reference.
    pub(crate) fn new(data: T) -> (r: Self)
        ensures
            r@ == data@,
    {
        RefValue { data, marker: PhantomData }
    }

    /// The engine's reference.
    pub fn inner(&self) -> (r: &T)
        ensures
            r@ == self@,
    {
        &self.data
    }

    /// Decodes the lent bytes with `Val`. The value may borrow from them.
    pub fn deserialize<'a>(&'a self) -> (r: Result<Val::DItem, Error>) where Val: BytesDecode<'a>
        ensures
            r is Ok <==> Val::decodable(self@),
            r is Ok ==> Val::decodes(self@, &r->Ok_0),
            r is Err ==> r->Err_0 is Decode,
    {
        match Val::bytes_decode(self.data.bytes()) {
            Ok(val) => Ok(val),
            Err(e) => Err(Error::Decode(e)),
        }
    }
}

} // verus!
