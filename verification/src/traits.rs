//! The contracts between the layer and its codecs.
use vstd::prelude::*;
use crate::error::{DecodeError, EncodeError, Error};
use crate::backend::{ColumnHandle, ColumnStore, RefBytes};
use crate::types::RefValue;
use crate::model::Pair;
use crate::model::{engine_error, lists, option_view, option_views, pair_views};
use crate::model::{spec_clear, spec_get, spec_get_multi, spec_step, views, visible, with_prefix};

verus! {

/// Something that wraps a value of another type and lends it out, so that
/// the caller can reach the storage engine directly.
pub trait Innerable {
    /// The type that is wrapped.
    type Inner;

    /// The wrapped value, to the contracts.
    open spec fn spec_inner(&self) -> Self::Inner {
        arbitrary::<spec_fn(&Self) -> Self::Inner>()(self)
    }

    /// The wrapped value.
    fn inner(&self) -> (inner: &Self::Inner)
        ensures
            *inner == self.spec_inner(),
    ;
}

/// A way to turn values into bytes.
///
/// `encodable` says for which values the codec produces bytes at all, and
/// `encoding` which bytes: both are functions of the value alone, so that a
/// key always finds the bytes it was stored under. A codec that is not
/// verified leaves both as they are here: some function, of which nothing
/// is known.
pub trait BytesEncode {
    /// The type to encode.
    type EItem: ?Sized;

    /// Whether the codec can encode `item`.
    open spec fn encodable(item: &Self::EItem) -> bool {
        arbitrary::<spec_fn(&Self::EItem) -> bool>()(item)
    }

    /// The bytes that stand for `item`.
    open spec fn encoding(item: &Self::EItem) -> Seq<u8> {
        arbitrary::<spec_fn(&Self::EItem) -> Seq<u8>>()(item)
    }

    /// Encodes `item`.
    fn bytes_encode(item: &Self::EItem) -> (r: Result<Vec<u8>, EncodeError>)
        ensures
            r is Ok <==> Self::encodable(item),
            r is Ok ==> r->Ok_0@ == Self::encoding(item),
    ;
}

/// A way to read a value out of bytes that outlive it, so that the value may
/// borrow from them.
pub trait BytesDecode<'a> {
    /// The type to decode to.
    type DItem;

    /// Whether `bytes` stand for a value.
    open spec fn decodable(bytes: Seq<u8>) -> bool {
        arbitrary::<spec_fn(Seq<u8>) -> bool>()(bytes)
    }

    /// Whether `item` is the value that `bytes` stand for.
    open spec fn decodes(bytes: Seq<u8>, item: &Self::DItem) -> bool {
        arbitrary::<spec_fn(Seq<u8>, &Self::DItem) -> bool>()(bytes, item)
    }

    /// Decodes `bytes`.
    fn bytes_decode(bytes: &'a [u8]) -> (r: Result<Self::DItem, DecodeError>)
        ensures
            r is Ok <==> Self::decodable(bytes@),
            r is Ok ==> Self::decodes(bytes@, &r->Ok_0),
    ;
}

/// A way to read a value out of bytes that keeps nothing of them.
pub trait BytesDecodeOwned {
    /// The type to decode to.
    type DItem;

    /// Whether `bytes` stand for a value.
    open spec fn decodable(bytes: Seq<u8>) -> bool {
        arbitrary::<spec_fn(Seq<u8>) -> bool>()(bytes)
    }

    /// Whether `item` is the value that `bytes` stand for.
    open spec fn decodes(bytes: Seq<u8>, item: &Self::DItem) -> bool {
        arbitrary::<spec_fn(Seq<u8>, &Self::DItem) -> bool>()(bytes, item)
    }

    /// Decodes `bytes`.
    fn bytes_decode_owned(bytes: &[u8]) -> (r: Result<Self::DItem, DecodeError>)
        ensures
            r is Ok <==> Self::decodable(bytes@),
            r is Ok ==> Self::decodes(bytes@, &r->Ok_0),
    ;
}

/// A codec whose owned decoding undoes its encoding: every value can be
/// encoded, its bytes can be decoded, and what comes back is the value.
pub trait RoundTrip: BytesEncode + BytesDecodeOwned {
    /// Whether `decoded` is the same value as `item`. The two types may
    /// differ, as a borrowed string differs from an owned one.
    spec fn same(item: &Self::EItem, decoded: &Self::DItem) -> bool;

    /// Every value can be encoded, and what it encodes to can be decoded.
    proof fn encoding_decodes(item: &Self::EItem)
        ensures
            Self::encodable(item),
            Self::decodable(Self::encoding(item)),
    ;

    /// What the encoding of `item` decodes to is `item`.
    proof fn round_trip(item: &Self::EItem, decoded: &Self::DItem)
        requires
            Self::decodes(Self::encoding(item), decoded),
        ensures
            Self::same(item, decoded),
    ;
}


/// The encodings of `keys`, in their order.
pub open spec fn encodings<Key: BytesEncode>(keys: Seq<&Key::EItem>) -> Seq<Seq<u8>> {
    Seq::new(keys.len(), |i: int| Key::encoding(keys[i]))
}

/// Whether every one of `keys` can be encoded.
pub open spec fn all_encodable<Key: BytesEncode>(keys: Seq<&Key::EItem>) -> bool {
    forall|i: int| 0 <= i < keys.len() ==> Key::encodable(#[trigger] keys[i])
}

/// Whether `bytes`, where there are any, can be decoded.
pub open spec fn readable<Val: BytesDecodeOwned>(bytes: Option<Seq<u8>>) -> bool {
    bytes is Some ==> Val::decodable(bytes->Some_0)
}

/// Whether `val` is what `bytes` stand for: nothing for nothing, and
/// otherwise the value that the bytes decode to.
pub open spec fn decoded<Val: BytesDecodeOwned>(bytes: Option<Seq<u8>>, val: Option<Val::DItem>) -> bool {
    match (bytes, val) {
        (None, None) => true,
        (Some(b), Some(v)) => Val::decodes(b, &v),
        _ => false,
    }
}

/// Whether every one of `raw` can be decoded.
pub open spec fn all_readable<Val: BytesDecodeOwned>(raw: Seq<Option<Seq<u8>>>) -> bool {
    forall|i: int| 0 <= i < raw.len() ==> readable::<Val>(#[trigger] raw[i])
}

/// Whether `vals` are what `raw` stand for, place by place.
pub open spec fn all_decoded<Val: BytesDecodeOwned>(raw: Seq<Option<Seq<u8>>>, vals: Seq<Option<Val::DItem>>) -> bool {
    &&& vals.len() == raw.len()
    &&& forall|i: int| 0 <= i < raw.len() ==> decoded::<Val>(raw[i], #[trigger] vals[i])
}

/// Whether `item` is what decoding the pair gives: the decoded key and
/// value where both can be decoded, a decoding failure otherwise.
pub open spec fn pair_decoded<Key: BytesDecodeOwned, Val: BytesDecodeOwned>(
    pair: Pair,
    item: Result<(Key::DItem, Val::DItem), Error>,
) -> bool {
    match item {
        Ok((k, v)) => Key::decodes(pair.0, &k) && Val::decodes(pair.1, &v),
        Err(e) => e is Decode && !(Key::decodable(pair.0) && Val::decodable(pair.1)),
    }
}

/// Whether `items` are what decoding `raw` gives, place by place.
pub open spec fn pairs_decoded<Key: BytesDecodeOwned, Val: BytesDecodeOwned>(
    raw: Seq<Pair>,
    items: Seq<Result<(Key::DItem, Val::DItem), Error>>,
) -> bool {
    &&& items.len() == raw.len()
    &&& forall|i: int| 0 <= i < raw.len() ==> pair_decoded::<Key, Val>(raw[i], #[trigger] items[i])
}

/// Which error a typed write or lookup reports: the codec's where the key
/// or value cannot be encoded, the engine's otherwise.
pub open spec fn write_error(e: Error, encodable: bool) -> bool {
    if encodable {
        engine_error(e)
    } else {
        e is Encode
    }
}

/// Which error a typed read reports: the codec's where the key cannot be
/// encoded, else the engine's where the engine fails, else the codec's where
/// what was found cannot be decoded.
pub open spec fn read_error(e: Error, encodable: bool, readable: bool, infallible: bool) -> bool {
    if !encodable {
        e is Encode
    } else if readable {
        engine_error(e) && !infallible
    } else {
        e is Decode || (engine_error(e) && !infallible)
    }
}

/// Decodes the value that was found, if one was found.
pub fn decode_value<Val: BytesDecodeOwned>(raw: Option<Vec<u8>>) -> (r: Result<Option<Val::DItem>, DecodeError>)
    ensures
        r is Ok <==> readable::<Val>(option_view(raw)),
        r is Ok ==> decoded::<Val>(option_view(raw), r->Ok_0),
{
    match raw {
        Some(bytes) => match Val::bytes_decode_owned(bytes.as_slice()) {
            Ok(val) => Ok(Some(val)),
            Err(e) => Err(e),
        },
        None => Ok(None),
    }
}

/// Encodes every key, and stops at the first that cannot be encoded.
pub fn encode_keys<Key: BytesEncode>(keys: &[&Key::EItem]) -> (r: Result<Vec<Vec<u8>>, EncodeError>)
    ensures
        r is Ok <==> all_encodable::<Key>(keys@),
        r is Ok ==> views(r->Ok_0@) == encodings::<Key>(keys@),
{
    let mut encoded: Vec<Vec<u8>> = Vec::new();
    let mut i: usize = 0;
    while i < keys.len()
        invariant
            i <= keys.len(),
            encoded@.len() == i,
            forall|j: int| 0 <= j < i ==> Key::encodable(#[trigger] keys@[j]),
            forall|j: int| 0 <= j < i ==> (#[trigger] encoded@[j])@ == Key::encoding(keys@[j]),
        decreases keys.len() - i,
    {
        match Key::bytes_encode(keys[i]) {
            Ok(bytes) => {
                encoded.push(bytes);
            },
            Err(e) => {
                return Err(e);
            },
        }
        i += 1;
    }
    assert(views(encoded@) =~= encodings::<Key>(keys@));
    Ok(encoded)
}

/// Decodes every value that is there, and stops at the first that cannot be
/// decoded.
pub fn decode_values<Val: BytesDecodeOwned>(raw: &Vec<Option<Vec<u8>>>) -> (r: Result<Vec<Option<Val::DItem>>, DecodeError>)
    ensures
        r is Ok <==> all_readable::<Val>(option_views(raw@)),
        r is Ok ==> all_decoded::<Val>(option_views(raw@), r->Ok_0@),
{
    let mut vals: Vec<Option<Val::DItem>> = Vec::new();
    let mut i: usize = 0;
    while i < raw.len()
        invariant
            i <= raw.len(),
            vals@.len() == i,
            forall|j: int| 0 <= j < i ==> readable::<Val>(#[trigger] option_views(raw@)[j]),
            forall|j: int| 0 <= j < i ==> decoded::<Val>(option_views(raw@)[j], #[trigger] vals@[j]),
        decreases raw.len() - i,
    {
        match &raw[i] {
            Some(bytes) => match Val::bytes_decode_owned(bytes.as_slice()) {
                Ok(val) => {
                    vals.push(Some(val));
                },
                Err(e) => {
                    assert(!readable::<Val>(option_views(raw@)[i as int]));
                    return Err(e);
                },
            },
            None => {
                vals.push(None);
            },
        }
        i += 1;
    }
    Ok(vals)
}

/// Decodes every pair. A pair that cannot be decoded gives the failure in
/// its place, and the pairs after it are decoded all the same.
pub fn decode_pairs<Key: BytesDecodeOwned, Val: BytesDecodeOwned>(raw: &Vec<(Vec<u8>, Vec<u8>)>) -> (items: Vec<Result<(Key::DItem, Val::DItem), Error>>)
    ensures
        pairs_decoded::<Key, Val>(pair_views(raw@), items@),
{
    let mut items: Vec<Result<(Key::DItem, Val::DItem), Error>> = Vec::new();
    let mut i: usize = 0;
    while i < raw.len()
        invariant
            i <= raw.len(),
            items@.len() == i,
            forall|j: int| 0 <= j < i ==> pair_decoded::<Key, Val>(pair_views(raw@)[j], #[trigger] items@[j]),
        decreases raw.len() - i,
    {
        let item = match Key::bytes_decode_owned(raw[i].0.as_slice()) {
            Ok(key) => match Val::bytes_decode_owned(raw[i].1.as_slice()) {
                Ok(val) => Ok((key, val)),
                Err(e) => Err(Error::Decode(e)),
            },
            Err(e) => Err(Error::Decode(e)),
        };
        items.push(item);
        i += 1;
    }
    items
}


/// The typed operations that a database and a write session share.
///
/// The byte-level operations are what the implementor supplies. The typed
/// ones encode the key and the value, call the byte-level operation, and
/// decode what comes back.
pub trait DBCommon<Key, Val, S: ColumnStore>: ColumnHandle {
    /// Sets `key` to `val`, byte for byte.
    fn set_raw(&mut self, store: &mut S, key: &[u8], val: &[u8]) -> (r: Result<(), Error>)
        requires
            old(store).columns().contains_key(old(self).handle().name),
        ensures
            S::infallible() ==> r is Ok,
            r is Err ==> engine_error(r->Err_0),
            (final(store).columns(), final(self).handle()) == spec_step(
                old(store).columns(),
                old(self).handle(),
                key@,
                Some(val@),
                r is Ok,
            ),
    ;

    /// Sets `key` to `val` if `key` is absent, byte for byte, and says
    /// whether it did.
    fn set_nx_raw(&mut self, store: &mut S, key: &[u8], val: &[u8]) -> (r: Result<bool, Error>)
        requires
            old(store).columns().contains_key(old(self).handle().name),
        ensures
            S::infallible() ==> r is Ok,
            r is Err ==> engine_error(r->Err_0),
            r is Ok ==> r->Ok_0 == !visible(old(store).columns(), old(self).handle()).contains_key(key@),
            (final(store).columns(), final(self).handle()) == spec_step(
                old(store).columns(),
                old(self).handle(),
                key@,
                Some(val@),
                r == Ok::<bool, Error>(true),
            ),
    ;

    /// Removes `key` and its value, if it is there.
    fn delete(&mut self, store: &mut S, key: &Key::EItem) -> (r: Result<(), Error>) where Key: BytesEncode
        requires
            old(store).columns().contains_key(old(self).handle().name),
        ensures
            S::infallible() && Key::encodable(key) ==> r is Ok,
            !Key::encodable(key) ==> r is Err,
            r is Err ==> write_error(r->Err_0, Key::encodable(key)),
            (final(store).columns(), final(self).handle()) == spec_step(
                old(store).columns(),
                old(self).handle(),
                Key::encoding(key),
                None,
                r is Ok,
            ),
    ;

    /// Whether `key` is there.
    fn contains(&self, store: &S, key: &Key::EItem) -> (r: Result<bool, Error>) where Key: BytesEncode
        requires
            store.columns().contains_key(self.handle().name),
        ensures
            S::infallible() && Key::encodable(key) ==> r is Ok,
            !Key::encodable(key) ==> r is Err,
            r is Err ==> write_error(r->Err_0, Key::encodable(key)),
            r is Ok ==> r->Ok_0 == visible(store.columns(), self.handle()).contains_key(Key::encoding(key)),
    ;

    /// Sets `key` to `val`, over whatever was there.
    fn set(&mut self, store: &mut S, key: &Key::EItem, val: &Val::EItem) -> (r: Result<(), Error>) where
        Key: BytesEncode,
        Val: BytesEncode,

        requires
            old(store).columns().contains_key(old(self).handle().name),
        ensures
            S::infallible() && Key::encodable(key) && Val::encodable(val) ==> r is Ok,
            !(Key::encodable(key) && Val::encodable(val)) ==> r is Err,
            r is Err ==> write_error(r->Err_0, Key::encodable(key) && Val::encodable(val)),
            (final(store).columns(), final(self).handle()) == spec_step(
                old(store).columns(),
                old(self).handle(),
                Key::encoding(key),
                Some(Val::encoding(val)),
                r is Ok,
            ),
    {
        let key_bytes = match Key::bytes_encode(key) {
            Ok(bytes) => bytes,
            Err(e) => {
                return Err(Error::Encode(e));
            },
        };
        let val_bytes = match Val::bytes_encode(val) {
            Ok(bytes) => bytes,
            Err(e) => {
                return Err(Error::Encode(e));
            },
        };
        self.set_raw(store, key_bytes.as_slice(), val_bytes.as_slice())
    }

    /// Sets `key` to `val` if `key` is absent, and says whether it did.
    fn set_nx(&mut self, store: &mut S, key: &Key::EItem, val: &Val::EItem) -> (r: Result<bool, Error>) where
        Key: BytesEncode,
        Val: BytesEncode,

        requires
            old(store).columns().contains_key(old(self).handle().name),
        ensures
            S::infallible() && Key::encodable(key) && Val::encodable(val) ==> r is Ok,
            !(Key::encodable(key) && Val::encodable(val)) ==> r is Err,
            r is Err ==> write_error(r->Err_0, Key::encodable(key) && Val::encodable(val)),
            r is Ok ==> r->Ok_0 == !visible(old(store).columns(), old(self).handle()).contains_key(Key::encoding(key)),
            (final(store).columns(), final(self).handle()) == spec_step(
                old(store).columns(),
                old(self).handle(),
                Key::encoding(key),
                Some(Val::encoding(val)),
                r == Ok::<bool, Error>(true),
            ),
    {
        let key_bytes = match Key::bytes_encode(key) {
            Ok(bytes) => bytes,
            Err(e) => {
                return Err(Error::Encode(e));
            },
        };
        let val_bytes = match Val::bytes_encode(val) {
            Ok(bytes) => bytes,
            Err(e) => {
                return Err(Error::Encode(e));
            },
        };
        self.set_nx_raw(store, key_bytes.as_slice(), val_bytes.as_slice())
    }

    /// The bytes under `key`, if there are any.
    fn get_raw(&self, store: &S, key: &[u8]) -> (r: Result<Option<Vec<u8>>, Error>)
        requires
            store.columns().contains_key(self.handle().name),
        ensures
            S::infallible() ==> r is Ok,
            r is Err ==> engine_error(r->Err_0),
            r is Ok ==> option_view(r->Ok_0) == spec_get(visible(store.columns(), self.handle()), key@),
    ;

    /// The value under `key`: `None` where the key is absent, the decoded
    /// value where it is there. A value that is there and cannot be decoded
    /// is an error, not an absence.
    fn get(&self, store: &S, key: &Key::EItem) -> (r: Result<Option<Val::DItem>, Error>) where
        Key: BytesEncode,
        Val: BytesDecodeOwned,

        requires
            store.columns().contains_key(self.handle().name),
        ensures
            S::infallible() && Key::encodable(key) && readable::<Val>(
                spec_get(visible(store.columns(), self.handle()), Key::encoding(key)),
            ) ==> r is Ok,
            r is Ok ==> Key::encodable(key) && decoded::<Val>(
                spec_get(visible(store.columns(), self.handle()), Key::encoding(key)),
                r->Ok_0,
            ),
            r is Err ==> read_error(
                r->Err_0,
                Key::encodable(key),
                readable::<Val>(spec_get(visible(store.columns(), self.handle()), Key::encoding(key))),
                S::infallible(),
            ),
    {
        let key_bytes = match Key::bytes_encode(key) {
            Ok(bytes) => bytes,
            Err(e) => {
                return Err(Error::Encode(e));
            },
        };
        match self.get_raw(store, key_bytes.as_slice()) {
            Ok(raw) => match decode_value::<Val>(raw) {
                Ok(val) => Ok(val),
                Err(e) => Err(Error::Decode(e)),
            },
            Err(e) => Err(e),
        }
    }

    /// The bytes under `keys`: one result for each key, in the keys' order.
    fn get_multi_raw(&self, store: &S, keys: &Vec<Vec<u8>>) -> (r: Result<Vec<Option<Vec<u8>>>, Error>)
        requires
            store.columns().contains_key(self.handle().name),
        ensures
            S::infallible() ==> r is Ok,
            r is Err ==> engine_error(r->Err_0),
            r is Ok ==> option_views(r->Ok_0@) == spec_get_multi(
                visible(store.columns(), self.handle()),
                views(keys@),
            ),
    ;

    /// The values under `keys`: one result for each key, in the keys' order,
    /// `None` where the key is absent.
    fn get_multi(&self, store: &S, keys: &[&Key::EItem]) -> (r: Result<Vec<Option<Val::DItem>>, Error>) where
        Key: BytesEncode,
        Val: BytesDecodeOwned,

        requires
            store.columns().contains_key(self.handle().name),
        ensures
            S::infallible() && all_encodable::<Key>(keys@) && all_readable::<Val>(
                spec_get_multi(visible(store.columns(), self.handle()), encodings::<Key>(keys@)),
            ) ==> r is Ok,
            r is Ok ==> all_encodable::<Key>(keys@) && all_decoded::<Val>(
                spec_get_multi(visible(store.columns(), self.handle()), encodings::<Key>(keys@)),
                r->Ok_0@,
            ),
            r is Err ==> read_error(
                r->Err_0,
                all_encodable::<Key>(keys@),
                all_readable::<Val>(
                    spec_get_multi(visible(store.columns(), self.handle()), encodings::<Key>(keys@)),
                ),
                S::infallible(),
            ),
    {
        let encoded = match encode_keys::<Key>(keys) {
            Ok(encoded) => encoded,
            Err(e) => {
                return Err(Error::Encode(e));
            },
        };
        let raw = match self.get_multi_raw(store, &encoded) {
            Ok(raw) => raw,
            Err(e) => {
                return Err(e);
            },
        };
        match decode_values::<Val>(&raw) {
            Ok(vals) => Ok(vals),
            Err(e) => Err(Error::Decode(e)),
        }
    }
}

/// Databases that can be emptied.
pub trait DBCommonClear<S: ColumnStore>: ColumnHandle {
    /// Removes every entry and keeps the column open.
    fn clear(&mut self, store: &mut S) -> (r: Result<(), Error>)
        requires
            old(store).columns().contains_key(old(self).handle().name),
        ensures
            S::infallible() ==> r is Ok,
            r is Err ==> engine_error(r->Err_0),
            r is Ok ==> (final(store).columns(), final(self).handle()) == spec_clear(
                old(store).columns(),
                old(self).handle(),
            ),
            r is Err ==> final(store).columns() == old(store).columns() && final(self).handle() == old(self).handle(),
    ;
}

/// Databases that can be destroyed.
pub trait DBCommonDelete<S: ColumnStore>: ColumnHandle {
    /// Destroys the column with all its entries. The handle is used up. No
    /// other handle to the column may be used afterwards.
    fn delete_db(self, store: &mut S) -> (r: Result<(), Error>)
        requires
            old(store).columns().contains_key(self.handle().name),
        ensures
            S::infallible() ==> r is Ok,
            r is Err ==> engine_error(r->Err_0),
            r is Ok ==> final(store).columns() == old(store).columns().remove(self.handle().name),
            r is Err ==> final(store).columns() == old(store).columns(),
    ;
}

/// Databases whose entries can be walked.
pub trait DBCommonIter<Key, Val, S: ColumnStore>: ColumnHandle {
    /// Every entry once, as bytes, in the engine's own order.
    fn iter_raw(&self, store: &S) -> (r: Result<Vec<(Vec<u8>, Vec<u8>)>, Error>)
        requires
            store.columns().contains_key(self.handle().name),
        ensures
            S::infallible() ==> r is Ok,
            r is Err ==> engine_error(r->Err_0),
            r is Ok ==> lists(pair_views(r->Ok_0@), visible(store.columns(), self.handle())),
    ;

    /// Every entry once, decoded, in the engine's own order. An entry that
    /// cannot be decoded gives its failure in its place.
    fn iter(&self, store: &S) -> (r: Result<Vec<Result<(Key::DItem, Val::DItem), Error>>, Error>) where
        Key: BytesDecodeOwned,
        Val: BytesDecodeOwned,

        requires
            store.columns().contains_key(self.handle().name),
        ensures
            S::infallible() ==> r is Ok,
            r is Err ==> engine_error(r->Err_0),
            r is Ok ==> exists|raw: Seq<Pair>| #[trigger] lists(raw, visible(store.columns(), self.handle())) && pairs_decoded::<Key, Val>(
                raw,
                r->Ok_0@,
            ),
    {
        match self.iter_raw(store) {
            Ok(raw) => {
                let items = decode_pairs::<Key, Val>(&raw);
                assert(lists(pair_views(raw@), visible(store.columns(), self.handle())));
                Ok(items)
            },
            Err(e) => Err(e),
        }
    }
}

/// Databases whose entries can be walked by key prefix.
pub trait DBCommonIterPrefix<Key, Val, S: ColumnStore>: ColumnHandle {
    /// Every entry whose key starts with `prefix` once, as bytes, in the
    /// engine's own order.
    fn iter_prefix_raw(&self, store: &S, prefix: &[u8]) -> (r: Result<Vec<(Vec<u8>, Vec<u8>)>, Error>)
        requires
            store.columns().contains_key(self.handle().name),
        ensures
            S::infallible() ==> r is Ok,
            r is Err ==> engine_error(r->Err_0),
            r is Ok ==> lists(
                pair_views(r->Ok_0@),
                with_prefix(visible(store.columns(), self.handle()), prefix@),
            ),
    ;

    /// Every entry whose key starts with the encoding of `prefix` once,
    /// decoded, in the engine's own order. An entry that cannot be decoded
    /// gives its failure in its place.
    fn iter_prefix<Prefix: BytesEncode>(&self, store: &S, prefix: &Prefix::EItem) -> (r: Result<
        Vec<Result<(Key::DItem, Val::DItem), Error>>,
        Error,
    >) where Key: BytesDecodeOwned, Val: BytesDecodeOwned
        requires
            store.columns().contains_key(self.handle().name),
        ensures
            S::infallible() && Prefix::encodable(prefix) ==> r is Ok,
            !Prefix::encodable(prefix) ==> r is Err,
            r is Err ==> write_error(r->Err_0, Prefix::encodable(prefix)),
            r is Ok ==> exists|raw: Seq<Pair>| #[trigger] lists(
                raw,
                with_prefix(visible(store.columns(), self.handle()), Prefix::encoding(prefix)),
            ) && pairs_decoded::<Key, Val>(raw, r->Ok_0@),
    {
        let prefix_bytes = match Prefix::bytes_encode(prefix) {
            Ok(bytes) => bytes,
            Err(e) => {
                return Err(Error::Encode(e));
            },
        };
        match self.iter_prefix_raw(store, prefix_bytes.as_slice()) {
            Ok(raw) => {
                let items = decode_pairs::<Key, Val>(&raw);
                assert(lists(
                    pair_views(raw@),
                    with_prefix(visible(store.columns(), self.handle()), Prefix::encoding(prefix)),
                ));
                Ok(items)
            },
            Err(e) => Err(e),
        }
    }
}

/// Whether `val` lends the bytes `bytes`: nothing for nothing, and
/// otherwise a loan of exactly those bytes.
pub open spec fn lent<T: RefBytes, Val>(bytes: Option<Seq<u8>>, val: Option<RefValue<T, Val>>) -> bool {
    match (bytes, val) {
        (None, None) => true,
        (Some(b), Some(v)) => v@ == b,
        _ => false,
    }
}

/// Whether `vals` lend the bytes `raw`, place by place.
pub open spec fn all_lent<T: RefBytes, Val>(raw: Seq<Option<Seq<u8>>>, vals: Seq<Option<RefValue<T, Val>>>) -> bool {
    &&& vals.len() == raw.len()
    &&& forall|i: int| 0 <= i < raw.len() ==> lent::<T, Val>(raw[i], #[trigger] vals[i])
}

/// Databases that can lend a stored value out without copying it.
pub trait DBCommonRef<'c, Key, Val, S: ColumnStore>: ColumnHandle {
    /// The engine's own reference to stored bytes.
    type Ref: RefBytes;

    /// The value under `key`, lent and not yet decoded: `None` where the key
    /// is absent.
    fn get_ref(&'c self, store: &'c S, key: &Key::EItem) -> (r: Result<Option<RefValue<Self::Ref, Val>>, Error>) where
        Key: BytesEncode,

        requires
            store.columns().contains_key(self.handle().name),
        ensures
            S::infallible() && Key::encodable(key) ==> r is Ok,
            !Key::encodable(key) ==> r is Err,
            r is Err ==> write_error(r->Err_0, Key::encodable(key)),
            r is Ok ==> lent::<Self::Ref, Val>(
                spec_get(visible(store.columns(), self.handle()), Key::encoding(key)),
                r->Ok_0,
            ),
    ;
}

/// Databases that can lend several stored values out without copying them.
pub trait DBCommonRefBatch<'c, Key, Val, S: ColumnStore>: ColumnHandle {
    /// The engine's own reference to stored bytes.
    type Ref: RefBytes;

    /// The values under `keys`, lent and not yet decoded: one result for
    /// each key, in the keys' order, `None` where the key is absent.
    fn get_multi_ref(&'c self, store: &'c S, keys: &[&Key::EItem]) -> (r: Result<
        Vec<Option<RefValue<Self::Ref, Val>>>,
        Error,
    >) where Key: BytesEncode
        requires
            store.columns().contains_key(self.handle().name),
        ensures
            S::infallible() && all_encodable::<Key>(keys@) ==> r is Ok,
            !all_encodable::<Key>(keys@) ==> r is Err,
            r is Err ==> write_error(r->Err_0, all_encodable::<Key>(keys@)),
            r is Ok ==> all_lent::<Self::Ref, Val>(
                spec_get_multi(visible(store.columns(), self.handle()), encodings::<Key>(keys@)),
                r->Ok_0@,
            ),
    ;
}

} // verus!
