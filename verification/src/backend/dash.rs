//! `dashmap::DashMap` keyed and valued by byte vectors, as the in-memory
//! engine uses it.
//!
//! Nothing here is proved: each function states what the `DashMap` method it
//! calls does to the entries of the map. The functions that change the map
//! take it exclusively, although `DashMap` itself would let them share it,
//! so that what the map holds changes only where a contract says so.
use vstd::prelude::*;
use dashmap::mapref::one::Ref;
use dashmap::DashMap;
use crate::model::{Entries, lists, pair_views};

verus! {

/// `dashmap::DashMap`, of which the contracts see the entries alone.
#[verifier::external_type_specification]
#[verifier::external_body]
#[verifier::reject_recursive_types(K)]
#[verifier::reject_recursive_types(V)]
#[verifier::reject_recursive_types(S)]
pub struct ExDashMap<K, V, S>(DashMap<K, V, S>);

/// `dashmap::mapref::one::Ref`, a shared hold on one entry of a map, of
/// which the contracts see the value of the entry alone.
#[verifier::external_type_specification]
#[verifier::external_body]
#[verifier::reject_recursive_types(K)]
#[verifier::reject_recursive_types(V)]
#[verifier::reject_recursive_types(S)]
pub struct ExRef<'a, K, V, S>(Ref<'a, K, V, S>);

/// The entries of a map: its keys, each with the value last inserted under
/// it and not removed since.
pub uninterp spec fn stored(map: DashMap<Vec<u8>, Vec<u8>>) -> Entries;

/// The value of the entry that is held.
pub uninterp spec fn held(entry: Ref<'_, Vec<u8>, Vec<u8>>) -> Seq<u8>;

/// `DashMap::new`: a map without entries.
#[verifier::external_body]
pub(crate) fn map_new() -> (map: DashMap<Vec<u8>, Vec<u8>>)
    ensures
        stored(map) == Entries::empty(),
{
    DashMap::new()
}

/// `DashMap::insert`: puts `val` under `key`, in place of any value that
/// was there.
#[verifier::external_body]
pub(crate) fn map_insert(map: &mut DashMap<Vec<u8>, Vec<u8>>, key: &[u8], val: &[u8])
    ensures
        stored(*final(map)) == stored(*old(map)).insert(key@, val@),
{
    map.insert(key.to_vec(), val.to_vec());
}

/// `DashMap::get`: a hold on the entry under `key`, if the map has the key.
/// The hold lasts as long as the map is borrowed.
#[verifier::external_body]
pub(crate) fn map_get<'c>(map: &'c DashMap<Vec<u8>, Vec<u8>>, key: &[u8]) -> (r: Option<Ref<'c, Vec<u8>, Vec<u8>>>)
    ensures
        r is Some <==> stored(*map).contains_key(key@),
        r is Some ==> held(r->Some_0) == stored(*map)[key@],
{
    map.get(key)
}

/// `Ref::value`: the value of the entry that is held.
#[verifier::external_body]
pub(crate) fn entry_value<'a>(entry: &'a Ref<'_, Vec<u8>, Vec<u8>>) -> (r: &'a [u8])
    ensures
        r@ == held(*entry),
{
    entry.value().as_slice()
}

/// `DashMap::contains_key`: whether the map has `key`.
#[verifier::external_body]
pub(crate) fn map_contains_key(map: &DashMap<Vec<u8>, Vec<u8>>, key: &[u8]) -> (r: bool)
    ensures
        r == stored(*map).contains_key(key@),
{
    map.contains_key(key)
}

/// `DashMap::remove`: takes `key` and its value out, if the map has the key.
#[verifier::external_body]
pub(crate) fn map_remove(map: &mut DashMap<Vec<u8>, Vec<u8>>, key: &[u8])
    ensures
        stored(*final(map)) == stored(*old(map)).remove(key@),
{
    map.remove(key);
}

/// `DashMap::clear`: takes every entry out.
#[verifier::external_body]
pub(crate) fn map_clear(map: &mut DashMap<Vec<u8>, Vec<u8>>)
    ensures
        stored(*final(map)) == Entries::empty(),
{
    map.clear();
}

/// `DashMap::iter`, each entry copied out: every entry of the map once. The
/// order is the map's own and differs from run to run.
#[verifier::external_body]
pub(crate) fn map_pairs(map: &DashMap<Vec<u8>, Vec<u8>>) -> (r: Vec<(Vec<u8>, Vec<u8>)>)
    ensures
        lists(pair_views(r@), stored(*map)),
{
    map.iter().map(|entry| (entry.key().clone(), entry.value().clone())).collect()
}

} // verus!
