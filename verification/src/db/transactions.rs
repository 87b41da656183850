//! The typed handle to one write session.
use vstd::prelude::*;
use std::marker::PhantomData;
use crate::backend::{ColumnHandle, ColumnStore, DBColumn, DBColumnIterator, DBColumnIteratorPrefix};
use crate::backend::{DBColumnTransaction, DBTransaction, DatabaseBackend};
use crate::env::Env;
use crate::error::Error;
use crate::model::Handle;
use crate::model::{engine_error, spec_commit};
use crate::traits::{BytesEncode, DBCommon, DBCommonIter, DBCommonIterPrefix};

verus! {

/// A write session on one database, with the codecs `K` of its keys and `V`
/// of its values.
///
/// A session is open from the moment it is begun. It has the typed
/// operations of a database, and they show the column with the session's own
/// writes made. Nobody else sees those writes until the session is
/// committed. Committing and rolling back take the session by value: a
/// session that has ended is gone, and the compiler refuses any further use
/// of it.
pub struct DatabaseTransaction<K, V, D: DatabaseBackend> where D::Column: DBColumnTransaction<D> {
    column: <D::Column as DBColumnTransaction<D>>::Txn,
    marker: PhantomData<(K, V)>,
}

impl<K, V, D: DatabaseBackend> ColumnHandle for DatabaseTransaction<K, V, D> where D::Column: DBColumnTransaction<D> {
    closed spec fn handle(&self) -> Handle {
        self.column.handle()
    }
}

impl<K, V, D: DatabaseBackend> DatabaseTransaction<K, V, D> where D::Column: DBColumnTransaction<D> {
    /// Wraps the engine's write session.
    pub(crate) fn new(column: <D::Column as DBColumnTransaction<D>>::Txn) -> (txn: Self)
        ensures
            txn.handle() == column.handle(),
    {
        DatabaseTransaction { column, marker: PhantomData }
    }

    /// The same session, with other codecs.
    pub fn as_type<K2, V2>(self) -> (txn: DatabaseTransaction<K2, V2, D>)
        ensures
            txn.handle() == self.handle(),
    {
        DatabaseTransaction { column: self.column, marker: PhantomData }
    }

    /// Ends the session and applies its writes: the column becomes what the
    /// session showed. Where the engine fails, nothing is applied.
    pub fn commit(self, env: &mut Env<D>) -> (r: Result<(), Error>)
        requires
            old(env).columns().contains_key(self.handle().name),
        ensures
            D::infallible() ==> r is Ok,
            r is Err ==> engine_error(r->Err_0),
            r is Ok ==> final(env).columns() == spec_commit(old(env).columns(), self.handle()),
            r is Err ==> final(env).columns() == old(env).columns(),
    {
        self.column.commit(env.db_mut())
    }

    /// Ends the session and drops its writes: the engine stays as it is.
    pub fn rollback(self, env: &mut Env<D>) -> (r: Result<(), Error>)
        requires
            old(env).columns().contains_key(self.handle().name),
        ensures
            D::infallible() ==> r is Ok,
            r is Err ==> engine_error(r->Err_0),
            final(env).columns() == old(env).columns(),
    {
        self.column.rollback(env.db_mut())
    }
}

impl<Key, Val, D: DatabaseBackend> DBCommon<Key, Val, Env<D>> for DatabaseTransaction<Key, Val, D> where
    D::Column: DBColumnTransaction<D>,
 {
    fn get_raw(&self, store: &Env<D>, key: &[u8]) -> (r: Result<Option<Vec<u8>>, Error>) {
        self.column.get(store.db(), key)
    }

    fn set_raw(&mut self, store: &mut Env<D>, key: &[u8], val: &[u8]) -> (r: Result<(), Error>) {
        self.column.set(store.db_mut(), key, val)
    }

    fn set_nx_raw(&mut self, store: &mut Env<D>, key: &[u8], val: &[u8]) -> (r: Result<bool, Error>) {
        self.column.set_nx(store.db_mut(), key, val)
    }

    fn delete(&mut self, store: &mut Env<D>, key: &Key::EItem) -> (r: Result<(), Error>) where Key: BytesEncode {
        match Key::bytes_encode(key) {
            Ok(key_bytes) => self.column.delete(store.db_mut(), key_bytes.as_slice()),
            Err(e) => Err(Error::Encode(e)),
        }
    }

    fn get_multi_raw(&self, store: &Env<D>, keys: &Vec<Vec<u8>>) -> (r: Result<Vec<Option<Vec<u8>>>, Error>) {
        self.column.get_multi(store.db(), keys)
    }

    fn contains(&self, store: &Env<D>, key: &Key::EItem) -> (r: Result<bool, Error>) where Key: BytesEncode {
        match Key::bytes_encode(key) {
            Ok(key_bytes) => self.column.contains(store.db(), key_bytes.as_slice()),
            Err(e) => Err(Error::Encode(e)),
        }
    }
}

impl<Key, Val, D: DatabaseBackend> DBCommonIter<Key, Val, Env<D>> for DatabaseTransaction<Key, Val, D> where
    D::Column: DBColumnTransaction<D>,
    <D::Column as DBColumnTransaction<D>>::Txn: DBColumnIterator<D>,
 {
    fn iter_raw(&self, store: &Env<D>) -> (r: Result<Vec<(Vec<u8>, Vec<u8>)>, Error>) {
        self.column.iter(store.db())
    }
}

impl<Key, Val, D: DatabaseBackend> DBCommonIterPrefix<Key, Val, Env<D>> for DatabaseTransaction<Key, Val, D> where
    D::Column: DBColumnTransaction<D>,
    <D::Column as DBColumnTransaction<D>>::Txn: DBColumnIteratorPrefix<D>,
 {
    fn iter_prefix_raw(&self, store: &Env<D>, prefix: &[u8]) -> (r: Result<Vec<(Vec<u8>, Vec<u8>)>, Error>) {
        self.column.iter_prefix(store.db(), prefix)
    }
}

} // verus!
