//! The typed handle to one column.
use vstd::prelude::*;
use std::marker::PhantomData;
use crate::backend::{ColumnHandle, ColumnStore, DBColumn, DBColumnClear, DBColumnDelete};
use crate::backend::{DBColumnIterator, DBColumnIteratorPrefix, DBColumnTransaction, DatabaseBackend};
use crate::backend::{DBColumnRef, DBColumnRefBatch, Flushable, RefBytes};
use crate::db::DatabaseTransaction;
use crate::env::Env;
use crate::error::Error;
use crate::model::Handle;
use crate::model::{column_handle, engine_error, option_view, option_views, session_handle};
use crate::model::{spec_get, spec_get_multi, spec_open, views, visible};
use crate::traits::{BytesEncode, DBCommon, DBCommonClear, DBCommonDelete, DBCommonIter, DBCommonIterPrefix};
use crate::traits::{DBCommonRef, DBCommonRefBatch};
use crate::traits::{encode_keys, encodings, lent};
use crate::types::RefValue;

verus! {

/// A collection of key-value pairs: a handle to one column of an
/// environment, with the codecs `K` of its keys and `V` of its values.
///
/// The handle owns no data. It can be given other codecs over the same
/// bytes; nothing checks that what is stored fits them.
pub struct Database<K, V, D: DatabaseBackend> {
    name: String,
    column: D::Column,
    marker: PhantomData<(K, V)>,
}

impl<K, V, D: DatabaseBackend> Clone for Database<K, V, D> where D::Column: Clone {
    /// Another handle to the same column: the engine's handle is cloned,
    /// and the data is not touched.
    fn clone(&self) -> (db: Self)
        ensures
            db@ == self@,
            cloned(self.column(), db.column()),
    {
        Database { name: self.name.clone(), column: self.column.clone(), marker: PhantomData }
    }
}

impl<K, V, D: DatabaseBackend> ColumnHandle for Database<K, V, D> {
    open spec fn handle(&self) -> Handle {
        self.column().handle()
    }
}

impl<K, V, D: DatabaseBackend> Database<K, V, D> {
    /// The name that the database was opened under.
    pub closed spec fn view(&self) -> Seq<char> {
        self.name@
    }

    /// The engine's own handle to the column, to the contracts.
    pub closed spec fn column(&self) -> D::Column {
        self.column
    }

    /// Opens the column `name` of the engine of `env`.
    pub(crate) fn new(env: &mut Env<D>, name: &str) -> (r: Result<Self, Error>)
        ensures
            D::infallible() ==> r is Ok,
            r is Err ==> engine_error(r->Err_0),
            r is Ok ==> r->Ok_0.handle() == column_handle(name@) && r->Ok_0@ == name@,
            r is Ok ==> final(env).columns() == spec_open(old(env).columns(), name@),
            r is Err ==> final(env).columns() == old(env).columns(),
    {
        match env.db_mut().create_or_open(name) {
            Ok(column) => Ok(Database { name: name.to_owned(), column, marker: PhantomData }),
            Err(e) => Err(e),
        }
    }

    /// The name of the database.
    pub fn name(&self) -> (name: &str)
        ensures
            name@ == self@,
    {
        self.name.as_str()
    }

    /// The same handle, with other codecs.
    pub fn as_type<K2, V2>(self) -> (db: Database<K2, V2, D>)
        ensures
            db.column() == self.column(),
            db@ == self@,
    {
        Database { name: self.name, column: self.column, marker: PhantomData }
    }

    /// The engine's own handle to the column, to reach the engine directly.
    pub fn inner(&self) -> (column: &D::Column)
        ensures
            *column == self.column(),
    {
        &self.column
    }

    /// Begins a write session on the database.
    pub fn transaction(&self, env: &Env<D>) -> (r: Result<DatabaseTransaction<K, V, D>, Error>) where
        D::Column: DBColumnTransaction<D>,

        requires
            env.columns().contains_key(self.handle().name),
        ensures
            D::infallible() ==> r is Ok,
            r is Err ==> engine_error(r->Err_0),
            r is Ok ==> r->Ok_0.handle() == session_handle(self.handle().name),
    {
        match self.column.transaction(env.db()) {
            Ok(txn) => Ok(DatabaseTransaction::new(txn)),
            Err(e) => Err(e),
        }
    }

    /// Flushes the column to disk, on engines that have one. What the
    /// environment holds stays what it is, and where the flush succeeds, all
    /// that the column holds has been written out.
    pub fn flush(&self, env: &mut Env<D>) -> (r: Result<(), Error>) where D::Column: Flushable<D>
        ensures
            D::infallible() ==> r is Ok,
            r is Err ==> engine_error(r->Err_0),
            final(env).columns() == old(env).columns(),
            r is Ok ==> final(env).flushed(self.handle().name),
    {
        self.column.flush(env.db_mut())
    }
}

impl<Key, Val, D: DatabaseBackend> DBCommon<Key, Val, Env<D>> for Database<Key, Val, D> {
    fn get_raw(&self, store: &Env<D>, key: &[u8]) -> (r: Result<Option<Vec<u8>>, Error>) {
        self.column.get(store.db(), key)
    }

    fn set_raw(&mut self, store: &mut Env<D>, key: &[u8], val: &[u8]) -> (r: Result<(), Error>) {
        self.column.set(store.db_mut(), key, val)
    }

    fn set_nx_raw(&mut self, store: &mut Env<D>, key: &[u8], val: &[u8]) -> (r: Result<bool, Error>) {
        self.column.set_nx(store.db_mut(), key, val)
    }

    fn delete(&mut self, store: &mut Env<D>, key: &Key::EItem) -> (r: Result<(), Error>) where Key: BytesEncode {
        match Key::bytes_encode(key) {
            Ok(key_bytes) => self.column.delete(store.db_mut(), key_bytes.as_slice()),
            Err(e) => Err(Error::Encode(e)),
        }
    }

    fn get_multi_raw(&self, store: &Env<D>, keys: &Vec<Vec<u8>>) -> (r: Result<Vec<Option<Vec<u8>>>, Error>) {
        let ghost shown = visible(store.columns(), self.handle());
        let mut res: Vec<Option<Vec<u8>>> = Vec::new();
        let mut i: usize = 0;
        while i < keys.len()
            invariant
                i <= keys.len(),
                res@.len() == i,
                store.columns().contains_key(self.handle().name),
                shown == visible(store.columns(), self.handle()),
                forall|j: int| 0 <= j < i ==> option_view(#[trigger] res@[j]) == spec_get(shown, keys@[j]@),
            decreases keys.len() - i,
        {
            match self.column.get(store.db(), keys[i].as_slice()) {
                Ok(val) => {
                    res.push(val);
                },
                Err(e) => {
                    return Err(e);
                },
            }
            i += 1;
        }
        assert(option_views(res@) =~= spec_get_multi(shown, views(keys@)));
        Ok(res)
    }

    fn contains(&self, store: &Env<D>, key: &Key::EItem) -> (r: Result<bool, Error>) where Key: BytesEncode {
        match Key::bytes_encode(key) {
            Ok(key_bytes) => self.column.contains(store.db(), key_bytes.as_slice()),
            Err(e) => Err(Error::Encode(e)),
        }
    }
}

impl<Key, Val, D: DatabaseBackend> DBCommonClear<Env<D>> for Database<Key, Val, D> where D::Column: DBColumnClear<D> {
    fn clear(&mut self, store: &mut Env<D>) -> (r: Result<(), Error>) {
        self.column.clear(store.db_mut())
    }
}

impl<Key, Val, D: DatabaseBackend> DBCommonDelete<Env<D>> for Database<Key, Val, D> where D::Column: DBColumnDelete<D> {
    fn delete_db(self, store: &mut Env<D>) -> (r: Result<(), Error>) {
        self.column.delete_db(store.db_mut())
    }
}

impl<Key, Val, D: DatabaseBackend> DBCommonIter<Key, Val, Env<D>> for Database<Key, Val, D> where D::Column: DBColumnIterator<D> {
    fn iter_raw(&self, store: &Env<D>) -> (r: Result<Vec<(Vec<u8>, Vec<u8>)>, Error>) {
        self.column.iter(store.db())
    }
}

impl<Key, Val, D: DatabaseBackend> DBCommonIterPrefix<Key, Val, Env<D>> for Database<Key, Val, D> where D::Column: DBColumnIteratorPrefix<D> {
    fn iter_prefix_raw(&self, store: &Env<D>, prefix: &[u8]) -> (r: Result<Vec<(Vec<u8>, Vec<u8>)>, Error>) {
        self.column.iter_prefix(store.db(), prefix)
    }
}

impl<'c, Key, Val, D: DatabaseBackend> DBCommonRef<'c, Key, Val, Env<D>> for Database<Key, Val, D> where
    D::Column: DBColumnRef<'c, D>,
 {
    type Ref = <D::Column as DBColumnRef<'c, D>>::Ref;

    fn get_ref(&'c self, store: &'c Env<D>, key: &Key::EItem) -> (r: Result<Option<RefValue<Self::Ref, Val>>, Error>) where
        Key: BytesEncode,
     {
        let key_bytes = match Key::bytes_encode(key) {
            Ok(bytes) => bytes,
            Err(e) => {
                return Err(Error::Encode(e));
            },
        };
        match self.column.get_ref(store.db(), key_bytes.as_slice()) {
            Ok(Some(val_bytes)) => Ok(Some(RefValue::new(val_bytes))),
            Ok(None) => Ok(None),
            Err(e) => Err(e),
        }
    }
}

impl<'c, Key, Val, D: DatabaseBackend> DBCommonRefBatch<'c, Key, Val, Env<D>> for Database<Key, Val, D> where
    D::Column: DBColumnRefBatch<'c, D>,
 {
    type Ref = <D::Column as DBColumnRefBatch<'c, D>>::Ref;

    fn get_multi_ref(&'c self, store: &'c Env<D>, keys: &[&Key::EItem]) -> (r: Result<
        Vec<Option<RefValue<Self::Ref, Val>>>,
        Error,
    >) where Key: BytesEncode {
        let encoded = match encode_keys::<Key>(keys) {
            Ok(encoded) => encoded,
            Err(e) => {
                return Err(Error::Encode(e));
            },
        };
        let mut res = match self.column.get_multi_ref(store.db(), &encoded) {
            Ok(res) => res,
            Err(e) => {
                return Err(e);
            },
        };
        let ghost shown = spec_get_multi(visible(store.columns(), self.handle()), encodings::<Key>(keys@));
        let ghost lent_out = res@;
        let mut turned: Vec<Option<RefValue<Self::Ref, Val>>> = Vec::new();
        while res.len() > 0
            invariant
                lent_out.len() == shown.len(),
                res@ =~= lent_out.subrange(0, res@.len() as int),
                turned@.len() + res@.len() == lent_out.len(),
                forall|j: int| 0 <= j < lent_out.len() ==> (#[trigger] lent_out[j] is Some <==> shown[j] is Some),
                forall|j: int| 0 <= j < lent_out.len() && #[trigger] lent_out[j] is Some ==> lent_out[j]->Some_0@ == shown[j]->Some_0,
                forall|j: int| 0 <= j < turned@.len() ==> lent::<Self::Ref, Val>(shown[shown.len() - 1 - j], #[trigger] turned@[j]),
            decreases res.len(),
        {
            let ghost at = res@.len() - 1;
            assert(res@[at] == lent_out[at]);
            let wrapped = match res.pop().unwrap() {
                Some(val_bytes) => Some(RefValue::new(val_bytes)),
                None => None,
            };
            turned.push(wrapped);
        }
        let mut wrapped_res: Vec<Option<RefValue<Self::Ref, Val>>> = Vec::new();
        let ghost all = turned@;
        while turned.len() > 0
            invariant
                all.len() == shown.len(),
                turned@ =~= all.subrange(0, turned@.len() as int),
                wrapped_res@.len() + turned@.len() == all.len(),
                forall|j: int| 0 <= j < all.len() ==> lent::<Self::Ref, Val>(shown[shown.len() - 1 - j], #[trigger] all[j]),
                forall|j: int| 0 <= j < wrapped_res@.len() ==> lent::<Self::Ref, Val>(shown[j], #[trigger] wrapped_res@[j]),
            decreases turned.len(),
        {
            let ghost at = turned@.len() - 1;
            assert(turned@[at] == all[at]);
            let val = turned.pop().unwrap();
            wrapped_res.push(val);
        }
        Ok(wrapped_res)
    }
}

} // verus!
