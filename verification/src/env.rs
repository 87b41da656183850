//! The environment: the one way to the columns of a storage engine.
use vstd::prelude::*;
use crate::backend::{ColumnHandle, ColumnStore, DatabaseBackend};
use crate::db::{Database, DatabaseLazy};
use crate::error::Error;
use crate::model::Columns;
use crate::model::{column_handle, engine_error, spec_open};
use crate::traits::{BytesEncode, Innerable};

verus! {

/// A database environment: it owns one storage engine, and every column of
/// the engine is opened through it.
///
/// A database is a handle that names a column. It reaches the column
/// through the environment, which every operation is handed. An operation
/// that writes takes the environment exclusively, so there is one writer at
/// a time; to share an environment between threads, put it behind a lock.
pub struct Env<D: DatabaseBackend> {
    db: D,
}

impl<D: DatabaseBackend> ColumnStore for Env<D> {
    open spec fn columns(&self) -> Columns {
        self.engine().columns()
    }

    open spec fn infallible() -> bool {
        D::infallible()
    }

    open spec fn flushed(&self, name: Seq<char>) -> bool {
        self.engine().flushed(name)
    }
}

impl<D: DatabaseBackend> Env<D> {
    /// The storage engine, to the contracts.
    pub closed spec fn engine(&self) -> D {
        self.db
    }

    /// The storage engine.
    pub fn db(&self) -> (db: &D)
        ensures
            *db == self.engine(),
    {
        &self.db
    }

    /// The storage engine, to write to.
    pub fn db_mut(&mut self) -> (db: &mut D)
        ensures
            *db == old(self).engine(),
            final(self).engine() == *final(db),
    {
        &mut self.db
    }

    /// What the storage engine wraps, to reach it directly.
    pub fn inner(&self) -> (inner: &D::Inner)
        ensures
            *inner == self.engine().spec_inner(),
    {
        self.db.inner()
    }

    /// A new environment over the given engine.
    pub fn new(db: D) -> (env: Self)
        ensures
            env.engine() == db,
    {
        Env { db }
    }

    /// Opens the database `name`, and creates it empty where the engine has
    /// none of that name. `K` and `V` are the codecs of its keys and values.
    /// Opening a name again gives a handle to the same column.
    pub fn open<K, V>(&mut self, name: &str) -> (r: Result<Database<K, V, D>, Error>)
        ensures
            D::infallible() ==> r is Ok,
            r is Err ==> engine_error(r->Err_0),
            r is Ok ==> r->Ok_0.handle() == column_handle(name@) && r->Ok_0@ == name@,
            r is Ok ==> final(self).columns() == spec_open(old(self).columns(), name@),
            r is Err ==> final(self).columns() == old(self).columns(),
    {
        Database::new(self, name)
    }

    /// The same as [`Env::open`], with the two codecs given as one pair.
    pub fn open_tupel<T: DatabaseType>(&mut self, name: &str) -> (r: Result<Database<T::Key, T::Val, D>, Error>)
        ensures
            D::infallible() ==> r is Ok,
            r is Err ==> engine_error(r->Err_0),
            r is Ok ==> r->Ok_0.handle() == column_handle(name@) && r->Ok_0@ == name@,
            r is Ok ==> final(self).columns() == spec_open(old(self).columns(), name@),
            r is Err ==> final(self).columns() == old(self).columns(),
    {
        Database::new(self, name)
    }

    /// Names the database `name` without opening it yet.
    pub fn open_lazy<K, V>(&self, name: &str) -> (lazy: DatabaseLazy<K, V, D>)
        ensures
            lazy@ == name@,
    {
        DatabaseLazy::new(name)
    }
}

/// A pair of codecs: one for the keys of a database, one for its values.
pub trait DatabaseType {
    /// The codec of the keys.
    type Key;

    /// The codec of the values.
    type Val;
}

impl<K: BytesEncode, V: BytesEncode> DatabaseType for (K, V) {
    type Key = K;

    type Val = V;
}

} // verus!
