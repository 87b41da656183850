//! A database that is opened when it is first needed.
use vstd::prelude::*;
use std::marker::PhantomData;
use crate::backend::{ColumnHandle, ColumnStore, DatabaseBackend};
use crate::db::Database;
use crate::env::Env;
use crate::error::Error;
use crate::model::{column_handle, engine_error, spec_open};

verus! {

/// The name of a database and the codecs of its keys and values, kept until
/// the database is opened.
pub struct DatabaseLazy<K, V, D: DatabaseBackend> {
    name: String,
    marker: PhantomData<(K, V, D)>,
}

impl<K, V, D: DatabaseBackend> DatabaseLazy<K, V, D> {
    /// The name that was given.
    pub closed spec fn view(&self) -> Seq<char> {
        self.name@
    }

    /// Keeps `name` for later.
    pub(crate) fn new(name: &str) -> (lazy: Self)
        ensures
            lazy@ == name@,
    {
        DatabaseLazy { name: name.to_owned(), marker: PhantomData }
    }

    /// Opens the database in `env`, as [`Env::open`] does.
    pub fn open(&self, env: &mut Env<D>) -> (r: Result<Database<K, V, D>, Error>)
        ensures
            D::infallible() ==> r is Ok,
            r is Err ==> engine_error(r->Err_0),
            r is Ok ==> r->Ok_0.handle() == column_handle(self@) && r->Ok_0@ == self@,
            r is Ok ==> final(env).columns() == spec_open(old(env).columns(), self@),
            r is Err ==> final(env).columns() == old(env).columns(),
    {
        Database::new(env, self.name.as_str())
    }
}

} // verus!
