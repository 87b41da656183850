//! One engine type over a closed set of engines.
//!
//! Where the engine is chosen when the program runs, the caller's types
//! cannot name it. `AnyDatabase` holds any one of the engines that the layer
//! knows and hands every operation on to it.
use vstd::prelude::*;
use crate::backend::mem::{MemDB, MemDBColumn};
use crate::backend::{ColumnHandle, ColumnStore, DBColumn, DBColumnClear, DBColumnDelete, DatabaseBackend};
use crate::error::Error;
use crate::model::{Columns, Handle};
use crate::traits::Innerable;

verus! {

/// The engines that [`AnyDatabase`] can hold.
pub enum AnyDatabaseBackend {
    /// See [`MemDB`].
    MemDB(MemDB),
}

/// The column handles of the engines that [`AnyDatabase`] can hold.
pub enum AnyDatabaseBackendColumn {
    /// See [`MemDBColumn`].
    MemDB(MemDBColumn),
}

/// Any one of the engines that the layer knows, as one engine type.
pub struct AnyDatabase {
    backend: AnyDatabaseBackend,
}

/// A column handle of an [`AnyDatabase`].
pub struct AnyDatabaseColumn {
    column: AnyDatabaseBackendColumn,
}

impl AnyDatabase {
    /// Wraps the given engine.
    pub fn new(backend: AnyDatabaseBackend) -> (db: Self)
        ensures
            db.spec_inner() == backend,
    {
        AnyDatabase { backend }
    }
}

impl ColumnStore for AnyDatabase {
    open spec fn columns(&self) -> Columns {
        match self.spec_inner() {
            AnyDatabaseBackend::MemDB(mem) => mem.columns(),
        }
    }

    open spec fn infallible() -> bool {
        MemDB::infallible()
    }

    open spec fn flushed(&self, name: Seq<char>) -> bool {
        match self.spec_inner() {
            AnyDatabaseBackend::MemDB(mem) => mem.flushed(name),
        }
    }
}

impl Innerable for AnyDatabase {
    type Inner = AnyDatabaseBackend;

    closed spec fn spec_inner(&self) -> AnyDatabaseBackend {
        self.backend
    }

    fn inner(&self) -> (inner: &AnyDatabaseBackend) {
        &self.backend
    }
}

impl DatabaseBackend for AnyDatabase {
    type Column = AnyDatabaseColumn;

    fn create_or_open(&mut self, name: &str) -> (r: Result<AnyDatabaseColumn, Error>) {
        match &mut self.backend {
            AnyDatabaseBackend::MemDB(mem) => match mem.create_or_open(name) {
                Ok(column) => Ok(AnyDatabaseColumn { column: AnyDatabaseBackendColumn::MemDB(column) }),
                Err(e) => Err(e),
            },
        }
    }
}

impl Clone for AnyDatabaseBackendColumn {
    fn clone(&self) -> (column: Self)
        ensures
            match (*self, column) {
                (AnyDatabaseBackendColumn::MemDB(mine), AnyDatabaseBackendColumn::MemDB(other)) => other@ == mine@,
            },
    {
        match self {
            AnyDatabaseBackendColumn::MemDB(column) => AnyDatabaseBackendColumn::MemDB(column.clone()),
        }
    }
}

impl Clone for AnyDatabaseColumn {
    fn clone(&self) -> (column: Self)
        ensures
            column.handle() == self.handle(),
    {
        AnyDatabaseColumn { column: self.column.clone() }
    }
}

impl ColumnHandle for AnyDatabaseColumn {
    open spec fn handle(&self) -> Handle {
        match self.spec_inner() {
            AnyDatabaseBackendColumn::MemDB(column) => column.handle(),
        }
    }
}

impl Innerable for AnyDatabaseColumn {
    type Inner = AnyDatabaseBackendColumn;

    closed spec fn spec_inner(&self) -> AnyDatabaseBackendColumn {
        self.column
    }

    fn inner(&self) -> (inner: &AnyDatabaseBackendColumn) {
        &self.column
    }
}

impl DBColumn<AnyDatabase> for AnyDatabaseColumn {
    fn set(&mut self, backend: &mut AnyDatabase, key: &[u8], val: &[u8]) -> (r: Result<(), Error>) {
        match (&mut self.column, &mut backend.backend) {
            (AnyDatabaseBackendColumn::MemDB(column), AnyDatabaseBackend::MemDB(mem)) => column.set(mem, key, val),
        }
    }

    fn get(&self, backend: &AnyDatabase, key: &[u8]) -> (r: Result<Option<Vec<u8>>, Error>) {
        match (&self.column, &backend.backend) {
            (AnyDatabaseBackendColumn::MemDB(column), AnyDatabaseBackend::MemDB(mem)) => column.get(mem, key),
        }
    }

    fn get_multi(&self, backend: &AnyDatabase, keys: &Vec<Vec<u8>>) -> (r: Result<Vec<Option<Vec<u8>>>, Error>) {
        match (&self.column, &backend.backend) {
            (AnyDatabaseBackendColumn::MemDB(column), AnyDatabaseBackend::MemDB(mem)) => column.get_multi(mem, keys),
        }
    }

    fn delete(&mut self, backend: &mut AnyDatabase, key: &[u8]) -> (r: Result<(), Error>) {
        match (&mut self.column, &mut backend.backend) {
            (AnyDatabaseBackendColumn::MemDB(column), AnyDatabaseBackend::MemDB(mem)) => column.delete(mem, key),
        }
    }

    fn contains(&self, backend: &AnyDatabase, key: &[u8]) -> (r: Result<bool, Error>) {
        match (&self.column, &backend.backend) {
            (AnyDatabaseBackendColumn::MemDB(column), AnyDatabaseBackend::MemDB(mem)) => column.contains(mem, key),
        }
    }
}

impl DBColumnClear<AnyDatabase> for AnyDatabaseColumn {
    fn clear(&mut self, backend: &mut AnyDatabase) -> (r: Result<(), Error>) {
        match (&mut self.column, &mut backend.backend) {
            (AnyDatabaseBackendColumn::MemDB(column), AnyDatabaseBackend::MemDB(mem)) => column.clear(mem),
        }
    }
}

impl DBColumnDelete<AnyDatabase> for AnyDatabaseColumn {
    fn delete_db(&self, backend: &mut AnyDatabase) -> (r: Result<(), Error>) {
        match (&self.column, &mut backend.backend) {
            (AnyDatabaseBackendColumn::MemDB(column), AnyDatabaseBackend::MemDB(mem)) => column.delete_db(mem),
        }
    }
}

} // verus!
