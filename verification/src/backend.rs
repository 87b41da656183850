//! What a storage engine owes the layer.
//!
//! An engine ([`DatabaseBackend`]) owns its columns. A column handle
//! ([`DBColumn`]) names one of them and reaches it through the engine, which
//! every operation is handed: exclusively where it writes, shared where it
//! reads. Whoever holds the engine exclusively is therefore the only writer,
//! and that is the whole concurrency discipline of the layer.
//!
//! The optional capabilities are traits of their own. An engine that lacks
//! one does not implement it, so its absence shows when the caller's code is
//! compiled, not when it runs.
use vstd::prelude::*;
use crate::error::Error;
use crate::model::{Columns, Handle};
use crate::model::{column_handle, engine_error, lists, option_view, option_views, pair_views, session_handle};
use crate::model::{spec_clear, spec_commit, spec_get, spec_get_multi, spec_open, spec_step};
use crate::model::{overlay, record_views, replay, views, visible, with_prefix};
use crate::traits::Innerable;

pub mod any;
pub mod dash;
pub mod families;
pub mod mem;
pub mod prefix;
pub mod recorded;
pub mod text;

verus! {

/// The state of a storage engine, as the contracts see it.
pub trait ColumnStore {
    /// The columns that the engine holds, by name.
    open spec fn columns(&self) -> Columns {
        arbitrary::<spec_fn(&Self) -> Columns>()(self)
    }

    /// Whether the engine's operations cannot fail. An engine that does not
    /// say so may fail.
    open spec fn infallible() -> bool {
        false
    }

    /// Whether all that the column `name` holds has been written out to
    /// where the engine keeps it for good. A write may leave its column
    /// unflushed, and a flush that succeeds leaves it flushed. An engine
    /// that holds nothing back from its store has every column flushed at
    /// all times.
    open spec fn flushed(&self, name: Seq<char>) -> bool {
        arbitrary::<spec_fn(&Self, Seq<char>) -> bool>()(self, name)
    }
}

/// Anything that stands for one column of an engine: a column handle, a
/// write session, a database.
pub trait ColumnHandle {
    /// What the handle is to the model.
    open spec fn handle(&self) -> Handle {
        arbitrary::<spec_fn(&Self) -> Handle>()(self)
    }
}

/// The operations that every column handle has.
///
/// A handle may be used only while its column exists in the engine. A write
/// that the engine reports as failed has changed nothing.
pub trait DBColumn<B: ColumnStore>: ColumnHandle {
    /// Sets `key` to `val`, over whatever was there.
    fn set(&mut self, backend: &mut B, key: &[u8], val: &[u8]) -> (r: Result<(), Error>)
        requires
            old(backend).columns().contains_key(old(self).handle().name),
        ensures
            B::infallible() ==> r is Ok,
            r is Err ==> engine_error(r->Err_0),
            (final(backend).columns(), final(self).handle()) == spec_step(
                old(backend).columns(),
                old(self).handle(),
                key@,
                Some(val@),
                r is Ok,
            ),
    ;

    /// Sets `key` to `val` if `key` is absent, and says whether it did.
    ///
    /// This looks the key up and then writes. Nothing can come between the
    /// two, because the caller holds the engine exclusively.
    fn set_nx(&mut self, backend: &mut B, key: &[u8], val: &[u8]) -> (r: Result<bool, Error>)
        requires
            old(backend).columns().contains_key(old(self).handle().name),
        ensures
            B::infallible() ==> r is Ok,
            r is Err ==> engine_error(r->Err_0),
            r is Ok ==> r->Ok_0 == !visible(old(backend).columns(), old(self).handle()).contains_key(key@),
            (final(backend).columns(), final(self).handle()) == spec_step(
                old(backend).columns(),
                old(self).handle(),
                key@,
                Some(val@),
                r == Ok::<bool, Error>(true),
            ),
    {
        match self.contains(backend, key) {
            Err(e) => Err(e),
            Ok(true) => Ok(false),
            Ok(false) => match self.set(backend, key, val) {
                Ok(()) => Ok(true),
                Err(e) => Err(e),
            },
        }
    }

    /// The value under `key`, if there is one.
    fn get(&self, backend: &B, key: &[u8]) -> (r: Result<Option<Vec<u8>>, Error>)
        requires
            backend.columns().contains_key(self.handle().name),
        ensures
            B::infallible() ==> r is Ok,
            r is Err ==> engine_error(r->Err_0),
            r is Ok ==> option_view(r->Ok_0) == spec_get(visible(backend.columns(), self.handle()), key@),
    ;

    /// The values under `keys`: one result for each key, in the keys' order.
    fn get_multi(&self, backend: &B, keys: &Vec<Vec<u8>>) -> (r: Result<Vec<Option<Vec<u8>>>, Error>)
        requires
            backend.columns().contains_key(self.handle().name),
        ensures
            B::infallible() ==> r is Ok,
            r is Err ==> engine_error(r->Err_0),
            r is Ok ==> option_views(r->Ok_0@) == spec_get_multi(
                visible(backend.columns(), self.handle()),
                views(keys@),
            ),
    ;

    /// Removes `key` and its value, if it is there.
    fn delete(&mut self, backend: &mut B, key: &[u8]) -> (r: Result<(), Error>)
        requires
            old(backend).columns().contains_key(old(self).handle().name),
        ensures
            B::infallible() ==> r is Ok,
            r is Err ==> engine_error(r->Err_0),
            (final(backend).columns(), final(self).handle()) == spec_step(
                old(backend).columns(),
                old(self).handle(),
                key@,
                None,
                r is Ok,
            ),
    ;

    /// Whether `key` is there.
    fn contains(&self, backend: &B, key: &[u8]) -> (r: Result<bool, Error>)
        requires
            backend.columns().contains_key(self.handle().name),
        ensures
            B::infallible() ==> r is Ok,
            r is Err ==> engine_error(r->Err_0),
            r is Ok ==> r->Ok_0 == visible(backend.columns(), self.handle()).contains_key(key@),
    ;
}

/// Columns that can be emptied while they stay open.
pub trait DBColumnClear<B: ColumnStore>: DBColumn<B> {
    /// Removes every entry.
    fn clear(&mut self, backend: &mut B) -> (r: Result<(), Error>)
        requires
            old(backend).columns().contains_key(old(self).handle().name),
        ensures
            B::infallible() ==> r is Ok,
            r is Err ==> engine_error(r->Err_0),
            r is Ok ==> (final(backend).columns(), final(self).handle()) == spec_clear(
                old(backend).columns(),
                old(self).handle(),
            ),
            r is Err ==> final(backend).columns() == old(backend).columns() && final(self).handle() == old(self).handle(),
    ;
}

/// Columns that can be destroyed.
pub trait DBColumnDelete<B: ColumnStore>: DBColumn<B> {
    /// Destroys the column with all its entries. No handle to it may be used
    /// afterwards.
    fn delete_db(&self, backend: &mut B) -> (r: Result<(), Error>)
        requires
            old(backend).columns().contains_key(self.handle().name),
        ensures
            B::infallible() ==> r is Ok,
            r is Err ==> engine_error(r->Err_0),
            r is Ok ==> final(backend).columns() == old(backend).columns().remove(self.handle().name),
            r is Err ==> final(backend).columns() == old(backend).columns(),
    ;
}

/// Bytes that an engine lends out in place of a copy.
pub trait RefBytes {
    /// The bytes that are lent.
    open spec fn view(&self) -> Seq<u8> {
        arbitrary::<spec_fn(&Self) -> Seq<u8>>()(self)
    }

    /// The bytes, as a slice that lives as long as the loan.
    fn bytes(&self) -> (r: &[u8])
        ensures
            r@ == self@,
    ;
}

/// Columns that can lend a stored value out without copying it.
pub trait DBColumnRef<'c, B: ColumnStore>: DBColumn<B> {
    /// The engine's own reference to stored bytes. It is valid as long as
    /// the handle and the engine are borrowed.
    type Ref: RefBytes;

    /// The value under `key`, if there is one.
    fn get_ref(&'c self, backend: &'c B, key: &[u8]) -> (r: Result<Option<Self::Ref>, Error>)
        requires
            backend.columns().contains_key(self.handle().name),
        ensures
            B::infallible() ==> r is Ok,
            r is Err ==> engine_error(r->Err_0),
            r is Ok ==> (r->Ok_0 is Some <==> visible(backend.columns(), self.handle()).contains_key(key@)),
            r is Ok && r->Ok_0 is Some ==> r->Ok_0->Some_0@ == visible(backend.columns(), self.handle())[key@],
    ;
}

/// Columns that can lend several stored values out without copying them.
pub trait DBColumnRefBatch<'c, B: ColumnStore>: DBColumn<B> {
    /// The engine's own reference to stored bytes.
    type Ref: RefBytes;

    /// The values under `keys`: one result for each key, in the keys' order.
    fn get_multi_ref(&'c self, backend: &'c B, keys: &Vec<Vec<u8>>) -> (r: Result<Vec<Option<Self::Ref>>, Error>)
        requires
            backend.columns().contains_key(self.handle().name),
        ensures
            B::infallible() ==> r is Ok,
            r is Err ==> engine_error(r->Err_0),
            r is Ok ==> r->Ok_0@.len() == keys@.len(),
            r is Ok ==> forall|i: int| 0 <= i < keys@.len() ==> (#[trigger] r->Ok_0@[i] is Some <==> visible(
                backend.columns(),
                self.handle(),
            ).contains_key(keys@[i]@)),
            r is Ok ==> forall|i: int| 0 <= i < keys@.len() && #[trigger] r->Ok_0@[i] is Some ==> r->Ok_0@[i]->Some_0@ == visible(
                backend.columns(),
                self.handle(),
            )[keys@[i]@],
    ;
}

/// Columns that can take a batch of writes at once. A handle to such a
/// column writes through.
pub trait DBColumnBatch<B: ColumnStore>: DBColumn<B> {
    /// The handle holds nothing back.
    proof fn writes_through(&self)
        ensures
            self.handle() == column_handle(self.handle().name),
    ;

    /// Makes the writes of `log` on the column, in their order: a put where
    /// the write is a value, a delete where it is `None`. Where the engine
    /// fails, none of them is made.
    fn write_batch(&self, backend: &mut B, log: &Vec<(Vec<u8>, Option<Vec<u8>>)>) -> (r: Result<(), Error>)
        requires
            old(backend).columns().contains_key(self.handle().name),
        ensures
            B::infallible() ==> r is Ok,
            r is Err ==> engine_error(r->Err_0),
            r is Ok ==> final(backend).columns() == old(backend).columns().insert(
                self.handle().name,
                overlay(visible(old(backend).columns(), self.handle()), replay(record_views(log@))),
            ),
            r is Err ==> final(backend).columns() == old(backend).columns(),
    ;
}

/// Columns on which a write session can be begun.
pub trait DBColumnTransaction<B: ColumnStore>: DBColumn<B> {
    /// The engine's write session.
    type Txn: DBTransaction<B>;

    /// Begins a write session on this column. It shows what the column
    /// holds and keeps its own writes to itself until it is committed.
    fn transaction(&self, backend: &B) -> (r: Result<Self::Txn, Error>)
        requires
            backend.columns().contains_key(self.handle().name),
        ensures
            B::infallible() ==> r is Ok,
            r is Err ==> engine_error(r->Err_0),
            r is Ok ==> r->Ok_0.handle() == session_handle(self.handle().name),
    ;
}

/// A write session: a handle that holds its writes back, and ends by being
/// committed or rolled back. Either consumes it, so a session that has ended
/// cannot be used again.
pub trait DBTransaction<B: ColumnStore>: DBColumn<B> + Sized {
    /// Applies the session's writes to its column.
    fn commit(self, backend: &mut B) -> (r: Result<(), Error>)
        requires
            old(backend).columns().contains_key(self.handle().name),
        ensures
            B::infallible() ==> r is Ok,
            r is Err ==> engine_error(r->Err_0),
            r is Ok ==> final(backend).columns() == spec_commit(old(backend).columns(), self.handle()),
            r is Err ==> final(backend).columns() == old(backend).columns(),
    ;

    /// Drops the session's writes.
    fn rollback(self, backend: &mut B) -> (r: Result<(), Error>)
        requires
            old(backend).columns().contains_key(self.handle().name),
        ensures
            B::infallible() ==> r is Ok,
            r is Err ==> engine_error(r->Err_0),
            final(backend).columns() == old(backend).columns(),
    ;
}

/// Columns whose entries can be walked.
pub trait DBColumnIterator<B: ColumnStore>: DBColumn<B> {
    /// Every entry once, in the engine's own order.
    fn iter(&self, backend: &B) -> (r: Result<Vec<(Vec<u8>, Vec<u8>)>, Error>)
        requires
            backend.columns().contains_key(self.handle().name),
        ensures
            B::infallible() ==> r is Ok,
            r is Err ==> engine_error(r->Err_0),
            r is Ok ==> lists(pair_views(r->Ok_0@), visible(backend.columns(), self.handle())),
    ;
}

/// Columns whose entries can be walked by key prefix.
pub trait DBColumnIteratorPrefix<B: ColumnStore>: DBColumn<B> {
    /// Every entry whose key starts with `prefix` once, in the engine's own
    /// order.
    fn iter_prefix(&self, backend: &B, prefix: &[u8]) -> (r: Result<Vec<(Vec<u8>, Vec<u8>)>, Error>)
        requires
            backend.columns().contains_key(self.handle().name),
        ensures
            B::infallible() ==> r is Ok,
            r is Err ==> engine_error(r->Err_0),
            r is Ok ==> lists(
                pair_views(r->Ok_0@),
                with_prefix(visible(backend.columns(), self.handle()), prefix@),
            ),
    ;
}

/// Columns that can be told to write what they hold to disk.
pub trait Flushable<B: ColumnStore>: ColumnHandle {
    /// Flushes the column to disk. What the engine holds stays what it is,
    /// and where the flush succeeds, all that the column holds has been
    /// written out.
    fn flush(&self, backend: &mut B) -> (r: Result<(), Error>)
        ensures
            B::infallible() ==> r is Ok,
            r is Err ==> engine_error(r->Err_0),
            final(backend).columns() == old(backend).columns(),
            r is Ok ==> final(backend).flushed(self.handle().name),
    ;
}

/// A storage engine.
pub trait DatabaseBackend: ColumnStore + Innerable + Sized {
    /// The engine's handle to one column.
    type Column: DBColumn<Self>;

    /// Opens the column `name`, and creates it empty where the engine has
    /// none of that name. Opening a name again gives a handle to the same
    /// column and changes nothing.
    fn create_or_open(&mut self, name: &str) -> (r: Result<Self::Column, Error>)
        ensures
            Self::infallible() ==> r is Ok,
            r is Err ==> engine_error(r->Err_0),
            r is Ok ==> r->Ok_0.handle() == column_handle(name@),
            r is Ok ==> final(self).columns() == spec_open(old(self).columns(), name@),
            r is Err ==> final(self).columns() == old(self).columns(),
    ;
}

} // verus!
