//! The mathematical model of a column, of a storage engine and of a write
//! session, and the laws that hold of it.
//!
//! A column is a finite map from byte strings to byte strings. An engine is a
//! map from column names to columns. A handle either writes through to its
//! column or, as a write session does, holds its writes back until they are
//! committed. Every contract of the layer is stated over these functions.
use vstd::prelude::*;
use crate::error::Error;

verus! {

/// What a column holds: each key once, with the value last written to it.
pub type Entries = Map<Seq<u8>, Seq<u8>>;

/// What an engine holds: its columns by name.
pub type Columns = Map<Seq<char>, Entries>;

/// Writes that are held back: for each key written, the value put there, or
/// `None` where the key was deleted.
pub type Writes = Map<Seq<u8>, Option<Seq<u8>>>;

/// One (key, value) pair as an iteration hands it out.
pub type Pair = (Seq<u8>, Seq<u8>);

/// The value stored under `key`, if there is one.
pub open spec fn spec_get(entries: Entries, key: Seq<u8>) -> Option<Seq<u8>> {
    if entries.contains_key(key) {
        Some(entries[key])
    } else {
        None
    }
}

/// One result for each key, in the order of the keys.
pub open spec fn spec_get_multi(entries: Entries, keys: Seq<Seq<u8>>) -> Seq<Option<Seq<u8>>> {
    Seq::new(keys.len(), |i: int| spec_get(entries, keys[i]))
}

/// The column after one write: a put where `write` is a value, a delete
/// where it is `None`.
pub open spec fn spec_write(entries: Entries, key: Seq<u8>, write: Option<Seq<u8>>) -> Entries {
    match write {
        Some(val) => entries.insert(key, val),
        None => entries.remove(key),
    }
}

/// The column after `set_nx`: the pair is inserted only where the key was
/// absent.
pub open spec fn spec_set_nx(entries: Entries, key: Seq<u8>, val: Seq<u8>) -> Entries {
    if entries.contains_key(key) {
        entries
    } else {
        entries.insert(key, val)
    }
}

/// Whether `key` starts with `prefix`, byte for byte.
pub open spec fn has_prefix(key: Seq<u8>, prefix: Seq<u8>) -> bool {
    prefix.len() <= key.len() && key.subrange(0, prefix.len() as int) == prefix
}

/// The entries whose key starts with `prefix`.
pub open spec fn with_prefix(entries: Entries, prefix: Seq<u8>) -> Entries {
    entries.restrict(Set::new(|k: Seq<u8>| has_prefix(k, prefix)))
}

/// Whether `pairs` is an enumeration of `entries`: every pair is an entry,
/// every entry occurs, and no key occurs twice. The order is left open.
pub open spec fn lists(pairs: Seq<Pair>, entries: Entries) -> bool {
    &&& forall|i: int| 0 <= i < pairs.len() ==> #[trigger] entries.contains_key(pairs[i].0) && entries[pairs[i].0] == pairs[i].1
    &&& forall|k: Seq<u8>| #[trigger] entries.contains_key(k) ==> exists|i: int| 0 <= i < pairs.len() && #[trigger] pairs[i].0 == k
    &&& forall|i: int, j: int| 0 <= i < j < pairs.len() ==> #[trigger] pairs[i].0 != #[trigger] pairs[j].0
}

/// What a reader sees who looks at `entries` through the held-back `writes`.
pub open spec fn overlay(entries: Entries, writes: Writes) -> Entries {
    Map::new(
        |k: Seq<u8>| if writes.contains_key(k) { writes[k] is Some } else { entries.contains_key(k) },
        |k: Seq<u8>| if writes.contains_key(k) { writes[k]->Some_0 } else { entries[k] },
    )
}

/// One write as a write session records it: the key, and the value put
/// there or `None` for a delete.
pub type Record = (Seq<u8>, Option<Seq<u8>>);

/// What a record of writes amounts to: for each key written, the last write
/// to it.
pub open spec fn replay(log: Seq<Record>) -> Writes
    decreases log.len(),
{
    if log.len() == 0 {
        Map::empty()
    } else {
        replay(log.drop_last()).insert(log.last().0, log.last().1)
    }
}

/// What identifies a handle to the model: the column it stands for, whether
/// it holds its writes back, and the writes it holds.
pub struct Handle {
    pub name: Seq<char>,
    pub buffers: bool,
    pub pending: Writes,
}

/// The entries that a handle shows of an engine.
pub open spec fn visible(columns: Columns, handle: Handle) -> Entries {
    overlay(columns[handle.name], handle.pending)
}

/// The engine and the handle's held-back writes after the handle made one
/// write: a handle that buffers keeps it, any other applies it to its column.
pub open spec fn spec_apply(columns: Columns, handle: Handle, key: Seq<u8>, write: Option<Seq<u8>>) -> (Columns, Writes) {
    if handle.buffers {
        (columns, handle.pending.insert(key, write))
    } else {
        (columns.insert(handle.name, spec_write(visible(columns, handle), key, write)), handle.pending)
    }
}

/// The engine and the handle after the handle tried one write: the write is
/// made where the engine reports success, and nothing changes where it
/// reports failure.
pub open spec fn spec_step(columns: Columns, handle: Handle, key: Seq<u8>, write: Option<Seq<u8>>, ok: bool) -> (Columns, Handle) {
    if ok {
        let (after, pending) = spec_apply(columns, handle, key, write);
        (after, Handle { pending, ..handle })
    } else {
        (columns, handle)
    }
}

/// The engine and the handle after the handle emptied what it shows: a
/// handle that buffers holds back a delete of every key it showed, any other
/// empties its column.
pub open spec fn spec_clear(columns: Columns, handle: Handle) -> (Columns, Handle) {
    if handle.buffers {
        let shown = visible(columns, handle);
        let pending = Map::new(
            |k: Seq<u8>| handle.pending.contains_key(k) || shown.contains_key(k),
            |k: Seq<u8>| None::<Seq<u8>>,
        );
        (columns, Handle { pending, ..handle })
    } else {
        (columns.insert(handle.name, Map::empty()), handle)
    }
}

/// The handle that `create_or_open` gives for the column `name`: it writes
/// through and holds nothing back.
pub open spec fn column_handle(name: Seq<char>) -> Handle {
    Handle { name, buffers: false, pending: Map::empty() }
}

/// The handle of a write session that was just begun on the column `name`:
/// it buffers and holds nothing back yet.
pub open spec fn session_handle(name: Seq<char>) -> Handle {
    Handle { name, buffers: true, pending: Map::empty() }
}

/// The engine after a write session was committed: its column is what the
/// session showed, every other column is untouched.
pub open spec fn spec_commit(columns: Columns, handle: Handle) -> Columns {
    columns.insert(handle.name, visible(columns, handle))
}

/// The engine after a column was opened: a column that was there is kept, a
/// new one starts empty.
pub open spec fn spec_open(columns: Columns, name: Seq<char>) -> Columns {
    if columns.contains_key(name) {
        columns
    } else {
        columns.insert(name, Map::empty())
    }
}

/// Whether an error is one that a storage engine may report. Failures to
/// encode or decode belong to the typed operations alone: the byte-level
/// operations never report them.
pub open spec fn engine_error(e: Error) -> bool {
    !(e is Encode) && !(e is Decode)
}

/// The byte strings that a vector of keys holds.
pub open spec fn views(keys: Seq<Vec<u8>>) -> Seq<Seq<u8>> {
    Seq::new(keys.len(), |i: int| keys[i]@)
}

/// The byte string that an optional value holds.
pub open spec fn option_view(val: Option<Vec<u8>>) -> Option<Seq<u8>> {
    match val {
        Some(v) => Some(v@),
        None => None,
    }
}

/// The byte strings that a vector of optional values holds.
pub open spec fn option_views(vals: Seq<Option<Vec<u8>>>) -> Seq<Option<Seq<u8>>> {
    Seq::new(vals.len(), |i: int| option_view(vals[i]))
}

/// The writes that a vector of recorded writes holds.
pub open spec fn record_views(log: Seq<(Vec<u8>, Option<Vec<u8>>)>) -> Seq<Record> {
    Seq::new(log.len(), |i: int| (log[i].0@, option_view(log[i].1)))
}

/// The pairs of byte strings that a vector of (key, value) pairs holds.
pub open spec fn pair_views(pairs: Seq<(Vec<u8>, Vec<u8>)>) -> Seq<Pair> {
    Seq::new(pairs.len(), |i: int| (pairs[i].0@, pairs[i].1@))
}

} // verus!
