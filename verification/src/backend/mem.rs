//! The in-memory engine: for tests and prototypes, not for speed.
use vstd::prelude::*;
use dashmap::mapref::one::Ref;
use dashmap::DashMap;
use vstd::slice::slice_to_vec;
use crate::backend::dash::{entry_value, held, map_clear, map_contains_key, map_get, map_insert, map_new, map_pairs};
use crate::backend::dash::{map_remove, stored};
use crate::backend::prefix::{retain_prefix, under_prefix_lists};
use crate::backend::{ColumnHandle, ColumnStore, DBColumn, DBColumnClear, DBColumnDelete, DBColumnIterator};
use crate::backend::{DBColumnIteratorPrefix, DBColumnRef, DBColumnRefBatch, RefBytes};
use crate::backend::recorded::RecordedTransaction;
use crate::backend::{DBColumnBatch, DBColumnTransaction, DatabaseBackend, Flushable};
use crate::error::Error;
use crate::model::{Columns, Entries, Handle, Record};
use crate::model::{column_handle, option_view, option_views, overlay, pair_views, record_views, replay};
use crate::model::{spec_get, spec_get_multi, spec_write, views, visible};
use crate::traits::Innerable;

verus! {

/// One column of the registry: its name and its entries.
pub struct MemDBSlot {
    name: String,
    map: DashMap<Vec<u8>, Vec<u8>>,
}

/// An engine that keeps its columns in memory.
///
/// It is a registry of named maps, which the engine owns. A name stands for
/// the first slot that bears it, and a slot is added only for a name that
/// has none. A column handle holds the name and finds the map by it.
pub struct MemDB {
    slots: Vec<MemDBSlot>,
}

/// A handle to one column of a [`MemDB`].
pub struct MemDBColumn {
    name: String,
}

/// A value that a [`MemDB`] lends out in place of a copy. It holds the entry
/// in its map for as long as it lives, which is no longer than the engine is
/// borrowed.
pub struct MemDBRef<'c> {
    entry: Ref<'c, Vec<u8>, Vec<u8>>,
}

impl RefBytes for MemDBRef<'_> {
    closed spec fn view(&self) -> Seq<u8> {
        held(self.entry)
    }

    fn bytes(&self) -> (r: &[u8]) {
        entry_value(&self.entry)
    }
}

impl MemDBSlot {
    /// The column's name, to the contracts.
    pub closed spec fn spec_name(&self) -> Seq<char> {
        self.name@
    }

    /// The map that holds the column's entries, to the contracts.
    pub closed spec fn spec_map(&self) -> DashMap<Vec<u8>, Vec<u8>> {
        self.map
    }

    /// The column's name.
    pub fn name(&self) -> (name: &String)
        ensures
            name@ == self.spec_name(),
    {
        &self.name
    }

    /// The map that holds the column's entries. Whoever writes to the map
    /// through this reference goes around the engine.
    pub fn map(&self) -> (map: &DashMap<Vec<u8>, Vec<u8>>)
        ensures
            *map == self.spec_map(),
    {
        &self.map
    }
}

impl MemDB {
    /// Whether place `i` of the registry is the first under this name.
    spec fn is_slot(&self, name: Seq<char>, i: int) -> bool {
        &&& 0 <= i < self.slots.len()
        &&& self.slots[i].name@ == name
        &&& forall|j: int| 0 <= j < i ==> self.slots[j].name@ != name
    }

    /// Whether the registry has a column of this name.
    spec fn has(&self, name: Seq<char>) -> bool {
        exists|i: int| self.is_slot(name, i)
    }

    /// The place of the column of this name in the registry.
    spec fn slot_of(&self, name: Seq<char>) -> int {
        choose|i: int| self.is_slot(name, i)
    }

    /// A name has one first place, and the column there is the one that the
    /// name stands for.
    proof fn slot_is(&self, name: Seq<char>, i: int)
        requires
            self.is_slot(name, i),
        ensures
            self.has(name),
            self.slot_of(name) == i,
            self.columns().contains_key(name),
            self.columns()[name] == stored(self.slots[i].map),
    {
        let j = self.slot_of(name);
        assert(self.is_slot(name, j));
        if j < i {
            assert(self.slots[j].name@ != name);
        }
        if i < j {
            assert(self.slots[i].name@ != name);
        }
    }

    /// A registry that differs from `self` in the entries of the column at
    /// place `i` alone holds the columns of `self` with that one replaced.
    proof fn slot_replaced(&self, after: &MemDB, name: Seq<char>, i: int)
        requires
            self.is_slot(name, i),
            self.slots.len() == after.slots.len(),
            forall|j: int| 0 <= j < self.slots.len() ==> self.slots[j].name@ == after.slots[j].name@,
            forall|j: int| 0 <= j < self.slots.len() && j != i ==> self.slots[j].map == after.slots[j].map,
        ensures
            after.columns() == self.columns().insert(name, stored(after.slots[i].map)),
    {
        let expected = self.columns().insert(name, stored(after.slots[i].map));
        assert(after.is_slot(name, i));
        after.slot_is(name, i);
        assert forall|n: Seq<char>| after.columns().contains_key(n) <==> expected.contains_key(n) by {
            if after.has(n) {
                let j = after.slot_of(n);
                assert(self.is_slot(n, j));
                self.slot_is(n, j);
            }
            if self.has(n) {
                let j = self.slot_of(n);
                assert(after.is_slot(n, j));
                after.slot_is(n, j);
            }
        }
        assert forall|n: Seq<char>| after.columns().contains_key(n) implies after.columns()[n] == expected[n] by {
            let j = after.slot_of(n);
            assert(self.is_slot(n, j));
            after.slot_is(n, j);
            self.slot_is(n, j);
        }
        assert(after.columns() =~= expected);
    }

    /// A new engine without columns.
    pub fn new() -> (db: Self)
        ensures
            db.columns() == Columns::empty(),
    {
        let db = MemDB { slots: Vec::new() };
        assert(db.columns() =~= Columns::empty());
        db
    }

    /// The place of the column `name`, if the registry has it.
    fn find(&self, name: &String) -> (r: Option<usize>)
        ensures
            r is Some <==> self.columns().contains_key(name@),
            r is Some ==> self.is_slot(name@, r->Some_0 as int),
            r is None ==> forall|j: int| 0 <= j < self.slots.len() ==> self.slots[j].name@ != name@,
            r is Some ==> self.columns()[name@] == stored(self.slots[r->Some_0 as int].map),
    {
        let mut i: usize = 0;
        while i < self.slots.len()
            invariant
                i <= self.slots.len(),
                forall|j: int| 0 <= j < i ==> self.slots[j].name@ != name@,
            decreases self.slots.len() - i,
        {
            if self.slots[i].name == *name {
                proof {
                    self.slot_is(name@, i as int);
                }
                return Some(i);
            }
            i += 1;
        }
        None
    }
}

impl Default for MemDB {
    fn default() -> (db: Self)
        ensures
            db.columns() == Columns::empty(),
    {
        MemDB::new()
    }
}

impl ColumnStore for MemDB {
    closed spec fn columns(&self) -> Columns {
        Map::new(|name: Seq<char>| self.has(name), |name: Seq<char>| stored(self.slots[self.slot_of(name)].map))
    }

    open spec fn infallible() -> bool {
        true
    }

    /// There is no disk: the maps are all there is of a column, so nothing
    /// of it is ever waiting to be written out.
    open spec fn flushed(&self, name: Seq<char>) -> bool {
        true
    }
}

impl Innerable for MemDB {
    type Inner = Vec<MemDBSlot>;

    closed spec fn spec_inner(&self) -> Vec<MemDBSlot> {
        self.slots
    }

    fn inner(&self) -> (inner: &Vec<MemDBSlot>) {
        &self.slots
    }
}

impl MemDB {
    /// The engine's columns are those of its registry: a name stands for the
    /// first slot that bears it, and the column's entries are what the map
    /// of that slot holds.
    pub proof fn columns_are_slots(&self, name: Seq<char>)
        ensures
            self.columns().contains_key(name) <==> exists|i: int| 0 <= i < self.spec_inner()@.len() && self.spec_inner()@[i].spec_name() == name,
            forall|i: int|
                0 <= i < self.spec_inner()@.len() && self.spec_inner()@[i].spec_name() == name && (forall|j: int|
                    0 <= j < i ==> self.spec_inner()@[j].spec_name() != name) ==> self.columns()[name] == stored(
                    self.spec_inner()@[i].spec_map(),
                ),
    {
        if exists|i: int| 0 <= i < self.spec_inner()@.len() && self.spec_inner()@[i].spec_name() == name {
            let i = choose|i: int| 0 <= i < self.spec_inner()@.len() && self.spec_inner()@[i].spec_name() == name;
            self.first_slot(name, i);
        }
        if self.has(name) {
            let i = self.slot_of(name);
            assert(self.is_slot(name, i));
            assert(0 <= i < self.spec_inner()@.len() && self.spec_inner()@[i].spec_name() == name);
        }
        assert forall|i: int|
            0 <= i < self.slots@.len() && self.slots@[i].name@ == name && (forall|j: int|
                0 <= j < i ==> self.slots@[j].name@ != name) implies self.columns()[name] == stored(self.slots@[i].map) by {
            self.slot_is(name, i);
        }
    }

    /// A name that some slot bears has a first slot that bears it.
    proof fn first_slot(&self, name: Seq<char>, i: int)
        requires
            0 <= i < self.slots.len(),
            self.slots[i].name@ == name,
        ensures
            self.has(name),
        decreases i,
    {
        if forall|j: int| 0 <= j < i ==> self.slots[j].name@ != name {
            assert(self.is_slot(name, i));
        } else {
            let j = choose|j: int| 0 <= j < i && self.slots[j].name@ == name;
            self.first_slot(name, j);
        }
    }
}

impl DatabaseBackend for MemDB {
    type Column = MemDBColumn;

    fn create_or_open(&mut self, name: &str) -> (r: Result<MemDBColumn, Error>) {
        let ghost before = *self;
        let owned = name.to_owned();
        match self.find(&owned) {
            Some(_) => Ok(MemDBColumn { name: owned }),
            None => {
                let slot = MemDBSlot { name: owned.clone(), map: map_new() };
                self.slots.push(slot);
                proof {
                    let at = before.slots.len() as int;
                    let expected = before.columns().insert(name@, Entries::empty());
                    assert(self.slots@ == before.slots@.push(slot));
                    assert(forall|j: int| 0 <= j < at ==> self.slots[j] == before.slots[j]);
                    assert(self.is_slot(name@, at));
                    self.slot_is(name@, at);
                    assert forall|n: Seq<char>| self.columns().contains_key(n) <==> expected.contains_key(n) by {
                        if self.has(n) {
                            let j = self.slot_of(n);
                            if j < at {
                                assert(before.is_slot(n, j));
                                before.slot_is(n, j);
                            }
                        }
                        if before.has(n) {
                            let j = before.slot_of(n);
                            assert(self.is_slot(n, j));
                            self.slot_is(n, j);
                        }
                    }
                    assert forall|n: Seq<char>| self.columns().contains_key(n) implies self.columns()[n] == expected[n] by {
                        let j = self.slot_of(n);
                        self.slot_is(n, j);
                        if j < at {
                            assert(before.is_slot(n, j));
                            before.slot_is(n, j);
                        }
                    }
                    assert(self.columns() =~= expected);
                }
                Ok(MemDBColumn { name: owned })
            },
        }
    }
}

impl MemDBColumn {
    /// The column's name.
    pub closed spec fn view(&self) -> Seq<char> {
        self.name@
    }
}

impl Clone for MemDBColumn {
    fn clone(&self) -> (column: Self)
        ensures
            column@ == self@,
    {
        MemDBColumn { name: self.name.clone() }
    }
}

impl ColumnHandle for MemDBColumn {
    open spec fn handle(&self) -> Handle {
        column_handle(self@)
    }
}

impl DBColumn<MemDB> for MemDBColumn {
    fn set(&mut self, backend: &mut MemDB, key: &[u8], val: &[u8]) -> (r: Result<(), Error>) {
        let ghost before = *backend;
        match backend.find(&self.name) {
            Some(i) => {
                map_insert(&mut backend.slots[i].map, key, val);
                proof {
                    before.slot_replaced(&*backend, self@, i as int);
                    assert(visible(before.columns(), self.handle()) =~= before.columns()[self@]);
                }
                Ok(())
            },
            None => Err(Error::DatabaseNotFound { db: self.name.clone() }),
        }
    }

    fn get(&self, backend: &MemDB, key: &[u8]) -> (r: Result<Option<Vec<u8>>, Error>) {
        match backend.find(&self.name) {
            Some(i) => {
                proof {
                    assert(visible(backend.columns(), self.handle()) =~= backend.columns()[self@]);
                }
                match map_get(&backend.slots[i].map, key) {
                    Some(entry) => Ok(Some(slice_to_vec(entry_value(&entry)))),
                    None => Ok(None),
                }
            },
            None => Err(Error::DatabaseNotFound { db: self.name.clone() }),
        }
    }

    fn get_multi(&self, backend: &MemDB, keys: &Vec<Vec<u8>>) -> (r: Result<Vec<Option<Vec<u8>>>, Error>) {
        let ghost shown = visible(backend.columns(), self.handle());
        let mut res: Vec<Option<Vec<u8>>> = Vec::new();
        let mut i: usize = 0;
        while i < keys.len()
            invariant
                i <= keys.len(),
                res@.len() == i,
                backend.columns().contains_key(self.handle().name),
                shown == visible(backend.columns(), self.handle()),
                forall|j: int| 0 <= j < i ==> option_view(#[trigger] res@[j]) == spec_get(shown, keys@[j]@),
            decreases keys.len() - i,
        {
            match self.get(backend, keys[i].as_slice()) {
                Ok(val) => {
                    res.push(val);
                },
                Err(e) => {
                    return Err(e);
                },
            }
            i += 1;
        }
        assert(option_views(res@) =~= spec_get_multi(shown, views(keys@)));
        Ok(res)
    }

    fn delete(&mut self, backend: &mut MemDB, key: &[u8]) -> (r: Result<(), Error>) {
        let ghost before = *backend;
        match backend.find(&self.name) {
            Some(i) => {
                map_remove(&mut backend.slots[i].map, key);
                proof {
                    before.slot_replaced(&*backend, self@, i as int);
                    assert(visible(before.columns(), self.handle()) =~= before.columns()[self@]);
                }
                Ok(())
            },
            None => Err(Error::DatabaseNotFound { db: self.name.clone() }),
        }
    }

    fn contains(&self, backend: &MemDB, key: &[u8]) -> (r: Result<bool, Error>) {
        match backend.find(&self.name) {
            Some(i) => {
                proof {
                    assert(visible(backend.columns(), self.handle()) =~= backend.columns()[self@]);
                }
                Ok(map_contains_key(&backend.slots[i].map, key))
            },
            None => Err(Error::DatabaseNotFound { db: self.name.clone() }),
        }
    }
}

impl<'c> DBColumnRef<'c, MemDB> for MemDBColumn {
    type Ref = MemDBRef<'c>;

    fn get_ref(&'c self, backend: &'c MemDB, key: &[u8]) -> (r: Result<Option<MemDBRef<'c>>, Error>) {
        match backend.find(&self.name) {
            Some(i) => {
                proof {
                    assert(visible(backend.columns(), self.handle()) =~= backend.columns()[self@]);
                }
                match map_get(&backend.slots[i].map, key) {
                    Some(entry) => Ok(Some(MemDBRef { entry })),
                    None => Ok(None),
                }
            },
            None => Err(Error::DatabaseNotFound { db: self.name.clone() }),
        }
    }
}

impl<'c> DBColumnRefBatch<'c, MemDB> for MemDBColumn {
    type Ref = MemDBRef<'c>;

    fn get_multi_ref(&'c self, backend: &'c MemDB, keys: &Vec<Vec<u8>>) -> (r: Result<Vec<Option<MemDBRef<'c>>>, Error>) {
        let ghost shown = visible(backend.columns(), self.handle());
        let mut res: Vec<Option<MemDBRef<'c>>> = Vec::new();
        let mut i: usize = 0;
        while i < keys.len()
            invariant
                i <= keys.len(),
                res@.len() == i,
                backend.columns().contains_key(self.handle().name),
                shown == visible(backend.columns(), self.handle()),
                forall|j: int| 0 <= j < i ==> (#[trigger] res@[j] is Some <==> shown.contains_key(keys@[j]@)),
                forall|j: int| 0 <= j < i && #[trigger] res@[j] is Some ==> res@[j]->Some_0@ == shown[keys@[j]@],
            decreases keys.len() - i,
        {
            match self.get_ref(backend, keys[i].as_slice()) {
                Ok(val) => {
                    res.push(val);
                },
                Err(e) => {
                    return Err(e);
                },
            }
            i += 1;
        }
        Ok(res)
    }
}

impl DBColumnClear<MemDB> for MemDBColumn {
    fn clear(&mut self, backend: &mut MemDB) -> (r: Result<(), Error>) {
        let ghost before = *backend;
        match backend.find(&self.name) {
            Some(i) => {
                map_clear(&mut backend.slots[i].map);
                proof {
                    before.slot_replaced(&*backend, self@, i as int);
                }
                Ok(())
            },
            None => Err(Error::DatabaseNotFound { db: self.name.clone() }),
        }
    }
}

impl MemDB {
    /// Whether `self` is `before` without the slots that bear `name`: it
    /// holds the other slots, at the rising places `from` of `before`.
    spec fn without(&self, before: &MemDB, name: Seq<char>, from: Seq<int>) -> bool {
        &&& from.len() == self.slots.len()
        &&& forall|t: int| 0 <= t < self.slots.len() ==> 0 <= #[trigger] from[t] < before.slots.len() && self.slots[t] == before.slots[from[t]]
        &&& forall|t: int, u: int| 0 <= t < u < self.slots.len() ==> from[t] < from[u]
        &&& forall|t: int| 0 <= t < self.slots.len() ==> (#[trigger] self.slots[t]).name@ != name
        &&& forall|k: int| 0 <= k < before.slots.len() && (#[trigger] before.slots[k]).name@ != name ==> exists|t: int| 0 <= t < self.slots.len() && from[t] == k
    }

    /// An engine without the slots that bear a name holds the columns of the
    /// engine it was, but the one of that name.
    proof fn without_removes(&self, before: &MemDB, name: Seq<char>, from: Seq<int>)
        requires
            self.without(before, name, from),
        ensures
            self.columns() == before.columns().remove(name),
    {
        let expected = before.columns().remove(name);
        assert forall|n: Seq<char>| self.columns().contains_key(n) <==> expected.contains_key(n) by {
            if self.has(n) {
                let t = self.slot_of(n);
                assert(self.is_slot(n, t));
                assert(self.slots[t].name@ != name);
                before.first_slot(n, from[t]);
            }
            if n != name && before.has(n) {
                let k = before.slot_of(n);
                assert(before.is_slot(n, k));
                assert(before.slots[k].name@ != name);
                let t = choose|t: int| 0 <= t < self.slots.len() && from[t] == k;
                self.first_slot(n, t);
            }
        }
        assert forall|n: Seq<char>| self.columns().contains_key(n) implies self.columns()[n] == expected[n] by {
            let t = self.slot_of(n);
            assert(self.is_slot(n, t));
            self.slot_is(n, t);
            assert(self.slots[t].name@ != name);
            before.first_slot(n, from[t]);
            let k = before.slot_of(n);
            assert(before.is_slot(n, k));
            before.slot_is(n, k);
            assert(before.slots[k].name@ != name);
            let u = choose|u: int| 0 <= u < self.slots.len() && from[u] == k;
            if u < t {
                assert(self.slots[u].name@ != n);
            }
            if from[t] < k {
                assert(before.slots[from[t]].name@ != n);
            }
            if t < u {
                assert(from[t] < from[u]);
            }
        }
        assert(self.columns() =~= expected);
    }
}

impl DBColumnDelete<MemDB> for MemDBColumn {
    fn delete_db(&self, backend: &mut MemDB) -> (r: Result<(), Error>) {
        let ghost before = *backend;
        let ghost mut from: Seq<int> = Seq::empty();
        let mut i: usize = backend.slots.len();
        while i > 0
            invariant
                i <= backend.slots.len() <= before.slots.len(),
                from.len() == backend.slots.len() - i,
                forall|j: int| 0 <= j < i ==> backend.slots[j] == before.slots[j],
                forall|t: int| 0 <= t < from.len() ==> i <= #[trigger] from[t] < before.slots.len() && backend.slots[i + t] == before.slots[from[t]],
                forall|t: int, u: int| 0 <= t < u < from.len() ==> from[t] < from[u],
                forall|t: int| 0 <= t < from.len() ==> (#[trigger] backend.slots[i + t]).name@ != self@,
                forall|k: int| i <= k < before.slots.len() && (#[trigger] before.slots[k]).name@ != self@ ==> exists|t: int| 0 <= t < from.len() && from[t] == k,
            decreases i,
        {
            i -= 1;
            let ghost earlier = from;
            let ghost slots = backend.slots@;
            if backend.slots[i].name == self.name {
                let _ = backend.slots.remove(i);
                proof {
                    assert forall|t: int| 0 <= t < from.len() implies i <= #[trigger] from[t] < before.slots.len() && backend.slots[i + t] == before.slots[from[t]] by {
                        assert(backend.slots[i + t] == slots[i + 1 + t]);
                    }
                    assert forall|t: int| 0 <= t < from.len() implies (#[trigger] backend.slots[i + t]).name@ != self@ by {
                        assert(backend.slots[i + t] == slots[i + 1 + t]);
                    }
                }
            } else {
                proof {
                    from = seq![i as int] + earlier;
                    assert forall|t: int| 0 <= t < from.len() implies i <= #[trigger] from[t] < before.slots.len() && backend.slots[i + t] == before.slots[from[t]] by {
                        if t > 0 {
                            assert(from[t] == earlier[t - 1]);
                            assert(backend.slots[i + 1 + (t - 1)] == before.slots[earlier[t - 1]]);
                        }
                    }
                    assert forall|t: int, u: int| 0 <= t < u < from.len() implies from[t] < from[u] by {
                        assert(from[u] == earlier[u - 1]);
                        if t > 0 {
                            assert(from[t] == earlier[t - 1]);
                        }
                    }
                    assert forall|t: int| 0 <= t < from.len() implies (#[trigger] backend.slots[i + t]).name@ != self@ by {
                        if t > 0 {
                            assert(backend.slots[i + 1 + (t - 1)].name@ != self@);
                        }
                    }
                    assert forall|k: int| i <= k < before.slots.len() && (#[trigger] before.slots[k]).name@ != self@ implies exists|t: int| 0 <= t < from.len() && from[t] == k by {
                        if k == i {
                            assert(from[0] == k);
                        } else {
                            let t = choose|t: int| 0 <= t < earlier.len() && earlier[t] == k;
                            assert(from[t + 1] == k);
                        }
                    }
                }
            }
        }
        proof {
            assert forall|t: int| 0 <= t < backend.slots.len() implies 0 <= #[trigger] from[t] < before.slots.len() && backend.slots[t] == before.slots[from[t]] by {
                assert(backend.slots[0 + t] == before.slots[from[t]]);
            }
            assert forall|t: int| 0 <= t < backend.slots.len() implies (#[trigger] backend.slots[t]).name@ != self@ by {
                assert(backend.slots[0 + t].name@ != self@);
            }
            assert(backend.without(&before, self@, from));
            backend.without_removes(&before, self@, from);
        }
        Ok(())
    }
}

impl Flushable<MemDB> for MemDBColumn {
    /// Does nothing: there is no disk.
    fn flush(&self, backend: &mut MemDB) -> (r: Result<(), Error>) {
        Ok(())
    }
}

impl DBColumnIterator<MemDB> for MemDBColumn {
    fn iter(&self, backend: &MemDB) -> (r: Result<Vec<(Vec<u8>, Vec<u8>)>, Error>) {
        match backend.find(&self.name) {
            Some(i) => {
                proof {
                    assert(visible(backend.columns(), self.handle()) =~= backend.columns()[self@]);
                }
                Ok(map_pairs(&backend.slots[i].map))
            },
            None => Err(Error::DatabaseNotFound { db: self.name.clone() }),
        }
    }
}

impl DBColumnIteratorPrefix<MemDB> for MemDBColumn {
    fn iter_prefix(&self, backend: &MemDB, prefix: &[u8]) -> (r: Result<Vec<(Vec<u8>, Vec<u8>)>, Error>) {
        match self.iter(backend) {
            Ok(pairs) => {
                proof {
                    under_prefix_lists(pair_views(pairs@), prefix@, visible(backend.columns(), self.handle()));
                }
                Ok(retain_prefix(pairs, prefix))
            },
            Err(e) => Err(e),
        }
    }
}

impl DBColumnBatch<MemDB> for MemDBColumn {
    proof fn writes_through(&self) {
    }

    fn write_batch(&self, backend: &mut MemDB, log: &Vec<(Vec<u8>, Option<Vec<u8>>)>) -> (r: Result<(), Error>) {
        let ghost before = *backend;
        let ghost writes = record_views(log@);
        match backend.find(&self.name) {
            Some(i) => {
                let ghost column = stored(before.slots[i as int].map);
                let mut n: usize = 0;
                proof {
                    assert(writes.subrange(0, 0) =~= Seq::<Record>::empty());
                    assert(overlay(column, replay(writes.subrange(0, 0))) =~= column);
                    assert(visible(before.columns(), self.handle()) =~= column);
                }
                while n < log.len()
                    invariant
                        n <= log.len(),
                        writes == record_views(log@),
                        before.is_slot(self@, i as int),
                        column == stored(before.slots[i as int].map),
                        backend.slots.len() == before.slots.len(),
                        forall|j: int| 0 <= j < before.slots.len() ==> before.slots[j].name@ == backend.slots[j].name@,
                        forall|j: int| 0 <= j < before.slots.len() && j != i ==> before.slots[j].map == backend.slots[j].map,
                        stored(backend.slots[i as int].map) == overlay(column, replay(writes.subrange(0, n as int))),
                    decreases log.len() - n,
                {
                    let ghost so_far = stored(backend.slots[i as int].map);
                    match &log[n].1 {
                        Some(val) => {
                            map_insert(&mut backend.slots[i].map, log[n].0.as_slice(), val.as_slice());
                        },
                        None => {
                            map_remove(&mut backend.slots[i].map, log[n].0.as_slice());
                        },
                    }
                    proof {
                        assert(stored(backend.slots[i as int].map) == spec_write(so_far, writes[n as int].0, writes[n as int].1));
                        assert(writes.subrange(0, n + 1).drop_last() =~= writes.subrange(0, n as int));
                        assert(stored(backend.slots[i as int].map) =~= overlay(column, replay(writes.subrange(0, n + 1))));
                    }
                    n += 1;
                }
                proof {
                    assert(writes.subrange(0, n as int) =~= writes);
                    before.slot_replaced(&*backend, self@, i as int);
                }
                Ok(())
            },
            None => Err(Error::DatabaseNotFound { db: self.name.clone() }),
        }
    }
}

impl DBColumnTransaction<MemDB> for MemDBColumn {
    type Txn = RecordedTransaction<MemDBColumn>;

    fn transaction(&self, backend: &MemDB) -> (r: Result<RecordedTransaction<MemDBColumn>, Error>) {
        Ok(RecordedTransaction::new(self.clone()))
    }
}

} // verus!
