//! Write sessions that record their writes.
//!
//! An engine whose columns can take a batch of writes at once needs no
//! write session of its own: the session of this file records the writes
//! and hands them to the column when it is committed.
use vstd::prelude::*;
use vstd::slice::slice_to_vec;
use crate::backend::prefix::{keeping, keeping_lists, keeping_push, retain_prefix, turned, under_prefix_lists};
use crate::backend::{ColumnHandle, ColumnStore, DBColumn, DBColumnBatch, DBColumnIterator, DBColumnIteratorPrefix};
use crate::backend::DBTransaction;
use crate::error::Error;
use crate::model::{Entries, Handle, Pair, Record};
use crate::model::{lists, option_view, option_views, overlay, pair_views, record_views, replay, session_handle};
use crate::model::{spec_get, spec_get_multi, views, visible};

verus! {

/// A write session on one column that records its writes in their order.
///
/// It reads through them: a key that the session wrote reads as the session
/// last wrote it, any other key as the column has it at that moment. A
/// commit hands the recorded writes to the column as one batch. A rollback
/// forgets them.
pub struct RecordedTransaction<C> {
    column: C,
    log: Vec<(Vec<u8>, Option<Vec<u8>>)>,
}

/// Whether two byte strings are the same.
fn same_bytes(a: &[u8], b: &[u8]) -> (r: bool)
    ensures
        r == (a@ == b@),
{
    if a.len() != b.len() {
        return false;
    }
    let mut i: usize = 0;
    while i < a.len()
        invariant
            i <= a.len() == b.len(),
            forall|j: int| 0 <= j < i ==> a@[j] == b@[j],
        decreases a.len() - i,
    {
        if a[i] != b[i] {
            return false;
        }
        i += 1;
    }
    assert(a@ =~= b@);
    true
}

/// The last write to a key is what the record of writes amounts to for that
/// key, and a key that was never written is not in it.
proof fn replay_finds_last(log: Seq<Record>, key: Seq<u8>, at: int)
    requires
        -1 <= at < log.len(),
        at >= 0 ==> log[at].0 == key,
        forall|j: int| at < j < log.len() ==> log[j].0 != key,
    ensures
        replay(log).contains_key(key) <==> at >= 0,
        at >= 0 ==> replay(log)[key] == log[at].1,
    decreases log.len(),
{
    if log.len() > 0 {
        if at < log.len() - 1 {
            replay_finds_last(log.drop_last(), key, at);
        }
    }
}

/// Whether the write at place `i` of the record is the last to its key.
pub open spec fn is_last_write(log: Seq<Record>, i: int) -> bool {
    0 <= i < log.len() && forall|j: int| i < j < log.len() ==> log[j].0 != log[i].0
}

/// The pairs that the first `n` writes of the record leave behind: of each
/// key, the last write of the whole record, where that is a put.
pub open spec fn last_puts(log: Seq<Record>, n: nat) -> Seq<Pair>
    decreases n,
{
    if n == 0 {
        Seq::empty()
    } else {
        let at = n - 1;
        let earlier = last_puts(log, at as nat);
        if is_last_write(log, at) && log[at].1 is Some {
            earlier.push((log[at].0, log[at].1->Some_0))
        } else {
            earlier
        }
    }
}

/// What holds of the keys that the record of writes does not touch.
pub open spec fn untouched(log: Seq<Record>) -> spec_fn(Seq<u8>) -> bool {
    |key: Seq<u8>| !replay(log).contains_key(key)
}

/// A key that the record touches has a last write.
proof fn replay_has_last(log: Seq<Record>, key: Seq<u8>) -> (at: int)
    requires
        replay(log).contains_key(key),
    ensures
        is_last_write(log, at),
        log[at].0 == key,
        replay(log)[key] == log[at].1,
    decreases log.len(),
{
    if log.last().0 == key {
        log.len() - 1
    } else {
        let at = replay_has_last(log.drop_last(), key);
        assert(log.drop_last()[at] == log[at]);
        assert forall|j: int| at < j < log.len() implies log[j].0 != log[at].0 by {
            if j < log.len() - 1 {
                assert(log.drop_last()[j] == log[j]);
            }
        }
        at
    }
}

/// Whether `puts` holds, at the rising places `from` of the record, exactly
/// the last writes among the first `n` that are puts.
spec fn put_places(log: Seq<Record>, n: int, puts: Seq<Pair>, from: Seq<int>) -> bool {
    &&& from.len() == puts.len()
    &&& forall|t: int| 0 <= t < puts.len() ==> 0 <= #[trigger] from[t] < n && is_last_write(log, from[t]) && log[from[t]].1 is Some
        && puts[t] == (log[from[t]].0, log[from[t]].1->Some_0)
    &&& forall|t: int, u: int| 0 <= t < u < puts.len() ==> from[t] < from[u]
    &&& forall|i: int| 0 <= i < n && is_last_write(log, i) && (#[trigger] log[i]).1 is Some ==> exists|t: int| 0 <= t < puts.len() && from[t] == i
}

/// The last puts stand at rising places of the record.
proof fn last_puts_places(log: Seq<Record>, n: nat) -> (from: Seq<int>)
    requires
        n <= log.len(),
    ensures
        put_places(log, n as int, last_puts(log, n), from),
    decreases n,
{
    if n == 0 {
        Seq::empty()
    } else {
        let at = n - 1;
        let earlier = last_puts_places(log, at as nat);
        let before = last_puts(log, at as nat);
        if is_last_write(log, at) && log[at].1 is Some {
            let from = earlier.push(at);
            let puts = last_puts(log, n);
            assert forall|i: int| 0 <= i < n && is_last_write(log, i) && (#[trigger] log[i]).1 is Some implies exists|t: int| 0 <= t < puts.len() && from[t] == i by {
                if i == at {
                    assert(from[puts.len() - 1] == at);
                } else {
                    let t = choose|t: int| 0 <= t < before.len() && earlier[t] == i;
                    assert(from[t] == i);
                }
            }
            from
        } else {
            assert forall|i: int| 0 <= i < n && is_last_write(log, i) && (#[trigger] log[i]).1 is Some implies exists|t: int| 0 <= t < before.len() && earlier[t] == i by {
                assert(i != at);
            }
            earlier
        }
    }
}

/// What a session shows is enumerated by the pairs of its column that it did
/// not touch, followed by its own last puts.
pub proof fn session_lists(base: Seq<Pair>, log: Seq<Record>, entries: Entries)
    requires
        lists(base, entries),
    ensures
        lists(keeping(base, untouched(log)) + last_puts(log, log.len()), overlay(entries, replay(log))),
{
    let kept = keeping(base, untouched(log));
    let puts = last_puts(log, log.len());
    let out = kept + puts;
    let shown = overlay(entries, replay(log));
    let part = entries.restrict(Set::new(untouched(log)));
    keeping_lists(base, untouched(log), entries);
    let from = last_puts_places(log, log.len());
    assert forall|t: int| 0 <= t < puts.len() implies replay(log).contains_key(#[trigger] puts[t].0) && replay(log)[puts[t].0] == Some(puts[t].1) by {
        replay_finds_last(log, puts[t].0, from[t]);
    }
    assert forall|i: int| 0 <= i < out.len() implies #[trigger] shown.contains_key(out[i].0) && shown[out[i].0] == out[i].1 by {
        if i < kept.len() {
            assert(out[i] == kept[i]);
            assert(part.contains_key(kept[i].0));
        } else {
            assert(out[i] == puts[i - kept.len()]);
        }
    }
    assert forall|k: Seq<u8>| #[trigger] shown.contains_key(k) implies exists|i: int| 0 <= i < out.len() && #[trigger] out[i].0 == k by {
        if replay(log).contains_key(k) {
            let at = replay_has_last(log, k);
            assert(log[at].1 is Some);
            let t = choose|t: int| 0 <= t < puts.len() && from[t] == at;
            assert(out[kept.len() + t] == puts[t]);
            assert(out[kept.len() + t].0 == k);
        } else {
            assert(part.contains_key(k));
            let j = choose|j: int| 0 <= j < kept.len() && #[trigger] kept[j].0 == k;
            assert(out[j] == kept[j]);
        }
    }
    assert forall|i: int, j: int| 0 <= i < j < out.len() implies #[trigger] out[i].0 != #[trigger] out[j].0 by {
        if j < kept.len() {
            assert(out[i] == kept[i] && out[j] == kept[j]);
        } else if i < kept.len() {
            assert(out[i] == kept[i]);
            assert(out[j] == puts[j - kept.len()]);
            assert(part.contains_key(kept[i].0));
        } else {
            let t = i - kept.len();
            let u = j - kept.len();
            assert(out[i] == puts[t] && out[j] == puts[u]);
            assert(from[t] < from[u]);
        }
    }
    assert(lists(out, shown));
}

impl<C: ColumnHandle> RecordedTransaction<C> {
    /// The handle of the session's column.
    pub closed spec fn column(&self) -> C {
        self.column
    }

    /// The writes that the session has recorded, in their order.
    pub closed spec fn log(&self) -> Seq<Record> {
        record_views(self.log@)
    }

    /// A session on `column` that has recorded nothing yet.
    pub fn new(column: C) -> (txn: Self)
        ensures
            txn.column() == column,
            txn.handle() == session_handle(column.handle().name),
    {
        let txn = RecordedTransaction { column, log: Vec::new() };
        assert(txn.log() =~= Seq::<Record>::empty());
        txn
    }

    /// The place of the last write to `key` in the record, if the session
    /// wrote to it.
    fn last_write(&self, key: &[u8]) -> (r: Option<usize>)
        ensures
            r is Some <==> self.handle().pending.contains_key(key@),
            r is Some ==> is_last_write(self.log(), r->Some_0 as int) && self.log()[r->Some_0 as int].0 == key@,
            r is Some ==> self.handle().pending[key@] == self.log()[r->Some_0 as int].1,
    {
        let mut i: usize = self.log.len();
        while i > 0
            invariant
                i <= self.log.len(),
                forall|j: int| i <= j < self.log.len() ==> self.log()[j].0 != key@,
            decreases i,
        {
            i -= 1;
            if same_bytes(self.log[i].0.as_slice(), key) {
                proof {
                    replay_finds_last(self.log(), key@, i as int);
                }
                return Some(i);
            }
        }
        proof {
            replay_finds_last(self.log(), key@, -1);
        }
        None
    }

    /// What the session last wrote to `key`, if it wrote to it.
    fn held(&self, key: &[u8]) -> (r: Option<Option<Vec<u8>>>)
        ensures
            r is Some <==> self.handle().pending.contains_key(key@),
            r is Some ==> option_view(r->Some_0) == self.handle().pending[key@],
    {
        match self.last_write(key) {
            Some(i) => {
                let write = match &self.log[i].1 {
                    Some(val) => Some(slice_to_vec(val.as_slice())),
                    None => None,
                };
                Some(write)
            },
            None => None,
        }
    }

    /// Records one write.
    fn record(&mut self, key: &[u8], write: Option<Vec<u8>>)
        ensures
            final(self).column() == old(self).column(),
            final(self).handle().pending == old(self).handle().pending.insert(key@, option_view(write)),
    {
        let ghost before = self.log();
        self.log.push((slice_to_vec(key), write));
        assert(self.log().drop_last() =~= before);
    }
}

impl<C: ColumnHandle> ColumnHandle for RecordedTransaction<C> {
    open spec fn handle(&self) -> Handle {
        Handle { name: self.column().handle().name, buffers: true, pending: replay(self.log()) }
    }
}

impl<B: ColumnStore, C: DBColumnBatch<B>> DBColumn<B> for RecordedTransaction<C> {
    fn set(&mut self, backend: &mut B, key: &[u8], val: &[u8]) -> (r: Result<(), Error>) {
        self.record(key, Some(slice_to_vec(val)));
        Ok(())
    }

    fn get(&self, backend: &B, key: &[u8]) -> (r: Result<Option<Vec<u8>>, Error>) {
        match self.held(key) {
            Some(write) => Ok(write),
            None => {
                proof {
                    self.column.writes_through();
                    assert(visible(backend.columns(), self.column.handle()) =~= backend.columns()[self.handle().name]);
                }
                self.column.get(backend, key)
            },
        }
    }

    fn get_multi(&self, backend: &B, keys: &Vec<Vec<u8>>) -> (r: Result<Vec<Option<Vec<u8>>>, Error>) {
        let ghost shown = visible(backend.columns(), self.handle());
        let mut res: Vec<Option<Vec<u8>>> = Vec::new();
        let mut i: usize = 0;
        while i < keys.len()
            invariant
                i <= keys.len(),
                res@.len() == i,
                backend.columns().contains_key(self.handle().name),
                shown == visible(backend.columns(), self.handle()),
                forall|j: int| 0 <= j < i ==> option_view(#[trigger] res@[j]) == spec_get(shown, keys@[j]@),
            decreases keys.len() - i,
        {
            match self.get(backend, keys[i].as_slice()) {
                Ok(val) => {
                    res.push(val);
                },
                Err(e) => {
                    return Err(e);
                },
            }
            i += 1;
        }
        assert(option_views(res@) =~= spec_get_multi(shown, views(keys@)));
        Ok(res)
    }

    fn delete(&mut self, backend: &mut B, key: &[u8]) -> (r: Result<(), Error>) {
        self.record(key, None);
        Ok(())
    }

    fn contains(&self, backend: &B, key: &[u8]) -> (r: Result<bool, Error>) {
        match self.held(key) {
            Some(write) => Ok(write.is_some()),
            None => {
                proof {
                    self.column.writes_through();
                    assert(visible(backend.columns(), self.column.handle()) =~= backend.columns()[self.handle().name]);
                }
                self.column.contains(backend, key)
            },
        }
    }
}

impl<B: ColumnStore, C: DBColumnBatch<B>> DBTransaction<B> for RecordedTransaction<C> {
    fn commit(self, backend: &mut B) -> (r: Result<(), Error>) {
        proof {
            self.column.writes_through();
            assert(visible(backend.columns(), self.column.handle()) =~= backend.columns()[self.handle().name]);
        }
        self.column.write_batch(backend, &self.log)
    }

    fn rollback(self, backend: &mut B) -> (r: Result<(), Error>) {
        Ok(())
    }
}

impl<C: ColumnHandle> RecordedTransaction<C> {
    /// Keeps the pairs whose key the session did not write, in their order.
    fn unwritten(&self, pairs: Vec<(Vec<u8>, Vec<u8>)>) -> (kept: Vec<(Vec<u8>, Vec<u8>)>)
        ensures
            pair_views(kept@) == keeping(pair_views(pairs@), untouched(self.log())),
    {
        let ghost all = pair_views(pairs@);
        let ghost keep = untouched(self.log());
        let mut waiting = turned(pairs);
        let mut kept: Vec<(Vec<u8>, Vec<u8>)> = Vec::new();
        proof {
            keeping_push(all, (Seq::empty(), Seq::empty()), keep);
            assert(all.subrange(0, 0) =~= Seq::<Pair>::empty());
            assert(pair_views(kept@) =~= keeping(all.subrange(0, 0), keep));
        }
        while waiting.len() > 0
            invariant
                keep == untouched(self.log()),
                waiting@.len() <= all.len(),
                forall|j: int| 0 <= j < waiting@.len() ==> #[trigger] pair_views(waiting@)[j] == all[all.len() - 1 - j],
                pair_views(kept@) == keeping(all.subrange(0, all.len() - waiting@.len()), keep),
            decreases waiting.len(),
        {
            let ghost done = all.len() - waiting@.len();
            let ghost before = pair_views(kept@);
            let ghost ahead = pair_views(waiting@);
            assert(pair_views(waiting@)[waiting@.len() - 1] == all[done]);
            let pair = waiting.pop().unwrap();
            assert(pair_views(waiting@) =~= ahead.drop_last());
            proof {
                keeping_push(all.subrange(0, done), all[done], keep);
                assert(all.subrange(0, done).push(all[done]) =~= all.subrange(0, done + 1));
            }
            if self.last_write(pair.0.as_slice()).is_none() {
                kept.push(pair);
                assert(pair_views(kept@) =~= before.push(all[done]));
            }
            assert forall|j: int| 0 <= j < waiting@.len() implies #[trigger] pair_views(waiting@)[j] == all[all.len() - 1 - j] by {
                assert(ahead[j] == all[all.len() - 1 - j]);
            }
        }
        assert(all.subrange(0, all.len() as int) =~= all);
        kept
    }

    /// Appends the session's last puts, in the order in which they were
    /// written.
    fn append_written(&self, out: &mut Vec<(Vec<u8>, Vec<u8>)>)
        ensures
            pair_views(final(out)@) == pair_views(old(out)@) + last_puts(self.log(), self.log().len()),
    {
        let ghost start = pair_views(out@);
        let ghost log = self.log();
        let mut i: usize = 0;
        assert(pair_views(out@) =~= start + last_puts(log, 0));
        while i < self.log.len()
            invariant
                i <= self.log.len(),
                log == self.log(),
                pair_views(out@) == start + last_puts(log, i as nat),
            decreases self.log.len() - i,
        {
            let ghost so_far = pair_views(out@);
            let last = self.last_write(self.log[i].0.as_slice());
            proof {
                if is_last_write(log, i as int) {
                    replay_finds_last(log, log[i as int].0, i as int);
                    let at = last->Some_0 as int;
                    if at < i {
                        assert(log[i as int].0 != log[at].0);
                    }
                    if i < at {
                        assert(log[at].0 != log[i as int].0);
                    }
                }
            }
            match (&self.log[i].1, last) {
                (Some(val), Some(at)) => {
                    if at == i {
                        out.push((slice_to_vec(self.log[i].0.as_slice()), slice_to_vec(val.as_slice())));
                        assert(pair_views(out@) =~= so_far.push((log[i as int].0, log[i as int].1->Some_0)));
                    }
                },
                _ => {},
            }
            assert(pair_views(out@) =~= start + last_puts(log, (i + 1) as nat));
            i += 1;
        }
    }
}

impl<B: ColumnStore, C: DBColumnBatch<B> + DBColumnIterator<B>> DBColumnIterator<B> for RecordedTransaction<C> {
    fn iter(&self, backend: &B) -> (r: Result<Vec<(Vec<u8>, Vec<u8>)>, Error>) {
        proof {
            self.column.writes_through();
            assert(visible(backend.columns(), self.column.handle()) =~= backend.columns()[self.handle().name]);
        }
        match self.column.iter(backend) {
            Ok(pairs) => {
                proof {
                    session_lists(pair_views(pairs@), self.log(), backend.columns()[self.handle().name]);
                }
                let mut out = self.unwritten(pairs);
                self.append_written(&mut out);
                Ok(out)
            },
            Err(e) => Err(e),
        }
    }
}

impl<B: ColumnStore, C: DBColumnBatch<B> + DBColumnIterator<B>> DBColumnIteratorPrefix<B> for RecordedTransaction<C> {
    fn iter_prefix(&self, backend: &B, prefix: &[u8]) -> (r: Result<Vec<(Vec<u8>, Vec<u8>)>, Error>) {
        match self.iter(backend) {
            Ok(pairs) => {
                proof {
                    under_prefix_lists(pair_views(pairs@), prefix@, visible(backend.columns(), self.handle()));
                }
                Ok(retain_prefix(pairs, prefix))
            },
            Err(e) => Err(e),
        }
    }
}

} // verus!
