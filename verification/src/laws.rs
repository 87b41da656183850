//! What holds of every column, whatever the engine and the codecs.
//!
//! The contracts of the operations are stated over the functions of
//! [`crate::model`]. Each law here is a consequence of those functions, so it
//! holds of every engine that meets the contracts.
use vstd::prelude::*;
use crate::model::{Columns, Entries, Handle, Pair};
use crate::model::{column_handle, has_prefix, lists, session_handle};
use crate::model::{spec_commit, spec_get, spec_get_multi, spec_open, spec_set_nx, spec_step, spec_write};
use crate::model::{visible, with_prefix};
use crate::traits::{BytesEncode, RoundTrip};
use crate::traits::{decoded, readable};

verus! {

/// Whether a handle is one that the layer hands out: it holds writes back
/// only if it buffers.
pub open spec fn handle_wf(handle: Handle) -> bool {
    handle.buffers || handle.pending == Map::<Seq<u8>, Option<Seq<u8>>>::empty()
}

/// A handle that holds nothing back shows its column as it is.
pub proof fn plain_shows_column(columns: Columns, name: Seq<char>)
    ensures
        visible(columns, column_handle(name)) == columns[name],
        visible(columns, session_handle(name)) == columns[name],
{
    assert(visible(columns, column_handle(name)) =~= columns[name]);
    assert(visible(columns, session_handle(name)) =~= columns[name]);
}

/// A write through a handle shows in what the handle shows afterwards, and
/// in nothing else of it: the handle then shows what it showed before with
/// that one write made.
pub proof fn write_shows(columns: Columns, handle: Handle, key: Seq<u8>, write: Option<Seq<u8>>)
    requires
        handle_wf(handle),
    ensures
        ({
            let (after, held) = spec_step(columns, handle, key, write, true);
            visible(after, held) == spec_write(visible(columns, handle), key, write) && handle_wf(held)
                && held.name == handle.name && (after.contains_key(handle.name) <== columns.contains_key(
                handle.name,
            ))
        }),
{
    let (after, held) = spec_step(columns, handle, key, write, true);
    assert(visible(after, held) =~= spec_write(visible(columns, handle), key, write));
}

/// A key that is not there reads as absent, and a key that was just set
/// reads as the value it was set to.
pub proof fn get_after_set(columns: Columns, handle: Handle, key: Seq<u8>, val: Seq<u8>)
    requires
        handle_wf(handle),
    ensures
        !visible(columns, handle).contains_key(key) ==> spec_get(visible(columns, handle), key) is None,
        ({
            let (after, held) = spec_step(columns, handle, key, Some(val), true);
            spec_get(visible(after, held), key) == Some(val)
        }),
{
    write_shows(columns, handle, key, Some(val));
}

/// `set_nx` on an absent key says that it inserted, and the key then reads
/// as the value given. `set_nx` on a key that is there says that it did not
/// insert, and changes nothing: so of two in a row on an absent key, the
/// first value stays.
pub proof fn set_nx_keeps_first(columns: Columns, handle: Handle, key: Seq<u8>, first: Seq<u8>, second: Seq<u8>)
    requires
        handle_wf(handle),
        !visible(columns, handle).contains_key(key),
    ensures
        ({
            let (after, held) = spec_step(columns, handle, key, Some(first), true);
            let again = !visible(after, held).contains_key(key);
            let (last, kept) = spec_step(after, held, key, Some(second), again);
            &&& spec_get(visible(after, held), key) == Some(first)
            &&& !again
            &&& (last, kept) == (after, held)
            &&& spec_get(visible(last, kept), key) == Some(first)
        }),
{
    write_shows(columns, handle, key, Some(first));
}

/// What `set_nx` leaves is the column with the pair inserted where the key
/// was absent, and the column as it was where the key was there.
pub proof fn set_nx_is_insert_if_absent(columns: Columns, handle: Handle, key: Seq<u8>, val: Seq<u8>)
    requires
        handle_wf(handle),
    ensures
        ({
            let inserted = !visible(columns, handle).contains_key(key);
            let (after, held) = spec_step(columns, handle, key, Some(val), inserted);
            visible(after, held) == spec_set_nx(visible(columns, handle), key, val)
        }),
{
    write_shows(columns, handle, key, Some(val));
}

/// A key that was just deleted reads as absent and is not contained.
pub proof fn get_after_delete(columns: Columns, handle: Handle, key: Seq<u8>)
    requires
        handle_wf(handle),
    ensures
        ({
            let (after, held) = spec_step(columns, handle, key, None, true);
            &&& spec_get(visible(after, held), key) is None
            &&& !visible(after, held).contains_key(key)
        }),
{
    write_shows(columns, handle, key, None);
}

/// A write to one key leaves every other key as it was.
pub proof fn write_keeps_other_keys(columns: Columns, handle: Handle, key: Seq<u8>, write: Option<Seq<u8>>, other: Seq<u8>)
    requires
        handle_wf(handle),
        other != key,
    ensures
        ({
            let (after, held) = spec_step(columns, handle, key, write, true);
            spec_get(visible(after, held), other) == spec_get(visible(columns, handle), other)
        }),
{
    write_shows(columns, handle, key, write);
}

/// A write to one column leaves every other column as it was.
pub proof fn write_keeps_other_columns(columns: Columns, handle: Handle, key: Seq<u8>, write: Option<Seq<u8>>, other: Seq<char>)
    requires
        other != handle.name,
    ensures
        ({
            let (after, held) = spec_step(columns, handle, key, write, true);
            after.contains_key(other) == columns.contains_key(other) && after[other] == columns[other]
        }),
{
}

/// `get_multi` gives one result for each key, and the result at each place
/// is what `get` gives for the key at that place: the value where the key is
/// there, nothing where it is not.
pub proof fn get_multi_is_positional(entries: Entries, keys: Seq<Seq<u8>>)
    ensures
        spec_get_multi(entries, keys).len() == keys.len(),
        forall|i: int| 0 <= i < keys.len() ==> #[trigger] spec_get_multi(entries, keys)[i] == spec_get(entries, keys[i]),
        forall|i: int| 0 <= i < keys.len() ==> (#[trigger] spec_get_multi(entries, keys)[i] is Some <==> entries.contains_key(
            keys[i],
        )),
{
}

/// An enumeration of a column by prefix holds every entry whose key starts
/// with the prefix, once, and no other pair.
pub proof fn prefix_listing_is_exact(pairs: Seq<Pair>, entries: Entries, prefix: Seq<u8>)
    requires
        lists(pairs, with_prefix(entries, prefix)),
    ensures
        forall|i: int| 0 <= i < pairs.len() ==> has_prefix(#[trigger] pairs[i].0, prefix) && entries.contains_key(pairs[i].0)
            && entries[pairs[i].0] == pairs[i].1,
        forall|k: Seq<u8>| entries.contains_key(k) && has_prefix(k, prefix) ==> exists|i: int| 0 <= i < pairs.len() && #[trigger] pairs[i].0 == k,
        forall|i: int, j: int| 0 <= i < j < pairs.len() ==> #[trigger] pairs[i].0 != #[trigger] pairs[j].0,
{
    let narrowed = with_prefix(entries, prefix);
    assert forall|i: int| 0 <= i < pairs.len() implies has_prefix(#[trigger] pairs[i].0, prefix) && entries.contains_key(pairs[i].0)
        && entries[pairs[i].0] == pairs[i].1 by {
        assert(narrowed.contains_key(pairs[i].0));
    }
    assert forall|k: Seq<u8>| entries.contains_key(k) && has_prefix(k, prefix) implies exists|i: int| 0 <= i < pairs.len() && #[trigger] pairs[i].0 == k by {
        assert(narrowed.contains_key(k));
    }
}

/// Opening a column twice is opening it once: the second opening changes
/// nothing, and what the first left in the column is still there.
pub proof fn open_is_idempotent(columns: Columns, name: Seq<char>)
    ensures
        spec_open(columns, name).contains_key(name),
        spec_open(spec_open(columns, name), name) == spec_open(columns, name),
        columns.contains_key(name) ==> spec_open(columns, name) == columns,
        !columns.contains_key(name) ==> spec_open(columns, name)[name] == Entries::empty(),
{
}

/// A write made in a write session is seen in the session and by nobody
/// else: the engine is as it was. So after a rollback, which leaves the
/// engine as it is, every key reads outside the session as it read before
/// the session began.
pub proof fn session_write_is_held_back(columns: Columns, name: Seq<char>, key: Seq<u8>, write: Option<Seq<u8>>)
    ensures
        ({
            let (after, held) = spec_step(columns, session_handle(name), key, write, true);
            &&& after == columns
            &&& visible(after, column_handle(name)) == visible(columns, column_handle(name))
            &&& visible(after, held) == spec_write(columns[name], key, write)
        }),
{
    plain_shows_column(columns, name);
    write_shows(columns, session_handle(name), key, write);
}

/// After a commit the column is what the session showed: a key set in the
/// session reads outside it as the value it was set to, and every column but
/// the session's is as it was.
pub proof fn commit_shows_session(columns: Columns, held: Handle, key: Seq<u8>)
    requires
        columns.contains_key(held.name),
    ensures
        visible(spec_commit(columns, held), column_handle(held.name)) == visible(columns, held),
        spec_get(visible(spec_commit(columns, held), column_handle(held.name)), key) == spec_get(visible(columns, held), key),
        forall|other: Seq<char>| other != held.name ==> spec_commit(columns, held)[other] == columns[other],
        spec_commit(columns, held).dom() == columns.dom(),
{
    plain_shows_column(spec_commit(columns, held), held.name);
    assert(spec_commit(columns, held).dom() =~= columns.dom());
}

/// Begin, set a key, commit: the key reads outside the session as the value
/// it was set to.
pub proof fn set_then_commit(columns: Columns, name: Seq<char>, key: Seq<u8>, val: Seq<u8>)
    requires
        columns.contains_key(name),
    ensures
        ({
            let (during, held) = spec_step(columns, session_handle(name), key, Some(val), true);
            spec_get(visible(spec_commit(during, held), column_handle(name)), key) == Some(val)
        }),
{
    let (during, held) = spec_step(columns, session_handle(name), key, Some(val), true);
    write_shows(columns, session_handle(name), key, Some(val));
    commit_shows_session(during, held, key);
}

/// A value that was set under a key with codecs that lose nothing reads
/// back as itself: the typed `get` finds bytes that it can decode, and what
/// it decodes is the value that was set.
pub proof fn typed_get_after_set<Key: BytesEncode, Val: RoundTrip>(
    columns: Columns,
    handle: Handle,
    key: &Key::EItem,
    val: &Val::EItem,
    got: Option<Val::DItem>,
)
    requires
        handle_wf(handle),
        ({
            let (after, held) = spec_step(columns, handle, Key::encoding(key), Some(Val::encoding(val)), true);
            decoded::<Val>(spec_get(visible(after, held), Key::encoding(key)), got)
        }),
    ensures
        got is Some,
        Val::same(val, &got->Some_0),
{
    get_after_set(columns, handle, Key::encoding(key), Val::encoding(val));
    Val::round_trip(val, &got->Some_0);
}

/// A value that was set with a codec that loses nothing can be read: the
/// typed `get` of its key does not fail to decode it.
pub proof fn typed_set_is_readable<Key: BytesEncode, Val: RoundTrip>(
    columns: Columns,
    handle: Handle,
    key: &Key::EItem,
    val: &Val::EItem,
)
    requires
        handle_wf(handle),
    ensures
        Val::encodable(val),
        ({
            let (after, held) = spec_step(columns, handle, Key::encoding(key), Some(Val::encoding(val)), true);
            readable::<Val>(spec_get(visible(after, held), Key::encoding(key)))
        }),
{
    get_after_set(columns, handle, Key::encoding(key), Val::encoding(val));
    Val::encoding_decodes(val);
}

/// Decoding what a codec that loses nothing has encoded gives the value
/// back.
pub proof fn decode_after_encode<C: RoundTrip>(item: &C::EItem, decoded: &C::DItem)
    requires
        C::decodes(C::encoding(item), decoded),
    ensures
        C::encodable(item),
        C::decodable(C::encoding(item)),
        C::same(item, decoded),
{
    C::encoding_decodes(item);
    C::round_trip(item, decoded);
}

} // verus!
