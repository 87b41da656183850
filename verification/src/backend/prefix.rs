//! Picking pairs out of an enumeration by their keys, and keys by prefix.
use vstd::prelude::*;
use crate::model::{Entries, Pair};
use crate::model::{has_prefix, lists, pair_views, with_prefix};

verus! {

/// Whether `key` starts with `prefix`, byte for byte.
pub fn starts_with(key: &[u8], prefix: &[u8]) -> (r: bool)
    ensures
        r == has_prefix(key@, prefix@),
{
    if prefix.len() > key.len() {
        return false;
    }
    let mut i: usize = 0;
    while i < prefix.len()
        invariant
            i <= prefix.len() <= key.len(),
            forall|j: int| 0 <= j < i ==> key@[j] == prefix@[j],
        decreases prefix.len() - i,
    {
        if key[i] != prefix[i] {
            assert(key@.subrange(0, prefix@.len() as int)[i as int] != prefix@[i as int]);
            return false;
        }
        i += 1;
    }
    assert(key@.subrange(0, prefix@.len() as int) =~= prefix@);
    true
}

/// The pairs whose key `keep` holds of, in the order in which they stand in
/// `pairs`.
pub open spec fn keeping(pairs: Seq<Pair>, keep: spec_fn(Seq<u8>) -> bool) -> Seq<Pair> {
    pairs.filter(|pair: Pair| keep(pair.0))
}

/// What holds of the keys that start with `prefix`.
pub open spec fn prefixed(prefix: Seq<u8>) -> spec_fn(Seq<u8>) -> bool {
    |key: Seq<u8>| has_prefix(key, prefix)
}

/// The pairs whose key starts with `prefix`, in the order in which they
/// stand in `pairs`.
pub open spec fn under_prefix(pairs: Seq<Pair>, prefix: Seq<u8>) -> Seq<Pair> {
    keeping(pairs, prefixed(prefix))
}

/// Taking one more pair into account appends it to what is kept, or leaves
/// that as it is.
pub proof fn keeping_push(pairs: Seq<Pair>, pair: Pair, keep: spec_fn(Seq<u8>) -> bool)
    ensures
        keeping(pairs.push(pair), keep) == (if keep(pair.0) {
            keeping(pairs, keep).push(pair)
        } else {
            keeping(pairs, keep)
        }),
        keeping(Seq::<Pair>::empty(), keep) == Seq::<Pair>::empty(),
{
    reveal(Seq::filter);
    assert(pairs.push(pair).drop_last() =~= pairs);
}

/// Whether `kept` holds, at the rising places `from` of `pairs`, exactly the
/// pairs whose key `keep` holds of.
pub closed spec fn sifted(pairs: Seq<Pair>, kept: Seq<Pair>, from: Seq<int>, keep: spec_fn(Seq<u8>) -> bool) -> bool {
    &&& from.len() == kept.len()
    &&& forall|j: int| 0 <= j < kept.len() ==> 0 <= #[trigger] from[j] < pairs.len() && kept[j] == pairs[from[j]]
    &&& forall|j: int, k: int| 0 <= j < k < kept.len() ==> from[j] < from[k]
    &&& forall|i: int| 0 <= i < pairs.len() && keep(#[trigger] pairs[i].0) ==> exists|j: int| 0 <= j < kept.len() && from[j] == i
    &&& forall|j: int| 0 <= j < kept.len() ==> keep(#[trigger] kept[j].0)
}

/// What is kept is sifted out of the pairs.
proof fn keeping_sifts(pairs: Seq<Pair>, keep: spec_fn(Seq<u8>) -> bool) -> (from: Seq<int>)
    ensures
        sifted(pairs, keeping(pairs, keep), from, keep),
    decreases pairs.len(),
{
    if pairs.len() == 0 {
        keeping_push(pairs, (Seq::empty(), Seq::empty()), keep);
        assert(pairs =~= Seq::<Pair>::empty());
        Seq::empty()
    } else {
        let before = pairs.drop_last();
        let earlier = keeping_sifts(before, keep);
        keeping_push(before, pairs.last(), keep);
        assert(before.push(pairs.last()) =~= pairs);
        let at = pairs.len() - 1;
        if keep(pairs.last().0) {
            let from = earlier.push(at);
            let kept = keeping(pairs, keep);
            assert forall|i: int| 0 <= i < pairs.len() && keep(#[trigger] pairs[i].0) implies exists|j: int| 0 <= j < kept.len() && from[j] == i by {
                if i == at {
                    assert(from[kept.len() - 1] == at);
                } else {
                    assert(before[i] == pairs[i]);
                    let j = choose|j: int| 0 <= j < earlier.len() && earlier[j] == i;
                    assert(from[j] == i);
                }
            }
            from
        } else {
            let kept = keeping(pairs, keep);
            assert forall|i: int| 0 <= i < pairs.len() && keep(#[trigger] pairs[i].0) implies exists|j: int| 0 <= j < kept.len() && earlier[j] == i by {
                assert(before[i] == pairs[i]);
            }
            earlier
        }
    }
}

/// Of an enumeration of a column, what is kept enumerates the column's
/// entries whose key `keep` holds of.
pub proof fn keeping_lists(pairs: Seq<Pair>, keep: spec_fn(Seq<u8>) -> bool, entries: Entries)
    requires
        lists(pairs, entries),
    ensures
        lists(keeping(pairs, keep), entries.restrict(Set::new(keep))),
{
    let kept = keeping(pairs, keep);
    let from = keeping_sifts(pairs, keep);
    let narrowed = entries.restrict(Set::new(keep));
    assert forall|k: Seq<u8>| narrowed.contains_key(k) <==> entries.contains_key(k) && keep(k) by {
    }
    assert forall|k: Seq<u8>| narrowed.contains_key(k) implies narrowed[k] == entries[k] by {
    }
    listed_part(pairs, kept, from, keep, entries, narrowed);
}

/// What is sifted out of an enumeration of `entries` enumerates the part of
/// the entries whose key `keep` holds of.
proof fn listed_part(
    pairs: Seq<Pair>,
    kept: Seq<Pair>,
    from: Seq<int>,
    keep: spec_fn(Seq<u8>) -> bool,
    entries: Entries,
    part: Entries,
)
    requires
        lists(pairs, entries),
        sifted(pairs, kept, from, keep),
        forall|k: Seq<u8>| part.contains_key(k) <==> entries.contains_key(k) && keep(k),
        forall|k: Seq<u8>| part.contains_key(k) ==> part[k] == entries[k],
    ensures
        lists(kept, part),
{
    assert forall|j: int| 0 <= j < kept.len() implies #[trigger] part.contains_key(kept[j].0) && part[kept[j].0] == kept[j].1 by {
        assert(kept[j] == pairs[from[j]]);
        assert(entries.contains_key(pairs[from[j]].0));
    }
    assert forall|k: Seq<u8>| #[trigger] part.contains_key(k) implies exists|j: int| 0 <= j < kept.len() && #[trigger] kept[j].0 == k by {
        assert(entries.contains_key(k));
        let i = choose|i: int| 0 <= i < pairs.len() && #[trigger] pairs[i].0 == k;
        assert(keep(pairs[i].0));
        let j = choose|j: int| 0 <= j < kept.len() && from[j] == i;
        assert(kept[j].0 == k);
    }
    assert forall|j: int, k: int| 0 <= j < k < kept.len() implies #[trigger] kept[j].0 != #[trigger] kept[k].0 by {
        assert(from[j] < from[k]);
        assert(kept[j] == pairs[from[j]]);
        assert(kept[k] == pairs[from[k]]);
    }
}

/// Of an enumeration of a column, what is under a prefix enumerates the
/// column's entries under the prefix.
pub proof fn under_prefix_lists(pairs: Seq<Pair>, prefix: Seq<u8>, entries: Entries)
    requires
        lists(pairs, entries),
    ensures
        lists(under_prefix(pairs, prefix), with_prefix(entries, prefix)),
{
    keeping_lists(pairs, prefixed(prefix), entries);
    assert(entries.restrict(Set::new(prefixed(prefix))) =~= with_prefix(entries, prefix));
}

/// The same pairs, the last first.
pub fn turned(pairs: Vec<(Vec<u8>, Vec<u8>)>) -> (turned: Vec<(Vec<u8>, Vec<u8>)>)
    ensures
        turned@.len() == pairs@.len(),
        forall|j: int| 0 <= j < turned@.len() ==> #[trigger] pair_views(turned@)[j] == pair_views(pairs@)[pairs@.len() - 1 - j],
{
    let ghost all = pair_views(pairs@);
    let mut rest = pairs;
    let mut turned: Vec<(Vec<u8>, Vec<u8>)> = Vec::new();
    while rest.len() > 0
        invariant
            rest@.len() + turned@.len() == all.len(),
            pair_views(rest@) =~= all.subrange(0, rest@.len() as int),
            forall|j: int| 0 <= j < turned@.len() ==> #[trigger] pair_views(turned@)[j] == all[all.len() - 1 - j],
        decreases rest.len(),
    {
        let ghost at = rest@.len() - 1;
        let ghost so_far = pair_views(turned@);
        assert(pair_views(rest@)[at] == all[at]);
        let pair = rest.pop().unwrap();
        turned.push(pair);
        assert(pair_views(rest@) =~= all.subrange(0, rest@.len() as int));
        assert(pair_views(turned@) =~= so_far.push(all[at]));
    }
    turned
}

/// Keeps the pairs whose key starts with `prefix`, in their order.
pub fn retain_prefix(pairs: Vec<(Vec<u8>, Vec<u8>)>, prefix: &[u8]) -> (kept: Vec<(Vec<u8>, Vec<u8>)>)
    ensures
        pair_views(kept@) == under_prefix(pair_views(pairs@), prefix@),
{
    let ghost all = pair_views(pairs@);
    let ghost keep = prefixed(prefix@);
    let mut waiting = turned(pairs);
    let mut kept: Vec<(Vec<u8>, Vec<u8>)> = Vec::new();
    proof {
        keeping_push(all, (Seq::empty(), Seq::empty()), keep);
        assert(all.subrange(0, 0) =~= Seq::<Pair>::empty());
        assert(pair_views(kept@) =~= keeping(all.subrange(0, 0), keep));
    }
    while waiting.len() > 0
        invariant
            keep == prefixed(prefix@),
            waiting@.len() <= all.len(),
            forall|j: int| 0 <= j < waiting@.len() ==> #[trigger] pair_views(waiting@)[j] == all[all.len() - 1 - j],
            pair_views(kept@) == keeping(all.subrange(0, all.len() - waiting@.len()), keep),
        decreases waiting.len(),
    {
        let ghost done = all.len() - waiting@.len();
        let ghost before = pair_views(kept@);
        let ghost ahead = pair_views(waiting@);
        assert(pair_views(waiting@)[waiting@.len() - 1] == all[done]);
        let pair = waiting.pop().unwrap();
        assert(pair_views(waiting@) =~= ahead.drop_last());
        proof {
            keeping_push(all.subrange(0, done), all[done], keep);
            assert(all.subrange(0, done).push(all[done]) =~= all.subrange(0, done + 1));
        }
        if starts_with(pair.0.as_slice(), prefix) {
            kept.push(pair);
            assert(pair_views(kept@) =~= before.push(all[done]));
        }
        assert forall|j: int| 0 <= j < waiting@.len() implies #[trigger] pair_views(waiting@)[j] == all[all.len() - 1 - j] by {
            assert(ahead[j] == all[all.len() - 1 - j]);
        }
    }
    assert(all.subrange(0, all.len() as int) =~= all);
    kept
}

} // verus!
