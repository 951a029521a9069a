//! The insertion-ordered map that holds a node's entries, and its model as a
//! sequence of key/value pairs, oldest first.

use linked_hash_map::LinkedHashMap;
use vstd::prelude::*;

verus! {

/// Makes `linked_hash_map::LinkedHashMap` known to the verifier as a type
/// whose inside it cannot see; what a map holds is told by `contents`.
#[verifier::external_type_specification]
#[verifier::external_body]
#[verifier::reject_recursive_types(K)]
#[verifier::reject_recursive_types(V)]
#[verifier::reject_recursive_types(S)]
pub struct ExLinkedHashMap<K, V, S>(LinkedHashMap<K, V, S>);

/// The entries a map holds, in the order in which `pop_front` would hand
/// them out: the entry that was inserted (or last re-inserted) longest ago
/// comes first.
pub uninterp spec fn contents(map: LinkedHashMap<u64, u64>) -> Seq<(u64, u64)>;

/// The predicate "bound to a key other than `key`".
pub open spec fn other_key(key: u64) -> spec_fn((u64, u64)) -> bool {
    |entry: (u64, u64)| entry.0 != key
}

/// Whether some entry of `entries` is bound to `key`.
pub open spec fn has_key(entries: Seq<(u64, u64)>, key: u64) -> bool {
    exists|i: int| 0 <= i < entries.len() && (#[trigger] entries[i]).0 == key
}

/// The value that `entries` binds to `key`: that of the youngest entry with
/// this key, if there is one.
pub open spec fn lookup(entries: Seq<(u64, u64)>, key: u64) -> Option<u64>
    decreases entries.len(),
{
    if entries.len() == 0 {
        None
    } else if entries.last().0 == key {
        Some(entries.last().1)
    } else {
        lookup(entries.drop_last(), key)
    }
}

/// `entries` after `key` is bound to `value`: any older binding of `key`
/// leaves, the others keep their order, and the new entry is the youngest.
pub open spec fn rebound(entries: Seq<(u64, u64)>, key: u64, value: u64) -> Seq<(u64, u64)> {
    entries.filter(other_key(key)).push((key, value))
}

/// `entries` without its oldest entry; the empty sequence stays empty.
pub open spec fn without_oldest(entries: Seq<(u64, u64)>) -> Seq<(u64, u64)> {
    if entries.len() == 0 {
        entries
    } else {
        entries.drop_first()
    }
}

/// No two entries of `entries` are bound to the same key.
pub open spec fn distinct_keys(entries: Seq<(u64, u64)>) -> bool {
    forall|i: int, j: int|
        0 <= i < j < entries.len() ==> (#[trigger] entries[i]).0 != (#[trigger] entries[j]).0
}

/// A key is bound in `entries` exactly when looking it up finds a value.
pub proof fn lemma_lookup_finds_bound_keys(entries: Seq<(u64, u64)>, key: u64)
    ensures
        has_key(entries, key) <==> lookup(entries, key) is Some,
    decreases entries.len(),
{
    if entries.len() > 0 {
        let older = entries.drop_last();
        lemma_lookup_finds_bound_keys(older, key);
        if entries.last().0 == key {
            assert(entries[entries.len() - 1].0 == key);
        } else if has_key(entries, key) {
            let i = choose|i: int| 0 <= i < entries.len() && (#[trigger] entries[i]).0 == key;
            assert(older[i].0 == key);
        } else if has_key(older, key) {
            let i = choose|i: int| 0 <= i < older.len() && (#[trigger] older[i]).0 == key;
            assert(entries[i].0 == key);
        }
    }
}

/// Leaving the entries of `key` out does not touch what any other key is
/// bound to.
pub proof fn lemma_filter_keeps_other_keys(entries: Seq<(u64, u64)>, key: u64, other: u64)
    requires
        other != key,
    ensures
        lookup(entries.filter(other_key(key)), other) == lookup(entries, other),
    decreases entries.len(),
{
    reveal(Seq::filter);
    if entries.len() > 0 {
        let older = entries.drop_last();
        lemma_filter_keeps_other_keys(older, key, other);
        if entries.last().0 != key {
            let kept = older.filter(other_key(key)).push(entries.last());
            assert(kept.drop_last() =~= older.filter(other_key(key)));
        }
    }
}

/// Leaving the entries of `key` out changes nothing when `key` is not bound,
/// and makes the sequence shorter when it is.
pub proof fn lemma_filter_drops_bound_key(entries: Seq<(u64, u64)>, key: u64)
    ensures
        lookup(entries, key) is None ==> entries.filter(other_key(key)) == entries,
        lookup(entries, key) is Some ==> entries.filter(other_key(key)).len() < entries.len(),
        lookup(entries.filter(other_key(key)), key) is None,
    decreases entries.len(),
{
    reveal(Seq::filter);
    if entries.len() > 0 {
        let older = entries.drop_last();
        lemma_filter_drops_bound_key(older, key);
        older.lemma_filter_len(other_key(key));
        if entries.last().0 != key {
            let kept = older.filter(other_key(key)).push(entries.last());
            assert(kept.drop_last() =~= older.filter(other_key(key)));
            if lookup(entries, key) is None {
                assert(older.push(entries.last()) =~= entries);
            }
        }
    }
}

/// After `key` is bound to `value`, looking `key` up finds `value`.
pub proof fn lemma_rebound_binds(entries: Seq<(u64, u64)>, key: u64, value: u64)
    ensures
        lookup(rebound(entries, key, value), key) == Some(value),
{
}

/// Binding `key` leaves every other key bound to what it was bound to.
pub proof fn lemma_rebound_keeps_others(
    entries: Seq<(u64, u64)>,
    key: u64,
    value: u64,
    other: u64,
)
    requires
        other != key,
    ensures
        lookup(rebound(entries, key, value), other) == lookup(entries, other),
{
    lemma_filter_keeps_other_keys(entries, key, other);
    assert(rebound(entries, key, value).drop_last() =~= entries.filter(other_key(key)));
}

/// Binding a key that was not bound appends one entry; binding a key that
/// was bound does not make the sequence longer.
pub proof fn lemma_rebound_len(entries: Seq<(u64, u64)>, key: u64, value: u64)
    ensures
        lookup(entries, key) is None ==> rebound(entries, key, value) == entries.push((key, value)),
        lookup(entries, key) is Some ==> rebound(entries, key, value).len() <= entries.len(),
        rebound(entries, key, value).len() <= entries.len() + 1,
{
    lemma_filter_drops_bound_key(entries, key);
    entries.lemma_filter_len(other_key(key));
}

/// Leaving the entries of `key` out of entries with distinct keys leaves
/// entries with distinct keys.
pub proof fn lemma_filter_keeps_distinct(entries: Seq<(u64, u64)>, key: u64)
    requires
        distinct_keys(entries),
    ensures
        distinct_keys(entries.filter(other_key(key))),
    decreases entries.len(),
{
    reveal(Seq::filter);
    if entries.len() > 0 {
        let older = entries.drop_last();
        let last = entries.last();
        assert(distinct_keys(older)) by {
            assert forall|i: int, j: int| 0 <= i < j < older.len() implies (#[trigger] older[i]).0
                != (#[trigger] older[j]).0 by {
                assert(entries[i].0 != entries[j].0);
            }
        }
        lemma_filter_keeps_distinct(older, key);
        if last.0 != key {
            let kept = older.filter(other_key(key));
            assert(!has_key(older, last.0)) by {
                if has_key(older, last.0) {
                    let i = choose|i: int| 0 <= i < older.len() && (#[trigger] older[i]).0 == last.0;
                    assert(entries[i].0 != entries[entries.len() - 1].0);
                }
            }
            lemma_lookup_finds_bound_keys(older, last.0);
            lemma_filter_keeps_other_keys(older, key, last.0);
            lemma_lookup_finds_bound_keys(kept, last.0);
            assert forall|i: int, j: int| 0 <= i < j < kept.push(last).len() implies (
            #[trigger] kept.push(last)[i]).0 != (#[trigger] kept.push(last)[j]).0 by {
                if j == kept.len() {
                    assert(kept[i].0 != last.0);
                } else {
                    assert(kept[i].0 != kept[j].0);
                }
            }
        }
    }
}

/// Binding a key in entries with distinct keys leaves entries with distinct
/// keys.
pub proof fn lemma_rebound_keeps_distinct(entries: Seq<(u64, u64)>, key: u64, value: u64)
    requires
        distinct_keys(entries),
    ensures
        distinct_keys(rebound(entries, key, value)),
{
    let kept = entries.filter(other_key(key));
    lemma_filter_keeps_distinct(entries, key);
    lemma_filter_drops_bound_key(entries, key);
    lemma_lookup_finds_bound_keys(kept, key);
    assert forall|i: int, j: int| 0 <= i < j < kept.push((key, value)).len() implies (
    #[trigger] kept.push((key, value))[i]).0 != (#[trigger] kept.push((key, value))[j]).0 by {
        if j == kept.len() {
            assert(kept[i].0 != key);
        } else {
            assert(kept[i].0 != kept[j].0);
        }
    }
}

/// Dropping the oldest of entries with distinct keys leaves entries with
/// distinct keys.
pub proof fn lemma_without_oldest_keeps_distinct(entries: Seq<(u64, u64)>)
    requires
        distinct_keys(entries),
    ensures
        distinct_keys(without_oldest(entries)),
{
    let rest = without_oldest(entries);
    if entries.len() > 0 {
        assert forall|i: int, j: int| 0 <= i < j < rest.len() implies (#[trigger] rest[i]).0 != (
        #[trigger] rest[j]).0 by {
            assert(entries[i + 1].0 != entries[j + 1].0);
        }
    }
}

/// Makes an empty map with `LinkedHashMap::new`.
#[verifier::external_body]
pub(crate) fn map_new() -> (map: LinkedHashMap<u64, u64>)
    ensures
        contents(map) == Seq::<(u64, u64)>::empty(),
{
    LinkedHashMap::new()
}

/// Counts the entries with `LinkedHashMap::len`.
#[verifier::external_body]
pub(crate) fn map_len(map: &LinkedHashMap<u64, u64>) -> (n: usize)
    ensures
        n == contents(*map).len(),
{
    map.len()
}

/// Looks `key` up with `LinkedHashMap::get` and copies the value out. The
/// map's order is left alone.
#[verifier::external_body]
pub(crate) fn map_get(map: &LinkedHashMap<u64, u64>, key: u64) -> (found: Option<u64>)
    ensures
        found == lookup(contents(*map), key),
{
    map.get(&key).copied()
}

/// Binds `key` to `value` with `LinkedHashMap::insert`. A key that was
/// already present gets the new value and moves to the young end; every
/// other entry keeps its place relative to the others.
#[verifier::external_body]
pub(crate) fn map_insert(map: &mut LinkedHashMap<u64, u64>, key: u64, value: u64)
    ensures
        contents(*final(map)) == rebound(contents(*old(map)), key, value),
{
    map.insert(key, value);
}

/// Takes the oldest entry out with `LinkedHashMap::pop_front` and returns
/// it; on an empty map nothing changes and nothing is returned.
#[verifier::external_body]
pub(crate) fn map_pop_front(map: &mut LinkedHashMap<u64, u64>) -> (oldest: Option<(u64, u64)>)
    ensures
        contents(*final(map)) == without_oldest(contents(*old(map))),
        oldest == if contents(*old(map)).len() == 0 {
            None
        } else {
            Some(contents(*old(map)).first())
        },
{
    map.pop_front()
}

/// Empties the map with `LinkedHashMap::clear`.
#[verifier::external_body]
pub(crate) fn map_clear(map: &mut LinkedHashMap<u64, u64>)
    ensures
        contents(*final(map)) == Seq::<(u64, u64)>::empty(),
{
    map.clear();
}

/// Copies the entries out in the order of `LinkedHashMap::iter`, oldest
/// first.
#[verifier::external_body]
pub(crate) fn map_entries(map: &LinkedHashMap<u64, u64>) -> (entries: Vec<(u64, u64)>)
    ensures
        entries@ == contents(*map),
{
    map.iter().map(|(k, v)| (*k, *v)).collect()
}

} // verus!
