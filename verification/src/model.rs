//! The abstract state of a cache node and the transitions that its
//! operations perform on it.

use crate::clock::Moment;
use crate::policy::{DEFAULT_CACHE_CAPACITY, DEFAULT_TTL_DURATION};
use crate::store::{
    distinct_keys, has_key, lemma_lookup_finds_bound_keys, lemma_rebound_binds,
    lemma_rebound_keeps_distinct, lemma_rebound_len, lemma_without_oldest_keeps_distinct, lookup,
    rebound, without_oldest,
};
use vstd::prelude::*;

verus! {

/// Everything a node's behaviour depends on, besides its computation.
pub struct NodeView {
    /// The stored entries, oldest first.
    pub entries: Seq<(u64, u64)>,
    /// The number of entries the store is meant to hold at most.
    pub capacity: nat,
    /// The instant after which the entries are stale; `None` never expires.
    pub expiration: Option<Moment>,
    /// The length in seconds of each new expiration window.
    pub ttl: nat,
    /// What a stale read does: `true` keeps the entries and serves the stale
    /// value, `false` drops every entry.
    pub revalidate: bool,
}

impl NodeView {
    /// The state of a node that has just been made: empty, never expiring,
    /// dropping stale entries, with the default window and capacity.
    pub open spec fn initial() -> NodeView {
        NodeView {
            entries: Seq::empty(),
            capacity: DEFAULT_CACHE_CAPACITY as nat,
            expiration: None,
            ttl: DEFAULT_TTL_DURATION as nat,
            revalidate: false,
        }
    }

    /// Whether another entry fits without an eviction.
    pub open spec fn has_room(self) -> bool {
        self.entries.len() < self.capacity
    }

    /// Whether the entries are stale at `now`: an expiration is set and `now`
    /// is strictly later.
    pub open spec fn is_stale(self, now: Moment) -> bool {
        match self.expiration {
            Some(deadline) => now.after(deadline),
            None => false,
        }
    }

    /// The state once a window of `seconds` is started at `start` and every
    /// later window is made as long.
    pub open spec fn expiring(self, seconds: nat, start: Moment) -> NodeView {
        NodeView {
            expiration: Some(start.plus_seconds(seconds as int)),
            ttl: seconds,
            ..self
        }
    }

    /// The state with a new expiration window that starts at `now`.
    pub open spec fn renewed(self, now: Moment) -> NodeView {
        NodeView { expiration: Some(now.plus_seconds(self.ttl as int)), ..self }
    }

    /// The state with no entries.
    pub open spec fn cleared(self) -> NodeView {
        NodeView { entries: Seq::empty(), ..self }
    }

    /// The state after one eviction: the oldest entry is gone, if there was
    /// one.
    pub open spec fn evicted(self) -> NodeView {
        NodeView { entries: without_oldest(self.entries), ..self }
    }

    /// The state after `key` is stored with `value`. With room the entry goes
    /// in directly; without room the oldest entry is evicted first. Either
    /// way the new entry is the youngest.
    pub open spec fn stored(self, key: u64, value: u64) -> NodeView {
        let kept = if self.has_room() {
            self.entries
        } else {
            without_oldest(self.entries)
        };
        NodeView { entries: rebound(kept, key, value), ..self }
    }

    /// The state after the entries of `items` are stored one after the other,
    /// first to last.
    pub open spec fn stored_all(self, items: Seq<(u64, u64)>) -> NodeView
        decreases items.len(),
    {
        if items.len() == 0 {
            self
        } else {
            self.stored_all(items.drop_last()).stored(items.last().0, items.last().1)
        }
    }

    /// What a read of `key` at `now` serves from the store: the stored value
    /// while it is fresh, the stale value when stale reads revalidate, and
    /// nothing when the key is absent or its entry is dropped as stale.
    pub open spec fn served(self, key: u64, now: Moment) -> Option<u64> {
        match lookup(self.entries, key) {
            Some(value) => if !self.is_stale(now) || self.revalidate {
                Some(value)
            } else {
                None
            },
            None => None,
        }
    }

    /// The state a read of `key` at `now` leaves behind. Only a stale read of
    /// a present key changes anything: it starts a new window at `now` and,
    /// unless stale reads revalidate, drops every entry.
    pub open spec fn after_read(self, key: u64, now: Moment) -> NodeView {
        if lookup(self.entries, key) is Some && self.is_stale(now) {
            if self.revalidate {
                self.renewed(now)
            } else {
                self.renewed(now).cleared()
            }
        } else {
            self
        }
    }

    /// The state a call for the value of `key` at `now` leaves behind when it
    /// returns `value`. If the read is served, the state is what the read
    /// left. If not, `value` was computed and is stored on top of it.
    pub open spec fn after_value(self, key: u64, now: Moment, value: u64) -> NodeView {
        match self.served(key, now) {
            Some(_) => self.after_read(key, now),
            None => self.after_read(key, now).stored(key, value),
        }
    }
}

/// What is stored is found: after `key` is stored with `value`, looking
/// `key` up finds `value`, whatever the capacity.
pub proof fn lemma_stored_value_is_bound(state: NodeView, key: u64, value: u64)
    ensures
        lookup(state.stored(key, value).entries, key) == Some(value),
{
    let kept = if state.has_room() {
        state.entries
    } else {
        without_oldest(state.entries)
    };
    lemma_rebound_binds(kept, key, value);
}

/// Storing an entry never takes a node with a capacity of at least one over
/// its capacity, and never grows a store that is already over it.
pub proof fn lemma_stored_within_capacity(state: NodeView, key: u64, value: u64)
    ensures
        state.stored(key, value).capacity == state.capacity,
        state.capacity >= 1 && state.entries.len() <= state.capacity ==> state.stored(
            key,
            value,
        ).entries.len() <= state.capacity,
        state.entries.len() > state.capacity ==> state.stored(key, value).entries.len()
            <= state.entries.len(),
{
    let kept = if state.has_room() {
        state.entries
    } else {
        without_oldest(state.entries)
    };
    lemma_rebound_len(kept, key, value);
}

/// Capacity invariant: a node with a capacity of at least one that holds no
/// more entries than its capacity still does so after every one of any
/// sequence of inserts.
pub proof fn lemma_inserts_stay_within_capacity(state: NodeView, items: Seq<(u64, u64)>)
    requires
        state.capacity >= 1,
        state.entries.len() <= state.capacity,
    ensures
        state.stored_all(items).capacity == state.capacity,
        state.stored_all(items).entries.len() <= state.capacity,
        forall|n: int|
            0 <= n <= items.len() ==> (#[trigger] state.stored_all(items.take(n))).entries.len()
                <= state.capacity,
    decreases items.len(),
{
    if items.len() > 0 {
        let earlier = items.drop_last();
        lemma_inserts_stay_within_capacity(state, earlier);
        lemma_stored_within_capacity(state.stored_all(earlier), items.last().0, items.last().1);
        assert forall|n: int| 0 <= n <= items.len() implies (#[trigger] state.stored_all(
            items.take(n),
        )).entries.len() <= state.capacity by {
            if n == items.len() {
                assert(items.take(n) =~= items);
            } else {
                assert(items.take(n) =~= earlier.take(n));
            }
        }
    } else {
        assert forall|n: int| 0 <= n <= items.len() implies (#[trigger] state.stored_all(
            items.take(n),
        )).entries.len() <= state.capacity by {
            assert(items.take(n) =~= items);
        }
    }
}

/// No operation of a node takes it over its capacity: reads, evictions and
/// new windows never add an entry, and a store keeps a node with a capacity
/// of at least one within its capacity.
pub proof fn lemma_transitions_stay_within_capacity(
    state: NodeView,
    key: u64,
    value: u64,
    now: Moment,
)
    requires
        state.capacity >= 1,
        state.entries.len() <= state.capacity,
    ensures
        state.after_read(key, now).entries.len() <= state.capacity,
        state.after_read(key, now).capacity == state.capacity,
        state.after_value(key, now, value).entries.len() <= state.capacity,
        state.after_value(key, now, value).capacity == state.capacity,
        state.stored(key, value).entries.len() <= state.capacity,
        state.evicted().entries.len() <= state.capacity,
{
    lemma_stored_within_capacity(state, key, value);
    lemma_stored_within_capacity(state.after_read(key, now), key, value);
}

/// The keys of a node stay distinct: every transition of a state whose
/// entries have distinct keys leaves entries with distinct keys.
pub proof fn lemma_transitions_keep_distinct_keys(
    state: NodeView,
    key: u64,
    value: u64,
    now: Moment,
)
    requires
        distinct_keys(state.entries),
    ensures
        distinct_keys(state.stored(key, value).entries),
        distinct_keys(state.evicted().entries),
        distinct_keys(state.after_read(key, now).entries),
        distinct_keys(state.after_value(key, now, value).entries),
{
    lemma_without_oldest_keeps_distinct(state.entries);
    lemma_rebound_keeps_distinct(state.entries, key, value);
    lemma_rebound_keeps_distinct(without_oldest(state.entries), key, value);
    let read = state.after_read(key, now);
    lemma_without_oldest_keeps_distinct(read.entries);
    lemma_rebound_keeps_distinct(read.entries, key, value);
    lemma_rebound_keeps_distinct(without_oldest(read.entries), key, value);
}

/// A full store evicts in the order of insertion: storing a key that is not
/// bound in a store with no room drops exactly the oldest entry and appends
/// the new one behind the others.
pub proof fn lemma_full_store_evicts_oldest(state: NodeView, key: u64, value: u64)
    requires
        !state.has_room(),
        state.entries.len() > 0,
        lookup(state.entries.drop_first(), key) is None,
    ensures
        state.stored(key, value).entries == state.entries.drop_first().push((key, value)),
{
    lemma_rebound_len(state.entries.drop_first(), key, value);
}

/// While there is room, storing keys that are not bound yet appends them in
/// the order in which they come.
proof fn lemma_fresh_keys_append(state: NodeView, items: Seq<(u64, u64)>)
    requires
        state.entries.len() == 0,
        items.len() <= state.capacity,
        distinct_keys(items),
    ensures
        state.stored_all(items).entries == items,
        state.stored_all(items).capacity == state.capacity,
    decreases items.len(),
{
    if items.len() > 0 {
        let earlier = items.drop_last();
        let last = items.last();
        assert(distinct_keys(earlier)) by {
            assert forall|i: int, j: int| 0 <= i < j < earlier.len() implies (
            #[trigger] earlier[i]).0 != (#[trigger] earlier[j]).0 by {
                assert(items[i].0 != items[j].0);
            }
        }
        lemma_fresh_keys_append(state, earlier);
        assert(!has_key(earlier, last.0)) by {
            if has_key(earlier, last.0) {
                let i = choose|i: int| 0 <= i < earlier.len() && (#[trigger] earlier[i]).0 == last.0;
                assert(items[i].0 != items[items.len() - 1].0);
            }
        }
        lemma_lookup_finds_bound_keys(earlier, last.0);
        lemma_rebound_len(earlier, last.0, last.1);
        assert(earlier.push(last) =~= items);
    } else {
        assert(state.entries =~= items);
    }
}

/// First in, first out: storing one more than `capacity` distinct keys in an
/// empty node keeps every entry until the last store, and the last store
/// evicts exactly the entry that was stored first.
pub proof fn lemma_overflow_evicts_first_inserted(state: NodeView, items: Seq<(u64, u64)>)
    requires
        state.entries.len() == 0,
        state.capacity >= 1,
        items.len() == state.capacity + 1,
        distinct_keys(items),
    ensures
        state.stored_all(items.drop_last()).entries == items.drop_last(),
        state.stored_all(items).entries == items.drop_first(),
{
    let earlier = items.drop_last();
    let last = items.last();
    assert(distinct_keys(earlier)) by {
        assert forall|i: int, j: int| 0 <= i < j < earlier.len() implies (#[trigger] earlier[i]).0
            != (#[trigger] earlier[j]).0 by {
            assert(items[i].0 != items[j].0);
        }
    }
    lemma_fresh_keys_append(state, earlier);
    let full = state.stored_all(earlier);
    let rest = earlier.drop_first();
    assert(!has_key(rest, last.0)) by {
        if has_key(rest, last.0) {
            let i = choose|i: int| 0 <= i < rest.len() && (#[trigger] rest[i]).0 == last.0;
            assert(items[i + 1].0 != items[items.len() - 1].0);
        }
    }
    lemma_lookup_finds_bound_keys(rest, last.0);
    lemma_full_store_evicts_oldest(full, last.0, last.1);
    assert(rest.push(last) =~= items.drop_first());
}

/// A value stored under a window of zero seconds is stale at once: with
/// the window started at `start`, every read after `start` finds it stale,
/// and serves it only if stale reads revalidate.
pub proof fn lemma_zero_window_is_stale_at_once(
    state: NodeView,
    start: Moment,
    key: u64,
    value: u64,
    now: Moment,
)
    ensures
        state.expiring(0, start).stored(key, value).is_stale(now) <==> now.after(start),
        now.after(start) ==> state.expiring(0, start).stored(key, value).served(key, now) == (
        if state.revalidate {
            Some(value)
        } else {
            None
        }),
{
    lemma_stored_value_is_bound(state.expiring(0, start), key, value);
}

/// Revalidation: when stale reads revalidate, a call for a stored key gets
/// the stored value at every instant, with nothing computed, and keeps
/// every entry. If the call comes after the expiration, it starts a new
/// window at the instant of the call, which ends after the old one did and
/// makes the entries fresh again.
pub proof fn lemma_revalidation_serves_stored_value(
    state: NodeView,
    key: u64,
    value: u64,
    now: Moment,
)
    requires
        state.revalidate,
        lookup(state.entries, key) == Some(value),
    ensures
        state.served(key, now) == Some(value),
        state.after_value(key, now, value) == state.after_read(key, now),
        state.after_read(key, now).entries == state.entries,
        !state.is_stale(now) ==> state.after_read(key, now) == state,
        state.is_stale(now) ==> {
            &&& state.after_read(key, now).expiration == Some(now.plus_seconds(state.ttl as int))
            &&& now.plus_seconds(state.ttl as int).after(state.expiration->0)
            &&& !state.after_read(key, now).is_stale(now)
        },
{
}

/// Expiry: when stale reads do not revalidate, a call for a stored key
/// after the expiration is served nothing. It drops every entry, whenever
/// it was stored, starts a new window at the instant of the call, and
/// leaves the newly computed value as the only entry.
pub proof fn lemma_expiry_clears_every_entry(state: NodeView, key: u64, value: u64, now: Moment)
    requires
        !state.revalidate,
        lookup(state.entries, key) is Some,
        state.is_stale(now),
    ensures
        state.served(key, now) is None,
        state.after_read(key, now).entries == Seq::<(u64, u64)>::empty(),
        state.after_read(key, now).expiration == Some(now.plus_seconds(state.ttl as int)),
        state.after_value(key, now, value).entries == seq![(key, value)],
        state.after_value(key, now, value).expiration == Some(
            now.plus_seconds(state.ttl as int),
        ),
{
    let empty = Seq::<(u64, u64)>::empty();
    lemma_rebound_len(empty, key, value);
    assert(without_oldest(empty) == empty);
    assert(empty.push((key, value)) =~= seq![(key, value)]);
}

/// Idempotence while fresh: after a call for `key` at `first` has returned
/// `value`, a call for `key` at any instant at which the entries are still
/// fresh is served `value` from the store, so that nothing is computed, and
/// changes nothing.
pub proof fn lemma_value_is_repeated(
    state: NodeView,
    key: u64,
    first: Moment,
    value: u64,
    second: Moment,
)
    requires
        state.served(key, first) is Some ==> state.served(key, first) == Some(value),
        !state.after_value(key, first, value).is_stale(second),
    ensures
        state.after_value(key, first, value).served(key, second) == Some(value),
        state.after_value(key, first, value).after_value(key, second, value) == state.after_value(
            key,
            first,
            value,
        ),
{
    lemma_stored_value_is_bound(state.after_read(key, first), key, value);
}

/// A node without capacity keeps the last entry only: if it holds at most
/// one entry, then after a call for `key` that returns `value` it holds the
/// entry of `key` and nothing else, whether the value came from the store
/// or was computed. The store serves the call only if that very entry was
/// what it held before.
pub proof fn lemma_no_capacity_keeps_last_entry(
    state: NodeView,
    key: u64,
    now: Moment,
    value: u64,
)
    requires
        state.capacity == 0,
        state.entries.len() <= 1,
        state.served(key, now) is Some ==> state.served(key, now) == Some(value),
    ensures
        state.stored(key, value).entries == seq![(key, value)],
        state.after_value(key, now, value).entries == seq![(key, value)],
        state.served(key, now) is Some ==> state.entries == seq![(key, value)],
{
    let empty = Seq::<(u64, u64)>::empty();
    lemma_rebound_len(empty, key, value);
    assert(empty.push((key, value)) =~= seq![(key, value)]);
    assert(without_oldest(state.entries) =~= empty);
    assert(without_oldest(state.after_read(key, now).entries) =~= empty);
    if state.served(key, now) is Some {
        assert(state.entries.len() == 1);
        assert(state.entries.drop_last() =~= empty);
        assert(state.entries =~= seq![(key, value)]);
    }
}

} // verus!
