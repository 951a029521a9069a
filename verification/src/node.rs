//! The cache node: a bounded, insertion-ordered store with a time-to-live
//! policy, configured first and bound to a computation afterwards.

use crate::clock::{now, Deadline, Instant, Moment};
use crate::controllers;
use crate::model::NodeView;
use crate::policy::{RevalidationAction, TtlOptions, DEFAULT_CACHE_CAPACITY};
use crate::store::{
    contents, lookup, map_clear, map_entries, map_get, map_insert, map_len, map_new, map_pop_front,
};
use crate::traits;
use linked_hash_map::LinkedHashMap;
use std::rc::Rc;
use vstd::prelude::*;

verus! {

/// The stage of a node that is being configured: no computation yet.
pub struct Initialized;

/// The stage of a node that is bound to a computation.
pub struct Memoized<C> {
    calculation: Rc<C>,
}

impl<C> Memoized<C> {
    /// The computation that this stage holds.
    pub closed spec fn computation(self) -> C {
        *self.calculation
    }
}

/// A cache from `u64` keys to `u64` values in stage `S`.
pub struct CacheNode<S> {
    cache: LinkedHashMap<u64, u64>,
    ttl: TtlOptions,
    capacity: usize,
    controller: S,
}

impl<S> View for CacheNode<S> {
    type V = NodeView;

    closed spec fn view(&self) -> NodeView {
        NodeView {
            entries: contents(self.cache),
            capacity: self.capacity as nat,
            expiration: match self.ttl.expiration {
                Some(deadline) => Some(deadline@),
                None => None,
            },
            ttl: self.ttl.revalidation.duration as nat,
            revalidate: self.ttl.revalidation.action.keeps_entries(),
        }
    }
}

impl<S> CacheNode<S> {
    /// The stage the node is in, with what that stage holds.
    pub closed spec fn stage(&self) -> S {
        self.controller
    }

    /// The number of stored entries.
    pub fn len(&self) -> (n: usize)
        ensures
            n == self@.entries.len(),
    {
        map_len(&self.cache)
    }

    /// The stored entries, oldest first.
    pub fn entries(&self) -> (entries: Vec<(u64, u64)>)
        ensures
            entries@ == self@.entries,
    {
        map_entries(&self.cache)
    }

    /// `Ok` while the entries are fresh at `now`, `Err("expired")` once `now`
    /// is past the expiration.
    pub fn validate_expiration_at(&self, now: Instant) -> (verdict: Result<(), &'static str>)
        ensures
            verdict is Ok <==> !self@.is_stale(now@),
            verdict matches Err(reason) ==> reason@ == "expired"@,
    {
        match &self.ttl.expiration {
            Some(expiration) => {
                if expiration.passed_at(&now) {
                    Err("expired")
                } else {
                    Ok(())
                }
            },
            None => Ok(()),
        }
    }

    /// Starts an expiration window of `seconds` at `now` and makes every
    /// later window as long.
    pub fn expires_at(self, seconds: u64, now: Instant) -> (node: Self)
        ensures
            node@ == self@.expiring(seconds as nat, now@),
            node.stage() == self.stage(),
    {
        let mut node = self;
        node.ttl.expiration = Some(Deadline::after(&now, seconds));
        node.ttl.revalidation.duration = seconds;
        node
    }

    /// Starts a new expiration window at `now`.
    fn renew(&mut self, now: Instant)
        ensures
            final(self)@ == old(self)@.renewed(now@),
            final(self).stage() == old(self).stage(),
    {
        self.ttl.expiration = Some(Deadline::after(&now, self.ttl.revalidation.duration));
    }

    /// Reads `key` at `now`, applying the policy for stale entries.
    fn read_at(&mut self, key: u64, now: Instant) -> (found: Option<u64>)
        ensures
            found == old(self)@.served(key, now@),
            final(self)@ == old(self)@.after_read(key, now@),
            final(self).stage() == old(self).stage(),
    {
        match map_get(&self.cache, key) {
            Some(value) => {
                if self.validate_expiration_at(now).is_ok() {
                    Some(value)
                } else {
                    self.renew(now);
                    match self.ttl.revalidation.action {
                        RevalidationAction::Revalidate => Some(value),
                        RevalidationAction::Expire => {
                            map_clear(&mut self.cache);
                            None
                        },
                    }
                }
            },
            None => None,
        }
    }

    /// Stores `key` with `value`, evicting the oldest entry when the store
    /// has no room.
    fn store(&mut self, key: u64, value: u64)
        ensures
            final(self)@ == old(self)@.stored(key, value),
            final(self).stage() == old(self).stage(),
    {
        if controllers::CapacityController::capacity_check(self) {
            map_insert(&mut self.cache, key, value);
        } else {
            match controllers::CapacityController::clean_up(self) {
                Ok(_) => {
                    map_insert(&mut self.cache, key, value);
                },
                Err(_) => {
                    assert(old(self)@.entries =~= Seq::empty());
                    map_clear(&mut self.cache);
                    map_insert(&mut self.cache, key, value);
                },
            }
        }
    }
}

impl<S> controllers::CapacityController<u64, u64> for CacheNode<S> {
    open spec fn held(&self) -> nat {
        self@.entries.len()
    }

    open spec fn limit(&self) -> nat {
        self@.capacity
    }

    fn capacity(self, entries: usize) -> (node: Self)
        ensures
            node@ == (NodeView { capacity: entries as nat, ..self@ }),
            node.stage() == self.stage(),
    {
        let mut node = self;
        node.capacity = entries;
        node
    }

    fn capacity_check(&self) -> (room: bool)
        ensures
            room == self@.has_room(),
    {
        map_len(&self.cache) < self.capacity
    }

    fn clean_up(&mut self) -> (outcome: Result<(), ()>)
        ensures
            outcome is Ok <==> old(self)@.entries.len() > 0,
            final(self)@ == old(self)@.evicted(),
            final(self).stage() == old(self).stage(),
    {
        if let Some(_) = map_pop_front(&mut self.cache) {
            Ok(())
        } else {
            Err(())
        }
    }
}

impl<S> controllers::ExpirationController for CacheNode<S> {
    open spec fn deadline(&self) -> Option<Moment> {
        self@.expiration
    }

    open spec fn window(&self) -> nat {
        self@.ttl
    }

    open spec fn serves_stale(&self) -> bool {
        self@.revalidate
    }

    fn expires(self, seconds: u64) -> (node: Self)
        ensures
            exists|start: Instant| node@ == #[trigger] self@.expiring(seconds as nat, start@),
            node.stage() == self.stage(),
    {
        let start = now();
        self.expires_at(seconds, start)
    }

    fn revalidate(self, status: bool) -> (node: Self)
        ensures
            node@ == (NodeView { revalidate: status, ..self@ }),
            node.stage() == self.stage(),
    {
        let mut node = self;
        if status == true {
            node.ttl.revalidation.action = RevalidationAction::Revalidate;
            node
        } else {
            node.ttl.revalidation.action = RevalidationAction::Expire;
            node
        }
    }

    fn validate_expiration(&self) -> (verdict: Result<(), &str>)
        ensures
            exists|at: Instant| verdict is Ok <==> !(#[trigger] self@.is_stale(at@)),
            self@.expiration is None ==> verdict is Ok,
            verdict matches Err(reason) ==> reason@ == "expired"@,
    {
        let at = now();
        self.validate_expiration_at(at)
    }
}

impl<S> traits::CacheCapacityController<u64, u64> for CacheNode<S> {
    open spec fn held(&self) -> nat {
        self@.entries.len()
    }

    open spec fn limit(&self) -> nat {
        self@.capacity
    }

    open spec fn oldest(&self) -> (u64, u64) {
        self@.entries.first()
    }

    fn capacity(self, entries: usize) -> (node: Self)
        ensures
            node@ == (NodeView { capacity: entries as nat, ..self@ }),
            node.stage() == self.stage(),
    {
        controllers::CapacityController::capacity(self, entries)
    }

    fn check_capacity(&self) -> (verdict: Result<(), ()>)
        ensures
            verdict is Ok <==> self@.has_room(),
    {
        if map_len(&self.cache) < self.capacity {
            Ok(())
        } else {
            Err(())
        }
    }

    fn clean_up(&mut self) -> (outcome: Result<(u64, u64), ()>)
        ensures
            outcome == if old(self)@.entries.len() > 0 {
                Ok::<(u64, u64), ()>(old(self)@.entries.first())
            } else {
                Err::<(u64, u64), ()>(())
            },
            final(self)@ == old(self)@.evicted(),
            final(self).stage() == old(self).stage(),
    {
        match map_pop_front(&mut self.cache) {
            Some(oldest) => Ok(oldest),
            None => Err(()),
        }
    }
}

impl<S> traits::CacheExpirationController for CacheNode<S> {
    open spec fn deadline(&self) -> Option<Moment> {
        self@.expiration
    }

    open spec fn window(&self) -> nat {
        self@.ttl
    }

    open spec fn serves_stale(&self) -> bool {
        self@.revalidate
    }

    fn expires(self, seconds: u64) -> (node: Self)
        ensures
            exists|start: Instant| node@ == #[trigger] self@.expiring(seconds as nat, start@),
            node.stage() == self.stage(),
    {
        controllers::ExpirationController::expires(self, seconds)
    }

    fn revalidate(self, status: bool) -> (node: Self)
        ensures
            node@ == (NodeView { revalidate: status, ..self@ }),
            node.stage() == self.stage(),
    {
        controllers::ExpirationController::revalidate(self, status)
    }

    fn validate_expiration(&self) -> (verdict: Result<(), &str>)
        ensures
            exists|at: Instant| verdict is Ok <==> !(#[trigger] self@.is_stale(at@)),
            self@.expiration is None ==> verdict is Ok,
            verdict matches Err(reason) ==> reason@ == "expired"@,
    {
        controllers::ExpirationController::validate_expiration(self)
    }
}

impl CacheNode<Initialized> {
    /// A node with no entries, no expiration and the default settings.
    pub(crate) fn new() -> (node: CacheNode<Initialized>)
        ensures
            node@ == NodeView::initial(),
    {
        CacheNode {
            cache: map_new(),
            ttl: TtlOptions::new(),
            capacity: DEFAULT_CACHE_CAPACITY,
            controller: Initialized,
        }
    }

    /// Stores `value` under `key`. With room the entry goes in directly;
    /// otherwise the oldest entry is evicted first.
    pub fn insert(&mut self, key: u64, value: u64)
        ensures
            final(self)@ == old(self)@.stored(key, value),
    {
        self.store(key, value);
    }

    /// Reads `key` at `now` without ever computing a value. A fresh entry is
    /// served as it is. A stale entry starts a new expiration window at
    /// `now`; it is still served when stale reads revalidate, and otherwise
    /// every entry is dropped and nothing is served.
    pub fn get_at(&mut self, key: u64, now: Instant) -> (found: Option<u64>)
        ensures
            found == old(self)@.served(key, now@),
            final(self)@ == old(self)@.after_read(key, now@),
    {
        self.read_at(key, now)
    }

    /// Reads `key` as `get_at` does, at the instant the system clock shows.
    pub fn get(&mut self, key: u64) -> (found: Option<u64>)
        ensures
            exists|at: Instant|
                found == #[trigger] old(self)@.served(key, at@)
                && final(self)@ == old(self)@.after_read(key, at@),
            lookup(old(self)@.entries, key) is None ==> found is None && final(self)@ == old(self)@,
    {
        let at = now();
        self.get_at(key, at)
    }

    /// Binds the node to `calculation`. The entries and the settings carry
    /// over unchanged.
    pub fn with_memo<C>(self, calculation: C) -> (node: CacheNode<Memoized<C>>)
        ensures
            node@ == self@,
            node.computation() == calculation,
    {
        CacheNode {
            cache: self.cache,
            capacity: self.capacity,
            ttl: self.ttl,
            controller: Memoized { calculation: Rc::new(calculation) },
        }
    }
}

impl<C> CacheNode<Memoized<C>> {
    /// The computation this node is bound to.
    pub open spec fn computation(&self) -> C {
        self.stage().computation()
    }
}

impl<C: Fn(u64) -> u64> CacheNode<Memoized<C>> {
    /// Whether a call for the value of `key` at `now` may return `result` and
    /// leave `post`, starting from `pre`. A value that the read serves is
    /// returned as it is. Otherwise the result is what the computation made
    /// of `key`, and it is stored.
    pub open spec fn value_outcome(
        pre: NodeView,
        computation: C,
        key: u64,
        now: Moment,
        post: NodeView,
        result: Option<u64>,
    ) -> bool {
        match result {
            Some(value) => {
                &&& pre.served(key, now) is Some ==> pre.served(key, now) == Some(value)
                &&& pre.served(key, now) is None ==> call_ensures(computation, (key,), value)
                &&& post == pre.after_value(key, now, value)
            },
            None => false,
        }
    }

    /// Computes the value of `args`, stores it and returns it, whether or not
    /// the key was stored before.
    pub fn memoise(&mut self, args: &u64) -> (value: u64)
        requires
            call_requires(old(self).computation(), (*args,)),
        ensures
            call_ensures(old(self).computation(), (*args,), value),
            final(self)@ == old(self)@.stored(*args, value),
            final(self).computation() == old(self).computation(),
    {
        let value = (*self.controller.calculation)(*args);
        self.store(*args, value);
        value
    }

    /// The value of `args` at `now`: the stored one while the policy serves
    /// it, a newly computed and stored one otherwise. Always `Some`.
    pub fn value_at(&mut self, args: u64, now: Instant) -> (result: Option<u64>)
        requires
            old(self)@.served(args, now@) is None ==> call_requires(
                old(self).computation(),
                (args,),
            ),
        ensures
            Self::value_outcome(old(self)@, old(self).computation(), args, now@, final(self)@, result),
            final(self).computation() == old(self).computation(),
    {
        match self.read_at(args, now) {
            Some(value) => Some(value),
            None => Some(self.memoise(&args)),
        }
    }

    /// The value of `args` as `value_at` gives it, at the instant the system
    /// clock shows. The computation has to accept `args` unless the store is
    /// sure to serve it.
    pub fn value(&mut self, args: u64) -> (result: Option<u64>)
        requires
            forall|at: Instant| #[trigger]
                old(self)@.served(args, at@) is None ==> call_requires(
                    old(self).computation(),
                    (args,),
                ),
        ensures
            exists|at: Instant| #[trigger]
                Self::value_outcome(old(self)@, old(self).computation(), args, at@, final(self)@, result),
            result is Some,
            lookup(old(self)@.entries, args) is None ==> call_ensures(
                old(self).computation(),
                (args,),
                result->0,
            ) && final(self)@ == old(self)@.stored(args, result->0),
            final(self).computation() == old(self).computation(),
    {
        let at = now();
        self.value_at(args, at)
    }
}

} // verus!
