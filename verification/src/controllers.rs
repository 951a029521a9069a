//! The two configuration surfaces of a cache node: how many entries it keeps
//! and how long they stay fresh.

use crate::clock::{Instant, Moment};
use vstd::prelude::*;

verus! {

/// Bounds a store by its number of entries.
pub trait CapacityController<K, V> where K: Eq + std::hash::Hash {
    /// The number of entries held.
    spec fn held(&self) -> nat;

    /// The number of entries to hold at most.
    spec fn limit(&self) -> nat;

    /// Sets the number of entries to keep at most. Nothing is evicted.
    fn capacity(self, entries: usize) -> (configured: Self)
        ensures
            configured.limit() == entries,
            configured.held() == self.held(),
    ;

    /// Whether another entry fits without an eviction.
    fn capacity_check(&self) -> (room: bool)
        ensures
            room == (self.held() < self.limit()),
    ;

    /// Evicts the oldest entry; `Err` when there was none.
    fn clean_up(&mut self) -> (outcome: Result<(), ()>)
        ensures
            outcome is Ok <==> old(self).held() > 0,
            outcome is Ok ==> final(self).held() == old(self).held() - 1,
            outcome is Err ==> final(self).held() == 0,
            final(self).limit() == old(self).limit(),
    ;
}

/// Decides how long stored entries stay fresh and what a stale read does.
pub trait ExpirationController {
    /// The instant after which the entries are stale, if there is one.
    spec fn deadline(&self) -> Option<Moment>;

    /// The length in seconds of each new expiration window.
    spec fn window(&self) -> nat;

    /// Whether a stale read serves the stale value rather than dropping
    /// every entry.
    spec fn serves_stale(&self) -> bool;

    /// Starts an expiration window of `seconds` now and makes every later
    /// window as long.
    fn expires(self, seconds: u64) -> (configured: Self)
        ensures
            exists|start: Instant|
                configured.deadline() == Some(#[trigger] start@.plus_seconds(seconds as int)),
            configured.window() == seconds,
            configured.serves_stale() == self.serves_stale(),
    ;

    /// Chooses what a stale read does: `true` serves the stale value and
    /// renews the window, `false` drops every entry.
    fn revalidate(self, status: bool) -> (configured: Self)
        ensures
            configured.serves_stale() == status,
            configured.deadline() == self.deadline(),
            configured.window() == self.window(),
    ;

    /// `Ok` while the entries are fresh, `Err("expired")` once the clock is
    /// past the deadline.
    fn validate_expiration(&self) -> (verdict: Result<(), &str>)
        ensures
            exists|at: Instant|
                verdict is Ok <==> !(self.deadline() is Some && (#[trigger] at@).after(
                    self.deadline()->0,
                )),
            verdict matches Err(reason) ==> reason@ == "expired"@,
    ;
}

} // verus!
