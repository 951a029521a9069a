//! The configuration surfaces of a cache node in the form that reports what
//! was evicted.

use crate::clock::{Instant, Moment};
use vstd::prelude::*;

verus! {

/// Bounds a store by its number of entries and hands out what it evicts.
pub trait CacheCapacityController<K, V> where K: Eq + std::hash::Hash {
    /// The number of entries held.
    spec fn held(&self) -> nat;

    /// The number of entries to hold at most.
    spec fn limit(&self) -> nat;

    /// The entry that the next eviction takes; meaningful while entries are
    /// held.
    spec fn oldest(&self) -> (K, V);

    /// Sets the number of entries to keep at most. Nothing is evicted.
    fn capacity(self, entries: usize) -> (configured: Self)
        ensures
            configured.limit() == entries,
            configured.held() == self.held(),
    ;

    /// `Ok` while another entry fits without an eviction, `Err` once the
    /// capacity is reached.
    fn check_capacity(&self) -> (verdict: Result<(), ()>)
        ensures
            verdict is Ok <==> self.held() < self.limit(),
    ;

    /// Evicts the oldest entry and returns it; `Err` when there was none.
    fn clean_up(&mut self) -> (outcome: Result<(K, V), ()>)
        ensures
            outcome == if old(self).held() > 0 {
                Ok::<(K, V), ()>(old(self).oldest())
            } else {
                Err::<(K, V), ()>(())
            },
            outcome is Ok ==> final(self).held() == old(self).held() - 1,
            outcome is Err ==> final(self).held() == 0,
            final(self).limit() == old(self).limit(),
    ;
}

/// Decides how long stored entries stay fresh and what a stale read does.
pub trait CacheExpirationController {
    /// The instant after which the entries are stale, if there is one.
    spec fn deadline(&self) -> Option<Moment>;

    /// The length in seconds of each new expiration window.
    spec fn window(&self) -> nat;

    /// Whether a stale read serves the stale value rather than dropping
    /// every entry.
    spec fn serves_stale(&self) -> bool;

    /// Starts an expiration window of `seconds` now and makes every later
    /// window as long.
    fn expires(self, seconds: u64) -> (configured: Self)
        ensures
            exists|start: Instant|
                configured.deadline() == Some(#[trigger] start@.plus_seconds(seconds as int)),
            configured.window() == seconds,
            configured.serves_stale() == self.serves_stale(),
    ;

    /// Chooses what a stale read does: `true` serves the stale value and
    /// renews the window, `false` drops every entry.
    fn revalidate(self, status: bool) -> (configured: Self)
        ensures
            configured.serves_stale() == status,
            configured.deadline() == self.deadline(),
            configured.window() == self.window(),
    ;

    /// `Ok` while the entries are fresh, `Err("expired")` once the clock is
    /// past the deadline.
    fn validate_expiration(&self) -> (verdict: Result<(), &str>)
        ensures
            exists|at: Instant|
                verdict is Ok <==> !(self.deadline() is Some && (#[trigger] at@).after(
                    self.deadline()->0,
                )),
            verdict matches Err(reason) ==> reason@ == "expired"@,
    ;
}

} // verus!
