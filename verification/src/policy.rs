//! The settings of a node's time-to-live policy.

use crate::clock::Deadline;
use vstd::prelude::*;

verus! {

/// The window, in seconds, that a node starts with.
pub const DEFAULT_TTL_DURATION: u64 = 10;

/// The capacity a node starts with.
pub const DEFAULT_CACHE_CAPACITY: usize = 8;

/// What a read does when it finds the entries stale.
pub(crate) enum RevalidationAction {
    /// Drop every entry and treat the read as a miss.
    Expire,
    /// Serve the stale value and start a new window.
    Revalidate,
}

/// How a stale entry is refreshed. Only `Blocking` has any behaviour.
#[allow(dead_code)]
pub(crate) enum TtlSetting {
    /// The read that finds the entry stale handles it before it returns.
    Blocking,
    /// Serve stale data while refreshing; reads under it behave as under
    /// `Blocking`.
    Swr,
}

/// What happens when a read finds the entries stale, and how long the
/// window is that it starts.
pub(crate) struct RevalidationSettings {
    pub(crate) action: RevalidationAction,
    pub(crate) duration: u64,
    pub(crate) setting: TtlSetting,
}

/// The time-to-live policy of a node: its settings and the expiration that
/// is currently in force, if any.
pub(crate) struct TtlOptions {
    pub(crate) revalidation: RevalidationSettings,
    pub(crate) expiration: Option<Deadline>,
}

impl RevalidationAction {
    /// Whether stale reads keep the entries.
    pub(crate) open spec fn keeps_entries(self) -> bool {
        self is Revalidate
    }
}

impl TtlOptions {
    /// No expiration, stale entries are dropped, default window.
    pub(crate) fn new() -> (ttl: TtlOptions)
        ensures
            ttl.expiration is None,
            ttl.revalidation.duration == DEFAULT_TTL_DURATION,
            !ttl.revalidation.action.keeps_entries(),
    {
        TtlOptions {
            revalidation: RevalidationSettings {
                action: RevalidationAction::Expire,
                duration: DEFAULT_TTL_DURATION,
                setting: TtlSetting::Blocking,
            },
            expiration: None,
        }
    }
}

} // verus!
