//! Points in time: the mathematical model, the clock reading that executable
//! code carries, and the one call that reads the wall clock.

use vstd::prelude::*;

verus! {

/// A point on the UTC time line: whole seconds since the Unix epoch and the
/// nanoseconds into that second. Unbounded, so that a deadline far in the
/// future is still a point.
pub struct Moment {
    pub secs: int,
    pub nanos: int,
}

impl Moment {
    /// Strictly later than `other`: seconds decide, nanoseconds break the tie.
    pub open spec fn after(self, other: Moment) -> bool {
        self.secs > other.secs || (self.secs == other.secs && self.nanos > other.nanos)
    }

    /// The point `seconds` whole seconds further on.
    pub open spec fn plus_seconds(self, seconds: int) -> Moment {
        Moment { secs: self.secs + seconds, nanos: self.nanos }
    }
}

/// A reading of the UTC wall clock.
#[derive(Clone, Copy, Debug, PartialEq, Eq)]
pub struct Instant {
    /// Whole seconds since 1970-01-01T00:00:00Z.
    pub secs: i64,
    /// Nanoseconds since the last second boundary.
    pub nanos: u32,
}

impl View for Instant {
    type V = Moment;

    open spec fn view(&self) -> Moment {
        Moment { secs: self.secs as int, nanos: self.nanos as int }
    }
}

impl Instant {
    /// The reading `secs` seconds and `nanos` nanoseconds after the epoch.
    pub fn new(secs: i64, nanos: u32) -> (t: Instant)
        ensures
            t.secs == secs,
            t.nanos == nanos,
    {
        Instant { secs, nanos }
    }
}

/// The instant after which a node's entries count as stale. Its seconds are
/// wide enough for any clock reading plus any time-to-live.
#[derive(Clone, Copy)]
pub(crate) struct Deadline {
    pub(crate) secs: i128,
    pub(crate) nanos: u32,
}

impl View for Deadline {
    type V = Moment;

    closed spec fn view(&self) -> Moment {
        Moment { secs: self.secs as int, nanos: self.nanos as int }
    }
}

impl Deadline {
    /// The deadline `seconds` whole seconds after `start`.
    pub(crate) fn after(start: &Instant, seconds: u64) -> (deadline: Deadline)
        ensures
            deadline@ == start@.plus_seconds(seconds as int),
    {
        Deadline { secs: start.secs as i128 + seconds as i128, nanos: start.nanos }
    }

    /// Whether `now` lies strictly beyond this deadline.
    pub(crate) fn passed_at(&self, now: &Instant) -> (passed: bool)
        ensures
            passed == now@.after(self@),
    {
        let secs: i128 = now.secs as i128;
        secs > self.secs || (secs == self.secs && now.nanos > self.nanos)
    }
}

/// Reads the system clock through `chrono::Utc::now` and hands the reading
/// back as seconds and sub-second nanoseconds since the Unix epoch. Nothing
/// is claimed about the value: it is whatever the clock said.
#[verifier::external_body]
pub(crate) fn now() -> Instant {
    let t = chrono::Utc::now();
    Instant { secs: t.timestamp(), nanos: t.timestamp_subsec_nanos() }
}

} // verus!
