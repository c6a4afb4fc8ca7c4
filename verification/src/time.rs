//! Points in time and the freshness of what was fetched at them.

use std::time::{SystemTime, UNIX_EPOCH};
use vstd::prelude::*;

verus! {

/// Nanoseconds in one second.
pub const NANOS_PER_SEC: u64 = 1_000_000_000;

/// A point in time: seconds and nanoseconds since the Unix epoch.
#[derive(Clone, Copy, Debug, PartialEq, Eq, Structural)]
pub struct Timestamp {
    pub secs: u64,
    pub nanos: u32,
}

impl Timestamp {
    /// The distance from the epoch in nanoseconds: what two timestamps are ordered by.
    pub open spec fn nanos_total(self) -> int {
        self.secs * NANOS_PER_SEC + self.nanos
    }

    /// The later of two timestamps; `self` where both are equally far from the epoch.
    pub open spec fn later_of(self, other: Timestamp) -> Timestamp {
        if other.nanos_total() > self.nanos_total() {
            other
        } else {
            self
        }
    }

    fn total(self) -> (t: u128)
        ensures
            t == self.nanos_total(),
    {
        let secs: u128 = self.secs as u128;
        let nanos: u128 = self.nanos as u128;
        secs * 1_000_000_000u128 + nanos
    }

    /// The later of two timestamps; `self` where both are equally far from the epoch.
    pub fn later(self, other: Timestamp) -> (t: Timestamp)
        ensures
            t == self.later_of(other),
    {
        if other.total() > self.total() {
            other
        } else {
            self
        }
    }
}

/// Whether something fetched at `fetched` is still fresh at `now`: no older than
/// `interval_secs` seconds, and not stamped in the future.
pub open spec fn is_fresh(fetched: Timestamp, now: Timestamp, interval_secs: u64) -> bool {
    0 <= now.nanos_total() - fetched.nanos_total() < interval_secs * NANOS_PER_SEC
}

/// Whether something fetched at `fetched` is still fresh at `now`.
pub fn fresh(fetched: Timestamp, now: Timestamp, interval_secs: u64) -> (b: bool)
    ensures
        b == is_fresh(fetched, now, interval_secs),
{
    let then: u128 = fetched.total();
    let at: u128 = now.total();
    let window: u128 = (interval_secs as u128) * 1_000_000_000u128;
    then <= at && at - then < window
}

/// `SystemTime::now`, as seconds and nanoseconds since the Unix epoch (the epoch
/// itself where the clock stands before it). Nothing is claimed of the reading.
#[verifier::external_body]
pub(crate) fn now() -> Timestamp {
    let since = SystemTime::now().duration_since(UNIX_EPOCH).unwrap_or_default();
    Timestamp { secs: since.as_secs(), nanos: since.subsec_nanos() }
}

} // verus!
