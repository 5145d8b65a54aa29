//! Points in time, counted in nanoseconds since the Unix epoch, and the
//! saturating distance between two of them.

use std::time::{SystemTime, UNIX_EPOCH};
use vstd::prelude::*;

verus! {

/// Nanoseconds in one second.
pub const NANOS_PER_SEC: u32 = 1_000_000_000;

/// The nanoseconds that `secs` whole seconds last.
pub open spec fn secs_to_nanos(secs: nat) -> nat {
    secs * 1_000_000_000
}

/// The time from `earlier` to `now` in nanoseconds, and 0 where `earlier`
/// lies in the future of `now`.
pub open spec fn elapsed(now: nat, earlier: nat) -> nat {
    if now >= earlier {
        (now - earlier) as nat
    } else {
        0
    }
}

/// The instant `t` cut down to a whole second.
pub open spec fn whole_seconds(t: nat) -> nat {
    secs_to_nanos(t / 1_000_000_000)
}

/// A point in time at or after the Unix epoch. Its view is the number of
/// nanoseconds since the epoch.
#[derive(Clone, Copy, Debug, PartialEq, Eq, Structural)]
pub struct Timestamp {
    secs: u64,
    nanos: u32,
}

impl View for Timestamp {
    type V = nat;

    closed spec fn view(&self) -> nat {
        (self.secs * 1_000_000_000 + self.nanos) as nat
    }
}

impl Timestamp {
    #[verifier::type_invariant]
    spec fn subsecond(self) -> bool {
        self.nanos < NANOS_PER_SEC
    }

    /// The instant `secs` seconds and `nanos` nanoseconds after the epoch;
    /// `None` where `nanos` is a second or more.
    pub fn new(secs: u64, nanos: u32) -> (r: Option<Timestamp>)
        ensures
            match r {
                Some(t) => nanos < NANOS_PER_SEC && t@ == secs_to_nanos(secs as nat) + nanos,
                None => nanos >= NANOS_PER_SEC,
            },
    {
        if nanos < NANOS_PER_SEC {
            Some(Timestamp { secs, nanos })
        } else {
            None
        }
    }

    /// The instant `secs` whole seconds after the epoch.
    pub fn from_secs(secs: u64) -> (t: Timestamp)
        ensures
            t@ == secs_to_nanos(secs as nat),
    {
        Timestamp { secs, nanos: 0 }
    }

    /// The whole seconds since the epoch.
    pub fn as_secs(&self) -> (s: u64)
        ensures
            s == self@ / 1_000_000_000,
    {
        proof {
            use_type_invariant(self);
        }
        self.secs
    }

    /// The nanoseconds past the last whole second.
    pub fn subsec_nanos(&self) -> (n: u32)
        ensures
            n == self@ % 1_000_000_000,
    {
        proof {
            use_type_invariant(self);
        }
        self.nanos
    }

    /// The nanoseconds since the epoch.
    pub fn as_nanos(&self) -> (n: u128)
        ensures
            n == self@,
    {
        self.secs as u128 * 1_000_000_000 + self.nanos as u128
    }

    /// The nanoseconds from `earlier` to `self`, and 0 where `earlier` is the
    /// later of the two.
    pub fn since(&self, earlier: &Timestamp) -> (d: u128)
        ensures
            d == elapsed(self@, earlier@),
    {
        let a = self.as_nanos();
        let b = earlier.as_nanos();
        if a >= b {
            a - b
        } else {
            0
        }
    }

    /// The whole seconds from `earlier` to `self`, and 0 where `earlier` is
    /// the later of the two.
    pub fn secs_since(&self, earlier: &Timestamp) -> (d: u64)
        ensures
            d == elapsed(self@, earlier@) / 1_000_000_000,
    {
        proof {
            use_type_invariant(self);
        }
        (self.since(earlier) / 1_000_000_000) as u64
    }

    /// This instant cut down to a whole second.
    pub fn truncated(&self) -> (t: Timestamp)
        ensures
            t@ == whole_seconds(self@),
    {
        proof {
            use_type_invariant(self);
        }
        Timestamp { secs: self.secs, nanos: 0 }
    }
}

/// `SystemTime::now` of the standard library, as the time that has passed
/// since `UNIX_EPOCH`; the epoch itself where the clock stands before it.
/// Nothing is claimed of the instant that comes back.
#[verifier::external_body]
pub(crate) fn clock() -> Timestamp {
    let d = SystemTime::now().duration_since(UNIX_EPOCH).unwrap_or_default();
    Timestamp { secs: d.as_secs(), nanos: d.subsec_nanos() }
}

/// Whether more than `limit` seconds lie between `earlier` and `now`.
pub fn longer_than(now: &Timestamp, earlier: &Timestamp, limit: u64) -> (b: bool)
    ensures
        b == (elapsed(now@, earlier@) > secs_to_nanos(limit as nat)),
{
    now.since(earlier) > limit as u128 * 1_000_000_000
}

/// Whether at least `limit` seconds lie between `earlier` and `now`.
pub fn at_least(now: &Timestamp, earlier: &Timestamp, limit: u64) -> (b: bool)
    ensures
        b == (elapsed(now@, earlier@) >= secs_to_nanos(limit as nat)),
{
    now.since(earlier) >= limit as u128 * 1_000_000_000
}

} // verus!
