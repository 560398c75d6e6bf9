//! Instants and durations, counted in nanoseconds.
use crate::double::Double;
use vstd::prelude::*;

verus! {

pub const NANOS_PER_SEC: u128 = 1_000_000_000;

pub const NANOS_PER_MILLI: u128 = 1_000_000;

/// A span of time.
#[derive(Clone, Copy, Debug, PartialEq, Eq, Structural)]
pub struct Duration {
    pub nanos: u128,
}

/// A point in time, counted from an epoch that all instants of a flow share.
#[derive(Clone, Copy, Debug, PartialEq, Eq, Structural)]
pub struct Instant {
    pub nanos: u128,
}

impl Duration {
    pub open spec fn of_secs(secs: u64) -> Duration {
        Duration { nanos: (secs * NANOS_PER_SEC) as u128 }
    }

    pub open spec fn of_millis(millis: u64) -> Duration {
        Duration { nanos: (millis * NANOS_PER_MILLI) as u128 }
    }

    /// The seconds as a double: the whole seconds, and the nanoseconds beyond
    /// them as a fraction of a second.
    #[verifier::opaque]
    pub open spec fn seconds(self) -> Double {
        Double::of(self.nanos as nat / NANOS_PER_SEC as nat).sum(
            Double::of(self.nanos as nat % NANOS_PER_SEC as nat).quotient(
                Double::of(NANOS_PER_SEC as nat),
            ),
        )
    }

    pub fn from_secs(secs: u64) -> (d: Duration)
        ensures
            d == Duration::of_secs(secs),
            d.nanos == secs * NANOS_PER_SEC,
    {
        Duration { nanos: secs as u128 * NANOS_PER_SEC }
    }

    pub fn from_millis(millis: u64) -> (d: Duration)
        ensures
            d == Duration::of_millis(millis),
            d.nanos == millis * NANOS_PER_MILLI,
    {
        Duration { nanos: millis as u128 * NANOS_PER_MILLI }
    }

    pub fn from_nanos(nanos: u64) -> (d: Duration)
        ensures
            d.nanos == nanos,
    {
        Duration { nanos: nanos as u128 }
    }

    pub fn as_seconds(self) -> (r: Double)
        ensures
            r == self.seconds(),
    {
        proof {
            reveal(Duration::seconds);
        }
        let whole: Double = Double::from_u128(self.nanos / NANOS_PER_SEC);
        let rest: Double = Double::from_u128(self.nanos % NANOS_PER_SEC);
        whole.plus(rest.over(Double::from_u128(NANOS_PER_SEC)))
    }
}

impl Instant {
    /// The time from `earlier` to this instant, zero where `earlier` is later.
    pub open spec fn span_since(self, earlier: Instant) -> Duration {
        Duration {
            nanos: (if self.nanos >= earlier.nanos {
                self.nanos - earlier.nanos
            } else {
                0
            }) as u128,
        }
    }

    /// The instant `d` later, or this instant where that is out of range.
    pub open spec fn moved_by(self, d: Duration) -> Instant {
        if self.nanos + d.nanos <= u128::MAX {
            Instant { nanos: (self.nanos + d.nanos) as u128 }
        } else {
            self
        }
    }

    pub fn duration_since(self, earlier: Instant) -> (d: Duration)
        ensures
            d == self.span_since(earlier),
    {
        Duration { nanos: self.nanos.saturating_sub(earlier.nanos) }
    }

    pub fn checked_add(self, d: Duration) -> (r: Option<Instant>)
        ensures
            r == (if self.nanos + d.nanos <= u128::MAX {
                Some(Instant { nanos: (self.nanos + d.nanos) as u128 })
            } else {
                None
            }),
    {
        match self.nanos.checked_add(d.nanos) {
            Some(nanos) => Some(Instant { nanos }),
            None => None,
        }
    }

    pub fn add_or_same(self, d: Duration) -> (r: Instant)
        ensures
            r == self.moved_by(d),
    {
        match self.checked_add(d) {
            Some(r) => r,
            None => self,
        }
    }
}

} // verus!
