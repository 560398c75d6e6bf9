//! How much of what is acknowledged arrives in aggregates.
use crate::flow::Flow;
use crate::params::smaller_of;
use crate::time::{Duration, Instant};
use vstd::prelude::*;

verus! {

impl Flow {
    /// What the permitted bandwidth delivers since the aggregation interval began.
    pub open spec fn expected_delivered(self, now: Instant) -> u64 {
        let interval = match self.extra_acked_interval_start {
            Some(start) => now.span_since(start),
            None => Duration::of_secs(0),
        };
        self.bw.product(interval.seconds()).truncated()
    }

    /// The aggregation interval ends where no more than expected was delivered.
    pub open spec fn aggregation_restarts(self, now: Instant) -> bool {
        self.extra_acked_delivered <= self.expected_delivered(now)
    }

    pub open spec fn aggregation_volume(self, now: Instant) -> int {
        (if self.aggregation_restarts(now) {
            0
        } else {
            self.extra_acked_delivered as int
        }) + (match self.rs {
            Some(rs) => rs.newly_acked as int,
            None => 0,
        })
    }

    pub open spec fn ack_aggregation_fits(self, now: Instant) -> bool {
        self.aggregation_volume(now) <= u64::MAX
    }

    /// The volume delivered beyond what was expected, at most a window.
    pub open spec fn aggregation_excess(self, now: Instant) -> u64 {
        let expected = if self.aggregation_restarts(now) {
            0
        } else {
            self.expected_delivered(now) as int
        };
        let extra = self.aggregation_volume(now) - expected;
        smaller_of(
            if extra >= 0 {
                extra as u64
            } else {
                0
            },
            self.cwnd,
        )
    }

    /// The aggregation interval moves on.
    #[verifier::opaque]
    pub open spec fn after_measure_aggregation(self, now: Instant) -> Flow {
        Flow {
            extra_acked_delivered: self.aggregation_volume(now) as u64,
            extra_acked_interval_start: if self.aggregation_restarts(now) {
                Some(now)
            } else {
                self.extra_acked_interval_start
            },
            ..self
        }
    }

    pub fn measure_aggregation(&mut self, now: Instant) -> (extra: u64)
        requires
            old(self).ack_aggregation_fits(now),
        ensures
            *final(self) == old(self).after_measure_aggregation(now),
            extra == old(self).aggregation_excess(now),
            old(self).wf() ==> final(self).wf(),
            final(self).round_count == old(self).round_count,
    {
        proof {
            reveal(Flow::after_measure_aggregation);
        }
        let interval: Duration = match self.extra_acked_interval_start {
            Some(start) => now.duration_since(start),
            None => Duration::from_secs(0),
        };
        let expected: u64 = self.bw.times(interval.as_seconds()).to_u64();
        let restarts: bool = self.extra_acked_delivered <= expected;
        let newly_acked: u64 = match self.rs {
            Some(rs) => rs.newly_acked,
            None => 0,
        };
        let (volume, due): (u64, u64) = if restarts {
            (newly_acked, 0)
        } else {
            (self.extra_acked_delivered + newly_acked, expected)
        };
        let start: Option<Instant> = if restarts {
            Some(now)
        } else {
            self.extra_acked_interval_start
        };
        let cwnd: u64 = self.cwnd;
        *self = Flow { extra_acked_delivered: volume, extra_acked_interval_start: start, ..*self };
        smaller_of(volume.saturating_sub(due), cwnd)
    }
}

} // verus!
