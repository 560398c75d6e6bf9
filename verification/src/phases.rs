//! The transitions between the states of a flow.
use crate::double::Double;
use crate::flow::{AckPhase, BbrState, Flow, ProbeBwSubstate};
use crate::params::{
    beta, larger_of, MAX_ADDED_PROBE_WAIT_MS, MAX_DATAGRAM_SIZE, MAX_DRAIN_ROUNDS,
    MAX_LONG_TERM_PROBE_UP_ROUNDS, MIN_MAX_DATAGRAM_SIZE, MIN_PROBE_WAIT_MS,
};
use crate::probe_rng::ProbeRng;
use crate::scaled::power_of_two;
use crate::time::{Duration, Instant};
use vstd::arithmetic::power2::*;
use vstd::prelude::*;

verus! {

impl Flow {
    pub open spec fn after_enter_startup(self) -> Flow {
        Flow {
            state: BbrState::Startup,
            pacing_gain: self.startup_pacing_gain,
            cwnd_gain: self.default_cwnd_gain,
            ..self
        }
    }

    pub fn enter_startup(&mut self)
        ensures
            *final(self) == old(self).after_enter_startup(),
    {
        *self =
        Flow {
            state: BbrState::Startup,
            pacing_gain: self.startup_pacing_gain,
            cwnd_gain: self.default_cwnd_gain,
            ..*self
        };
    }

    /// The wait before the next bandwidth probe, given the outcomes of a coin flip
    /// and of the choice of an addition in milliseconds.
    pub open spec fn after_set_probe_wait(self, heads: bool, added: u64) -> Flow {
        Flow {
            rounds_since_bw_probe: if heads {
                1
            } else {
                0
            },
            bw_probe_wait: Duration::of_millis((MIN_PROBE_WAIT_MS + added) as u64),
            ..self
        }
    }

    pub fn set_probe_wait(&mut self, heads: bool, added: u64)
        requires
            added <= MAX_ADDED_PROBE_WAIT_MS,
        ensures
            *final(self) == old(self).after_set_probe_wait(heads, added),
    {
        let rounds: u64 = if heads {
            1
        } else {
            0
        };
        *self =
        Flow {
            rounds_since_bw_probe: rounds,
            bw_probe_wait: Duration::from_millis(MIN_PROBE_WAIT_MS + added),
            ..*self
        };
    }

    /// The wait is drawn from the flow's generator.
    pub open spec fn after_pick_probe_wait(self) -> Flow {
        let flipped = self.probe_rng.after_flip();
        Flow {
            probe_rng: flipped.after_up_to(MAX_ADDED_PROBE_WAIT_MS),
            ..self.after_set_probe_wait(
                self.probe_rng.next_flip(),
                flipped.next_up_to(MAX_ADDED_PROBE_WAIT_MS),
            )
        }
    }

    /// The wait that is picked is between two and three seconds, and at most one
    /// round trip counts as passed.
    pub fn pick_probe_wait(&mut self)
        ensures
            *final(self) == old(self).after_pick_probe_wait(),
            final(self).rounds_since_bw_probe <= 1,
            Duration::of_millis(MIN_PROBE_WAIT_MS).nanos <= final(self).bw_probe_wait.nanos,
            final(self).bw_probe_wait.nanos <= Duration::of_millis(
                (MIN_PROBE_WAIT_MS + MAX_ADDED_PROBE_WAIT_MS) as u64,
            ).nanos,
    {
        let mut rng: ProbeRng = self.probe_rng;
        let heads: bool = rng.flip();
        let added: u64 = rng.up_to(MAX_ADDED_PROBE_WAIT_MS);
        self.set_probe_wait(heads, added);
        *self = Flow { probe_rng: rng, ..*self };
    }

    /// A probing cycle begins, below the rate at which the flow delivers.
    pub open spec fn after_start_probe_bw_down(self, now: Instant) -> Flow {
        Flow {
            probe_up_cnt: u64::MAX,
            cycle_stamp: Some(now),
            ack_phase: AckPhase::ProbeStopping,
            pacing_gain: self.probe_bw_down_pacing_gain,
            cwnd_gain: self.default_cwnd_gain,
            state: BbrState::ProbeBw(ProbeBwSubstate::Down),
            ..self.after_reset_congestion_signals().after_pick_probe_wait().after_start_round()
        }
    }

    pub fn start_probe_bw_down(&mut self, now: Instant)
        ensures
            *final(self) == old(self).after_start_probe_bw_down(now),
    {
        self.reset_congestion_signals();
        self.pick_probe_wait();
        self.start_round();
        *self =
        Flow {
            probe_up_cnt: u64::MAX,
            cycle_stamp: Some(now),
            ack_phase: AckPhase::ProbeStopping,
            pacing_gain: self.probe_bw_down_pacing_gain,
            cwnd_gain: self.default_cwnd_gain,
            state: BbrState::ProbeBw(ProbeBwSubstate::Down),
            ..*self
        };
    }

    pub open spec fn after_start_probe_bw_cruise(self) -> Flow {
        Flow {
            state: BbrState::ProbeBw(ProbeBwSubstate::Cruise),
            pacing_gain: self.default_pacing_gain,
            cwnd_gain: self.default_cwnd_gain,
            ..self
        }
    }

    pub fn start_probe_bw_cruise(&mut self)
        ensures
            *final(self) == old(self).after_start_probe_bw_cruise(),
    {
        *self =
        Flow {
            state: BbrState::ProbeBw(ProbeBwSubstate::Cruise),
            pacing_gain: self.default_pacing_gain,
            cwnd_gain: self.default_cwnd_gain,
            ..*self
        };
    }

    /// The pipe is refilled for a round trip, without the short-term bounds.
    pub open spec fn after_start_probe_bw_refill(self) -> Flow {
        Flow {
            bw_probe_up_rounds: 0,
            bw_probe_up_acks: 0,
            ack_phase: AckPhase::Refilling,
            cwnd_gain: self.default_cwnd_gain,
            pacing_gain: self.default_pacing_gain,
            state: BbrState::ProbeBw(ProbeBwSubstate::Refill),
            ..self.after_reset_short_term_model().after_start_round()
        }
    }

    pub fn start_probe_bw_refill(&mut self)
        ensures
            *final(self) == old(self).after_start_probe_bw_refill(),
    {
        self.reset_short_term_model();
        self.start_round();
        *self =
        Flow {
            bw_probe_up_rounds: 0,
            bw_probe_up_acks: 0,
            ack_phase: AckPhase::Refilling,
            cwnd_gain: self.default_cwnd_gain,
            pacing_gain: self.default_pacing_gain,
            state: BbrState::ProbeBw(ProbeBwSubstate::Refill),
            ..*self
        };
    }

    /// By how much the long-term bound grows in a round trip: one packet, doubled
    /// with each round trip of the probe.
    pub open spec fn long_term_growth(self) -> nat {
        self.smss as nat * pow2(self.bw_probe_up_rounds as nat)
    }

    /// The long-term bound grows faster from round trip to round trip.
    pub open spec fn after_raise_inflight_long_term_slope(self) -> Flow {
        Flow {
            bw_probe_up_rounds: if self.bw_probe_up_rounds < MAX_LONG_TERM_PROBE_UP_ROUNDS {
                (self.bw_probe_up_rounds + 1) as u32
            } else {
                MAX_LONG_TERM_PROBE_UP_ROUNDS
            },
            probe_up_cnt: larger_of((self.cwnd as nat / self.long_term_growth()) as u64, 1),
            ..self
        }
    }

    pub fn raise_inflight_long_term_slope(&mut self)
        requires
            MIN_MAX_DATAGRAM_SIZE <= old(self).smss <= MAX_DATAGRAM_SIZE,
            old(self).bw_probe_up_rounds <= MAX_LONG_TERM_PROBE_UP_ROUNDS,
        ensures
            *final(self) == old(self).after_raise_inflight_long_term_slope(),
    {
        proof {
            let rounds = self.bw_probe_up_rounds as nat;
            crate::scaled::lemma_pow2_le(rounds, 30);
            lemma2_to64();
            lemma_pow2_pos(rounds);
            let smss = self.smss as nat;
            let power = pow2(rounds);
            assert(0 < smss * power <= 65527 * 0x4000_0000) by (nonlinear_arith)
                requires
                    0 < smss <= 65527,
                    0 < power <= 0x4000_0000,
            ;
        }
        let power: u64 = power_of_two(self.bw_probe_up_rounds) as u64;
        let growth: u64 = self.smss * power;
        let rounds: u32 = if self.bw_probe_up_rounds < MAX_LONG_TERM_PROBE_UP_ROUNDS {
            self.bw_probe_up_rounds + 1
        } else {
            MAX_LONG_TERM_PROBE_UP_ROUNDS
        };
        let count: u64 = larger_of(self.cwnd / growth, 1);
        *self = Flow { bw_probe_up_rounds: rounds, probe_up_cnt: count, ..*self };
    }

    /// The flow sends faster than it delivers, to look for more bandwidth.
    pub open spec fn after_start_probe_bw_up(self) -> Flow {
        (Flow {
            ack_phase: AckPhase::ProbeStarting,
            state: BbrState::ProbeBw(ProbeBwSubstate::Up),
            pacing_gain: self.probe_bw_up_pacing_gain,
            cwnd_gain: self.probe_bw_up_cwnd_gain,
            ..self.after_start_round().after_rebase_full_bw()
        }).after_raise_inflight_long_term_slope()
    }

    pub fn start_probe_bw_up(&mut self)
        requires
            old(self).wf(),
        ensures
            *final(self) == old(self).after_start_probe_bw_up(),
    {
        self.start_round();
        self.rebase_full_bw();
        *self =
        Flow {
            ack_phase: AckPhase::ProbeStarting,
            state: BbrState::ProbeBw(ProbeBwSubstate::Up),
            pacing_gain: self.probe_bw_up_pacing_gain,
            cwnd_gain: self.probe_bw_up_cwnd_gain,
            ..*self
        };
        self.raise_inflight_long_term_slope();
    }

    pub open spec fn after_enter_probe_bw(self, now: Instant) -> Flow {
        (Flow { cwnd_gain: self.default_cwnd_gain, ..self }).after_start_probe_bw_down(now)
    }

    pub fn enter_probe_bw(&mut self, now: Instant)
        ensures
            *final(self) == old(self).after_enter_probe_bw(now),
    {
        *self = Flow { cwnd_gain: self.default_cwnd_gain, ..*self };
        self.start_probe_bw_down(now);
    }

    pub open spec fn after_enter_drain(self) -> Flow {
        Flow {
            state: BbrState::Drain,
            pacing_gain: self.drain_pacing_gain,
            cwnd_gain: self.default_cwnd_gain,
            drain_start_round: self.round_count,
            ..self
        }
    }

    pub fn enter_drain(&mut self)
        ensures
            *final(self) == old(self).after_enter_drain(),
    {
        *self =
        Flow {
            state: BbrState::Drain,
            pacing_gain: self.drain_pacing_gain,
            cwnd_gain: self.default_cwnd_gain,
            drain_start_round: self.round_count,
            ..*self
        };
    }

    /// Too much is lost: the probe ends, and what was in flight becomes the
    /// long-term bound unless the application limited the flow.
    pub open spec fn after_lower_long_term_bound(self) -> Flow {
        Flow {
            bw_probe_samples: false,
            inflight_longterm: match self.rs {
                Some(rs) => if rs.is_app_limited {
                    self.inflight_longterm
                } else {
                    larger_of(
                        rs.tx_in_flight,
                        Double::of(self.spec_target_inflight() as nat).product(beta()).truncated(),
                    )
                },
                None => self.inflight_longterm,
            },
            ..self
        }
    }

    pub fn lower_long_term_bound(&mut self)
        ensures
            *final(self) == old(self).after_lower_long_term_bound(),
    {
        let bound: u64 = match self.rs {
            Some(rs) => if rs.is_app_limited {
                self.inflight_longterm
            } else {
                let share: Double = Double::from_u64(self.target_inflight()).times(beta());
                larger_of(rs.tx_in_flight, share.to_u64())
            },
            None => self.inflight_longterm,
        };
        *self = Flow { bw_probe_samples: false, inflight_longterm: bound, ..*self };
    }

    pub open spec fn after_handle_inflight_too_high(self, now: Instant) -> Flow {
        let lowered = self.after_lower_long_term_bound();
        if self.state == BbrState::ProbeBw(ProbeBwSubstate::Up) {
            lowered.after_start_probe_bw_down(now)
        } else {
            lowered
        }
    }

    pub fn handle_inflight_too_high(&mut self, now: Instant)
        ensures
            *final(self) == old(self).after_handle_inflight_too_high(now),
    {
        self.lower_long_term_bound();
        if self.state == BbrState::ProbeBw(ProbeBwSubstate::Up) {
            self.start_probe_bw_down(now);
        }
    }

    /// A full pipe ends startup.
    #[verifier::opaque]
    pub open spec fn after_check_startup_done(self) -> Flow {
        let checked = self.after_check_startup_high_loss();
        if checked.state == BbrState::Startup && checked.full_bw_reached {
            checked.after_enter_drain()
        } else {
            checked
        }
    }

    pub fn check_startup_done(&mut self)
        ensures
            *final(self) == old(self).after_check_startup_done(),
            old(self).wf() ==> final(self).wf(),
            final(self).round_count == old(self).round_count,
    {
        proof {
            reveal(Flow::after_check_startup_done);
        }
        self.check_startup_high_loss();
        if self.state == BbrState::Startup && self.full_bw_reached {
            self.enter_drain();
        }
    }

    /// Draining ends when no more is in flight than the path holds, or after a few
    /// round trips.
    pub open spec fn drain_over(self) -> bool {
        self.inflight <= self.inflight_for(Double::of(1)) || self.round_count
            > self.drain_start_round + MAX_DRAIN_ROUNDS
    }

    #[verifier::opaque]
    pub open spec fn after_check_drain_done(self, now: Instant) -> Flow {
        if self.state != BbrState::Drain {
            self
        } else if self.drain_over() {
            self.after_inflight(self.max_bw).after_enter_probe_bw(now)
        } else {
            self.after_inflight(self.max_bw)
        }
    }

    pub fn check_drain_done(&mut self, now: Instant)
        requires
            old(self).wf(),
        ensures
            *final(self) == old(self).after_check_drain_done(now),
            final(self).wf(),
            final(self).round_count == old(self).round_count,
    {
        proof {
            reveal(Flow::after_check_drain_done);
        }
        if self.state == BbrState::Drain {
            let target: u64 = self.get_inflight(Double::from_u64(1));
            if self.inflight <= target || self.round_count - self.drain_start_round
                > MAX_DRAIN_ROUNDS {
                self.enter_probe_bw(now);
            }
        }
    }
}

} // verus!
