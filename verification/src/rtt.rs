//! The minimum round-trip time, and the state that measures it.
use crate::flow::{AckPhase, BbrState, Flow};
use crate::params::{larger_of, MIN_RTT_FILTER_LEN};
use crate::time::{Duration, Instant};
use vstd::prelude::*;

verus! {

impl Flow {
    /// The window is remembered; after a loss, or while it is held down, only if it
    /// is larger than the remembered one.
    pub open spec fn after_save_cwnd(self) -> Flow {
        Flow {
            prior_cwnd: if !self.loss_in_round && self.state != BbrState::ProbeRtt {
                self.cwnd
            } else {
                larger_of(self.prior_cwnd, self.cwnd)
            },
            ..self
        }
    }

    pub fn save_cwnd(&mut self)
        ensures
            *final(self) == old(self).after_save_cwnd(),
    {
        let prior: u64 = if !self.loss_in_round && self.state != BbrState::ProbeRtt {
            self.cwnd
        } else {
            larger_of(self.prior_cwnd, self.cwnd)
        };
        *self = Flow { prior_cwnd: prior, ..*self };
    }

    /// The remembered window comes back where it is larger.
    pub open spec fn after_restore_cwnd(self) -> Flow {
        Flow { cwnd: larger_of(self.cwnd, self.prior_cwnd), ..self }
    }

    pub fn restore_cwnd(&mut self)
        ensures
            *final(self) == old(self).after_restore_cwnd(),
    {
        *self = Flow { cwnd: larger_of(self.cwnd, self.prior_cwnd), ..*self };
    }

    /// The window while the round-trip time is measured.
    pub open spec fn probe_rtt_window(self) -> u64 {
        larger_of(
            self.bdp_multiple_for(self.bw, self.probe_rtt_cwnd_gain),
            self.min_pipe_cwnd,
        )
    }

    pub fn probe_rtt_cwnd(&mut self) -> (window: u64)
        ensures
            *final(self) == (Flow { bdp: old(self).bdp_for(old(self).bw), ..*old(self) }),
            window == old(self).probe_rtt_window(),
    {
        let volume: u64 = self.bdp_multiple(self.bw, self.probe_rtt_cwnd_gain);
        larger_of(volume, self.min_pipe_cwnd)
    }

    pub open spec fn after_enter_probe_rtt(self) -> Flow {
        Flow {
            state: BbrState::ProbeRtt,
            pacing_gain: self.default_pacing_gain,
            cwnd_gain: self.probe_rtt_cwnd_gain,
            ..self
        }
    }

    pub fn enter_probe_rtt(&mut self)
        ensures
            *final(self) == old(self).after_enter_probe_rtt(),
    {
        *self =
        Flow {
            state: BbrState::ProbeRtt,
            pacing_gain: self.default_pacing_gain,
            cwnd_gain: self.probe_rtt_cwnd_gain,
            ..*self
        };
    }

    /// A flow that has filled the pipe goes on to cruise; another one goes back to
    /// startup.
    pub open spec fn after_exit_probe_rtt(self, now: Instant) -> Flow {
        if self.full_bw_reached {
            self.after_reset_short_term_model().after_start_probe_bw_down(
                now,
            ).after_start_probe_bw_cruise()
        } else {
            self.after_reset_short_term_model().after_enter_startup()
        }
    }

    pub fn exit_probe_rtt(&mut self, now: Instant)
        ensures
            *final(self) == old(self).after_exit_probe_rtt(now),
    {
        self.reset_short_term_model();
        if self.full_bw_reached {
            self.start_probe_bw_down(now);
            self.start_probe_bw_cruise();
        } else {
            self.enter_startup();
        }
    }

    /// The window was held down for long enough.
    pub open spec fn probe_rtt_over(self, now: Instant) -> bool {
        self.probe_rtt_done_stamp matches Some(stamp) && now.nanos > stamp.nanos
    }

    #[verifier::opaque]
    pub open spec fn after_check_probe_rtt_done(self, now: Instant) -> Flow {
        if self.probe_rtt_over(now) {
            (Flow { probe_rtt_min_stamp: Some(now), ..self }).after_restore_cwnd().after_exit_probe_rtt(
                now,
            )
        } else {
            self
        }
    }

    pub fn check_probe_rtt_done(&mut self, now: Instant)
        ensures
            *final(self) == old(self).after_check_probe_rtt_done(now),
            old(self).wf() ==> final(self).wf(),
            final(self).inflight == old(self).inflight,
            final(self).round_count == old(self).round_count,
    {
        proof {
            reveal(Flow::after_check_probe_rtt_done);
        }
        let over: bool = match self.probe_rtt_done_stamp {
            Some(stamp) => now.nanos > stamp.nanos,
            None => false,
        };
        if over {
            *self = Flow { probe_rtt_min_stamp: Some(now), ..*self };
            self.restore_cwnd();
            self.exit_probe_rtt(now);
        }
    }

    /// `stamp` lies more than `age` back, or there is none.
    pub open spec fn outdated(stamp: Option<Instant>, age: Duration, now: Instant) -> bool {
        match stamp {
            Some(stamp) => now.nanos > stamp.moved_by(age).nanos,
            None => true,
        }
    }

    fn is_outdated(stamp: Option<Instant>, age: Duration, now: Instant) -> (b: bool)
        ensures
            b == Flow::outdated(stamp, age, now),
    {
        match stamp {
            Some(stamp) => now.nanos > stamp.add_or_same(age).nanos,
            None => true,
        }
    }

    /// The sampled round-trip time replaces the smallest one of the probing
    /// interval where it is smaller, or where that is outdated.
    pub open spec fn after_update_probe_rtt_delay(self, now: Instant) -> Flow {
        let expired = Flow::outdated(self.probe_rtt_min_stamp, self.probe_rtt_interval, now);
        match self.rs {
            Some(rs) => if rs.rtt.nanos < self.probe_rtt_min_delay.nanos || expired {
                Flow {
                    probe_rtt_expired: expired,
                    probe_rtt_min_delay: rs.rtt,
                    probe_rtt_min_stamp: Some(now),
                    ..self
                }
            } else {
                Flow { probe_rtt_expired: expired, ..self }
            },
            None => Flow { probe_rtt_expired: expired, ..self },
        }
    }

    fn update_probe_rtt_delay(&mut self, now: Instant)
        ensures
            *final(self) == old(self).after_update_probe_rtt_delay(now),
    {
        let expired: bool = Flow::is_outdated(
            self.probe_rtt_min_stamp,
            self.probe_rtt_interval,
            now,
        );
        let (delay, stamp): (Duration, Option<Instant>) = match self.rs {
            Some(rs) => if rs.rtt.nanos < self.probe_rtt_min_delay.nanos || expired {
                (rs.rtt, Some(now))
            } else {
                (self.probe_rtt_min_delay, self.probe_rtt_min_stamp)
            },
            None => (self.probe_rtt_min_delay, self.probe_rtt_min_stamp),
        };
        *self =
        Flow {
            probe_rtt_expired: expired,
            probe_rtt_min_delay: delay,
            probe_rtt_min_stamp: stamp,
            ..*self
        };
    }

    /// The minimum round-trip time follows the smallest one of the probing interval
    /// downwards, and upwards where it is outdated itself.
    #[verifier::opaque]
    pub open spec fn after_update_min_rtt(self, now: Instant) -> Flow {
        let sampled = self.after_update_probe_rtt_delay(now);
        let expired = Flow::outdated(
            self.min_rtt_stamp,
            Duration::of_secs(MIN_RTT_FILTER_LEN),
            now,
        );
        if sampled.probe_rtt_min_delay.nanos < self.min_rtt.nanos || expired {
            Flow {
                min_rtt: sampled.probe_rtt_min_delay,
                min_rtt_stamp: sampled.probe_rtt_min_stamp,
                ..sampled
            }
        } else {
            sampled
        }
    }

    pub fn update_min_rtt(&mut self, now: Instant)
        ensures
            *final(self) == old(self).after_update_min_rtt(now),
            old(self).wf() ==> final(self).wf(),
            final(self).round_count == old(self).round_count,
    {
        proof {
            reveal(Flow::after_update_min_rtt);
        }
        self.update_probe_rtt_delay(now);
        let expired: bool = Flow::is_outdated(
            self.min_rtt_stamp,
            Duration::from_secs(MIN_RTT_FILTER_LEN),
            now,
        );
        if self.probe_rtt_min_delay.nanos < self.min_rtt.nanos || expired {
            *self =
            Flow {
                min_rtt: self.probe_rtt_min_delay,
                min_rtt_stamp: self.probe_rtt_min_stamp,
                ..*self
            };
        }
    }

    /// Once little enough is in flight, the time of the measurement runs.
    #[verifier::opaque]
    pub open spec fn after_arm_probe_rtt(self, now: Instant) -> Flow {
        let sized = Flow { bdp: self.bdp_for(self.bw), ..self };
        if self.inflight <= self.probe_rtt_window() {
            Flow {
                probe_rtt_done_stamp: Some(now.moved_by(self.probe_rtt_duration)),
                probe_rtt_round_done: false,
                ..sized.after_start_round()
            }
        } else {
            sized
        }
    }

    fn arm_probe_rtt(&mut self, now: Instant)
        ensures
            *final(self) == old(self).after_arm_probe_rtt(now),
            old(self).wf() ==> final(self).wf(),
            final(self).round_count == old(self).round_count,
    {
        proof {
            reveal(Flow::after_arm_probe_rtt);
        }
        let window: u64 = self.probe_rtt_cwnd();
        if self.inflight <= window {
            self.start_round();
            *self =
            Flow {
                probe_rtt_done_stamp: Some(now.add_or_same(self.probe_rtt_duration)),
                probe_rtt_round_done: false,
                ..*self
            };
        }
    }

    /// The measurement lasts for at least a round trip.
    #[verifier::opaque]
    pub open spec fn after_wait_probe_rtt(self, now: Instant) -> Flow {
        let counted = Flow {
            probe_rtt_round_done: self.round_start || self.probe_rtt_round_done,
            ..self
        };
        if counted.probe_rtt_round_done {
            counted.after_check_probe_rtt_done(now)
        } else {
            counted
        }
    }

    fn wait_probe_rtt(&mut self, now: Instant)
        ensures
            *final(self) == old(self).after_wait_probe_rtt(now),
            old(self).wf() ==> final(self).wf(),
            final(self).round_count == old(self).round_count,
    {
        proof {
            reveal(Flow::after_wait_probe_rtt);
        }
        *self =
        Flow { probe_rtt_round_done: self.round_start || self.probe_rtt_round_done, ..*self };
        if self.probe_rtt_round_done {
            self.check_probe_rtt_done(now);
        }
    }

    pub open spec fn after_handle_probe_rtt(self, now: Instant) -> Flow {
        if self.probe_rtt_done_stamp is None {
            self.after_arm_probe_rtt(now)
        } else {
            self.after_wait_probe_rtt(now)
        }
    }

    pub fn handle_probe_rtt(&mut self, now: Instant)
        ensures
            *final(self) == old(self).after_handle_probe_rtt(now),
            old(self).wf() ==> final(self).wf(),
            final(self).round_count == old(self).round_count,
    {
        if self.probe_rtt_done_stamp.is_none() {
            self.arm_probe_rtt(now);
        } else {
            self.wait_probe_rtt(now);
        }
    }

    /// The window is held down from now on.
    #[verifier::opaque]
    pub open spec fn after_begin_probe_rtt(self) -> Flow {
        Flow {
            probe_rtt_done_stamp: None,
            ack_phase: AckPhase::ProbeStopping,
            ..self.after_enter_probe_rtt().after_save_cwnd().after_start_round()
        }
    }

    fn begin_probe_rtt(&mut self)
        ensures
            *final(self) == old(self).after_begin_probe_rtt(),
            old(self).wf() ==> final(self).wf(),
            final(self).round_count == old(self).round_count,
    {
        proof {
            reveal(Flow::after_begin_probe_rtt);
        }
        self.enter_probe_rtt();
        self.save_cwnd();
        self.start_round();
        *self =
        Flow { probe_rtt_done_stamp: None, ack_phase: AckPhase::ProbeStopping, ..*self };
    }

    /// A flow that delivers is no longer restarting.
    #[verifier::opaque]
    pub open spec fn after_note_delivery(self) -> Flow {
        Flow {
            idle_restart: self.idle_restart && !(self.rs matches Some(rs) && rs.delivered > 0),
            ..self
        }
    }

    fn note_delivery(&mut self)
        ensures
            *final(self) == old(self).after_note_delivery(),
            old(self).wf() ==> final(self).wf(),
            final(self).round_count == old(self).round_count,
    {
        proof {
            reveal(Flow::after_note_delivery);
        }
        let delivering: bool = match self.rs {
            Some(rs) => rs.delivered > 0,
            None => false,
        };
        *self = Flow { idle_restart: self.idle_restart && !delivering, ..*self };
    }

    /// A measurement goes on, or begins where one is due.
    #[verifier::opaque]
    pub open spec fn after_check_probe_rtt(self, now: Instant) -> Flow {
        (if self.state == BbrState::ProbeRtt {
            self.after_handle_probe_rtt(now)
        } else if self.probe_rtt_expired && !self.idle_restart {
            self.after_begin_probe_rtt()
        } else {
            self
        }).after_note_delivery()
    }

    pub fn check_probe_rtt(&mut self, now: Instant)
        ensures
            *final(self) == old(self).after_check_probe_rtt(now),
            old(self).wf() ==> final(self).wf(),
            final(self).round_count == old(self).round_count,
    {
        proof {
            reveal(Flow::after_check_probe_rtt);
        }
        if self.state == BbrState::ProbeRtt {
            self.handle_probe_rtt(now);
        } else if self.probe_rtt_expired && !self.idle_restart {
            self.begin_probe_rtt();
        }
        self.note_delivery();
    }
}

} // verus!
