//! The bandwidth probing cycle.
use crate::double::Double;
use crate::flow::{AckPhase, BbrState, Flow, ProbeBwSubstate};
use crate::time::Instant;
use vstd::prelude::*;

verus! {

impl Flow {
    /// What the current sample acknowledges.
    pub open spec fn newly_acked(self) -> u64 {
        match self.rs {
            Some(rs) => rs.newly_acked,
            None => 0,
        }
    }

    pub fn acked_volume(&self) -> (volume: u64)
        ensures
            volume == self.newly_acked(),
    {
        match self.rs {
            Some(rs) => rs.newly_acked,
            None => 0,
        }
    }

    /// The virtual time of the bandwidth filter moves on.
    pub open spec fn after_advance_max_bw_filter(self) -> Flow {
        Flow {
            cycle_count: if self.cycle_count < u64::MAX {
                (self.cycle_count + 1) as u64
            } else {
                u64::MAX
            },
            ..self
        }
    }

    pub fn advance_max_bw_filter(&mut self)
        ensures
            *final(self) == old(self).after_advance_max_bw_filter(),
    {
        *self = Flow { cycle_count: self.cycle_count.saturating_add(1), ..*self };
    }

    /// The flow uses its whole window, and that reaches the long-term bound.
    pub open spec fn held_by_long_term_bound(self) -> bool {
        self.is_cwnd_limited && self.cwnd >= self.inflight_longterm
    }

    /// The volume acknowledged since the long-term bound last grew.
    pub open spec fn probe_up_volume(self) -> int {
        self.bw_probe_up_acks + self.newly_acked()
    }

    /// By how much the long-term bound grows.
    pub open spec fn probe_up_delta(self) -> int {
        if self.probe_up_cnt == 0 {
            0
        } else {
            self.probe_up_volume() / self.probe_up_cnt as int
        }
    }

    pub open spec fn probe_upward_fits(self) -> bool {
        self.held_by_long_term_bound() ==> self.probe_up_volume() <= u64::MAX
            && self.inflight_longterm + self.probe_up_delta() <= u64::MAX
    }

    /// Every `probe_up_cnt` bytes that are acknowledged raise the long-term bound by
    /// one byte; the rest is carried over.
    pub open spec fn after_probe_inflight_long_term_upward(self) -> Flow {
        if !self.held_by_long_term_bound() {
            self
        } else if self.probe_up_delta() == 0 {
            Flow { bw_probe_up_acks: self.probe_up_volume() as u64, ..self }
        } else {
            let grown = Flow {
                bw_probe_up_acks: (self.probe_up_volume() % self.probe_up_cnt as int) as u64,
                inflight_longterm: (self.inflight_longterm + self.probe_up_delta()) as u64,
                ..self
            };
            if self.round_start {
                grown.after_raise_inflight_long_term_slope()
            } else {
                grown
            }
        }
    }

    pub fn probe_inflight_long_term_upward(&mut self)
        requires
            old(self).wf(),
            old(self).probe_upward_fits(),
        ensures
            *final(self) == old(self).after_probe_inflight_long_term_upward(),
    {
        if self.is_cwnd_limited && self.cwnd >= self.inflight_longterm {
            let volume: u64 = self.bw_probe_up_acks + self.acked_volume();
            let count: u64 = self.probe_up_cnt;
            if count > 0 && volume >= count {
                proof {
                    vstd::arithmetic::div_mod::lemma_div_non_zero(volume as int, count as int);
                }
                let delta: u64 = volume / count;
                *self =
                Flow {
                    bw_probe_up_acks: volume % count,
                    inflight_longterm: self.inflight_longterm + delta,
                    ..*self
                };
                if self.round_start {
                    self.raise_inflight_long_term_slope();
                }
            } else {
                proof {
                    if count > 0 {
                        vstd::arithmetic::div_mod::lemma_basic_div(volume as int, count as int);
                    }
                }
                *self = Flow { bw_probe_up_acks: volume, ..*self };
            }
        }
    }

    /// A probing cycle ends with a round trip that reports on its last probe and
    /// that the application did not limit.
    pub open spec fn ends_cycle(self) -> bool {
        self.ack_phase == AckPhase::ProbeStopping && self.round_start && self.state is ProbeBw && (
        self.rs matches Some(rs) && !rs.is_app_limited)
    }

    /// The acknowledgements of a new round trip report on the probe that began
    /// before it.
    pub open spec fn after_update_ack_phase(self) -> Flow {
        if self.ack_phase == AckPhase::ProbeStarting && self.round_start {
            Flow { ack_phase: AckPhase::ProbeFeedback, ..self }
        } else if self.ends_cycle() {
            self.after_advance_max_bw_filter()
        } else {
            self
        }
    }

    pub fn update_ack_phase(&mut self)
        ensures
            *final(self) == old(self).after_update_ack_phase(),
    {
        let unlimited: bool = match self.rs {
            Some(rs) => !rs.is_app_limited,
            None => false,
        };
        let probing: bool = matches!(self.state, BbrState::ProbeBw(_));
        if self.ack_phase == AckPhase::ProbeStarting && self.round_start {
            *self = Flow { ack_phase: AckPhase::ProbeFeedback, ..*self };
        } else if self.ack_phase == AckPhase::ProbeStopping && self.round_start && probing
            && unlimited {
            self.advance_max_bw_filter();
        }
    }

    /// The long-term bound covers what was in flight without much loss.
    pub open spec fn after_cover_inflight(self) -> Flow {
        match self.rs {
            Some(rs) => if rs.tx_in_flight > self.inflight_longterm {
                Flow { inflight_longterm: rs.tx_in_flight, ..self }
            } else {
                self
            },
            None => self,
        }
    }

    pub fn cover_inflight(&mut self)
        ensures
            *final(self) == old(self).after_cover_inflight(),
    {
        if let Some(rs) = self.rs {
            if rs.tx_in_flight > self.inflight_longterm {
                *self = Flow { inflight_longterm: rs.tx_in_flight, ..*self };
            }
        }
    }

    /// Without much loss the long-term bound, where there is one, grows.
    pub open spec fn after_raise_long_term_bound(self) -> Flow {
        if self.inflight_too_high() || self.inflight_longterm == u64::MAX {
            self
        } else if self.state == BbrState::ProbeBw(ProbeBwSubstate::Up) {
            self.after_cover_inflight().after_probe_inflight_long_term_upward()
        } else {
            self.after_cover_inflight()
        }
    }

    pub open spec fn raise_long_term_bound_fits(self) -> bool {
        !self.inflight_too_high() && self.inflight_longterm != u64::MAX && self.state
            == BbrState::ProbeBw(ProbeBwSubstate::Up) ==> self.after_cover_inflight().probe_upward_fits()
    }

    pub fn raise_long_term_bound(&mut self)
        requires
            old(self).wf(),
            old(self).raise_long_term_bound_fits(),
        ensures
            *final(self) == old(self).after_raise_long_term_bound(),
    {
        if !self.is_inflight_too_high() && self.inflight_longterm != u64::MAX {
            self.cover_inflight();
            if self.state == BbrState::ProbeBw(ProbeBwSubstate::Up) {
                self.probe_inflight_long_term_upward();
            }
        }
    }

    #[verifier::opaque]
    pub open spec fn after_adapt_long_term_model(self) -> Flow {
        self.after_update_ack_phase().after_raise_long_term_bound()
    }

    pub open spec fn adapt_long_term_fits(self) -> bool {
        self.after_update_ack_phase().raise_long_term_bound_fits()
    }

    pub fn adapt_long_term_model(&mut self)
        requires
            old(self).wf(),
            old(self).adapt_long_term_fits(),
        ensures
            *final(self) == old(self).after_adapt_long_term_model(),
            final(self).wf(),
            final(self).round_count == old(self).round_count,
    {
        proof {
            reveal(Flow::after_adapt_long_term_model);
        }
        self.update_ack_phase();
        self.raise_long_term_bound();
    }

    /// It is time to probe for bandwidth again.
    pub open spec fn probe_due(self, now: Instant) -> bool {
        self.phase_elapsed(self.bw_probe_wait, now) || self.reno_probe_due()
    }

    pub open spec fn after_maybe_enter_probe_bw_refill(self, now: Instant) -> Flow {
        if self.probe_due(now) {
            self.after_start_probe_bw_refill()
        } else {
            self
        }
    }

    pub fn maybe_enter_probe_bw_refill(&mut self, now: Instant) -> (entered: bool)
        ensures
            entered == old(self).probe_due(now),
            *final(self) == old(self).after_maybe_enter_probe_bw_refill(now),
    {
        let due: bool = self.has_elapsed_in_phase(self.bw_probe_wait, now)
            || self.is_reno_coexistence_probe_time();
        if due {
            self.start_probe_bw_refill();
        }
        due
    }

    /// The queue is gone: no more is in flight than the long-term bound, less the
    /// headroom, and the path permit.
    pub open spec fn cruise_due(self) -> bool {
        self.inflight <= self.headroom_bound() && self.inflight <= self.inflight_for(Double::of(1))
    }

    pub open spec fn after_time_to_cruise(self) -> Flow {
        if self.inflight > self.headroom_bound() {
            self
        } else {
            self.after_inflight(self.max_bw)
        }
    }

    pub fn maybe_update_budget_and_time_to_cruise(&mut self) -> (due: bool)
        requires
            old(self).wf(),
            old(self).inflight_fits(Double::of(1)),
        ensures
            due == old(self).cruise_due(),
            *final(self) == old(self).after_time_to_cruise(),
    {
        if self.inflight > self.inflight_with_headroom() {
            false
        } else {
            let target: u64 = self.get_inflight(Double::from_u64(1));
            self.inflight <= target
        }
    }

    /// The upward probe has filled the pipe.
    pub open spec fn go_down_due(self) -> bool {
        !self.held_by_long_term_bound() && self.full_bw_now
    }

    pub open spec fn after_maybe_go_down(self) -> Flow {
        if self.held_by_long_term_bound() {
            self.after_rebase_full_bw()
        } else {
            self
        }
    }

    pub fn maybe_go_down(&mut self) -> (due: bool)
        ensures
            due == old(self).go_down_due(),
            *final(self) == old(self).after_maybe_go_down(),
    {
        if self.is_cwnd_limited && self.cwnd >= self.inflight_longterm {
            self.rebase_full_bw();
            false
        } else {
            self.full_bw_now
        }
    }

    /// While probing downwards the flow waits for the next probe, or for the queue
    /// to be gone.
    #[verifier::opaque]
    pub open spec fn after_down_phase(self, now: Instant) -> Flow {
        if self.probe_due(now) {
            self.after_start_probe_bw_refill()
        } else if self.cruise_due() {
            self.after_inflight(self.max_bw).after_start_probe_bw_cruise()
        } else {
            self.after_time_to_cruise()
        }
    }

    pub fn down_phase(&mut self, now: Instant)
        requires
            old(self).wf(),
            old(self).inflight_fits(Double::of(1)),
        ensures
            *final(self) == old(self).after_down_phase(now),
            old(self).full_bw_reached ==> final(self).wf(),
            final(self).round_count == old(self).round_count,
    {
        proof {
            reveal(Flow::after_down_phase);
        }
        if !self.maybe_enter_probe_bw_refill(now) {
            if self.maybe_update_budget_and_time_to_cruise() {
                self.start_probe_bw_cruise();
            }
        }
    }

    /// The phase that follows in the cycle, once the long-term model is adapted.
    #[verifier::opaque]
    pub open spec fn after_next_phase(self, now: Instant) -> Flow {
        match self.state {
            BbrState::ProbeBw(ProbeBwSubstate::Down) => self.after_down_phase(now),
            BbrState::ProbeBw(ProbeBwSubstate::Cruise) => self.after_maybe_enter_probe_bw_refill(
                now,
            ),
            BbrState::ProbeBw(ProbeBwSubstate::Refill) => if self.round_start {
                (Flow { bw_probe_samples: true, ..self }).after_start_probe_bw_up()
            } else {
                self
            },
            BbrState::ProbeBw(ProbeBwSubstate::Up) => if self.go_down_due() {
                self.after_start_probe_bw_down(now)
            } else {
                self.after_maybe_go_down()
            },
            _ => self,
        }
    }

    pub fn next_phase(&mut self, now: Instant)
        requires
            old(self).wf(),
        ensures
            *final(self) == old(self).after_next_phase(now),
            final(self).wf(),
            final(self).round_count == old(self).round_count,
    {
        proof {
            reveal(Flow::after_next_phase);
        }
        match self.state {
            BbrState::ProbeBw(ProbeBwSubstate::Down) => {
                self.down_phase(now);
            },
            BbrState::ProbeBw(ProbeBwSubstate::Cruise) => {
                let _ = self.maybe_enter_probe_bw_refill(now);
            },
            BbrState::ProbeBw(ProbeBwSubstate::Refill) => {
                if self.round_start {
                    *self = Flow { bw_probe_samples: true, ..*self };
                    self.start_probe_bw_up();
                }
            },
            BbrState::ProbeBw(ProbeBwSubstate::Up) => {
                if self.maybe_go_down() {
                    self.start_probe_bw_down(now);
                }
            },
            _ => {},
        }
    }

    /// A flow that has filled the pipe adapts its long-term model and moves on in
    /// the cycle.
    #[verifier::opaque]
    pub open spec fn after_update_probe_bw_cycle_phase(self, now: Instant) -> Flow {
        if self.full_bw_reached {
            self.after_adapt_long_term_model().after_next_phase(now)
        } else {
            self
        }
    }

    pub open spec fn cycle_fits(self) -> bool {
        self.full_bw_reached ==> self.adapt_long_term_fits()
    }

    pub fn update_probe_bw_cycle_phase(&mut self, now: Instant)
        requires
            old(self).wf(),
            old(self).cycle_fits(),
        ensures
            *final(self) == old(self).after_update_probe_bw_cycle_phase(now),
            final(self).wf(),
            final(self).round_count == old(self).round_count,
    {
        proof {
            reveal(Flow::after_update_probe_bw_cycle_phase);
        }
        if self.full_bw_reached {
            self.adapt_long_term_model();
            self.next_phase(now);
        }
    }
}

} // verus!
