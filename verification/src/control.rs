//! The pacing rate, the burst size and the congestion window.
use crate::double::Double;
use crate::flow::{BbrState, Flow, ProbeBwSubstate};
use crate::params::{
    larger_of, send_size, smaller_of, HIGH_PACE_MAX_QUANTUM, LOW_PACING_RATE, MAX_DATAGRAM_SIZE,
    MID_PACING_RATE,
};
use vstd::prelude::*;

verus! {

impl Flow {
    /// `gain` times the permitted bandwidth, less the pacing margin.
    pub open spec fn paced_rate(self, gain: Double) -> Double {
        gain.product(self.bw).product(Double::of(100).difference(self.pacing_margin_percent)).quotient(
            Double::of(100),
        )
    }

    /// Until the pipe has been full the pacing rate only grows.
    pub open spec fn after_set_pacing_rate_with_gain(self, gain: Double) -> Flow {
        let rate = self.paced_rate(gain);
        if self.full_bw_reached || self.pacing_rate.less(rate) {
            Flow { pacing_rate: rate, ..self }
        } else {
            self
        }
    }

    pub fn set_pacing_rate_with_gain(&mut self, gain: Double)
        ensures
            *final(self) == old(self).after_set_pacing_rate_with_gain(gain),
    {
        let hundred: Double = Double::from_u64(100);
        let share: Double = hundred.minus(self.pacing_margin_percent);
        let rate: Double = gain.times(self.bw).times(share).over(hundred);
        if self.full_bw_reached || self.pacing_rate.is_less(rate) {
            *self = Flow { pacing_rate: rate, ..*self };
        }
    }

    pub open spec fn after_set_pacing_rate(self) -> Flow {
        self.after_set_pacing_rate_with_gain(self.pacing_gain)
    }

    pub fn set_pacing_rate(&mut self)
        ensures
            *final(self) == old(self).after_set_pacing_rate(),
            old(self).wf() ==> final(self).wf(),
            final(self).round_count == old(self).round_count,
    {
        self.set_pacing_rate_with_gain(self.pacing_gain);
    }

    /// The largest burst: a full packet at a low rate, two at a middling rate, and what
    /// is sent in a millisecond above, all within the limit on bursts.
    pub open spec fn burst(self) -> u64 {
        smaller_of(
            if self.pacing_rate.less(Double::of(LOW_PACING_RATE as nat)) {
                MAX_DATAGRAM_SIZE
            } else if self.pacing_rate.less(Double::of(MID_PACING_RATE as nat)) {
                (2 * MAX_DATAGRAM_SIZE) as u64
            } else {
                self.pacing_rate.quotient(Double::of(1000)).truncated()
            },
            HIGH_PACE_MAX_QUANTUM,
        )
    }

    pub open spec fn after_set_send_quantum(self) -> Flow {
        Flow { send_quantum: self.burst(), ..self }
    }

    pub fn set_send_quantum(&mut self)
        ensures
            *final(self) == old(self).after_set_send_quantum(),
            old(self).wf() ==> final(self).wf(),
            final(self).round_count == old(self).round_count,
    {
        let burst: u64 = if self.pacing_rate.is_less(Double::from_u64(LOW_PACING_RATE)) {
            MAX_DATAGRAM_SIZE
        } else if self.pacing_rate.is_less(Double::from_u64(MID_PACING_RATE)) {
            2 * MAX_DATAGRAM_SIZE
        } else {
            self.pacing_rate.over(Double::from_u64(1000)).to_u64()
        };
        *self = Flow { send_quantum: smaller_of(burst, HIGH_PACE_MAX_QUANTUM), ..*self };
    }

    /// While the round-trip time is measured the window is held down.
    pub open spec fn after_bound_cwnd_for_probe_rtt(self) -> Flow {
        if self.state == BbrState::ProbeRtt {
            Flow {
                cwnd: smaller_of(self.cwnd, self.probe_rtt_window()),
                bdp: self.bdp_for(self.bw),
                ..self
            }
        } else {
            self
        }
    }

    pub fn bound_cwnd_for_probe_rtt(&mut self)
        ensures
            *final(self) == old(self).after_bound_cwnd_for_probe_rtt(),
    {
        if self.state == BbrState::ProbeRtt {
            let window: u64 = self.probe_rtt_cwnd();
            *self = Flow { cwnd: smaller_of(self.cwnd, window), ..*self };
        }
    }

    /// The bound that the long-term model places on the window in the current
    /// state.
    pub open spec fn long_term_cap(self) -> u64 {
        match self.state {
            BbrState::ProbeRtt => self.headroom_bound(),
            BbrState::ProbeBw(ProbeBwSubstate::Cruise) => self.headroom_bound(),
            BbrState::ProbeBw(_) => self.inflight_longterm,
            _ => u64::MAX,
        }
    }

    /// The bound that the model places on the window.
    pub open spec fn cwnd_cap(self) -> u64 {
        larger_of(smaller_of(self.long_term_cap(), self.inflight_shortterm), self.min_pipe_cwnd)
    }

    pub open spec fn after_bound_cwnd_for_model(self) -> Flow {
        Flow { cwnd: smaller_of(self.cwnd, self.cwnd_cap()), ..self }
    }

    pub fn bound_cwnd_for_model(&mut self)
        ensures
            *final(self) == old(self).after_bound_cwnd_for_model(),
    {
        let cap: u64 = match self.state {
            BbrState::ProbeRtt => self.inflight_with_headroom(),
            BbrState::ProbeBw(ProbeBwSubstate::Cruise) => self.inflight_with_headroom(),
            BbrState::ProbeBw(_) => self.inflight_longterm,
            _ => u64::MAX,
        };
        let cap: u64 = larger_of(smaller_of(cap, self.inflight_shortterm), self.min_pipe_cwnd);
        *self = Flow { cwnd: smaller_of(self.cwnd, cap), ..*self };
    }

    /// The flow sends packets of another size; the smallest window holds four of them.
    pub open spec fn after_resize(self, new_mtu: u16) -> Flow {
        Flow {
            smss: send_size(new_mtu),
            min_pipe_cwnd: (4 * send_size(new_mtu)) as u64,
            ..self
        }
    }

    pub fn resize(&mut self, new_mtu: u16)
        ensures
            *final(self) == old(self).after_resize(new_mtu),
            old(self).wf() ==> final(self).wf(),
            final(self).round_count == old(self).round_count,
    {
        let smss: u64 = send_size(new_mtu);
        *self = Flow { smss, min_pipe_cwnd: 4 * smss, ..*self };
    }

    /// The window takes what is acknowledged, unless it is large enough already.
    pub open spec fn cwnd_grows(self) -> bool {
        self.full_bw_reached || self.cwnd < self.max_inflight || self.delivered < self.initial_cwnd
    }

    pub open spec fn grow_cwnd_fits(self) -> bool {
        self.cwnd_grows() ==> self.cwnd + self.newly_acked() <= u64::MAX
    }

    /// The window before the bounds of the model: it grows with what is
    /// acknowledged, once the pipe has been full up to `max_inflight`.
    pub open spec fn grown_cwnd(self) -> u64 {
        let open = (self.cwnd + self.newly_acked()) as u64;
        larger_of(
            if self.full_bw_reached {
                smaller_of(open, self.max_inflight)
            } else if self.cwnd_grows() {
                open
            } else {
                self.cwnd
            },
            self.min_pipe_cwnd,
        )
    }

    pub open spec fn after_grow_cwnd(self) -> Flow {
        Flow { cwnd: self.grown_cwnd(), ..self }
    }

    pub fn grow_cwnd(&mut self)
        requires
            old(self).grow_cwnd_fits(),
        ensures
            *final(self) == old(self).after_grow_cwnd(),
    {
        let acked: u64 = self.acked_volume();
        let cwnd: u64 = if self.full_bw_reached {
            smaller_of(self.cwnd + acked, self.max_inflight)
        } else if self.cwnd < self.max_inflight || self.delivered < self.initial_cwnd {
            self.cwnd + acked
        } else {
            self.cwnd
        };
        *self = Flow { cwnd: larger_of(cwnd, self.min_pipe_cwnd), ..*self };
    }

    pub open spec fn after_set_cwnd(self) -> Flow {
        self.after_update_max_inflight().after_grow_cwnd().after_bound_cwnd_for_probe_rtt().after_bound_cwnd_for_model()
    }

    pub open spec fn set_cwnd_fits(self) -> bool {
        self.max_inflight_fits() && self.after_update_max_inflight().grow_cwnd_fits()
    }

    pub fn set_cwnd(&mut self)
        requires
            old(self).wf(),
            old(self).set_cwnd_fits(),
        ensures
            *final(self) == old(self).after_set_cwnd(),
            final(self).wf(),
            final(self).round_count == old(self).round_count,
    {
        self.update_max_inflight();
        self.grow_cwnd();
        self.bound_cwnd_for_probe_rtt();
        self.bound_cwnd_for_model();
    }

    #[verifier::opaque]
    pub open spec fn after_update_control_parameters(self) -> Flow {
        self.after_set_pacing_rate().after_set_send_quantum().after_set_cwnd()
    }

    #[verifier::opaque]
    pub open spec fn control_fits(self) -> bool {
        self.after_set_pacing_rate().after_set_send_quantum().set_cwnd_fits()
    }

    pub fn update_control_parameters(&mut self)
        requires
            old(self).wf(),
            old(self).control_fits(),
        ensures
            *final(self) == old(self).after_update_control_parameters(),
            final(self).wf(),
            final(self).round_count == old(self).round_count,
    {
        proof {
            reveal(Flow::after_update_control_parameters);
            reveal(Flow::control_fits);
        }
        self.set_pacing_rate();
        self.set_send_quantum();
        self.set_cwnd();
    }
}

} // verus!
