//! The volumes that the model of the path permits in flight.
use crate::double::Double;
use crate::flow::{BbrState, Flow, ProbeBwSubstate};
use crate::params::{
    headroom, larger_of, loss_thresh, saturating_product, smaller_of, MAX_RENO_ROUNDS,
};
use crate::time::{Duration, Instant};
use vstd::prelude::*;

verus! {

impl Flow {
    /// The round-trip time before any was measured.
    pub open spec fn rtt_unknown(self) -> bool {
        self.min_rtt == Duration::of_secs(u64::MAX)
    }

    /// The bandwidth-delay product for bandwidth `bw`.
    pub open spec fn bdp_for(self, bw: Double) -> u64 {
        if self.rtt_unknown() {
            self.bdp
        } else {
            bw.product(self.min_rtt.seconds()).nearest_integer()
        }
    }

    /// `gain` times the bandwidth-delay product; the initial window before any
    /// round-trip time was measured.
    pub open spec fn bdp_multiple_for(self, bw: Double, gain: Double) -> u64 {
        if self.rtt_unknown() {
            self.initial_cwnd
        } else {
            gain.product(Double::of(self.bdp_for(bw) as nat)).truncated()
        }
    }

    pub fn bdp_multiple(&mut self, bw: Double, gain: Double) -> (volume: u64)
        ensures
            *final(self) == (Flow { bdp: old(self).bdp_for(bw), ..*old(self) }),
            volume == old(self).bdp_multiple_for(bw, gain),
    {
        if self.min_rtt == Duration::from_secs(u64::MAX) {
            return self.initial_cwnd;
        }
        let bdp: u64 = bw.times(self.min_rtt.as_seconds()).round_to_u64();
        *self = Flow { bdp, ..*self };
        gain.times(Double::from_u64(bdp)).to_u64()
    }

    /// The volume that host offloads and delayed acknowledgements need: a burst,
    /// and what arrives before the peer must acknowledge.
    pub open spec fn offload_need(self) -> u64 {
        let threshold = self.ack_eliciting_threshold * self.smss;
        let delayed = self.max_ack_delay.seconds().product(self.max_bw).nearest_integer();
        let term = if threshold <= delayed {
            threshold
        } else {
            delayed as int
        };
        if self.send_quantum + term <= u64::MAX {
            (self.send_quantum + term) as u64
        } else {
            u64::MAX
        }
    }

    pub fn update_offload_budget(&mut self)
        ensures
            *final(self) == (Flow { offload_budget: old(self).offload_need(), ..*old(self) }),
    {
        let threshold_bytes: u64 = saturating_product(self.ack_eliciting_threshold, self.smss);
        let delay_bytes: u64 = self.max_ack_delay.as_seconds().times(self.max_bw).round_to_u64();
        let delayed_ack_term: u64 = smaller_of(threshold_bytes, delay_bytes);
        let budget: u64 = self.send_quantum.saturating_add(delayed_ack_term);
        *self = Flow { offload_budget: budget, ..*self };
    }

    /// `cap` raised to what offloads and a busy pipe need, before the allowance of
    /// an upward probe.
    pub open spec fn quantized_base(self, cap: u64) -> u64 {
        larger_of(larger_of(cap, self.offload_need()), self.min_pipe_cwnd)
    }

    /// The allowance that an upward probe adds.
    pub open spec fn probe_up_allowance(self) -> int {
        if self.state == BbrState::ProbeBw(ProbeBwSubstate::Up) {
            2 * self.smss
        } else {
            0
        }
    }

    pub open spec fn quantization_fits(self, cap: u64) -> bool {
        self.quantized_base(cap) + self.probe_up_allowance() <= u64::MAX
    }

    pub open spec fn quantized(self, cap: u64) -> u64 {
        (self.quantized_base(cap) + self.probe_up_allowance()) as u64
    }

    pub fn quantization_budget(&mut self, inflight_cap: u64) -> (volume: u64)
        requires
            old(self).wf(),
            old(self).quantization_fits(inflight_cap),
        ensures
            *final(self) == (Flow { offload_budget: old(self).offload_need(), ..*old(self) }),
            volume == old(self).quantized(inflight_cap),
    {
        self.update_offload_budget();
        let base: u64 = larger_of(larger_of(inflight_cap, self.offload_budget), self.min_pipe_cwnd);
        if self.state == BbrState::ProbeBw(ProbeBwSubstate::Up) {
            base + 2 * self.smss
        } else {
            base
        }
    }

    /// The state after an inflight target was computed for bandwidth `bw`.
    pub open spec fn after_inflight(self, bw: Double) -> Flow {
        Flow { bdp: self.bdp_for(bw), offload_budget: self.offload_need(), ..self }
    }

    /// The volume in flight for the largest recent bandwidth and `gain`.
    pub open spec fn inflight_for(self, gain: Double) -> u64 {
        self.quantized(self.bdp_multiple_for(self.max_bw, gain))
    }

    pub open spec fn inflight_fits(self, gain: Double) -> bool {
        self.quantization_fits(self.bdp_multiple_for(self.max_bw, gain))
    }

    pub fn get_inflight(&mut self, gain: Double) -> (volume: u64)
        requires
            old(self).wf(),
            old(self).inflight_fits(gain),
        ensures
            *final(self) == old(self).after_inflight(old(self).max_bw),
            volume == old(self).inflight_for(gain),
    {
        let inflight_cap: u64 = self.bdp_multiple(self.max_bw, gain);
        self.quantization_budget(inflight_cap)
    }

    /// The bandwidth-delay product at the current gain, and the aggregation.
    pub open spec fn max_inflight_cap(self) -> int {
        self.bdp_multiple_for(self.max_bw, self.cwnd_gain) + self.extra_acked
    }

    pub open spec fn max_inflight_fits(self) -> bool {
        self.max_inflight_cap() <= u64::MAX && self.quantization_fits(self.max_inflight_cap() as u64)
    }

    pub open spec fn after_update_max_inflight(self) -> Flow {
        Flow {
            max_inflight: self.quantized(self.max_inflight_cap() as u64),
            ..self.after_inflight(self.max_bw)
        }
    }

    pub fn update_max_inflight(&mut self)
        requires
            old(self).wf(),
            old(self).max_inflight_fits(),
        ensures
            *final(self) == old(self).after_update_max_inflight(),
    {
        let bdp: u64 = self.bdp_multiple(self.max_bw, self.cwnd_gain);
        let inflight_cap: u64 = bdp + self.extra_acked;
        let max_inflight: u64 = self.quantization_budget(inflight_cap);
        *self = Flow { max_inflight, ..*self };
    }

    pub open spec fn spec_target_inflight(self) -> u64 {
        smaller_of(self.bdp, self.cwnd)
    }

    pub fn target_inflight(&self) -> (volume: u64)
        ensures
            volume == self.spec_target_inflight(),
    {
        smaller_of(self.bdp, self.cwnd)
    }

    /// The long-term bound less the headroom for other traffic, at least the
    /// smallest window; unbounded where there is no long-term bound.
    pub open spec fn headroom_bound(self) -> u64 {
        let reserve = larger_of(
            self.smss,
            headroom().product(Double::of(self.inflight_longterm as nat)).truncated(),
        );
        if self.inflight_longterm == u64::MAX {
            u64::MAX
        } else if self.inflight_longterm >= reserve {
            larger_of((self.inflight_longterm - reserve) as u64, self.min_pipe_cwnd)
        } else {
            self.min_pipe_cwnd
        }
    }

    pub fn inflight_with_headroom(&self) -> (volume: u64)
        ensures
            volume == self.headroom_bound(),
    {
        if self.inflight_longterm == u64::MAX {
            return u64::MAX;
        }
        let share: u64 = headroom().times(Double::from_u64(self.inflight_longterm)).to_u64();
        let total_headroom: u64 = larger_of(self.smss, share);
        match self.inflight_longterm.checked_sub(total_headroom) {
            Some(rest) => larger_of(rest, self.min_pipe_cwnd),
            None => self.min_pipe_cwnd,
        }
    }

    /// The loss since the sampled packet was sent exceeds the tolerated share of
    /// what was then in flight.
    pub open spec fn inflight_too_high(self) -> bool {
        self.rs matches Some(rs) && Double::of(rs.tx_in_flight as nat).product(loss_thresh()).less(
            Double::of(rs.lost as nat),
        )
    }

    pub fn is_inflight_too_high(&self) -> (b: bool)
        ensures
            b == self.inflight_too_high(),
    {
        match self.rs {
            Some(rs) => {
                let tolerated: Double = Double::from_u64(rs.tx_in_flight).times(loss_thresh());
                tolerated.is_less(Double::from_u64(rs.lost))
            },
            None => false,
        }
    }

    /// The volume in flight at which the loss rate passed the tolerated one, given
    /// that the lost packet has `packet_size` bytes.
    pub open spec fn loss_point(self, packet_size: u64) -> u64 {
        match self.rs {
            Some(rs) => {
                let inflight_prev = Double::of(
                    (if rs.tx_in_flight >= packet_size {
                        rs.tx_in_flight - packet_size
                    } else {
                        0
                    }) as nat,
                );
                let lost_prev = Double::of(
                    (if rs.lost >= packet_size {
                        rs.lost - packet_size
                    } else {
                        0
                    }) as nat,
                );
                let prefix = loss_thresh().product(inflight_prev).difference(lost_prev).quotient(
                    Double::of(1).difference(loss_thresh()),
                );
                inflight_prev.sum(prefix).truncated()
            },
            None => 0,
        }
    }

    pub fn inflight_at_loss(&self, packet_size: u64) -> (volume: u64)
        ensures
            volume == self.loss_point(packet_size),
    {
        match self.rs {
            Some(rs) => {
                let inflight_prev: Double = Double::from_u64(
                    rs.tx_in_flight.saturating_sub(packet_size),
                );
                let lost_prev: Double = Double::from_u64(rs.lost.saturating_sub(packet_size));
                let excess: Double = loss_thresh().times(inflight_prev).minus(lost_prev);
                let share: Double = Double::from_u64(1).minus(loss_thresh());
                inflight_prev.plus(excess.over(share)).to_u64()
            },
            None => 0,
        }
    }

    /// Enough round trips have passed for a flow that shares the path with
    /// loss-based ones to probe again.
    pub open spec fn reno_probe_due(self) -> bool {
        self.rounds_since_bw_probe >= smaller_of(self.spec_target_inflight(), MAX_RENO_ROUNDS)
    }

    pub fn is_reno_coexistence_probe_time(&self) -> (b: bool)
        ensures
            b == self.reno_probe_due(),
    {
        let rounds: u64 = smaller_of(self.target_inflight(), MAX_RENO_ROUNDS);
        self.rounds_since_bw_probe >= rounds
    }

    /// More than `interval` has passed since the probing cycle began.
    pub open spec fn phase_elapsed(self, interval: Duration, now: Instant) -> bool {
        match self.cycle_stamp {
            Some(stamp) => now.nanos > stamp.moved_by(interval).nanos,
            None => true,
        }
    }

    pub fn has_elapsed_in_phase(&self, interval: Duration, now: Instant) -> (b: bool)
        ensures
            b == self.phase_elapsed(interval, now),
    {
        match self.cycle_stamp {
            Some(stamp) => now.nanos > stamp.add_or_same(interval).nanos,
            None => true,
        }
    }
}

} // verus!
