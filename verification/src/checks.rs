//! Whether the sums of an operation stay in range, asked beforehand.
use crate::bbr3::Bbr3;
use crate::flow::{BbrState, Flow, ProbeBwSubstate};
use crate::model::Model;
use crate::packet::{find_packet, BbrPacket};
use crate::params::larger_of;
use crate::time::{Duration, Instant};
use vstd::prelude::*;

verus! {

impl Flow {
    pub fn can_update_round(&self, packet: BbrPacket) -> (b: bool)
        ensures
            b == self.update_round_fits(packet),
    {
        packet.delivered < self.next_round_delivered || (self.round_count < u64::MAX
            && self.rounds_since_bw_probe < u64::MAX)
    }

    pub fn can_measure_aggregation(&self, now: Instant) -> (b: bool)
        ensures
            b == self.ack_aggregation_fits(now),
    {
        let interval: Duration = match self.extra_acked_interval_start {
            Some(start) => now.duration_since(start),
            None => Duration::from_secs(0),
        };
        let expected: u64 = self.bw.times(interval.as_seconds()).to_u64();
        self.extra_acked_delivered <= expected || self.extra_acked_delivered.checked_add(
            self.acked_volume(),
        ).is_some()
    }

    fn can_probe_upward(&self) -> (b: bool)
        ensures
            b == self.probe_upward_fits(),
    {
        if self.is_cwnd_limited && self.cwnd >= self.inflight_longterm {
            match self.bw_probe_up_acks.checked_add(self.acked_volume()) {
                Some(volume) => {
                    let delta: u64 = if self.probe_up_cnt == 0 {
                        0
                    } else {
                        volume / self.probe_up_cnt
                    };
                    self.inflight_longterm.checked_add(delta).is_some()
                },
                None => false,
            }
        } else {
            true
        }
    }

    fn can_raise_long_term_bound(&self) -> (b: bool)
        ensures
            b == self.raise_long_term_bound_fits(),
    {
        if !self.is_inflight_too_high() && self.inflight_longterm != u64::MAX && self.state
            == BbrState::ProbeBw(ProbeBwSubstate::Up) {
            let mut trial: Flow = *self;
            trial.cover_inflight();
            trial.can_probe_upward()
        } else {
            true
        }
    }

    pub fn can_update_cycle(&self) -> (b: bool)
        ensures
            b == self.cycle_fits(),
    {
        if self.full_bw_reached {
            let mut trial: Flow = *self;
            trial.update_ack_phase();
            trial.can_raise_long_term_bound()
        } else {
            true
        }
    }

    pub fn can_advance(&self, now: Instant) -> (b: bool)
        requires
            self.wf(),
        ensures
            b == self.advance_fits(now),
    {
        proof {
            reveal(Flow::advance_fits);
        }
        let mut trial: Flow = *self;
        trial.check_full_bw_reached();
        trial.check_startup_done();
        trial.check_drain_done(now);
        trial.can_update_cycle()
    }

    fn can_quantize(&self, inflight_cap: u64) -> (b: bool)
        requires
            self.wf(),
        ensures
            b == self.quantization_fits(inflight_cap),
    {
        let mut trial: Flow = *self;
        trial.update_offload_budget();
        let base: u64 = larger_of(
            larger_of(inflight_cap, trial.offload_budget),
            trial.min_pipe_cwnd,
        );
        self.state != BbrState::ProbeBw(ProbeBwSubstate::Up) || base <= u64::MAX - 2 * self.smss
    }

    fn can_update_max_inflight(&self) -> (b: bool)
        requires
            self.wf(),
        ensures
            b == self.max_inflight_fits(),
    {
        let mut trial: Flow = *self;
        let bdp: u64 = trial.bdp_multiple(self.max_bw, self.cwnd_gain);
        match bdp.checked_add(self.extra_acked) {
            Some(inflight_cap) => self.can_quantize(inflight_cap),
            None => false,
        }
    }

    fn can_grow_cwnd(&self) -> (b: bool)
        ensures
            b == self.grow_cwnd_fits(),
    {
        if self.full_bw_reached || self.cwnd < self.max_inflight || self.delivered
            < self.initial_cwnd {
            self.cwnd.checked_add(self.acked_volume()).is_some()
        } else {
            true
        }
    }

    pub fn can_set_cwnd(&self) -> (b: bool)
        requires
            self.wf(),
        ensures
            b == self.set_cwnd_fits(),
    {
        if self.can_update_max_inflight() {
            let mut trial: Flow = *self;
            trial.update_max_inflight();
            trial.can_grow_cwnd()
        } else {
            false
        }
    }

    pub fn can_update_control_parameters(&self) -> (b: bool)
        requires
            self.wf(),
        ensures
            b == self.control_fits(),
    {
        proof {
            reveal(Flow::control_fits);
        }
        let mut trial: Flow = *self;
        trial.set_pacing_rate();
        trial.set_send_quantum();
        trial.can_set_cwnd()
    }

    pub fn can_count_ack(&self, bytes: u64) -> (b: bool)
        ensures
            b == self.count_ack_fits(bytes),
    {
        self.delivered.checked_add(bytes).is_some()
    }
}

impl Model {
    pub fn can_take_sample(&self, packet: BbrPacket, now: Instant) -> (b: bool)
        requires
            self.wf(),
        ensures
            b == self@.sample_fits(packet, now),
    {
        let mut trial: Model = self.clone();
        trial.flow.update_latest_delivery_signals();
        if !trial.flow.can_update_round(packet) {
            return false;
        }
        trial.update_congestion_signals(packet);
        if !trial.flow.can_measure_aggregation(now) {
            return false;
        }
        trial.update_ack_aggregation(now);
        if !trial.flow.can_advance(now) {
            return false;
        }
        trial.flow.advance(now);
        trial.flow.can_update_control_parameters()
    }
}

impl Bbr3 {
    /// Whether `on_packet_sent` stays in range.
    pub fn can_send(&self, bytes: u16) -> (b: bool)
        ensures
            b == self@.send_fits(bytes),
    {
        self.model.flow.inflight.checked_add(bytes as u64).is_some()
    }

    /// Whether `on_ack` stays in range.
    pub fn can_ack(&self, now: Instant, sent: Instant, bytes: u64, pn: u64, srtt: Duration) -> (b:
        bool)
        requires
            self.wf(),
        ensures
            b == self@.ack_fits(now, sent, bytes, pn, srtt),
    {
        if !self.model.flow.can_count_ack(bytes) {
            return false;
        }
        match find_packet(&self.packets, pn) {
            Some(index) => {
                let mut trial: Model = self.model.clone();
                trial.flow.count_ack(bytes, now);
                let sampled: bool = match trial.flow.rs {
                    Some(_) => trial.flow.is_newest_packet(sent, pn),
                    None => true,
                };
                if sampled {
                    let p: BbrPacket = BbrPacket { acknowledged: true, ..self.packets[index] };
                    trial.flow.take_packet(p, bytes, srtt, now);
                    trial.can_take_sample(p, now)
                } else {
                    true
                }
            },
            None => true,
        }
    }

    /// Whether `on_packet_lost`, or the answer to a congestion signal, stays in
    /// range.
    pub fn can_lose(&self, lost_bytes: u64) -> (b: bool)
        ensures
            b == self@.loss_fits(lost_bytes),
    {
        self.model.flow.lost.checked_add(lost_bytes).is_some()
    }

    /// Whether `on_mtu_update` stays in range.
    pub fn can_resize(&self, new_mtu: u16) -> (b: bool)
        requires
            self.wf(),
        ensures
            b == self@.mtu_fits(new_mtu),
    {
        let mut trial: Flow = self.model.flow;
        trial.resize(new_mtu);
        trial.can_set_cwnd()
    }

    /// As `on_ack`, where that stays in range; nothing changes where it does not.
    pub fn try_on_ack(
        &mut self,
        now: Instant,
        sent: Instant,
        bytes: u64,
        pn: u64,
        app_limited: bool,
        srtt: Duration,
    ) -> (done: bool)
        requires
            old(self).wf(),
        ensures
            final(self).wf(),
            done == old(self)@.ack_fits(now, sent, bytes, pn, srtt),
            final(self)@ == (if done {
                old(self)@.after_ack(now, sent, bytes, pn, srtt)
            } else {
                old(self)@
            }),
    {
        if self.can_ack(now, sent, bytes, pn, srtt) {
            self.on_ack(now, sent, bytes, pn, app_limited, srtt);
            true
        } else {
            false
        }
    }
}

} // verus!
