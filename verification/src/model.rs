//! The model of the path: the state of the flow and its filters.
use crate::double::Double;
use crate::flow::Flow;
use crate::max_filter::MaxFilter;
use crate::packet::BbrPacket;
use crate::params::{EXTRA_ACKED_FILTER_LEN, MAX_BW_FILTER_LEN};
use crate::time::Instant;
use vstd::prelude::*;

verus! {

impl Flow {
    /// The state before the probing cycle moves on.
    pub open spec fn before_cycle(self, now: Instant) -> Flow {
        self.after_check_full_bw_reached().after_check_startup_done().after_check_drain_done(now)
    }

    #[verifier::opaque]
    pub open spec fn advance_fits(self, now: Instant) -> bool {
        self.before_cycle(now).cycle_fits()
    }

    /// The state machine moves on, and the permitted bandwidth follows.
    #[verifier::opaque]
    pub open spec fn after_advance(self, now: Instant) -> Flow {
        self.before_cycle(now).after_update_probe_bw_cycle_phase(now).after_update_min_rtt(
            now,
        ).after_check_probe_rtt(now).after_advance_latest_delivery_signals().after_bound_bw_for_model()
    }

    pub fn advance(&mut self, now: Instant)
        requires
            old(self).wf(),
            old(self).advance_fits(now),
        ensures
            *final(self) == old(self).after_advance(now),
            final(self).wf(),
            final(self).round_count == old(self).round_count,
    {
        proof {
            reveal(Flow::after_advance);
            reveal(Flow::advance_fits);
        }
        self.check_full_bw_reached();
        self.check_startup_done();
        self.check_drain_done(now);
        self.update_probe_bw_cycle_phase(now);
        self.update_min_rtt(now);
        self.check_probe_rtt(now);
        self.advance_latest_delivery_signals();
        self.bound_bw_for_model();
    }
}

/// The model of the path, as contracts speak of it: the filters are the largest
/// sample of each of their time slots.
pub struct ModelState {
    pub flow: Flow,
    pub bandwidths: Map<u64, u64>,
    pub aggregates: Map<u64, u64>,
}

impl ModelState {
    /// The filter of bandwidths with one more sample.
    pub open spec fn bandwidths_with(self, sample: u64) -> Map<u64, u64> {
        let cycle = self.flow.cycle_count;
        crate::max_filter::with_sample(
            crate::max_filter::recent(self.bandwidths, cycle, MAX_BW_FILTER_LEN),
            cycle,
            sample,
        )
    }

    /// The bandwidth sample, where there is one, goes through the filter.
    pub open spec fn after_record_bandwidth(self) -> ModelState {
        match self.flow.bandwidth_sample() {
            Some(sample) => ModelState {
                flow: Flow {
                    max_bw: Double::of(
                        crate::max_filter::peak(self.bandwidths_with(sample)) as nat,
                    ),
                    ..self.flow
                },
                bandwidths: self.bandwidths_with(sample),
                ..self
            },
            None => self,
        }
    }

    pub open spec fn after_update_max_bw(self, packet: BbrPacket) -> ModelState {
        (ModelState { flow: self.flow.after_update_round(packet), ..self }).after_record_bandwidth()
    }

    /// A round trip may end, and with it the loss round.
    pub open spec fn after_update_congestion_signals(self, packet: BbrPacket) -> ModelState {
        let recorded = self.after_update_max_bw(packet);
        ModelState { flow: recorded.flow.after_close_loss_round(), ..recorded }
    }

    /// The filter of aggregates with one more sample.
    pub open spec fn aggregates_with(self, sample: u64) -> Map<u64, u64> {
        let round = self.flow.round_count;
        crate::max_filter::with_sample(
            crate::max_filter::recent(self.aggregates, round, EXTRA_ACKED_FILTER_LEN),
            round,
            sample,
        )
    }

    /// The aggregate `extra` goes through the filter; before the pipe has been full,
    /// only the last one counts.
    pub open spec fn after_record_aggregate(self, extra: u64) -> ModelState {
        if self.flow.full_bw_reached {
            ModelState {
                flow: Flow {
                    extra_acked: crate::max_filter::peak(self.aggregates_with(extra)),
                    ..self.flow
                },
                aggregates: self.aggregates_with(extra),
                ..self
            }
        } else {
            ModelState { flow: Flow { extra_acked: extra, ..self.flow }, ..self }
        }
    }

    pub open spec fn after_update_ack_aggregation(self, now: Instant) -> ModelState {
        (ModelState { flow: self.flow.after_measure_aggregation(now), ..self }).after_record_aggregate(
            self.flow.aggregation_excess(now),
        )
    }

    /// The model after the signals of an acknowledgement were taken in.
    pub open spec fn after_signals(self, packet: BbrPacket) -> ModelState {
        (ModelState {
            flow: self.flow.after_update_latest_delivery_signals(),
            ..self
        }).after_update_congestion_signals(packet)
    }

    /// The model after the acknowledgement of `packet`, whose sample it holds.
    pub open spec fn after_update_model_and_state(
        self,
        packet: BbrPacket,
        now: Instant,
    ) -> ModelState {
        let measured = self.after_signals(packet).after_update_ack_aggregation(now);
        ModelState { flow: measured.flow.after_advance(now), ..measured }
    }

    pub open spec fn update_fits(self, packet: BbrPacket, now: Instant) -> bool {
        &&& self.flow.after_update_latest_delivery_signals().update_round_fits(packet)
        &&& self.after_signals(packet).flow.ack_aggregation_fits(now)
        &&& self.after_signals(packet).after_update_ack_aggregation(now).flow.advance_fits(now)
    }

    /// The model and the control parameters after the acknowledgement of `packet`.
    pub open spec fn after_sample(self, packet: BbrPacket, now: Instant) -> ModelState {
        let updated = self.after_update_model_and_state(packet, now);
        ModelState { flow: updated.flow.after_update_control_parameters(), ..updated }
    }

    /// No sum on the way to `after_sample` is out of range.
    pub open spec fn sample_fits(self, packet: BbrPacket, now: Instant) -> bool {
        &&& self.update_fits(packet, now)
        &&& self.after_update_model_and_state(packet, now).flow.control_fits()
    }
}

/// The model of the path.
#[derive(Debug)]
pub struct Model {
    pub flow: Flow,
    pub max_bw_filter: MaxFilter,
    pub extra_acked_filter: MaxFilter,
}

impl Clone for Model {
    fn clone(&self) -> (copy: Model)
        ensures
            copy@ == self@,
            self.wf() ==> copy.wf(),
    {
        Model {
            flow: self.flow,
            max_bw_filter: self.max_bw_filter.clone(),
            extra_acked_filter: self.extra_acked_filter.clone(),
        }
    }
}

impl Model {
    pub open spec fn view(&self) -> ModelState {
        ModelState {
            flow: self.flow,
            bandwidths: self.max_bw_filter@,
            aggregates: self.extra_acked_filter@,
        }
    }

    pub open spec fn wf(&self) -> bool {
        &&& self.flow.wf()
        &&& self.max_bw_filter.window == MAX_BW_FILTER_LEN
        &&& self.extra_acked_filter.window == EXTRA_ACKED_FILTER_LEN
    }

    pub fn update_max_bw(&mut self, packet: BbrPacket)
        requires
            old(self).wf(),
            old(self).flow.update_round_fits(packet),
        ensures
            final(self).wf(),
            final(self)@ == old(self)@.after_update_max_bw(packet),
            old(self).flow.round_count <= final(self).flow.round_count <= old(
                self,
            ).flow.round_count + 1,
    {
        self.flow.update_round(packet);
        if let Some(sample) = self.flow.bandwidth_to_record() {
            self.max_bw_filter.update_max(self.flow.cycle_count, sample);
            let best: u64 = self.max_bw_filter.get_max();
            self.flow = Flow { max_bw: Double::from_u64(best), ..self.flow };
        }
    }

    pub fn update_congestion_signals(&mut self, packet: BbrPacket)
        requires
            old(self).wf(),
            old(self).flow.update_round_fits(packet),
        ensures
            final(self).wf(),
            final(self)@ == old(self)@.after_update_congestion_signals(packet),
            old(self).flow.round_count <= final(self).flow.round_count <= old(
                self,
            ).flow.round_count + 1,
    {
        self.update_max_bw(packet);
        self.flow.close_loss_round();
    }

    pub fn update_ack_aggregation(&mut self, now: Instant)
        requires
            old(self).wf(),
            old(self).flow.ack_aggregation_fits(now),
        ensures
            final(self).wf(),
            final(self)@ == old(self)@.after_update_ack_aggregation(now),
            final(self).flow.round_count == old(self).flow.round_count,
    {
        let extra: u64 = self.flow.measure_aggregation(now);
        if self.flow.full_bw_reached {
            self.extra_acked_filter.update_max(self.flow.round_count, extra);
            let best: u64 = self.extra_acked_filter.get_max();
            self.flow = Flow { extra_acked: best, ..self.flow };
        } else {
            self.flow = Flow { extra_acked: extra, ..self.flow };
        }
    }

    pub fn update_model_and_state(&mut self, packet: BbrPacket, now: Instant)
        requires
            old(self).wf(),
            old(self)@.update_fits(packet, now),
        ensures
            final(self).wf(),
            final(self)@ == old(self)@.after_update_model_and_state(packet, now),
            old(self).flow.round_count <= final(self).flow.round_count <= old(
                self,
            ).flow.round_count + 1,
    {
        self.flow.update_latest_delivery_signals();
        self.update_congestion_signals(packet);
        self.update_ack_aggregation(now);
        self.flow.advance(now);
    }

    /// Takes in the acknowledgement of `packet`, whose sample the model holds.
    pub fn take_sample(&mut self, packet: BbrPacket, now: Instant)
        requires
            old(self).wf(),
            old(self)@.sample_fits(packet, now),
        ensures
            final(self).wf(),
            final(self)@ == old(self)@.after_sample(packet, now),
            old(self).flow.round_count <= final(self).flow.round_count <= old(
                self,
            ).flow.round_count + 1,
    {
        self.update_model_and_state(packet, now);
        self.flow.update_control_parameters();
    }
}

} // verus!
