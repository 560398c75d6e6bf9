//! What an acknowledgement comes to, from the state before it to the state after it.
use crate::bbr3::ControllerState;
use crate::flow::Flow;
use crate::model::ModelState;
use crate::packet::BbrPacket;
use crate::time::{Duration, Instant};
use vstd::prelude::*;

verus! {

impl ControllerState {
    /// Packet `pn` stands at index `i` of a log whose packet numbers rise.
    pub open spec fn logs(self, pn: u64, i: int) -> bool {
        &&& crate::packet::numbered_in_order(self.packets)
        &&& 0 <= i < self.packets.len()
        &&& self.packets[i].packet_number == pn
    }

    /// The model once the acknowledgement of the packet at `i` was sampled, before anything
    /// else is made of it.
    pub open spec fn sampled(self, now: Instant, bytes: u64, i: int, srtt: Duration) -> ModelState {
        ModelState {
            flow: self.model.flow.after_count_ack(bytes, now).after_take_packet(
                BbrPacket { acknowledged: true, ..self.packets[i] },
                bytes,
                srtt,
                now,
            ),
            ..self.model
        }
    }
}

impl Flow {
    /// No acknowledged packet was sent after the one sent at `sent` with number `pn`.
    pub open spec fn newest_of_acked(self, sent: Instant, pn: u64) -> bool {
        match self.rs {
            Some(rs) => match self.first_send_time {
                Some(first) => sent.nanos > first.nanos || pn > rs.last_end_seq,
                None => false,
            },
            None => true,
        }
    }
}

impl Instant {
    /// The whole nanoseconds to `later`, zero where that is earlier.
    pub open spec fn nanos_to(self, later: Instant) -> int {
        if later.nanos >= self.nanos {
            later.nanos - self.nanos
        } else {
            0
        }
    }
}

/// What an acknowledgement measures stays as it is while the state moves on.
pub open spec fn keeps_measures(before: Flow, after: Flow) -> bool {
    &&& after.rs == before.rs
    &&& after.round_count == before.round_count
    &&& after.round_start == before.round_start
    &&& after.delivered == before.delivered
    &&& after.delivered_time == before.delivered_time
    &&& after.lost == before.lost
    &&& after.inflight == before.inflight
    &&& after.app_limited == before.app_limited
    &&& after.srtt == before.srtt
    &&& after.first_send_time == before.first_send_time
    &&& after.max_bw == before.max_bw
    &&& after.extra_acked == before.extra_acked
    &&& after.extra_acked_delivered == before.extra_acked_delivered
    &&& after.extra_acked_interval_start == before.extra_acked_interval_start
    &&& after.loss_round_start == before.loss_round_start
    &&& after.loss_round_delivered == before.loss_round_delivered
    &&& after.smss == before.smss
    &&& after.min_pipe_cwnd == before.min_pipe_cwnd
    &&& after.initial_cwnd == before.initial_cwnd
    &&& after.ack_eliciting_threshold == before.ack_eliciting_threshold
    &&& after.max_ack_delay == before.max_ack_delay
    &&& after.pacing_margin_percent == before.pacing_margin_percent
}

/// The parts of `after_advance`, one after another.
pub proof fn lemma_advance_parts(f: Flow, now: Instant) -> (r: (Flow, Flow, Flow, Flow))
    ensures
        r.0 == f.after_check_full_bw_reached().after_check_startup_done().after_check_drain_done(now),
        r.1 == r.0.after_update_probe_bw_cycle_phase(now),
        r.2 == r.1.after_update_min_rtt(now),
        r.3 == r.2.after_check_probe_rtt(now),
        f.after_advance(now)
            == r.3.after_advance_latest_delivery_signals().after_bound_bw_for_model(),
{
    reveal(Flow::after_advance);
    let a = f.before_cycle(now);
    let b = a.after_update_probe_bw_cycle_phase(now);
    let c = b.after_update_min_rtt(now);
    (a, b, c, c.after_check_probe_rtt(now))
}

proof fn lemma_before_cycle_keeps(f: Flow, now: Instant)
    ensures
        keeps_measures(
            f,
            f.after_check_full_bw_reached().after_check_startup_done().after_check_drain_done(now),
        ),
{
    let a = f.after_check_full_bw_reached();
    let b = a.after_check_startup_done();
    crate::laws::frames::law_full_pipe_changes(f);
    crate::laws::frames::law_startup_end_changes(a);
    crate::laws::frames::law_drain_end_changes(b, now);
}

/// The state machine leaves alone what the acknowledgement has measured.
pub proof fn law_advance_keeps_measures(f: Flow, now: Instant)
    ensures
        keeps_measures(f, f.after_advance(now)),
{
    let (a, b, c, d) = lemma_advance_parts(f, now);
    lemma_before_cycle_keeps(f, now);
    assert(keeps_measures(a, b)) by {
        crate::laws::frames::law_cycle_changes(a, now);
    }
    assert(keeps_measures(b, c)) by {
        crate::laws::frames::law_min_rtt_changes(b, now);
    }
    assert(keeps_measures(c, d)) by {
        crate::laws::frames::law_measurement_changes(c, now);
    }
    assert(keeps_measures(d, f.after_advance(now)));
}

/// The control parameters leave alone what the acknowledgement has measured.
pub proof fn law_control_keeps_measures(f: Flow)
    ensures
        keeps_measures(f, f.after_update_control_parameters()),
{
    crate::laws::frames::law_control_changes(f);
}

pub proof fn lemma_ack_path(
    s: ControllerState,
    now: Instant,
    sent: Instant,
    bytes: u64,
    pn: u64,
    srtt: Duration,
    i: int,
)
    requires
        s.logs(pn, i),
        s.model.flow.newest_of_acked(sent, pn),
    ensures
        s.after_ack(now, sent, bytes, pn, srtt).model == s.sampled(now, bytes, i, srtt).after_sample(BbrPacket { acknowledged: true, ..s.packets[i] }, now),
{
    crate::packet::lemma_lookup_complete(s.packets, pn, i);
}

/// The acknowledgement of the newest packet takes a sample of it: how long sending and
/// acknowledging took, what was lost since it was sent, and how long it was on its way.
/// The smoothed round-trip time stands in for the last only where there was no sample
/// before.
pub proof fn law_ack_takes_sample(
    s: ControllerState,
    now: Instant,
    sent: Instant,
    bytes: u64,
    pn: u64,
    srtt: Duration,
    i: int,
)
    requires
        s.model.flow.count_ack_fits(bytes),
        s.model.flow.wf(),
        s.logs(pn, i),
        s.model.flow.newest_of_acked(sent, pn),
    ensures
        ({
            let f = s.model.flow;
            let p = s.packets[i];
            let a = s.after_ack(now, sent, bytes, pn, srtt).model.flow;
            let r = a.rs->0;
            &&& a.rs is Some
            &&& r.prior_delivered == p.delivered
            &&& r.prior_time == p.delivered_time
            &&& r.is_app_limited == p.is_app_limited
            &&& r.tx_in_flight == p.tx_in_flight
            &&& r.lost == (if f.lost >= p.lost {
                f.lost - p.lost
            } else {
                0
            })
            &&& r.send_elapsed.nanos == p.first_send_time.nanos_to(p.send_time)
            &&& r.ack_elapsed.nanos == p.delivered_time.nanos_to(now)
            &&& r.last_end_seq == pn
            &&& r.last_packet == (BbrPacket { acknowledged: true, ..p })
            &&& match f.rs {
                Some(earlier) => {
                    &&& r.rtt.nanos == p.send_time.nanos_to(now)
                    &&& r.newly_acked == earlier.newly_acked + bytes
                    &&& r.newly_lost == earlier.newly_lost
                    &&& r.delivery_rate == earlier.delivery_rate
                    &&& r.interval == earlier.interval
                    &&& r.delivered == earlier.delivered
                },
                None => {
                    &&& r.rtt == srtt
                    &&& r.newly_acked == bytes
                    &&& r.newly_lost == 0
                    &&& r.delivery_rate.bits == 0
                    &&& r.interval.nanos == 0
                    &&& r.delivered == 0
                },
            }
            &&& a.first_send_time == Some(p.send_time)
            &&& a.srtt == srtt
            &&& a.delivered == f.delivered + bytes
            &&& a.delivered_time == Some(now)
            &&& a.lost == f.lost
            &&& a.inflight == f.inflight
            &&& a.app_limited == f.app_limited
            &&& s.after_ack(now, sent, bytes, pn, srtt).packets == s.packets.update(
                i,
                BbrPacket { acknowledged: true, ..p },
            )
        }),
{
    lemma_ack_path(s, now, sent, bytes, pn, srtt, i);
    crate::packet::lemma_lookup_complete(s.packets, pn, i);
    let p = BbrPacket { acknowledged: true, ..s.packets[i] };
    let m = s.sampled(now, bytes, i, srtt);
    crate::laws::frames::law_signals_change(m, p);
    let signalled = m.after_signals(p);
    crate::laws::frames::law_aggregation_changes(signalled, now);
    let measured = signalled.after_update_ack_aggregation(now);
    law_advance_keeps_measures(measured.flow, now);
    law_control_keeps_measures(measured.flow.after_advance(now));
}

/// The acknowledgement of a packet that is not the newest is counted, and changes nothing
/// else but the mark in the log.
pub proof fn law_older_ack_is_only_counted(
    s: ControllerState,
    now: Instant,
    sent: Instant,
    bytes: u64,
    pn: u64,
    srtt: Duration,
    i: int,
)
    requires
        s.logs(pn, i),
        !s.model.flow.newest_of_acked(sent, pn),
    ensures
        ({
            let f = s.model.flow;
            let rs = f.rs->0;
            s.after_ack(now, sent, bytes, pn, srtt) == (ControllerState {
                model: ModelState {
                    flow: Flow {
                        delivered: (f.delivered + bytes) as u64,
                        delivered_time: Some(now),
                        rs: Some(
                            crate::packet::BbrRateSample {
                                newly_acked: (rs.newly_acked + bytes) as u64,
                                ..rs
                            },
                        ),
                        ..f
                    },
                    ..s.model
                },
                packets: s.packets.update(i, BbrPacket { acknowledged: true, ..s.packets[i] }),
            })
        }),
{
    crate::packet::lemma_lookup_complete(s.packets, pn, i);
}

/// The acknowledgement of a packet that is not in the log is only counted.
pub proof fn law_unknown_ack_is_only_counted(
    s: ControllerState,
    now: Instant,
    sent: Instant,
    bytes: u64,
    pn: u64,
    srtt: Duration,
)
    requires
        forall|i: int| 0 <= i < s.packets.len() ==> #[trigger] s.packets[i].packet_number != pn,
    ensures
        ({
            let f = s.model.flow;
            s.after_ack(now, sent, bytes, pn, srtt) == (ControllerState {
                model: ModelState {
                    flow: Flow {
                        delivered: (f.delivered + bytes) as u64,
                        delivered_time: Some(now),
                        rs: match f.rs {
                            Some(rs) => Some(
                                crate::packet::BbrRateSample {
                                    newly_acked: (rs.newly_acked + bytes) as u64,
                                    ..rs
                                },
                            ),
                            None => None,
                        },
                        ..f
                    },
                    ..s.model
                },
                packets: s.packets,
            })
        }),
{
    crate::packet::lemma_lookup_sound(s.packets, pn);
}

} // verus!
