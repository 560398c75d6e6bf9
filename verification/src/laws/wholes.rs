//! An acknowledgement as a whole: how loss is answered, when the short-term bounds are
//! lifted, what becomes of the round-trip time, and what the window and the pacing rate
//! follow.
use crate::bbr3::ControllerState;
use crate::double::Double;
use crate::flow::{BbrState, Flow, ProbeBwSubstate};
use crate::model::ModelState;
use crate::packet::BbrPacket;
use crate::rounding::INFINITE;
use crate::time::{Duration, Instant};
use vstd::math::*;
use vstd::prelude::*;

verus! {

impl ControllerState {
    /// The acknowledgement of packet `pn`, at index `i` of the log, is sampled.
    pub open spec fn samples(
        self,
        now: Instant,
        sent: Instant,
        bytes: u64,
        pn: u64,
        srtt: Duration,
        i: int,
    ) -> bool {
        &&& self.model.flow.wf()
        &&& self.ack_fits(now, sent, bytes, pn, srtt)
        &&& self.logs(pn, i)
        &&& self.model.flow.newest_of_acked(sent, pn)
    }

    /// The model once the signals of the acknowledgement at `i` were taken in.
    pub open spec fn signalled(self, now: Instant, bytes: u64, i: int, srtt: Duration) -> ModelState {
        self.sampled(now, bytes, i, srtt).after_signals(
            BbrPacket { acknowledged: true, ..self.packets[i] },
        )
    }
}

/// An acknowledgement is taken in step by step: its signals, the aggregation, the state
/// machine, and the control parameters.
pub proof fn law_ack_is_taken_in(
    s: ControllerState,
    now: Instant,
    sent: Instant,
    bytes: u64,
    pn: u64,
    srtt: Duration,
    i: int,
)
    requires
        s.logs(pn, i),
        s.model.flow.newest_of_acked(sent, pn),
    ensures
        ({
            let measured = s.signalled(now, bytes, i, srtt).after_update_ack_aggregation(now);
            let after = s.after_ack(now, sent, bytes, pn, srtt).model;
            &&& after.flow == measured.flow.after_advance(now).after_update_control_parameters()
            &&& after.bandwidths == measured.bandwidths
            &&& after.aggregates == measured.aggregates
        }),
{
    crate::laws::acks::lemma_ack_path(s, now, sent, bytes, pn, srtt, i);
}

proof fn lemma_sampled(s: ControllerState, now: Instant, bytes: u64, i: int, srtt: Duration)
    ensures
        ({
            let f = s.model.flow;
            let p = s.packets[i];
            let h = s.sampled(now, bytes, i, srtt).flow;
            let r = h.rs->0;
            &&& h.rs is Some
            &&& r.prior_delivered == p.delivered
            &&& f.rs matches Some(earlier) ==> {
                &&& r.rtt.nanos == p.send_time.nanos_to(now)
                &&& r.delivery_rate == earlier.delivery_rate
                &&& r.delivered == earlier.delivered
            }
            &&& f.rs is None ==> r.rtt == srtt && r.delivery_rate.bits == 0 && r.delivered == 0
            &&& h == (Flow {
                rs: h.rs,
                delivered: h.delivered,
                delivered_time: h.delivered_time,
                first_send_time: h.first_send_time,
                srtt: h.srtt,
                ..f
            })
        }),
{
}

/// What the cycle makes of the short-term bounds: a move to a refill lifts them, nothing else
/// touches them.
pub proof fn law_cycle_lifts_bounds(f: Flow, now: Instant)
    ensures
        ({
            let g = f.after_update_probe_bw_cycle_phase(now);
            let refills = g.state == BbrState::ProbeBw(ProbeBwSubstate::Refill) && f.state
                != g.state;
            &&& refills ==> g.bw_shortterm.bits == 0x7FF0_0000_0000_0000 && g.inflight_shortterm
                == u64::MAX
            &&& !refills ==> g.bw_shortterm == f.bw_shortterm && g.inflight_shortterm
                == f.inflight_shortterm
            &&& !f.loss_in_round ==> !g.loss_in_round
        }),
{
    crate::laws::moves::law_no_cycle_before_full_pipe(f, now);
    if f.full_bw_reached {
        let h = f.after_adapt_long_term_model();
        crate::laws::frames::law_long_term_changes(f);
        let g = h.after_next_phase(now);
        match h.state {
            BbrState::ProbeBw(ProbeBwSubstate::Down) => {
                crate::laws::moves::law_down_ends(h, now);
            },
            BbrState::ProbeBw(ProbeBwSubstate::Cruise) => {
                crate::laws::moves::law_cruise_ends(h, now);
            },
            BbrState::ProbeBw(ProbeBwSubstate::Refill) => {
                crate::laws::moves::law_refill_ends(h, now);
                let probing = Flow { bw_probe_samples: true, ..h };
                crate::laws::frames::law_up_changes(probing);
                assert(probing.after_start_probe_bw_up().state == BbrState::ProbeBw(
                    ProbeBwSubstate::Up,
                ));
            },
            BbrState::ProbeBw(ProbeBwSubstate::Up) => {
                crate::laws::moves::law_up_ends(h, now);
                crate::laws::frames::law_down_changes(h, now);
                crate::laws::moves::law_down_begins(h, now);
            },
            _ => {
                crate::laws::moves::law_no_cycle_before_full_pipe(h, now);
                assert(g == h);
            },
        }
    }
}

/// The end of a measurement lifts the short-term bounds; nothing else about one touches them.
proof fn lemma_measurement_bounds(f: Flow, now: Instant)
    ensures
        ({
            let g = f.after_check_probe_rtt(now);
            let ends = f.state == BbrState::ProbeRtt && g.state != BbrState::ProbeRtt;
            &&& ends ==> g.bw_shortterm.bits == 0x7FF0_0000_0000_0000 && g.inflight_shortterm
                == u64::MAX
            &&& !ends ==> g.bw_shortterm == f.bw_shortterm && g.inflight_shortterm
                == f.inflight_shortterm
            &&& !f.loss_in_round ==> !g.loss_in_round
            &&& g.state == BbrState::ProbeBw(ProbeBwSubstate::Refill) ==> f.state == g.state
            &&& f.state != BbrState::ProbeRtt && g.state != BbrState::ProbeRtt ==> g.state
                == f.state
        }),
{
    if f.state != BbrState::ProbeRtt {
        crate::laws::outcomes::law_measurement_is_begun(f, now);
    } else if f.probe_rtt_done_stamp is None {
        crate::laws::outcomes::law_measurement_is_armed(f, now);
    } else {
        crate::laws::outcomes::law_measurement_is_ended(f, now);
        if (f.round_start || f.probe_rtt_round_done) && now.nanos
            > f.probe_rtt_done_stamp->0.nanos {
            reveal(Flow::after_check_probe_rtt);
            reveal(Flow::after_note_delivery);
            reveal(Flow::after_wait_probe_rtt);
            reveal(Flow::after_check_probe_rtt_done);
        }
    }
}

proof fn lemma_before_cycle_bounds(f: Flow, now: Instant)
    ensures
        ({
            let g =
                f.after_check_full_bw_reached().after_check_startup_done().after_check_drain_done(
                now,
            );
            &&& g.bw_shortterm == f.bw_shortterm
            &&& g.inflight_shortterm == f.inflight_shortterm
            &&& !f.loss_in_round ==> !g.loss_in_round
            &&& g.state == f.state || g.state is Drain || g.state == BbrState::ProbeBw(
                ProbeBwSubstate::Down,
            )
            &&& f.state == BbrState::ProbeRtt ==> g.state == f.state
            &&& f.state is ProbeBw ==> g.state == f.state
            &&& g.pacing_rate == f.pacing_rate
            &&& g.min_rtt == f.min_rtt
            &&& g.min_rtt_stamp == f.min_rtt_stamp
            &&& g.probe_rtt_min_delay == f.probe_rtt_min_delay
            &&& g.probe_rtt_min_stamp == f.probe_rtt_min_stamp
            &&& g.probe_rtt_interval == f.probe_rtt_interval
            &&& g.rs == f.rs
        }),
{
    let a = f.after_check_full_bw_reached();
    let b = a.after_check_startup_done();
    crate::laws::frames::law_full_pipe_changes(f);
    crate::laws::frames::law_startup_end_changes(a);
    crate::laws::frames::law_drain_end_changes(b, now);
    assert(b.state == a.state || (a.state == BbrState::Startup && b.state == BbrState::Drain)) by {
        reveal(Flow::after_check_startup_done);
    }
    crate::laws::outcomes::law_drain_gives_way(b, now);
}

/// Through the state machine, the short-term bounds are lifted by a move to a refill and by the
/// end of a measurement of the round-trip time, and stay as they are otherwise. What is
/// permitted is the smaller of the largest bandwidth and the short-term one.
pub proof fn law_advance_bounds(f: Flow, now: Instant)
    ensures
        ({
            let g = f.after_advance(now);
            let refill = BbrState::ProbeBw(ProbeBwSubstate::Refill);
            &&& g.bw == g.max_bw.smaller(g.bw_shortterm)
            &&& !f.loss_in_round ==> !g.loss_in_round
            &&& g.state == refill && f.state != refill ==> g.bw_shortterm.bits
                == 0x7FF0_0000_0000_0000 && g.inflight_shortterm == u64::MAX
            &&& f.state == BbrState::ProbeRtt && g.state != BbrState::ProbeRtt ==> g.bw_shortterm.bits
                == 0x7FF0_0000_0000_0000 && g.inflight_shortterm == u64::MAX
            &&& (g.state != refill && g.state != BbrState::ProbeRtt && f.state
                != BbrState::ProbeRtt) || (f.state == BbrState::ProbeRtt && g.state
                == BbrState::ProbeRtt) ==> g.bw_shortterm == f.bw_shortterm && g.inflight_shortterm
                == f.inflight_shortterm
            &&& (g.bw_shortterm == f.bw_shortterm && g.inflight_shortterm == f.inflight_shortterm)
                || (g.bw_shortterm.bits == 0x7FF0_0000_0000_0000 && g.inflight_shortterm
                == u64::MAX)
        }),
{
    let (a, b, c, d) = crate::laws::acks::lemma_advance_parts(f, now);
    lemma_before_cycle_bounds(f, now);
    law_cycle_lifts_bounds(a, now);
    assert(b.state == a.state || (a.state is ProbeBw && b.state is ProbeBw)) by {
        crate::laws::moves::law_no_cycle_before_full_pipe(a, now);
        if a.full_bw_reached {
            crate::laws::probing::law_phases_follow(a, now);
        }
    }
    crate::laws::frames::law_min_rtt_changes(b, now);
    lemma_measurement_bounds(c, now);
    crate::laws::outcomes::law_permitted_bandwidth_follows(d);
}

/// An acknowledgement that ends a round trip with loss answers it: the short-term bounds are
/// seven tenths of the earlier ones, of the largest bandwidth and the window where there were
/// none, though not below the latest deliveries. They stand after the acknowledgement, unless
/// it moves the flow to a refill or ends a measurement of the round-trip time. The window is
/// within the short-term volume, and the permitted bandwidth within the short-term one.
pub proof fn law_ack_answers_loss(
    s: ControllerState,
    now: Instant,
    sent: Instant,
    bytes: u64,
    pn: u64,
    srtt: Duration,
    i: int,
)
    requires
        s.samples(now, sent, bytes, pn, srtt, i),
        s.packets[i].delivered >= s.model.flow.loss_round_delivered,
        s.model.flow.loss_in_round,
        s.model.flow.state.heeds_loss(),
    ensures
        ({
            let f = s.model.flow;
            let g = s.signalled(now, bytes, i, srtt).flow;
            let a = s.after_ack(now, sent, bytes, pn, srtt).model.flow;
            let latest_rate = match f.rs {
                Some(rs) => rs.delivery_rate,
                None => Double { bits: 0 },
            };
            let latest_volume = match f.rs {
                Some(rs) => rs.delivered,
                None => 0,
            };
            let seven_tenths = Double::of_ratio(7, 10);
            let bw = f.bw_latest.larger(latest_rate).larger(
                seven_tenths.product(
                    if f.bw_shortterm.bits == 0x7FF0_0000_0000_0000 {
                        a.max_bw
                    } else {
                        f.bw_shortterm
                    },
                ),
            );
            let volume = max(
                max(f.inflight_latest as int, latest_volume as int),
                seven_tenths.product(
                    Double::of(
                        (if f.inflight_shortterm == u64::MAX {
                            f.cwnd
                        } else {
                            f.inflight_shortterm
                        }) as nat,
                    ),
                ).truncated() as int,
            );
            let refill = BbrState::ProbeBw(ProbeBwSubstate::Refill);
            &&& g.bw_shortterm == bw
            &&& g.inflight_shortterm == volume
            &&& !g.loss_in_round
            &&& !a.loss_in_round
            &&& a.state != refill && a.state != BbrState::ProbeRtt && f.state
                != BbrState::ProbeRtt ==> a.bw_shortterm == bw && a.inflight_shortterm == volume
            &&& f.state == BbrState::ProbeRtt && a.state == BbrState::ProbeRtt ==> a.bw_shortterm
                == bw && a.inflight_shortterm == volume
            &&& (a.bw_shortterm == bw && a.inflight_shortterm == volume) || (a.bw_shortterm.bits
                == 0x7FF0_0000_0000_0000 && a.inflight_shortterm == u64::MAX)
            &&& a.bw == a.max_bw.smaller(a.bw_shortterm)
            &&& a.cwnd <= max(a.inflight_shortterm as int, a.min_pipe_cwnd as int)
        }),
{
    let p = BbrPacket { acknowledged: true, ..s.packets[i] };
    let m = s.sampled(now, bytes, i, srtt);
    law_ack_is_taken_in(s, now, sent, bytes, pn, srtt, i);
    lemma_sampled(s, now, bytes, i, srtt);
    crate::laws::answers::law_loss_lowers_bounds(m, p);
    crate::laws::frames::law_signals_change(m, p);
    let signalled = m.after_signals(p);
    crate::laws::frames::law_aggregation_changes(signalled, now);
    let measured = signalled.after_update_ack_aggregation(now).flow;
    law_advance_bounds(measured, now);
    crate::laws::acks::law_advance_keeps_measures(measured, now);
    let advanced = measured.after_advance(now);
    law_control_follows(advanced);
}

/// The control parameters leave the model alone; the window is within the short-term volume and
/// at least the smallest, and the pacing rate follows the permitted bandwidth.
pub proof fn law_control_follows(f: Flow)
    ensures
        ({
            let g = f.after_update_control_parameters();
            let hundred = Double::of(100);
            let rate = g.pacing_gain.product(g.bw).product(
                hundred.difference(g.pacing_margin_percent),
            ).quotient(hundred);
            &&& g.bw == f.bw
            &&& g.bw_shortterm == f.bw_shortterm
            &&& g.inflight_shortterm == f.inflight_shortterm
            &&& g.max_bw == f.max_bw
            &&& g.state == f.state
            &&& g.loss_in_round == f.loss_in_round
            &&& g.min_rtt == f.min_rtt
            &&& g.min_rtt_stamp == f.min_rtt_stamp
            &&& g.probe_rtt_min_delay == f.probe_rtt_min_delay
            &&& g.rs == f.rs
            &&& g.min_pipe_cwnd == f.min_pipe_cwnd
            &&& g.cwnd >= f.min_pipe_cwnd
            &&& g.cwnd <= max(f.inflight_shortterm as int, f.min_pipe_cwnd as int)
            &&& f.state is ProbeBw ==> g.cwnd <= max(
                f.inflight_longterm as int,
                f.min_pipe_cwnd as int,
            )
            &&& g.pacing_rate == (if g.full_bw_reached || f.pacing_rate.less(rate) {
                rate
            } else {
                f.pacing_rate
            })
        }),
{
    crate::laws::frames::law_control_changes(f);
    crate::laws::outcomes::law_rate_and_burst(f);
    crate::laws::outcomes::law_control_sets_window(f);
    let g = f.after_update_control_parameters();
    crate::laws::window::law_window_bounds(
        Flow { pacing_rate: g.pacing_rate, send_quantum: g.send_quantum, ..f },
    );
}

proof fn lemma_no_bound_is_largest(d: Double)
    requires
        !d.nan(),
    ensures
        d.smaller(Double { bits: 0x7FF0_0000_0000_0000 }) == d,
{
    reveal(Double::less);
    let top = Double { bits: 0x7FF0_0000_0000_0000 };
    if d.magnitude() < INFINITE {
        crate::rounding::lemma_units_increase(d.magnitude(), INFINITE as nat);
    }
    assert(top.magnitude() == INFINITE);
    assert(d.signed_units() <= top.signed_units());
}

/// An acknowledgement that moves the flow to a refill leaves no short-term bound behind, so
/// that the largest bandwidth is permitted, and paced, until the probe.
pub proof fn law_refill_lifts_bounds(
    s: ControllerState,
    now: Instant,
    sent: Instant,
    bytes: u64,
    pn: u64,
    srtt: Duration,
    i: int,
)
    requires
        s.samples(now, sent, bytes, pn, srtt, i),
        s.model.flow.state != BbrState::ProbeBw(ProbeBwSubstate::Refill),
        s.after_ack(now, sent, bytes, pn, srtt).model.flow.state == BbrState::ProbeBw(
            ProbeBwSubstate::Refill,
        ),
    ensures
        ({
            let a = s.after_ack(now, sent, bytes, pn, srtt).model.flow;
            &&& a.bw_shortterm.bits == 0x7FF0_0000_0000_0000
            &&& a.inflight_shortterm == u64::MAX
            &&& !a.max_bw.nan() ==> a.bw == a.max_bw
        }),
{
    let p = BbrPacket { acknowledged: true, ..s.packets[i] };
    let m = s.sampled(now, bytes, i, srtt);
    law_ack_is_taken_in(s, now, sent, bytes, pn, srtt, i);
    lemma_sampled(s, now, bytes, i, srtt);
    crate::laws::frames::law_signals_change(m, p);
    let signalled = m.after_signals(p);
    crate::laws::frames::law_aggregation_changes(signalled, now);
    let measured = signalled.after_update_ack_aggregation(now).flow;
    law_advance_bounds(measured, now);
    let advanced = measured.after_advance(now);
    law_control_follows(advanced);
    let a = s.after_ack(now, sent, bytes, pn, srtt).model.flow;
    if !a.max_bw.nan() {
        lemma_no_bound_is_largest(a.max_bw);
    }
}

/// The acknowledgement of the newest packet, by a flow that holds a sample already, measures
/// the time from its send to its acknowledgement. The minimum round-trip time follows it
/// downwards at once, and upwards where it is out of date. The smoothed round-trip time plays
/// no part.
pub proof fn law_ack_measures_round_trip(
    s: ControllerState,
    now: Instant,
    sent: Instant,
    bytes: u64,
    pn: u64,
    srtt: Duration,
    i: int,
)
    requires
        s.samples(now, sent, bytes, pn, srtt, i),
        s.model.flow.rs is Some,
    ensures
        ({
            let f = s.model.flow;
            let a = s.after_ack(now, sent, bytes, pn, srtt).model.flow;
            let rtt = s.packets[i].send_time.nanos_to(now);
            let taken = rtt < f.probe_rtt_min_delay.nanos || f.measurement_due(now);
            let delay = if taken {
                rtt
            } else {
                f.probe_rtt_min_delay.nanos as int
            };
            let follows = delay < f.min_rtt.nanos || f.min_rtt_old(now);
            &&& a.rs is Some
            &&& a.rs->0.rtt.nanos == rtt
            &&& a.probe_rtt_min_delay.nanos == delay
            &&& a.min_rtt.nanos == (if follows {
                delay
            } else {
                f.min_rtt.nanos as int
            })
            &&& a.min_rtt.nanos <= rtt
            &&& a.min_rtt_stamp == (if !follows {
                f.min_rtt_stamp
            } else if taken {
                Some(now)
            } else {
                f.probe_rtt_min_stamp
            })
        }),
{
    let p = BbrPacket { acknowledged: true, ..s.packets[i] };
    let m = s.sampled(now, bytes, i, srtt);
    law_ack_is_taken_in(s, now, sent, bytes, pn, srtt, i);
    lemma_sampled(s, now, bytes, i, srtt);
    crate::laws::frames::law_signals_change(m, p);
    let signalled = m.after_signals(p);
    crate::laws::frames::law_aggregation_changes(signalled, now);
    let measured = signalled.after_update_ack_aggregation(now).flow;
    let (a, b, c, d) = crate::laws::acks::lemma_advance_parts(measured, now);
    lemma_before_cycle_bounds(measured, now);
    crate::laws::frames::law_cycle_changes(a, now);
    crate::laws::outcomes::law_round_trip_times(b, now);
    crate::laws::frames::law_min_rtt_changes(b, now);
    crate::laws::frames::law_measurement_changes(c, now);
    crate::laws::outcomes::law_permitted_bandwidth_follows(d);
    law_control_follows(measured.after_advance(now));
}

/// The smoothed round-trip time decides nothing of a sample but for the first: two
/// acknowledgements that differ in it alone measure alike.
pub proof fn law_smoothed_time_decides_nothing(
    s: ControllerState,
    now: Instant,
    sent: Instant,
    bytes: u64,
    pn: u64,
    one: Duration,
    other: Duration,
    i: int,
)
    requires
        s.samples(now, sent, bytes, pn, one, i),
        s.samples(now, sent, bytes, pn, other, i),
        s.model.flow.rs is Some,
    ensures
        ({
            let a = s.after_ack(now, sent, bytes, pn, one).model.flow;
            let b = s.after_ack(now, sent, bytes, pn, other).model.flow;
            &&& a.rs is Some
            &&& b.rs is Some
            &&& a.rs->0.rtt == b.rs->0.rtt
            &&& a.min_rtt == b.min_rtt
            &&& a.min_rtt_stamp == b.min_rtt_stamp
            &&& a.probe_rtt_min_delay == b.probe_rtt_min_delay
        }),
{
    law_ack_measures_round_trip(s, now, sent, bytes, pn, one, i);
    law_ack_measures_round_trip(s, now, sent, bytes, pn, other, i);
}

} // verus!
