//! What sends, losses and the ends of rounds of acknowledgements come to.
use crate::bbr3::ControllerState;
use crate::double::Double;
use crate::flow::{BbrState, Flow, ProbeBwSubstate};
use crate::model::ModelState;
use crate::packet::BbrRateSample;
use crate::time::{Duration, Instant};
use vstd::math::*;
use vstd::prelude::*;

verus! {

impl Flow {
    /// `lost` bytes exceed two hundredths of `in_flight` bytes.
    pub open spec fn loss_exceeds(lost: int, in_flight: int) -> bool {
        Double::of(in_flight as nat).product(Double::of_ratio(2, 100)).less(
            Double::of(lost as nat),
        )
    }
}

/// The record of a sent packet holds what the flow had delivered and lost, and what is in
/// flight with the packet; a packet that is sent with nothing else in flight begins a
/// sending interval. A flow that does not restart from idle changes in nothing else.
pub proof fn law_send_is_recorded(s: ControllerState, now: Instant, bytes: u16, pn: u64)
    requires
        s.send_fits(bytes),
    ensures
        ({
            let f = s.model.flow;
            let after = s.after_packet_sent(now, bytes, pn);
            let a = after.model.flow;
            let p = after.packets.last();
            &&& after.packets == s.packets.push(p)
            &&& p.packet_number == pn
            &&& p.size == bytes
            &&& p.send_time == now
            &&& p.lost == f.lost
            &&& p.delivered == f.delivered
            &&& p.tx_in_flight == f.inflight + bytes
            &&& p.round_count == f.round_count
            &&& p.is_app_limited == (f.app_limited != 0)
            &&& !p.acknowledged
            &&& !p.stale
            &&& f.inflight == 0 ==> p.first_send_time == now && p.delivered_time == now
            &&& f.inflight != 0 ==> {
                &&& p.first_send_time == (match f.first_send_time {
                    Some(time) => time,
                    None => now,
                })
                &&& p.delivered_time == (match f.delivered_time {
                    Some(time) => time,
                    None => now,
                })
            }
            &&& a.inflight == f.inflight + bytes
            &&& a.first_send_time == (if f.inflight == 0 {
                Some(now)
            } else {
                f.first_send_time
            })
            &&& a.delivered_time == (if f.inflight == 0 {
                Some(now)
            } else {
                f.delivered_time
            })
            &&& a.lost == f.lost
            &&& a.delivered == f.delivered
            &&& a.rs == f.rs
            &&& a.bw_probe_samples == f.bw_probe_samples
            &&& a.inflight_longterm == f.inflight_longterm
            &&& f.inflight != 0 || f.app_limited == 0 ==> a == (Flow {
                inflight: a.inflight,
                first_send_time: a.first_send_time,
                delivered_time: a.delivered_time,
                ..f
            })
            &&& after.model.bandwidths == s.model.bandwidths
            &&& after.model.aggregates == s.model.aggregates
        }),
{
    reveal(Flow::after_check_probe_rtt_done);
}

/// A flow that restarts from idle begins an aggregation interval. In the probing cycle it is
/// paced at the permitted bandwidth; a measurement whose time is over ends; nothing else
/// changes but what every send changes.
pub proof fn law_restart_changes(s: ControllerState, now: Instant, bytes: u16, pn: u64)
    requires
        s.send_fits(bytes),
        s.model.flow.inflight == 0,
        s.model.flow.app_limited != 0,
    ensures
        ({
            let f = s.model.flow;
            let a = s.after_packet_sent(now, bytes, pn).model.flow;
            let hundred = Double::of(100);
            let rate = Double::of(1).product(f.bw).product(
                hundred.difference(f.pacing_margin_percent),
            ).quotient(hundred);
            let over = f.state == BbrState::ProbeRtt && (f.probe_rtt_done_stamp matches Some(stamp)
                && now.nanos > stamp.nanos);
            let restarted = Flow {
                idle_restart: true,
                extra_acked_interval_start: Some(now),
                inflight: bytes as u64,
                first_send_time: Some(now),
                delivered_time: Some(now),
                ..f
            };
            if over {
                &&& a.cwnd == max(f.cwnd as int, f.prior_cwnd as int)
                &&& a.probe_rtt_min_stamp == Some(now)
                &&& a.unbounded()
                &&& a.state == (if f.full_bw_reached {
                    BbrState::ProbeBw(ProbeBwSubstate::Cruise)
                } else {
                    BbrState::Startup
                })
                &&& a.idle_restart
                &&& a.extra_acked_interval_start == Some(now)
            } else {
                a == (Flow {
                    pacing_rate: if f.state is ProbeBw && (f.full_bw_reached || f.pacing_rate.less(
                        rate,
                    )) {
                        rate
                    } else {
                        f.pacing_rate
                    },
                    ..restarted
                })
            }
        }),
{
    let f = s.model.flow;
    let begun = Flow { idle_restart: true, extra_acked_interval_start: Some(now), ..f };
    if f.state == BbrState::ProbeRtt {
        if f.probe_rtt_done_stamp matches Some(stamp) && now.nanos > stamp.nanos {
            crate::laws::moves::law_measurement_ends(begun, now);
            let ended = begun.after_check_probe_rtt_done(now);
            assert(ended.idle_restart && ended.extra_acked_interval_start == Some(now)) by {
                reveal(Flow::after_check_probe_rtt_done);
            }
        } else {
            crate::laws::moves::law_measurement_goes_on(begun, now);
        }
    }
}

/// A loss that proves spurious begins the search for a full pipe anew and clears the loss round;
/// only a state that is taken up again changes more.
pub proof fn law_undo_changes(f: Flow)
    ensures
        ({
            let a = f.after_undo_loss();
            let up = BbrState::ProbeBw(ProbeBwSubstate::Up);
            let lifted = Flow {
                loss_in_round: false,
                bw_shortterm: f.bw_shortterm.larger(f.undo_bw_shortterm),
                inflight_shortterm: if f.inflight_shortterm >= f.undo_inflight_shortterm {
                    f.inflight_shortterm
                } else {
                    f.undo_inflight_shortterm
                },
                inflight_longterm: if f.inflight_longterm >= f.undo_inflight_longterm {
                    f.inflight_longterm
                } else {
                    f.undo_inflight_longterm
                },
                full_bw: Double { bits: 0 },
                full_bw_count: 0,
                full_bw_now: false,
                ..f
            };
            if f.state == BbrState::ProbeRtt || f.state == f.undo_state {
                a == lifted
            } else if f.undo_state == BbrState::Startup {
                a == (Flow {
                    state: BbrState::Startup,
                    pacing_gain: f.startup_pacing_gain,
                    cwnd_gain: f.default_cwnd_gain,
                    ..lifted
                })
            } else if f.undo_state == up {
                a == lifted.after_start_probe_bw_up()
            } else {
                a == lifted
            }
        }),
{
}

/// A round of acknowledgements takes over the volume in flight. What limits the flow ends
/// with a larger packet number, and goes on with a limited one.
pub proof fn law_end_acks_takes_limits(
    s: ControllerState,
    in_flight: u64,
    app_limited: bool,
    largest: Option<u64>,
)
    ensures
        ({
            let f = s.model.flow;
            let after = s.after_end_acks(in_flight, app_limited, largest);
            let a = after.model.flow;
            &&& a.inflight == in_flight
            &&& a.app_limited == (match largest {
                Some(pn) => if f.app_limited != 0 && pn > f.app_limited {
                    0
                } else if app_limited {
                    max(f.app_limited as int, pn as int)
                } else {
                    f.app_limited as int
                },
                None => f.app_limited as int,
            })
            &&& a == (Flow {
                inflight: a.inflight,
                app_limited: a.app_limited,
                rs: a.rs,
                is_cwnd_limited: a.is_cwnd_limited,
                ..f
            })
            &&& largest is None ==> a.rs == f.rs && a.is_cwnd_limited == f.is_cwnd_limited
                && after.packets == s.packets
            &&& after.model.bandwidths == s.model.bandwidths
            &&& after.model.aggregates == s.model.aggregates
        }),
{
}

/// A sample that a round of acknowledgements closes covers the longer of sending and
/// acknowledging, so that neither is outrun: its rate is what was delivered since the packet
/// was sent over that interval. A sample that is shorter than the minimum round-trip time, or
/// of a packet sent before anything was delivered, is not closed.
pub proof fn law_sample_is_closed(
    s: ControllerState,
    in_flight: u64,
    app_limited: bool,
    largest: u64,
)
    requires
        s.model.flow.rs is Some,
    ensures
        ({
            let f = s.model.flow;
            let r = f.rs->0;
            let a = s.after_end_acks(in_flight, app_limited, Some(largest)).model.flow;
            let c = a.rs->0;
            let length = max(r.send_elapsed.nanos as int, r.ack_elapsed.nanos as int);
            let unknown = f.min_rtt.nanos == u64::MAX * 1_000_000_000;
            &&& a.rs is Some
            &&& if r.prior_delivered != 0 && (length >= f.min_rtt.nanos || unknown) {
                &&& c.interval.nanos >= r.send_elapsed.nanos
                &&& c.interval.nanos >= r.ack_elapsed.nanos
                &&& c.interval == r.send_elapsed || c.interval == r.ack_elapsed
                &&& c.delivered == max(0, f.delivered - r.prior_delivered)
                &&& c.interval.nanos != 0 ==> c.delivery_rate == Double::of(
                    c.delivered as nat,
                ).quotient(c.interval.seconds())
                &&& c.interval.nanos == 0 ==> c.delivery_rate == r.delivery_rate
                &&& c == (BbrRateSample {
                    interval: c.interval,
                    delivered: c.delivered,
                    delivery_rate: c.delivery_rate,
                    newly_acked: 0,
                    newly_lost: 0,
                    lost: 0,
                    ..r
                })
                &&& a.is_cwnd_limited == (f.is_cwnd_limited || c.delivered >= f.cwnd)
            } else {
                c == r && a.is_cwnd_limited == f.is_cwnd_limited
            }
        }),
{
    assert(Duration::of_secs(u64::MAX).nanos == u64::MAX * 1_000_000_000);
}

/// The loss of a logged packet is noted: what it may have to give back is remembered, the
/// first loss begins a loss round, and the packet leaves the log.
pub proof fn law_loss_is_noted(s: ControllerState, lost_bytes: u64, pn: u64, now: Instant, i: int)
    requires
        s.loss_fits(lost_bytes),
        s.logs(pn, i),
        s.model.flow.loss_events_in_round < u64::MAX,
    ensures
        ({
            let f = s.model.flow;
            let after = s.after_packet_lost(lost_bytes, pn, now);
            let a = after.model.flow;
            &&& a.lost == f.lost + lost_bytes
            &&& a.undo_state == f.state
            &&& a.undo_bw_shortterm == f.bw_shortterm
            &&& a.undo_inflight_shortterm == f.inflight_shortterm
            &&& a.undo_inflight_longterm == f.inflight_longterm
            &&& a.loss_round_delivered == (if f.loss_in_round {
                f.loss_round_delivered
            } else {
                f.delivered
            })
            &&& a.loss_in_round || a.state != f.state
            &&& a.loss_events_in_round == f.loss_events_in_round + (if f.last_lost_packet matches Some(
                last,
            ) && last + 1 == pn {
                0int
            } else {
                1
            })
            &&& a.last_lost_packet == Some(pn)
            &&& a.bw_shortterm == f.bw_shortterm
            &&& a.inflight_shortterm == f.inflight_shortterm
            &&& a.delivered == f.delivered
            &&& a.inflight == f.inflight
            &&& a.cwnd == f.cwnd
            &&& a.pacing_rate == f.pacing_rate
            &&& a.max_bw == f.max_bw
            &&& a.min_rtt == f.min_rtt
            &&& after.packets == s.packets.remove(i)
            &&& after.model.bandwidths == s.model.bandwidths
            &&& after.model.aggregates == s.model.aggregates
        }),
{
    crate::packet::lemma_lookup_complete(s.packets, pn, i);
}

/// The loss of a packet that is not in the log is only charged.
pub proof fn law_unknown_loss_is_only_charged(
    s: ControllerState,
    lost_bytes: u64,
    pn: u64,
    now: Instant,
)
    requires
        forall|i: int| 0 <= i < s.packets.len() ==> #[trigger] s.packets[i].packet_number != pn,
    ensures
        ({
            let f = s.model.flow;
            s.after_packet_lost(lost_bytes, pn, now) == (ControllerState {
                model: ModelState {
                    flow: Flow { lost: (f.lost + lost_bytes) as u64, ..f },
                    ..s.model
                },
                packets: s.packets,
            })
        }),
{
    crate::packet::lemma_lookup_sound(s.packets, pn);
}

/// While a probe is sampled, a loss is judged by what was lost since the packet was sent,
/// against two hundredths of what was then in flight. Where that is exceeded the probe ends,
/// and the long-term bound, unless the application limited the packet, becomes the point of
/// the packet at which it was exceeded, or seven tenths of the target. Otherwise, and at any
/// other time, the state and the long-term bound stay.
pub proof fn law_loss_is_judged(s: ControllerState, lost_bytes: u64, pn: u64, now: Instant, i: int)
    requires
        s.loss_fits(lost_bytes),
        s.model.flow.wf(),
        s.logs(pn, i),
    ensures
        ({
            let f = s.model.flow;
            let p = s.packets[i];
            let a = s.after_packet_lost(lost_bytes, pn, now).model.flow;
            let since = max(0, f.lost + lost_bytes - p.lost);
            let up = BbrState::ProbeBw(ProbeBwSubstate::Up);
            if f.bw_probe_samples && f.rs is Some {
                let r = f.rs->0;
                let c = a.rs->0;
                &&& a.rs is Some
                &&& c == (BbrRateSample {
                    newly_lost: c.newly_lost,
                    tx_in_flight: c.tx_in_flight,
                    lost: c.lost,
                    is_app_limited: p.is_app_limited,
                    ..r
                })
                &&& c.newly_lost == r.newly_lost + lost_bytes
                &&& c.lost == since
                &&& if Flow::loss_exceeds(since, p.tx_in_flight as int) {
                    let before = Double::of(max(0, p.tx_in_flight - p.size) as nat);
                    let lost = Double::of(max(0, since - p.size) as nat);
                    let tolerated = Double::of_ratio(2, 100);
                    let point = before.sum(
                        tolerated.product(before).difference(lost).quotient(
                            Double::of(1).difference(tolerated),
                        ),
                    ).truncated();
                    &&& c.tx_in_flight == point
                    &&& !a.bw_probe_samples
                    &&& a.inflight_longterm == (if p.is_app_limited {
                        f.inflight_longterm as int
                    } else {
                        max(
                            point as int,
                            Double::of(min(f.bdp as int, f.cwnd as int) as nat).product(
                                Double::of_ratio(7, 10),
                            ).truncated() as int,
                        )
                    })
                    &&& a.state == (if f.state == up {
                        BbrState::ProbeBw(ProbeBwSubstate::Down)
                    } else {
                        f.state
                    })
                    &&& f.state == up ==> a.cycle_stamp == Some(now) && a.pacing_gain
                        == f.probe_bw_down_pacing_gain && a.cwnd_gain == f.default_cwnd_gain
                } else {
                    &&& c.tx_in_flight == p.tx_in_flight
                    &&& a.bw_probe_samples
                    &&& a.inflight_longterm == f.inflight_longterm
                    &&& a.state == f.state
                    &&& a.pacing_gain == f.pacing_gain
                }
            } else {
                a.rs == f.rs && a.state == f.state && a.inflight_longterm == f.inflight_longterm
                    && a.bw_probe_samples == f.bw_probe_samples && a.pacing_gain == f.pacing_gain
            }
        }),
{
    crate::packet::lemma_lookup_complete(s.packets, pn, i);
}

proof fn lemma_send_is_logged(s: ControllerState, now: Instant, bytes: u16, pn: u64)
    requires
        crate::packet::numbered_in_order(s.packets),
        forall|i: int| 0 <= i < s.packets.len() ==> #[trigger] s.packets[i].packet_number < pn,
    ensures
        s.after_packet_sent(now, bytes, pn).logs(pn, s.packets.len() as int),
{
}

/// A packet that is sent and lost with no other loss in between is charged with its own bytes
/// alone: the probe goes on where these are tolerated, whatever the flow has lost before.
pub proof fn law_lone_loss_is_charged_alone(
    s: ControllerState,
    now: Instant,
    bytes: u16,
    pn: u64,
    lost_bytes: u64,
    later: Instant,
)
    requires
        s.model.flow.wf(),
        s.send_fits(bytes),
        s.loss_fits(lost_bytes),
        s.model.flow.inflight != 0,
        s.model.flow.bw_probe_samples,
        s.model.flow.rs is Some,
        crate::packet::numbered_in_order(s.packets),
        forall|i: int| 0 <= i < s.packets.len() ==> #[trigger] s.packets[i].packet_number < pn,
    ensures
        ({
            let f = s.model.flow;
            let a = s.after_packet_sent(now, bytes, pn).after_packet_lost(
                lost_bytes,
                pn,
                later,
            ).model.flow;
            &&& a.rs is Some
            &&& a.rs->0.lost == lost_bytes
            &&& !Flow::loss_exceeds(lost_bytes as int, f.inflight + bytes) ==> {
                &&& a.state == f.state
                &&& a.inflight_longterm == f.inflight_longterm
                &&& a.bw_probe_samples
            }
            &&& Flow::loss_exceeds(lost_bytes as int, f.inflight + bytes) ==> !a.bw_probe_samples
        }),
{
    law_send_is_recorded(s, now, bytes, pn);
    lemma_send_is_logged(s, now, bytes, pn);
    let sent = s.after_packet_sent(now, bytes, pn);
    assert(sent.packets[s.packets.len() as int] == sent.packets.last());
    assert(sent.model.flow.wf());
    law_loss_is_judged(sent, lost_bytes, pn, later, s.packets.len() as int);
}

/// A packet that is sent and acknowledged with nothing in between reports no loss, and a
/// round-trip time from its send to its acknowledgement.
pub proof fn law_lone_ack_reports_no_loss(
    s: ControllerState,
    now: Instant,
    bytes: u16,
    pn: u64,
    acked: u64,
    later: Instant,
    srtt: Duration,
)
    requires
        s.model.flow.wf(),
        s.send_fits(bytes),
        s.model.flow.count_ack_fits(acked),
        s.model.flow.inflight != 0,
        s.model.flow.rs is Some,
        s.model.flow.newest_of_acked(now, pn),
        crate::packet::numbered_in_order(s.packets),
        forall|i: int| 0 <= i < s.packets.len() ==> #[trigger] s.packets[i].packet_number < pn,
    ensures
        ({
            let f = s.model.flow;
            let a = s.after_packet_sent(now, bytes, pn).after_ack(
                later,
                now,
                acked,
                pn,
                srtt,
            ).model.flow;
            &&& a.rs is Some
            &&& a.rs->0.lost == 0
            &&& a.rs->0.prior_delivered == f.delivered
            &&& a.rs->0.tx_in_flight == f.inflight + bytes
            &&& a.rs->0.rtt.nanos == now.nanos_to(later)
        }),
{
    law_send_is_recorded(s, now, bytes, pn);
    lemma_send_is_logged(s, now, bytes, pn);
    let sent = s.after_packet_sent(now, bytes, pn);
    assert(sent.packets[s.packets.len() as int] == sent.packets.last());
    assert(sent.model.flow.wf());
    crate::laws::acks::law_ack_takes_sample(
        sent,
        later,
        now,
        acked,
        pn,
        srtt,
        s.packets.len() as int,
    );
}

} // verus!
