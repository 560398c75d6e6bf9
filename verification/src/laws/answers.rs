//! How an acknowledgement ends round trips and loss rounds, and answers what was lost.
use crate::double::Double;
use crate::flow::{BbrState, Flow, ProbeBwSubstate};
use crate::model::ModelState;
use crate::packet::BbrPacket;
use crate::time::{Duration, Instant};
use vstd::math::*;
use vstd::prelude::*;

verus! {

impl BbrState {
    /// The states in which a flow answers loss: it is not looking for more bandwidth.
    pub open spec fn heeds_loss(self) -> bool {
        match self {
            BbrState::Startup => false,
            BbrState::Drain => true,
            BbrState::ProbeBw(ProbeBwSubstate::Down) => true,
            BbrState::ProbeBw(ProbeBwSubstate::Cruise) => true,
            BbrState::ProbeBw(ProbeBwSubstate::Refill) => false,
            BbrState::ProbeBw(ProbeBwSubstate::Up) => false,
            BbrState::ProbeRtt => true,
        }
    }
}

/// A packet that was sent after the round trip began ends it. A packet that was sent after
/// the loss round began ends that.
pub proof fn law_signals_end_rounds(m: ModelState, packet: BbrPacket)
    requires
        m.flow.rs is Some,
        m.flow.round_count < u64::MAX,
        m.flow.rounds_since_bw_probe < u64::MAX,
    ensures
        ({
            let f = m.flow;
            let r = f.rs->0;
            let g = m.after_signals(packet).flow;
            let ends: int = if packet.delivered >= f.next_round_delivered {
                1
            } else {
                0
            };
            &&& g.round_count == f.round_count + ends
            &&& g.rounds_since_bw_probe == f.rounds_since_bw_probe + ends
            &&& g.round_start == (ends == 1)
            &&& g.next_round_delivered == (if ends == 1 {
                f.delivered
            } else {
                f.next_round_delivered
            })
            &&& g.is_cwnd_limited == (f.is_cwnd_limited && ends == 0)
            &&& g.loss_round_start == (r.prior_delivered >= f.loss_round_delivered)
            &&& g.loss_round_delivered == (if g.loss_round_start {
                f.delivered
            } else {
                f.loss_round_delivered
            })
            &&& g.inflight_latest == max(f.inflight_latest as int, r.delivered as int)
            &&& g.bw_latest == f.bw_latest.larger(r.delivery_rate)
            &&& g.loss_in_round == (f.loss_in_round && !g.loss_round_start)
        }),
{
    let latest = m.flow.after_update_latest_delivery_signals();
    crate::laws::frames::law_latest_delivery_changes(m.flow);
    crate::laws::frames::law_round_changes(latest, packet);
    let rounded = ModelState { flow: latest.after_update_round(packet), ..m };
    crate::laws::frames::law_bandwidth_record_changes(rounded);
    let recorded = rounded.after_record_bandwidth();
    crate::laws::frames::law_loss_round_end_changes(recorded.flow);
    assert(latest.loss_round_start == (m.flow.rs->0.prior_delivered
        >= m.flow.loss_round_delivered)) by {
        reveal(Flow::after_update_latest_delivery_signals);
    }
    assert(latest.loss_round_delivered == (if latest.loss_round_start {
        m.flow.delivered
    } else {
        m.flow.loss_round_delivered
    })) by {
        reveal(Flow::after_update_latest_delivery_signals);
    }
    assert(latest.bw_latest == m.flow.bw_latest.larger(m.flow.rs->0.delivery_rate)
        && latest.inflight_latest == max(
        m.flow.inflight_latest as int,
        m.flow.rs->0.delivered as int,
    )) by {
        reveal(Flow::after_update_latest_delivery_signals);
    }
    reveal(Flow::after_update_round);
    assert(recorded.flow.after_close_loss_round().loss_in_round == (recorded.flow.loss_in_round
        && !recorded.flow.loss_round_start)) by {
        reveal(Flow::after_close_loss_round);
    }
}

/// At the end of a round trip with loss, a flow that is not looking for more bandwidth
/// lowers its short-term bounds to seven tenths, though not below what was just
/// delivered; where there were none they begin at the largest bandwidth and the window.
/// At any other time the short-term bounds stay.
pub proof fn law_loss_lowers_bounds(m: ModelState, packet: BbrPacket)
    requires
        m.flow.rs is Some,
    ensures
        ({
            let f = m.flow;
            let r = f.rs->0;
            let g = m.after_signals(packet).flow;
            let unbounded = Double { bits: 0x7FF0_0000_0000_0000 };
            if r.prior_delivered >= f.loss_round_delivered && f.loss_in_round && f.state.heeds_loss() {
                &&& g.bw_shortterm == f.bw_latest.larger(r.delivery_rate).larger(
                    Double::of_ratio(7, 10).product(
                        if f.bw_shortterm == unbounded {
                            g.max_bw
                        } else {
                            f.bw_shortterm
                        },
                    ),
                )
                &&& g.inflight_shortterm == max(
                    max(f.inflight_latest as int, r.delivered as int),
                    Double::of_ratio(7, 10).product(
                        Double::of(
                            (if f.inflight_shortterm == u64::MAX {
                                f.cwnd
                            } else {
                                f.inflight_shortterm
                            }) as nat,
                        ),
                    ).truncated() as int,
                )
                &&& !g.loss_in_round
            } else {
                g.bw_shortterm == f.bw_shortterm && g.inflight_shortterm == f.inflight_shortterm
            }
        }),
{
    let f = m.flow;
    let latest = f.after_update_latest_delivery_signals();
    crate::laws::frames::law_latest_delivery_changes(f);
    crate::laws::frames::law_round_changes(latest, packet);
    let rounded = ModelState { flow: latest.after_update_round(packet), ..m };
    crate::laws::frames::law_bandwidth_record_changes(rounded);
    let h = rounded.after_record_bandwidth().flow;
    assert(h.loss_round_start == (f.rs->0.prior_delivered >= f.loss_round_delivered)
        && h.bw_latest == f.bw_latest.larger(f.rs->0.delivery_rate) && h.inflight_latest == max(
        f.inflight_latest as int,
        f.rs->0.delivered as int,
    )) by {
        reveal(Flow::after_update_latest_delivery_signals);
    }
    reveal(Flow::after_close_loss_round);
    assert(h.state == f.state && h.loss_in_round == f.loss_in_round && h.cwnd == f.cwnd
        && h.bw_shortterm == f.bw_shortterm && h.inflight_shortterm == f.inflight_shortterm);
    assert(m.after_signals(packet).flow == h.after_close_loss_round());
}

/// A positive rate goes into the bandwidth filter, unless the application limited the flow
/// below the bandwidth that is known already; the largest of the current and the previous
/// cycle is the largest bandwidth. Any other sample changes neither.
pub proof fn law_signals_take_bandwidth(m: ModelState, packet: BbrPacket)
    requires
        m.flow.rs is Some,
    ensures
        ({
            let f = m.flow;
            let r = f.rs->0;
            let after = m.after_signals(packet);
            let cycle = f.cycle_count;
            let taken = Double { bits: 0 }.less(r.delivery_rate) && (f.max_bw.at_most(
                r.delivery_rate,
            ) || !r.is_app_limited);
            let value = r.delivery_rate.nearest_integer();
            if taken {
                &&& forall|c: u64| #[trigger]
                    after.bandwidths.contains_key(c) <==> c == cycle || (m.bandwidths.contains_key(c)
                        && c + 2 > cycle)
                &&& forall|c: u64| #[trigger]
                    after.bandwidths.contains_key(c) && c != cycle ==> after.bandwidths[c]
                        == m.bandwidths[c]
                &&& after.bandwidths[cycle] == (if m.bandwidths.contains_key(cycle)
                    && m.bandwidths[cycle] > value {
                    m.bandwidths[cycle]
                } else {
                    value
                })
                &&& exists|top: u64| #[trigger]
                    crate::max_filter::is_peak(after.bandwidths, top) && after.flow.max_bw
                        == Double::of(top as nat)
            } else {
                after.flow.max_bw == f.max_bw && after.bandwidths == m.bandwidths
            }
        }),
{
    let f = m.flow;
    let latest = f.after_update_latest_delivery_signals();
    crate::laws::frames::law_latest_delivery_changes(f);
    crate::laws::frames::law_round_changes(latest, packet);
    let rounded = ModelState { flow: latest.after_update_round(packet), ..m };
    let recorded = rounded.after_record_bandwidth();
    crate::laws::frames::law_loss_round_end_changes(recorded.flow);
    let after = m.after_signals(packet);
    assert(after.bandwidths == recorded.bandwidths && after.flow.max_bw == recorded.flow.max_bw);
    assert(rounded.flow.rs == f.rs && rounded.flow.max_bw == f.max_bw && rounded.flow.cycle_count
        == f.cycle_count);
    if rounded.flow.bandwidth_sample() is Some {
        crate::max_filter::lemma_peak_exists(after.bandwidths);
        let top = crate::max_filter::peak(after.bandwidths);
        assert(crate::max_filter::is_peak(after.bandwidths, top));
    }
}

/// What arrives in aggregates: the volume delivered beyond what the permitted bandwidth
/// delivers in the meantime, at most a window; the interval begins anew where no more than
/// expected was delivered. Once the pipe has been full the largest of ten round trips
/// counts, before that the last.
pub proof fn law_aggregation_is_measured(m: ModelState, now: Instant)
    requires
        m.flow.rs is Some,
        m.flow.ack_aggregation_fits(now),
    ensures
        ({
            let f = m.flow;
            let after = m.after_update_ack_aggregation(now);
            let g = after.flow;
            let expected = f.bw.product(
                match f.extra_acked_interval_start {
                    Some(start) => now.span_since(start),
                    None => Duration { nanos: 0 },
                }.seconds(),
            ).truncated();
            let anew = f.extra_acked_delivered <= expected;
            let acked = f.rs->0.newly_acked;
            let round = f.round_count;
            let excess = min(
                max(
                    0,
                    if anew {
                        acked as int
                    } else {
                        f.extra_acked_delivered + acked - expected
                    },
                ),
                f.cwnd as int,
            );
            &&& g.extra_acked_delivered == (if anew {
                acked as int
            } else {
                f.extra_acked_delivered + acked
            })
            &&& g.extra_acked_interval_start == (if anew {
                Some(now)
            } else {
                f.extra_acked_interval_start
            })
            &&& after.bandwidths == m.bandwidths
            &&& if f.full_bw_reached {
                &&& crate::max_filter::is_peak(after.aggregates, g.extra_acked)
                &&& forall|t: u64| #[trigger]
                    after.aggregates.contains_key(t) <==> t == round || (m.aggregates.contains_key(t)
                        && t + 10 > round)
                &&& forall|t: u64| #[trigger]
                    after.aggregates.contains_key(t) && t != round ==> after.aggregates[t]
                        == m.aggregates[t]
                &&& after.aggregates[round] == (if m.aggregates.contains_key(round)
                    && m.aggregates[round] > excess {
                    m.aggregates[round] as int
                } else {
                    excess
                })
            } else {
                g.extra_acked == excess && after.aggregates == m.aggregates
            }
        }),
{
    reveal(Flow::after_measure_aggregation);
    assert(Duration::of_secs(0) == Duration { nanos: 0 });
    let after = m.after_update_ack_aggregation(now);
    if m.flow.full_bw_reached {
        crate::max_filter::lemma_peak_exists(after.aggregates);
    }
}

} // verus!
