//! What each part of an acknowledgement can change at all.
use crate::flow::{BbrState, Flow, ProbeBwSubstate};
use crate::model::ModelState;
use crate::packet::BbrPacket;
use crate::time::Instant;
use vstd::prelude::*;

verus! {

/// The latest deliveries change and may begin a loss round.
pub proof fn law_latest_delivery_changes(f: Flow)
    ensures
        ({
            let g = f.after_update_latest_delivery_signals();
            g == (Flow {
                bw_latest: g.bw_latest,
                inflight_latest: g.inflight_latest,
                loss_round_delivered: g.loss_round_delivered,
                loss_round_start: g.loss_round_start,
                ..f
            })
        }),
{
    reveal(Flow::after_update_latest_delivery_signals);
}

/// The end of a round trip changes what counts round trips.
pub proof fn law_round_changes(f: Flow, packet: BbrPacket)
    ensures
        ({
            let g = f.after_update_round(packet);
            g == (Flow {
                round_count: g.round_count,
                rounds_since_bw_probe: g.rounds_since_bw_probe,
                round_start: g.round_start,
                next_round_delivered: g.next_round_delivered,
                is_cwnd_limited: g.is_cwnd_limited,
                ..f
            })
        }),
{
    reveal(Flow::after_update_round);
}

/// The end of a loss round changes the short-term model.
pub proof fn law_loss_round_end_changes(f: Flow)
    ensures
        ({
            let g = f.after_close_loss_round();
            g == (Flow {
                bw_shortterm: g.bw_shortterm,
                inflight_shortterm: g.inflight_shortterm,
                loss_in_round: g.loss_in_round,
                ..f
            })
        }),
{
    reveal(Flow::after_close_loss_round);
}

/// A bandwidth sample changes the largest bandwidth.
pub proof fn law_bandwidth_record_changes(m: ModelState)
    ensures
        ({
            let g = m.after_record_bandwidth().flow;
            g == (Flow {
                max_bw: g.max_bw,
                ..m.flow
            })
        }),
{
}

/// The signals of an acknowledgement change the rounds, the largest bandwidth and the
/// short-term model.
pub proof fn law_signals_change(m: ModelState, packet: BbrPacket)
    ensures
        ({
            let g = m.after_signals(packet).flow;
            g == (Flow {
                bw_latest: g.bw_latest,
                inflight_latest: g.inflight_latest,
                loss_round_delivered: g.loss_round_delivered,
                loss_round_start: g.loss_round_start,
                round_count: g.round_count,
                rounds_since_bw_probe: g.rounds_since_bw_probe,
                round_start: g.round_start,
                next_round_delivered: g.next_round_delivered,
                is_cwnd_limited: g.is_cwnd_limited,
                max_bw: g.max_bw,
                bw_shortterm: g.bw_shortterm,
                inflight_shortterm: g.inflight_shortterm,
                loss_in_round: g.loss_in_round,
                ..m.flow
            })
        }),
{
    let latest = m.flow.after_update_latest_delivery_signals();
    law_latest_delivery_changes(m.flow);
    law_round_changes(latest, packet);
    let rounded = ModelState { flow: latest.after_update_round(packet), ..m };
    law_bandwidth_record_changes(rounded);
    law_loss_round_end_changes(rounded.after_record_bandwidth().flow);
}

/// The aggregation of acknowledgements is measured and nothing else.
pub proof fn law_aggregation_changes(m: ModelState, now: Instant)
    ensures
        ({
            let g = m.after_update_ack_aggregation(now).flow;
            g == (Flow {
                extra_acked: g.extra_acked,
                extra_acked_delivered: g.extra_acked_delivered,
                extra_acked_interval_start: g.extra_acked_interval_start,
                ..m.flow
            })
        }),
{
    reveal(Flow::after_measure_aggregation);
}

/// The search for a full pipe changes what it counts and knows.
pub proof fn law_full_pipe_changes(f: Flow)
    ensures
        ({
            let g = f.after_check_full_bw_reached();
            g == (Flow {
                full_bw: g.full_bw,
                full_bw_count: g.full_bw_count,
                full_bw_now: g.full_bw_now,
                full_bw_reached: g.full_bw_reached,
                ..f
            })
        }),
{
    reveal(Flow::after_check_full_bw_reached);
}

/// The end of startup changes what it rests on and the state.
pub proof fn law_startup_end_changes(f: Flow)
    ensures
        ({
            let g = f.after_check_startup_done();
            g == (Flow {
                state: g.state,
                pacing_gain: g.pacing_gain,
                cwnd_gain: g.cwnd_gain,
                full_bw_reached: g.full_bw_reached,
                full_bw_now: g.full_bw_now,
                inflight_longterm: g.inflight_longterm,
                loss_events_in_round: g.loss_events_in_round,
                last_lost_packet: g.last_lost_packet,
                drain_start_round: g.drain_start_round,
                ..f
            })
        }),
{
    reveal(Flow::after_check_startup_done);
}

/// The end of draining begins a probing cycle.
pub proof fn law_drain_end_changes(f: Flow, now: Instant)
    ensures
        ({
            let g = f.after_check_drain_done(now);
            g == (Flow {
                bdp: g.bdp,
                offload_budget: g.offload_budget,
                state: g.state,
                pacing_gain: g.pacing_gain,
                cwnd_gain: g.cwnd_gain,
                next_round_delivered: g.next_round_delivered,
                is_cwnd_limited: g.is_cwnd_limited,
                loss_in_round: g.loss_in_round,
                bw_latest: g.bw_latest,
                inflight_latest: g.inflight_latest,
                probe_up_cnt: g.probe_up_cnt,
                probe_rng: g.probe_rng,
                rounds_since_bw_probe: g.rounds_since_bw_probe,
                bw_probe_wait: g.bw_probe_wait,
                cycle_stamp: g.cycle_stamp,
                ack_phase: g.ack_phase,
                ..f
            })
        }),
{
    reveal(Flow::after_check_drain_done);
}

/// A round trip of a probe changes what its acknowledgements report on.
pub proof fn law_ack_phase_changes(f: Flow)
    ensures
        ({
            let g = f.after_update_ack_phase();
            g == (Flow {
                ack_phase: g.ack_phase,
                cycle_count: g.cycle_count,
                ..f
            })
        }),
{
}

/// What was in flight changes the long-term bound.
pub proof fn law_cover_changes(f: Flow)
    ensures
        ({
            let g = f.after_cover_inflight();
            g == (Flow {
                inflight_longterm: g.inflight_longterm,
                ..f
            })
        }),
{
}

/// An upward probe changes the long-term bound and its growth.
pub proof fn law_upward_probe_changes(f: Flow)
    ensures
        ({
            let g = f.after_probe_inflight_long_term_upward();
            g == (Flow {
                inflight_longterm: g.inflight_longterm,
                bw_probe_up_acks: g.bw_probe_up_acks,
                bw_probe_up_rounds: g.bw_probe_up_rounds,
                probe_up_cnt: g.probe_up_cnt,
                ..f
            })
        }),
{
}

/// Acknowledgements without much loss change the long-term bound.
pub proof fn law_bound_changes(f: Flow)
    ensures
        ({
            let g = f.after_raise_long_term_bound();
            g == (Flow {
                inflight_longterm: g.inflight_longterm,
                bw_probe_up_acks: g.bw_probe_up_acks,
                bw_probe_up_rounds: g.bw_probe_up_rounds,
                probe_up_cnt: g.probe_up_cnt,
                ..f
            })
        }),
{
    let covered = f.after_cover_inflight();
    law_cover_changes(f);
    let g = f.after_raise_long_term_bound();
    if f.inflight_too_high() || f.inflight_longterm == u64::MAX {
        assert(g == f);
    } else if f.state == BbrState::ProbeBw(ProbeBwSubstate::Up) {
        law_upward_probe_changes(covered);
        assert(g == covered.after_probe_inflight_long_term_upward());
    } else {
        assert(g == covered);
    }
}

/// The long-term model changes its bound and the time of the bandwidth filter.
pub proof fn law_long_term_changes(f: Flow)
    ensures
        ({
            let g = f.after_adapt_long_term_model();
            g == (Flow {
                ack_phase: g.ack_phase,
                cycle_count: g.cycle_count,
                inflight_longterm: g.inflight_longterm,
                bw_probe_up_acks: g.bw_probe_up_acks,
                bw_probe_up_rounds: g.bw_probe_up_rounds,
                probe_up_cnt: g.probe_up_cnt,
                ..f
            })
        }),
{
    reveal(Flow::after_adapt_long_term_model);
    law_ack_phase_changes(f);
    law_bound_changes(f.after_update_ack_phase());
}

/// A downward probe begins a cycle.
pub proof fn law_down_changes(f: Flow, now: Instant)
    ensures
        ({
            let g = f.after_start_probe_bw_down(now);
            g == (Flow {
                state: g.state,
                pacing_gain: g.pacing_gain,
                cwnd_gain: g.cwnd_gain,
                next_round_delivered: g.next_round_delivered,
                is_cwnd_limited: g.is_cwnd_limited,
                loss_in_round: g.loss_in_round,
                bw_latest: g.bw_latest,
                inflight_latest: g.inflight_latest,
                probe_up_cnt: g.probe_up_cnt,
                probe_rng: g.probe_rng,
                rounds_since_bw_probe: g.rounds_since_bw_probe,
                bw_probe_wait: g.bw_probe_wait,
                cycle_stamp: g.cycle_stamp,
                ack_phase: g.ack_phase,
                ..f
            })
        }),
{
}

/// An upward probe begins a search for a full pipe.
pub proof fn law_up_changes(f: Flow)
    ensures
        ({
            let g = f.after_start_probe_bw_up();
            g == (Flow {
                full_bw: g.full_bw,
                full_bw_count: g.full_bw_count,
                full_bw_now: g.full_bw_now,
                state: g.state,
                pacing_gain: g.pacing_gain,
                cwnd_gain: g.cwnd_gain,
                next_round_delivered: g.next_round_delivered,
                is_cwnd_limited: g.is_cwnd_limited,
                ack_phase: g.ack_phase,
                bw_probe_up_rounds: g.bw_probe_up_rounds,
                probe_up_cnt: g.probe_up_cnt,
                ..f
            })
        }),
{
}

/// A refill lifts the short-term bounds and begins a round trip.
pub proof fn law_refill_changes(f: Flow)
    ensures
        ({
            let g = f.after_start_probe_bw_refill();
            g == (Flow {
                bw_probe_up_rounds: g.bw_probe_up_rounds,
                bw_probe_up_acks: g.bw_probe_up_acks,
                ack_phase: g.ack_phase,
                bw_shortterm: g.bw_shortterm,
                inflight_shortterm: g.inflight_shortterm,
                state: g.state,
                pacing_gain: g.pacing_gain,
                cwnd_gain: g.cwnd_gain,
                next_round_delivered: g.next_round_delivered,
                is_cwnd_limited: g.is_cwnd_limited,
                ..f
            })
        }),
{
}

/// The search for a full pipe begins anew.
pub proof fn law_rebase_changes(f: Flow)
    ensures
        ({
            let g = f.after_rebase_full_bw();
            g == (Flow {
                full_bw: g.full_bw,
                full_bw_count: g.full_bw_count,
                full_bw_now: g.full_bw_now,
                ..f
            })
        }),
{
}

/// A downward probe may give way to cruising or to a refill.
pub proof fn law_down_phase_changes(f: Flow, now: Instant)
    ensures
        ({
            let g = f.after_down_phase(now);
            g == (Flow {
                bw_probe_up_rounds: g.bw_probe_up_rounds,
                bw_probe_up_acks: g.bw_probe_up_acks,
                ack_phase: g.ack_phase,
                bdp: g.bdp,
                offload_budget: g.offload_budget,
                bw_shortterm: g.bw_shortterm,
                inflight_shortterm: g.inflight_shortterm,
                state: g.state,
                pacing_gain: g.pacing_gain,
                cwnd_gain: g.cwnd_gain,
                next_round_delivered: g.next_round_delivered,
                is_cwnd_limited: g.is_cwnd_limited,
                ..f
            })
        }),
{
    reveal(Flow::after_down_phase);
}

/// A phase of the probing cycle changes what the next one begins with.
pub proof fn law_phase_changes(f: Flow, now: Instant)
    ensures
        ({
            let g = f.after_next_phase(now);
            g == (Flow {
                full_bw: g.full_bw,
                full_bw_count: g.full_bw_count,
                full_bw_now: g.full_bw_now,
                bw_probe_up_rounds: g.bw_probe_up_rounds,
                bw_probe_up_acks: g.bw_probe_up_acks,
                bw_probe_samples: g.bw_probe_samples,
                bdp: g.bdp,
                offload_budget: g.offload_budget,
                bw_shortterm: g.bw_shortterm,
                inflight_shortterm: g.inflight_shortterm,
                state: g.state,
                pacing_gain: g.pacing_gain,
                cwnd_gain: g.cwnd_gain,
                next_round_delivered: g.next_round_delivered,
                is_cwnd_limited: g.is_cwnd_limited,
                loss_in_round: g.loss_in_round,
                bw_latest: g.bw_latest,
                inflight_latest: g.inflight_latest,
                probe_up_cnt: g.probe_up_cnt,
                probe_rng: g.probe_rng,
                rounds_since_bw_probe: g.rounds_since_bw_probe,
                bw_probe_wait: g.bw_probe_wait,
                cycle_stamp: g.cycle_stamp,
                ack_phase: g.ack_phase,
                ..f
            })
        }),
{
    reveal(Flow::after_next_phase);
    let g = f.after_next_phase(now);
    match f.state {
        BbrState::ProbeBw(ProbeBwSubstate::Down) => {
            law_down_phase_changes(f, now);
        },
        BbrState::ProbeBw(ProbeBwSubstate::Cruise) => {
            law_refill_changes(f);
        },
        BbrState::ProbeBw(ProbeBwSubstate::Refill) => {
            law_up_changes(Flow { bw_probe_samples: true, ..f });
        },
        BbrState::ProbeBw(ProbeBwSubstate::Up) => {
            law_down_changes(f, now);
            law_rebase_changes(f);
        },
        _ => {
            assert(g == f);
        },
    }
}

/// The probing cycle leaves alone what is measured, counted and set up.
pub proof fn law_cycle_changes(f: Flow, now: Instant)
    ensures
        ({
            let g = f.after_update_probe_bw_cycle_phase(now);
            g == (Flow {
                full_bw: g.full_bw,
                full_bw_count: g.full_bw_count,
                full_bw_now: g.full_bw_now,
                inflight_longterm: g.inflight_longterm,
                cycle_count: g.cycle_count,
                bw_probe_up_rounds: g.bw_probe_up_rounds,
                bw_probe_up_acks: g.bw_probe_up_acks,
                bw_probe_samples: g.bw_probe_samples,
                bdp: g.bdp,
                offload_budget: g.offload_budget,
                bw_shortterm: g.bw_shortterm,
                inflight_shortterm: g.inflight_shortterm,
                state: g.state,
                pacing_gain: g.pacing_gain,
                cwnd_gain: g.cwnd_gain,
                next_round_delivered: g.next_round_delivered,
                is_cwnd_limited: g.is_cwnd_limited,
                loss_in_round: g.loss_in_round,
                bw_latest: g.bw_latest,
                inflight_latest: g.inflight_latest,
                probe_up_cnt: g.probe_up_cnt,
                probe_rng: g.probe_rng,
                rounds_since_bw_probe: g.rounds_since_bw_probe,
                bw_probe_wait: g.bw_probe_wait,
                cycle_stamp: g.cycle_stamp,
                ack_phase: g.ack_phase,
                ..f
            })
        }),
{
    reveal(Flow::after_update_probe_bw_cycle_phase);
    law_long_term_changes(f);
    law_phase_changes(f.after_adapt_long_term_model(), now);
}

/// The round-trip time changes its minima and their times.
pub proof fn law_min_rtt_changes(f: Flow, now: Instant)
    ensures
        ({
            let g = f.after_update_min_rtt(now);
            g == (Flow {
                min_rtt: g.min_rtt,
                min_rtt_stamp: g.min_rtt_stamp,
                probe_rtt_min_delay: g.probe_rtt_min_delay,
                probe_rtt_min_stamp: g.probe_rtt_min_stamp,
                probe_rtt_expired: g.probe_rtt_expired,
                ..f
            })
        }),
{
    reveal(Flow::after_update_min_rtt);
}

/// A measurement of the round-trip time changes the state and the window.
pub proof fn law_measurement_changes(f: Flow, now: Instant)
    ensures
        ({
            let g = f.after_check_probe_rtt(now);
            g == (Flow {
                probe_rtt_done_stamp: g.probe_rtt_done_stamp,
                probe_rtt_round_done: g.probe_rtt_round_done,
                prior_cwnd: g.prior_cwnd,
                cwnd: g.cwnd,
                bdp: g.bdp,
                idle_restart: g.idle_restart,
                probe_rtt_min_stamp: g.probe_rtt_min_stamp,
                bw_shortterm: g.bw_shortterm,
                inflight_shortterm: g.inflight_shortterm,
                state: g.state,
                pacing_gain: g.pacing_gain,
                cwnd_gain: g.cwnd_gain,
                next_round_delivered: g.next_round_delivered,
                is_cwnd_limited: g.is_cwnd_limited,
                loss_in_round: g.loss_in_round,
                bw_latest: g.bw_latest,
                inflight_latest: g.inflight_latest,
                probe_up_cnt: g.probe_up_cnt,
                probe_rng: g.probe_rng,
                rounds_since_bw_probe: g.rounds_since_bw_probe,
                bw_probe_wait: g.bw_probe_wait,
                cycle_stamp: g.cycle_stamp,
                ack_phase: g.ack_phase,
                ..f
            })
        }),
{
    reveal(Flow::after_check_probe_rtt);
    reveal(Flow::after_arm_probe_rtt);
    reveal(Flow::after_wait_probe_rtt);
    reveal(Flow::after_check_probe_rtt_done);
    reveal(Flow::after_begin_probe_rtt);
    reveal(Flow::after_note_delivery);
}

/// The control parameters follow the model and leave it alone.
pub proof fn law_control_changes(f: Flow)
    ensures
        ({
            let g = f.after_update_control_parameters();
            g == (Flow {
                pacing_rate: g.pacing_rate,
                send_quantum: g.send_quantum,
                max_inflight: g.max_inflight,
                cwnd: g.cwnd,
                bdp: g.bdp,
                offload_budget: g.offload_budget,
                ..f
            })
        }),
{
    reveal(Flow::after_update_control_parameters);
}

} // verus!
