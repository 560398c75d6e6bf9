//! What a controller begins with.
use crate::bbr3::ControllerState;
use crate::config::Bbr3Config;
use crate::double::Double;
use crate::flow::{AckPhase, BbrState};
use crate::probe_rng::ProbeRng;
use vstd::math::*;
use vstd::prelude::*;

verus! {

/// A gain is the configured one, or the default.
pub open spec fn configured(gain: Double, chosen: Option<Double>, p: nat, q: nat) -> bool {
    gain == (match chosen {
        Some(value) => value,
        None => Double::of_ratio(p, q),
    })
}

/// A controller begins in startup, at the initial window, paced as if a window were sent in a
/// millisecond.
pub proof fn law_flow_begins(config: Bbr3Config, mtu: u16, rng: ProbeRng)
    ensures
        ({
            let f = ControllerState::initial(config, mtu, rng).model.flow;
            let smss = min(max(1200, mtu as int), 65_527);
            &&& f.state == BbrState::Startup
            &&& f.undo_state == BbrState::Startup
            &&& f.smss == smss
            &&& f.min_pipe_cwnd == 4 * smss
            &&& f.send_quantum == 2 * smss
            &&& f.initial_cwnd == config.initial_window
            &&& f.cwnd == config.initial_window
            &&& configured(f.startup_pacing_gain, config.startup_pacing_gain, 2773, 1000)
            &&& configured(f.probe_bw_down_pacing_gain, config.probe_bw_down_pacing_gain, 9, 10)
            &&& configured(f.probe_bw_up_pacing_gain, config.probe_bw_up_pacing_gain, 125, 100)
            &&& configured(f.drain_pacing_gain, config.drain_pacing_gain, 1, 2)
            &&& configured(f.probe_bw_up_cwnd_gain, config.probe_bw_up_cwnd_gain, 225, 100)
            &&& configured(f.probe_rtt_cwnd_gain, config.probe_rtt_cwnd_gain, 1, 2)
            &&& f.default_pacing_gain == (match config.default_pacing_gain {
                Some(value) => value,
                None => Double::of(1),
            })
            &&& f.default_cwnd_gain == (match config.default_cwnd_gain {
                Some(value) => value,
                None => Double::of(2),
            })
            &&& f.pacing_margin_percent == (match config.pacing_margin_percent {
                Some(value) => value,
                None => Double::of(1),
            })
            &&& f.pacing_gain == f.startup_pacing_gain
            &&& f.cwnd_gain == f.default_cwnd_gain
            &&& f.pacing_rate == f.startup_pacing_gain.product(
                Double::of(config.initial_window as nat).quotient(Double::of_ratio(1, 1000)),
            )
            &&& f.probe_rng == rng
        }),
{
}

/// At the beginning nothing is counted, measured or bounded.
pub proof fn law_nothing_is_known_at_first(config: Bbr3Config, mtu: u16, rng: ProbeRng)
    ensures
        ({
            let s = ControllerState::initial(config, mtu, rng);
            let f = s.model.flow;
            &&& s.packets.len() == 0
            &&& forall|t: u64| !(#[trigger] s.model.bandwidths.contains_key(t))
            &&& forall|t: u64| !(#[trigger] s.model.aggregates.contains_key(t))
            &&& f.delivered == 0 && f.inflight == 0 && f.lost == 0 && f.app_limited == 0
            &&& f.round_count == 0 && f.cycle_count == 0 && f.next_round_delivered == 0
            &&& f.round_start && !f.is_cwnd_limited && !f.idle_restart
            &&& f.rs is None && f.first_send_time is None && f.delivered_time is None
            &&& f.max_bw.bits == 0 && f.bw.bits == 0 && f.bw_latest.bits == 0 && f.full_bw.bits == 0
            &&& f.unbounded()
            &&& f.undo_bw_shortterm == f.bw_shortterm && f.undo_inflight_shortterm == u64::MAX
            &&& f.inflight_longterm == u64::MAX && f.undo_inflight_longterm == u64::MAX
            &&& f.min_rtt.nanos == u64::MAX * 1_000_000_000
            &&& f.min_rtt_stamp is None && f.probe_rtt_min_stamp is None
            &&& f.probe_rtt_min_delay.nanos == 0 && !f.probe_rtt_expired
            &&& f.probe_rtt_duration.nanos == 200_000_000
            &&& f.probe_rtt_interval.nanos == 5_000_000_000
            &&& f.probe_rtt_done_stamp is None && !f.probe_rtt_round_done && f.prior_cwnd == 0
            &&& !f.full_bw_reached && !f.full_bw_now && f.full_bw_count == 0
            &&& f.bdp == 0 && f.extra_acked == 0 && f.offload_budget == 0 && f.max_inflight == 0
            &&& f.extra_acked_interval_start is None && f.extra_acked_delivered == 0
            &&& f.inflight_latest == 0 && f.srtt.nanos == 0
            &&& f.rounds_since_bw_probe == 0 && f.bw_probe_wait.nanos == 0
            &&& f.bw_probe_up_rounds == 0 && f.bw_probe_up_acks == 0 && f.probe_up_cnt == 0
            &&& f.cycle_stamp is None && f.ack_phase == AckPhase::ProbeStarting
            &&& !f.bw_probe_samples && !f.loss_in_round && !f.loss_round_start
            &&& f.loss_round_delivered == 0 && f.loss_events_in_round == 0
            &&& f.last_lost_packet is None && f.drain_start_round == 0
            &&& f.ack_eliciting_threshold == 1 && f.max_ack_delay.nanos == 25_000_000
        }),
{
}

} // verus!
