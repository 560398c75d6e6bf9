//! The window, the pacing rate and what a loss leaves behind.
use crate::bbr3::ControllerState;
use crate::double::Double;
use crate::flow::{BbrState, Flow, ProbeBwSubstate};
use crate::packet::BbrPacket;
use crate::params::{
    larger_of, HIGH_PACE_MAX_QUANTUM, LOW_PACING_RATE, MAX_DATAGRAM_SIZE, MID_PACING_RATE,
};
use crate::time::Instant;
use vstd::prelude::*;

verus! {

/// The window keeps the pipe busy, and stays within the bounds of the model as far
/// as they do.
pub proof fn law_window_bounds(f: Flow)
    ensures
        f.after_set_cwnd().cwnd >= f.min_pipe_cwnd,
        f.after_set_cwnd().cwnd <= larger_of(f.inflight_shortterm, f.min_pipe_cwnd),
        f.state is ProbeBw ==> f.after_set_cwnd().cwnd <= larger_of(
            f.inflight_longterm,
            f.min_pipe_cwnd,
        ),
        f.full_bw_reached ==> f.after_set_cwnd().cwnd <= larger_of(
            f.after_update_max_inflight().max_inflight,
            f.min_pipe_cwnd,
        ),
        f.state == BbrState::ProbeRtt ==> f.after_set_cwnd().cwnd
            <= f.after_update_max_inflight().probe_rtt_window(),
{
}

/// The window of an acknowledgement follows the same bounds.
pub proof fn law_control_keeps_pipe_busy(f: Flow)
    ensures
        f.after_update_control_parameters().cwnd >= f.min_pipe_cwnd,
{
    reveal(Flow::after_update_control_parameters);
    law_window_bounds(f.after_set_pacing_rate().after_set_send_quantum());
}

/// The window grows by no more than what is acknowledged, but for the smallest
/// window.
pub proof fn law_window_growth(f: Flow)
    requires
        f.set_cwnd_fits(),
    ensures
        f.after_set_cwnd().cwnd <= f.cwnd + f.newly_acked() || f.after_set_cwnd().cwnd
            == f.min_pipe_cwnd,
{
}

/// No burst is larger than the limit; at a low pacing rate none is larger than a full
/// packet, at a middling one than two.
pub proof fn law_burst_bounds(f: Flow)
    ensures
        f.burst() <= HIGH_PACE_MAX_QUANTUM,
        f.pacing_rate.less(Double::of(LOW_PACING_RATE as nat)) ==> f.burst() <= MAX_DATAGRAM_SIZE,
        f.pacing_rate.less(Double::of(MID_PACING_RATE as nat)) ==> f.burst() <= 2
            * MAX_DATAGRAM_SIZE,
{
}

/// Until the pipe has been full the pacing rate only grows.
pub proof fn law_pacing_rate_grows_in_startup(f: Flow)
    requires
        !f.full_bw_reached,
    ensures
        f.after_set_pacing_rate().pacing_rate == f.pacing_rate || f.pacing_rate.less(
            f.after_set_pacing_rate().pacing_rate,
        ),
{
}

/// After an acknowledgement the permitted bandwidth is the smaller of the long-term
/// and the short-term one.
pub proof fn law_permitted_bandwidth(f: Flow, now: Instant)
    ensures
        ({
            let after = f.after_advance(now).after_update_control_parameters();
            after.bw == after.max_bw.smaller(after.bw_shortterm)
        }),
{
    reveal(Flow::after_advance);
    reveal(Flow::after_update_control_parameters);
}

/// A window that was remembered comes back whole once the round-trip time was
/// measured.
pub proof fn law_window_comes_back(before: Flow, held: Flow, now: Instant)
    requires
        held.prior_cwnd == before.after_begin_probe_rtt().prior_cwnd,
        held.probe_rtt_over(now),
    ensures
        held.after_check_probe_rtt_done(now).cwnd >= before.cwnd,
{
    reveal(Flow::after_begin_probe_rtt);
    reveal(Flow::after_check_probe_rtt_done);
}

/// A loss is remembered: the state and the bounds before it would be taken up again.
pub proof fn law_loss_is_remembered(before: Flow, p: BbrPacket, lost_bytes: u64, now: Instant)
    ensures
        ({
            let lost = before.after_lose_packet(p, lost_bytes, now);
            &&& lost.undo_state == before.state
            &&& lost.undo_bw_shortterm == before.bw_shortterm
            &&& lost.undo_inflight_shortterm == before.inflight_shortterm
            &&& lost.undo_inflight_longterm == before.inflight_longterm
        }),
{
}

/// A flow that remembers the last loss takes up again what it remembers: the bounds
/// are at least what they were, and startup or an upward probe goes on, but for a
/// measurement of the round-trip time.
pub proof fn law_spurious_loss_restores(f: Flow)
    ensures
        ({
            let undone = f.after_undo_loss();
            &&& undone.inflight_longterm == larger_of(f.inflight_longterm, f.undo_inflight_longterm)
            &&& undone.inflight_shortterm == larger_of(
                f.inflight_shortterm,
                f.undo_inflight_shortterm,
            )
            &&& undone.bw_shortterm == f.bw_shortterm.larger(f.undo_bw_shortterm)
            &&& undone.state == (if f.state != BbrState::ProbeRtt && (f.undo_state
                == BbrState::Startup || f.undo_state == BbrState::ProbeBw(ProbeBwSubstate::Up)) {
                f.undo_state
            } else {
                f.state
            })
        }),
{
}

/// A loss that proves spurious at once is undone: the state and the short-term bounds are
/// as they were before the loss, and the long-term bound is at least what it was.
pub proof fn law_spurious_loss_is_undone(
    s: ControllerState,
    lost_bytes: u64,
    pn: u64,
    now: Instant,
    i: int,
)
    requires
        crate::packet::numbered_in_order(s.packets),
        0 <= i < s.packets.len(),
        s.packets[i].packet_number == pn,
    ensures
        ({
            let before = s.model.flow;
            let undone = s.after_packet_lost(lost_bytes, pn, now).model.flow.after_undo_loss();
            &&& undone.state == before.state
            &&& undone.bw_shortterm == before.bw_shortterm
            &&& undone.inflight_shortterm == before.inflight_shortterm
            &&& undone.inflight_longterm >= before.inflight_longterm
            &&& !undone.loss_in_round
        }),
{
    crate::packet::lemma_lookup_complete(s.packets, pn, i);
}

} // verus!
