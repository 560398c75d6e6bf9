//! How the bandwidth probing cycle moves on.
use crate::double::Double;
use crate::flow::{BbrState, Flow, ProbeBwSubstate};
use crate::packet::BbrPacket;
use crate::params::{beta, larger_of, MAX_DRAIN_ROUNDS, MAX_LONG_TERM_PROBE_UP_ROUNDS};
use crate::time::Instant;
use vstd::arithmetic::power2::*;
use vstd::prelude::*;

verus! {

/// Draining ends exactly where no more is in flight than the path holds, or after
/// three round trips.
pub proof fn law_drain_ends(f: Flow, now: Instant)
    requires
        f.state == BbrState::Drain,
    ensures
        f.after_check_drain_done(now).state == (if f.inflight <= f.inflight_for(Double::of(1))
            || f.round_count > f.drain_start_round + MAX_DRAIN_ROUNDS {
            BbrState::ProbeBw(ProbeBwSubstate::Down)
        } else {
            BbrState::Drain
        }),
{
    reveal(Flow::after_check_drain_done);
}

/// A flow that has just drained probes downwards or cruises: it does not probe
/// upwards again at once, as long as there is a path to fill.
pub proof fn law_drain_leads_to_down_or_cruise(f: Flow, now: Instant)
    requires
        f.state == BbrState::Drain,
        f.after_check_drain_done(now).spec_target_inflight() >= 2,
    ensures
        ({
            let state = f.after_check_drain_done(now).after_update_probe_bw_cycle_phase(now).state;
            ||| state == BbrState::Drain
            ||| state == BbrState::ProbeBw(ProbeBwSubstate::Down)
            ||| state == BbrState::ProbeBw(ProbeBwSubstate::Cruise)
        }),
{
    reveal(Flow::after_check_drain_done);
    let done = f.after_check_drain_done(now);
    reveal(Flow::after_update_probe_bw_cycle_phase);
    reveal(Flow::after_adapt_long_term_model);
    if done.state == BbrState::ProbeBw(ProbeBwSubstate::Down) && done.full_bw_reached {
        let adapted = done.after_adapt_long_term_model();
        assert(adapted.cycle_stamp == Some(now));
        assert(adapted.rounds_since_bw_probe <= 1);
        assert(adapted.spec_target_inflight() >= 2);
        assert(!adapted.probe_due(now));
        reveal(Flow::after_next_phase);
        reveal(Flow::after_down_phase);
    } else {
        reveal(Flow::after_next_phase);
    }
}

/// A full pipe ends an upward probe, unless the flow is held by its long-term bound.
pub proof fn law_plateau_ends_probe_up(f: Flow, now: Instant)
    requires
        f.state == BbrState::ProbeBw(ProbeBwSubstate::Up),
        f.full_bw_reached,
        f.full_bw_now,
        !f.is_cwnd_limited,
    ensures
        f.after_update_probe_bw_cycle_phase(now).state == BbrState::ProbeBw(ProbeBwSubstate::Down),
        f.after_update_probe_bw_cycle_phase(now).full_bw_now,
        f.after_update_probe_bw_cycle_phase(now).full_bw_count == f.full_bw_count,
{
    reveal(Flow::after_update_probe_bw_cycle_phase);
    reveal(Flow::after_adapt_long_term_model);
    reveal(Flow::after_next_phase);
}

/// While no full pipe was seen, only loss ends an upward probe.
pub proof fn law_probe_up_goes_on(f: Flow, now: Instant)
    requires
        f.state == BbrState::ProbeBw(ProbeBwSubstate::Up),
        !f.full_bw_now,
    ensures
        f.after_update_probe_bw_cycle_phase(now).state == f.state,
{
    reveal(Flow::after_update_probe_bw_cycle_phase);
    reveal(Flow::after_adapt_long_term_model);
    reveal(Flow::after_next_phase);
}

/// A downward probe that need not make room for another probe ends exactly where
/// what is in flight has fallen to both bounds.
pub proof fn law_down_ends_when_drained(f: Flow, now: Instant)
    requires
        f.state == BbrState::ProbeBw(ProbeBwSubstate::Down),
        !f.probe_due(now),
    ensures
        f.after_next_phase(now).state == BbrState::ProbeBw(ProbeBwSubstate::Cruise) <==> f.inflight
            <= f.headroom_bound() && f.inflight <= f.inflight_for(Double::of(1)),
        f.after_next_phase(now).state == BbrState::ProbeBw(ProbeBwSubstate::Cruise)
            ==> f.after_next_phase(now).pacing_gain == f.default_pacing_gain,
        f.after_next_phase(now).inflight == f.inflight,
        f.after_next_phase(now).inflight_longterm == f.inflight_longterm,
        f.after_next_phase(now).max_bw == f.max_bw,
        f.after_next_phase(now).min_rtt == f.min_rtt,
{
    reveal(Flow::after_next_phase);
    reveal(Flow::after_down_phase);
}

/// The phases that follow one another once the pipe has been full: a downward probe makes
/// room for a refill or for cruising, cruising for a refill, a refill for an upward probe
/// after a round trip, an upward probe for a downward one. Other states are left alone.
pub proof fn law_phases_follow(f: Flow, now: Instant)
    requires
        f.full_bw_reached,
    ensures
        ({
            let after = f.after_update_probe_bw_cycle_phase(now);
            match f.state {
                BbrState::ProbeBw(ProbeBwSubstate::Down) => after.state == f.state || after.state
                    == BbrState::ProbeBw(ProbeBwSubstate::Refill) || after.state
                    == BbrState::ProbeBw(ProbeBwSubstate::Cruise),
                BbrState::ProbeBw(ProbeBwSubstate::Cruise) => after.state == f.state || after.state
                    == BbrState::ProbeBw(ProbeBwSubstate::Refill),
                BbrState::ProbeBw(ProbeBwSubstate::Refill) => if f.round_start {
                    after.state == BbrState::ProbeBw(ProbeBwSubstate::Up) && after.bw_probe_samples
                } else {
                    after.state == f.state
                },
                BbrState::ProbeBw(ProbeBwSubstate::Up) => after.state == f.state || after.state
                    == BbrState::ProbeBw(ProbeBwSubstate::Down),
                _ => after.state == f.state,
            }
        }),
{
    reveal(Flow::after_update_probe_bw_cycle_phase);
    lemma_adapt_keeps_phase(f);
    reveal(Flow::after_next_phase);
    reveal(Flow::after_down_phase);
}

proof fn lemma_adapt_keeps_phase(f: Flow)
    ensures
        f.after_adapt_long_term_model().state == f.state,
        f.after_adapt_long_term_model().round_start == f.round_start,
{
    reveal(Flow::after_adapt_long_term_model);
}

/// A refilled pipe is probed upwards after one round trip, and what is lost from
/// then on is judged.
pub proof fn law_refill_lasts_a_round(f: Flow, now: Instant)
    requires
        f.state == BbrState::ProbeBw(ProbeBwSubstate::Refill),
    ensures
        f.round_start ==> {
            &&& f.after_next_phase(now).state == BbrState::ProbeBw(ProbeBwSubstate::Up)
            &&& f.after_next_phase(now).bw_probe_samples
        },
        !f.round_start ==> f.after_next_phase(now) == f,
{
    reveal(Flow::after_next_phase);
}

/// Of what is acknowledged while the long-term bound holds the flow, every
/// `probe_up_cnt` bytes raise the bound by one byte, and the rest is carried over.
pub proof fn law_probe_up_accounting(f: Flow)
    requires
        f.held_by_long_term_bound(),
        f.probe_upward_fits(),
        f.probe_up_cnt > 0,
    ensures
        ({
            let after = f.after_probe_inflight_long_term_upward();
            &&& (after.inflight_longterm - f.inflight_longterm) * f.probe_up_cnt
                + after.bw_probe_up_acks == f.bw_probe_up_acks + f.newly_acked()
            &&& after.bw_probe_up_acks < f.probe_up_cnt
        }),
{
    let volume = f.probe_up_volume();
    let count = f.probe_up_cnt as int;
    vstd::arithmetic::div_mod::lemma_fundamental_div_mod(volume, count);
    let delta = f.probe_up_delta();
    assert(delta * count == count * delta) by (nonlinear_arith);
    assert(0 * count == 0);
}

/// The growth of the long-term bound doubles with each round trip of an upward probe,
/// up to a limit.
pub proof fn law_growth_doubles(f: Flow)
    requires
        f.bw_probe_up_rounds < MAX_LONG_TERM_PROBE_UP_ROUNDS,
    ensures
        f.after_raise_inflight_long_term_slope().long_term_growth() == 2 * f.long_term_growth(),
        f.after_raise_inflight_long_term_slope().probe_up_cnt >= 1,
{
    let r = f.bw_probe_up_rounds as nat;
    lemma_pow2_unfold(r + 1);
    assert(f.smss as nat * (2 * pow2(r)) == 2 * (f.smss as nat * pow2(r))) by (nonlinear_arith);
}

/// The loss of packet `p` is judged, and too much was lost.
pub open spec fn lost_too_much(f: Flow, p: BbrPacket, lost_bytes: u64) -> bool {
    f.bw_probe_samples && (f.rs matches Some(rs) && (Flow {
        rs: Some(f.loss_sample(rs, p, lost_bytes)),
        ..f
    }).inflight_too_high())
}

/// Too much loss ends an upward probe; nothing else about a loss changes the state.
pub proof fn law_loss_ends_probe_up(f: Flow, p: BbrPacket, lost_bytes: u64, now: Instant)
    ensures
        f.after_lose_packet(p, lost_bytes, now).state == (if f.state == BbrState::ProbeBw(
            ProbeBwSubstate::Up,
        ) && lost_too_much(f, p, lost_bytes) {
            BbrState::ProbeBw(ProbeBwSubstate::Down)
        } else {
            f.state
        }),
        lost_too_much(f, p, lost_bytes) ==> !f.after_lose_packet(
            p,
            lost_bytes,
            now,
        ).bw_probe_samples,
        f.after_lose_packet(p, lost_bytes, now).full_bw_now == f.full_bw_now,
{
}

/// A loss while the application limited the flow leaves the long-term bound as it
/// is.
pub proof fn law_app_limited_loss_keeps_bound(
    f: Flow,
    p: BbrPacket,
    lost_bytes: u64,
    now: Instant,
)
    requires
        p.is_app_limited,
    ensures
        f.after_lose_packet(p, lost_bytes, now).inflight_longterm == f.inflight_longterm,
{
}

/// Another loss sets the long-term bound exactly where too much was lost: to the
/// point where the loss rate passed the tolerated one, or to a share of the target.
pub proof fn law_loss_sets_bound(f: Flow, p: BbrPacket, lost_bytes: u64, now: Instant)
    requires
        !p.is_app_limited,
        f.rs is Some,
    ensures
        f.after_lose_packet(p, lost_bytes, now).inflight_longterm == (if lost_too_much(
            f,
            p,
            lost_bytes,
        ) {
            larger_of(
                (Flow {
                    rs: Some(f.loss_sample(f.rs->0, p, lost_bytes)),
                    ..f
                }).loss_point(p.size as u64),
                Double::of(f.spec_target_inflight() as nat).product(beta()).truncated(),
            )
        } else {
            f.inflight_longterm
        }),
{
}

} // verus!
