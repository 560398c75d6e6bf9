//! What a flow begins each of its states with, and when it moves from one to another.
use crate::double::Double;
use crate::flow::{AckPhase, BbrState, Flow, ProbeBwSubstate};
use crate::time::Instant;
use vstd::arithmetic::power2::*;
use vstd::math::*;
use vstd::prelude::*;

verus! {

impl Flow {
    /// A round trip begins, when `before` has just been left.
    pub open spec fn begins_round_after(self, before: Flow) -> bool {
        self.next_round_delivered == before.delivered && !self.is_cwnd_limited
    }

    /// The short-term model places no bound.
    pub open spec fn unbounded(self) -> bool {
        self.bw_shortterm.bits == 0x7FF0_0000_0000_0000 && self.inflight_shortterm == u64::MAX
    }

    /// It is time for another probe: the wait is over, or as many round trips have passed as
    /// the target holds bytes, at most 63.
    pub open spec fn another_probe_due(self, now: Instant) -> bool {
        ||| match self.cycle_stamp {
            Some(stamp) => now.nanos > stamp.moved_by(self.bw_probe_wait).nanos,
            None => true,
        }
        ||| self.rounds_since_bw_probe >= min(min(self.bdp as int, self.cwnd as int), 63)
    }
}

/// Startup is resumed with its gains, and nothing else changes.
pub proof fn law_startup_begins(f: Flow)
    ensures
        f.after_enter_startup() == (Flow {
            state: BbrState::Startup,
            pacing_gain: f.startup_pacing_gain,
            cwnd_gain: f.default_cwnd_gain,
            ..f
        }),
{
}

/// Draining begins with its gains in the current round trip, and nothing else changes.
pub proof fn law_drain_begins(f: Flow)
    ensures
        f.after_enter_drain() == (Flow {
            state: BbrState::Drain,
            pacing_gain: f.drain_pacing_gain,
            cwnd_gain: f.default_cwnd_gain,
            drain_start_round: f.round_count,
            ..f
        }),
{
}

/// The wait before the next probe is two seconds and a drawn number of milliseconds up to
/// a thousand; a fair coin decides whether a round trip counts as passed.
pub proof fn law_wait_is_drawn(f: Flow)
    ensures
        ({
            let g = f.after_pick_probe_wait();
            let (heads, next) = crate::probe_rng::pcg_ratio(
                f.probe_rng.state,
                f.probe_rng.stream,
                1,
                2,
            );
            let (added, last) = crate::probe_rng::pcg_up_to(next, f.probe_rng.stream, 1000);
            &&& g.rounds_since_bw_probe == (if heads {
                1int
            } else {
                0
            })
            &&& added <= 1000 ==> g.bw_probe_wait.nanos == (2000 + added) * 1_000_000
            &&& g.probe_rng.state == last
            &&& g.probe_rng.stream == f.probe_rng.stream
            &&& g == (Flow {
                rounds_since_bw_probe: g.rounds_since_bw_probe,
                bw_probe_wait: g.bw_probe_wait,
                probe_rng: g.probe_rng,
                ..f
            })
        }),
{
}

/// A downward probe begins a cycle and a round trip: the losses and deliveries of the last
/// one are forgotten, and a new wait is drawn.
pub proof fn law_down_begins(f: Flow, now: Instant)
    ensures
        ({
            let g = f.after_start_probe_bw_down(now);
            let waiting = f.after_pick_probe_wait();
            &&& g.state == BbrState::ProbeBw(ProbeBwSubstate::Down)
            &&& g.pacing_gain == f.probe_bw_down_pacing_gain
            &&& g.cwnd_gain == f.default_cwnd_gain
            &&& g.cycle_stamp == Some(now)
            &&& g.ack_phase == AckPhase::ProbeStopping
            &&& g.probe_up_cnt == u64::MAX
            &&& !g.loss_in_round
            &&& g.bw_latest.bits == 0
            &&& g.inflight_latest == 0
            &&& g.begins_round_after(f)
            &&& g.rounds_since_bw_probe == waiting.rounds_since_bw_probe
            &&& g.bw_probe_wait == waiting.bw_probe_wait
            &&& g.probe_rng == waiting.probe_rng
        }),
{
}

/// Cruising begins with the default gains, and nothing else changes.
pub proof fn law_cruise_begins(f: Flow)
    ensures
        f.after_start_probe_bw_cruise() == (Flow {
            state: BbrState::ProbeBw(ProbeBwSubstate::Cruise),
            pacing_gain: f.default_pacing_gain,
            cwnd_gain: f.default_cwnd_gain,
            ..f
        }),
{
}

/// A refill begins a round trip without short-term bounds, and a new growth of the
/// long-term bound.
pub proof fn law_refill_begins(f: Flow)
    ensures
        ({
            let g = f.after_start_probe_bw_refill();
            &&& g.state == BbrState::ProbeBw(ProbeBwSubstate::Refill)
            &&& g.pacing_gain == f.default_pacing_gain
            &&& g.cwnd_gain == f.default_cwnd_gain
            &&& g.unbounded()
            &&& g.bw_probe_up_rounds == 0
            &&& g.bw_probe_up_acks == 0
            &&& g.ack_phase == AckPhase::Refilling
            &&& g.begins_round_after(f)
        }),
{
}

/// An upward probe begins a round trip and a search for a full pipe from the current rate;
/// the long-term bound grows by a packet in the round trip, doubled for each one before.
pub proof fn law_up_begins(f: Flow)
    requires
        f.smss > 0,
    ensures
        ({
            let g = f.after_start_probe_bw_up();
            let growth = f.smss as nat * pow2(f.bw_probe_up_rounds as nat);
            &&& g.state == BbrState::ProbeBw(ProbeBwSubstate::Up)
            &&& g.pacing_gain == f.probe_bw_up_pacing_gain
            &&& g.cwnd_gain == f.probe_bw_up_cwnd_gain
            &&& g.ack_phase == AckPhase::ProbeStarting
            &&& g.begins_round_after(f)
            &&& !g.full_bw_now
            &&& g.full_bw_count == 0
            &&& g.full_bw == (match f.rs {
                Some(rs) => rs.delivery_rate,
                None => Double { bits: 0 },
            })
            &&& g.bw_probe_up_rounds == min(f.bw_probe_up_rounds + 1, 30)
            &&& g.probe_up_cnt == max((f.cwnd as nat / growth) as int, 1)
        }),
{
    let growth = f.smss as nat * pow2(f.bw_probe_up_rounds as nat);
    lemma_pow2_pos(f.bw_probe_up_rounds as nat);
    assert(growth > 0) by (nonlinear_arith)
        requires
            f.smss > 0,
            pow2(f.bw_probe_up_rounds as nat) > 0,
            growth == f.smss as nat * pow2(f.bw_probe_up_rounds as nat),
    ;
    let cwnd = f.cwnd as nat;
    assert(cwnd / growth <= cwnd) by (nonlinear_arith)
        requires
            growth > 0,
    ;
}

/// A measurement begins a round trip with its gains; the window is remembered, and whether
/// its time runs is open.
pub proof fn law_measurement_begins(f: Flow)
    ensures
        ({
            let g = f.after_begin_probe_rtt();
            g == (Flow {
                state: BbrState::ProbeRtt,
                pacing_gain: f.default_pacing_gain,
                cwnd_gain: f.probe_rtt_cwnd_gain,
                prior_cwnd: if f.cwnd >= f.prior_cwnd {
                    f.cwnd
                } else {
                    f.prior_cwnd
                },
                probe_rtt_done_stamp: None,
                ack_phase: AckPhase::ProbeStopping,
                next_round_delivered: f.delivered,
                is_cwnd_limited: false,
                ..f
            })
        }),
{
    reveal(Flow::after_begin_probe_rtt);
}

/// A measurement that is over brings the window back and lifts the short-term bounds. The
/// flow cruises in a new cycle where the pipe has been full, and goes back to startup
/// otherwise.
pub proof fn law_measurement_ends(f: Flow, now: Instant)
    requires
        f.probe_rtt_done_stamp matches Some(stamp) && now.nanos > stamp.nanos,
    ensures
        ({
            let g = f.after_check_probe_rtt_done(now);
            &&& g.cwnd == max(f.cwnd as int, f.prior_cwnd as int)
            &&& g.probe_rtt_min_stamp == Some(now)
            &&& g.unbounded()
            &&& if f.full_bw_reached {
                &&& g.state == BbrState::ProbeBw(ProbeBwSubstate::Cruise)
                &&& g.pacing_gain == f.default_pacing_gain
                &&& g.cwnd_gain == f.default_cwnd_gain
                &&& g.cycle_stamp == Some(now)
                &&& g.ack_phase == AckPhase::ProbeStopping
                &&& g.probe_up_cnt == u64::MAX
                &&& !g.loss_in_round
                &&& g.begins_round_after(f)
                &&& g.rounds_since_bw_probe == f.after_pick_probe_wait().rounds_since_bw_probe
                &&& g.bw_probe_wait == f.after_pick_probe_wait().bw_probe_wait
            } else {
                g == (Flow {
                    cwnd: g.cwnd,
                    probe_rtt_min_stamp: g.probe_rtt_min_stamp,
                    bw_shortterm: g.bw_shortterm,
                    inflight_shortterm: g.inflight_shortterm,
                    state: BbrState::Startup,
                    pacing_gain: f.startup_pacing_gain,
                    cwnd_gain: f.default_cwnd_gain,
                    ..f
                })
            }
        }),
{
    reveal(Flow::after_check_probe_rtt_done);
}

/// A measurement that is not over goes on.
pub proof fn law_measurement_goes_on(f: Flow, now: Instant)
    requires
        !(f.probe_rtt_done_stamp matches Some(stamp) && now.nanos > stamp.nanos),
    ensures
        f.after_check_probe_rtt_done(now) == f,
{
    reveal(Flow::after_check_probe_rtt_done);
}

/// A cruise gives way to a refill when another probe is due, and goes on until then.
pub proof fn law_cruise_ends(f: Flow, now: Instant)
    requires
        f.state == BbrState::ProbeBw(ProbeBwSubstate::Cruise),
    ensures
        f.after_next_phase(now) == (if f.another_probe_due(now) {
            f.after_start_probe_bw_refill()
        } else {
            f
        }),
{
    reveal(Flow::after_next_phase);
}

proof fn lemma_down_phase(f: Flow, now: Instant)
    requires
        f.state == BbrState::ProbeBw(ProbeBwSubstate::Down),
    ensures
        f.after_next_phase(now) == f.after_down_phase(now),
        f.probe_due(now) == f.another_probe_due(now),
        f.cruise_due() == (f.inflight <= f.headroom_volume() && f.inflight <= f.unit_target()),
{
    reveal(Flow::after_next_phase);
    crate::laws::estimates::law_unit_target(f);
    crate::laws::estimates::law_headroom(f);
}

/// A downward probe gives way to a refill when another probe is due, and to cruising when
/// no more is in flight than the path holds and the long-term bound, less the headroom,
/// permits. Until then it goes on.
pub proof fn law_down_ends(f: Flow, now: Instant)
    requires
        f.state == BbrState::ProbeBw(ProbeBwSubstate::Down),
    ensures
        ({
            let g = f.after_next_phase(now);
            if f.another_probe_due(now) {
                g == f.after_start_probe_bw_refill()
            } else if f.inflight <= f.headroom_volume() && f.inflight <= f.unit_target() {
                g == (Flow {
                    state: BbrState::ProbeBw(ProbeBwSubstate::Cruise),
                    pacing_gain: f.default_pacing_gain,
                    cwnd_gain: f.default_cwnd_gain,
                    bdp: g.bdp,
                    offload_budget: g.offload_budget,
                    ..f
                }) && g.bdp == f.noted_bdp(f.max_bw) && g.offload_budget == f.offload_volume()
            } else if f.inflight <= f.headroom_volume() {
                g == (Flow { bdp: g.bdp, offload_budget: g.offload_budget, ..f }) && g.bdp
                    == f.noted_bdp(f.max_bw) && g.offload_budget == f.offload_volume()
            } else {
                g == f
            }
        }),
{
    lemma_down_phase(f, now);
    reveal(Flow::after_down_phase);
    crate::laws::estimates::law_path_volume(f, f.max_bw, Double::of(1));
    crate::laws::estimates::law_offload(f);
    crate::laws::estimates::law_headroom(f);
}

/// A refill gives way to an upward probe after a round trip; from then on losses are judged.
pub proof fn law_refill_ends(f: Flow, now: Instant)
    requires
        f.state == BbrState::ProbeBw(ProbeBwSubstate::Refill),
    ensures
        f.after_next_phase(now) == (if f.round_start {
            (Flow { bw_probe_samples: true, ..f }).after_start_probe_bw_up()
        } else {
            f
        }),
{
    reveal(Flow::after_next_phase);
}

/// An upward probe whose window reaches the long-term bound, and is used, goes on with a new
/// search for a full pipe; otherwise it gives way to a downward one when the pipe is full.
pub proof fn law_up_ends(f: Flow, now: Instant)
    requires
        f.state == BbrState::ProbeBw(ProbeBwSubstate::Up),
    ensures
        ({
            let g = f.after_next_phase(now);
            if f.is_cwnd_limited && f.cwnd >= f.inflight_longterm {
                g == (Flow {
                    full_bw: match f.rs {
                        Some(rs) => rs.delivery_rate,
                        None => Double { bits: 0 },
                    },
                    full_bw_count: 0,
                    full_bw_now: false,
                    ..f
                })
            } else if f.full_bw_now {
                g == f.after_start_probe_bw_down(now)
            } else {
                g == f
            }
        }),
{
    reveal(Flow::after_next_phase);
}

/// Other states have no phases, and a flow that has not filled the pipe has no cycle.
pub proof fn law_no_cycle_before_full_pipe(f: Flow, now: Instant)
    ensures
        !(f.state is ProbeBw) ==> f.after_next_phase(now) == f,
        !f.full_bw_reached ==> f.after_update_probe_bw_cycle_phase(now) == f,
        f.full_bw_reached ==> f.after_update_probe_bw_cycle_phase(now)
            == f.after_adapt_long_term_model().after_next_phase(now),
{
    reveal(Flow::after_next_phase);
    reveal(Flow::after_update_probe_bw_cycle_phase);
}

/// A round trip that the application did not limit, and that reports on the last probe,
/// moves the bandwidth filter on; one that began a probe reports on it from then on.
pub proof fn law_cycle_is_counted(f: Flow)
    requires
        f.cycle_count < u64::MAX,
    ensures
        ({
            let g = f.after_adapt_long_term_model();
            &&& g.cycle_count == f.cycle_count + (if f.ack_phase == AckPhase::ProbeStopping
                && f.round_start && f.state is ProbeBw && (f.rs matches Some(rs)
                && !rs.is_app_limited) {
                1int
            } else {
                0
            })
            &&& g.ack_phase == (if f.ack_phase == AckPhase::ProbeStarting && f.round_start {
                AckPhase::ProbeFeedback
            } else {
                f.ack_phase
            })
        }),
{
    reveal(Flow::after_adapt_long_term_model);
    crate::laws::frames::law_bound_changes(f.after_update_ack_phase());
}

/// What was in flight without too much loss is covered by the long-term bound, where there
/// is one. In an upward probe that uses a window as large as the bound, every
/// `probe_up_cnt` bytes that are acknowledged raise it by one more byte, and with each round
/// trip it rises faster.
pub proof fn law_long_term_bound_rises(f: Flow)
    requires
        f.adapt_long_term_fits(),
        f.rs is Some,
        f.smss > 0,
    ensures
        ({
            let r = f.rs->0;
            let g = f.after_adapt_long_term_model();
            let lossy = Double::of(r.tx_in_flight as nat).product(Double::of_ratio(2, 100)).less(
                Double::of(r.lost as nat),
            );
            let covered = max(f.inflight_longterm as int, r.tx_in_flight as int);
            let volume = f.bw_probe_up_acks + r.newly_acked;
            let count = f.probe_up_cnt as int;
            if lossy || f.inflight_longterm == u64::MAX {
                g.inflight_longterm == f.inflight_longterm && g.bw_probe_up_acks
                    == f.bw_probe_up_acks && g.probe_up_cnt == f.probe_up_cnt
                    && g.bw_probe_up_rounds == f.bw_probe_up_rounds
            } else if f.state != BbrState::ProbeBw(ProbeBwSubstate::Up) || !f.is_cwnd_limited
                || f.cwnd < covered {
                g.inflight_longterm == covered && g.bw_probe_up_acks == f.bw_probe_up_acks
                    && g.probe_up_cnt == f.probe_up_cnt && g.bw_probe_up_rounds
                    == f.bw_probe_up_rounds
            } else if count == 0 || volume < count {
                g.inflight_longterm == covered && g.bw_probe_up_acks == volume && g.probe_up_cnt
                    == f.probe_up_cnt && g.bw_probe_up_rounds == f.bw_probe_up_rounds
            } else {
                &&& (g.inflight_longterm - covered) * count + g.bw_probe_up_acks == volume
                &&& 0 <= g.bw_probe_up_acks < count
                &&& g.inflight_longterm > covered
                &&& if f.round_start {
                    &&& g.bw_probe_up_rounds == min(f.bw_probe_up_rounds + 1, 30)
                    &&& g.probe_up_cnt == max(
                        (f.cwnd as nat / (f.smss as nat * pow2(f.bw_probe_up_rounds as nat))) as int,
                        1,
                    )
                } else {
                    g.probe_up_cnt == f.probe_up_cnt && g.bw_probe_up_rounds == f.bw_probe_up_rounds
                }
            }
        }),
{
    reveal(Flow::after_adapt_long_term_model);
    crate::laws::frames::law_ack_phase_changes(f);
    let h = f.after_update_ack_phase();
    crate::laws::frames::law_cover_changes(h);
    let c = h.after_cover_inflight();
    let g = f.after_adapt_long_term_model();
    if !h.inflight_too_high() && h.inflight_longterm != u64::MAX && h.state == BbrState::ProbeBw(
        ProbeBwSubstate::Up,
    ) && c.is_cwnd_limited && c.cwnd >= c.inflight_longterm {
        let volume = c.probe_up_volume();
        let count = c.probe_up_cnt as int;
        assert(c.held_by_long_term_bound());
        if count > 0 {
            vstd::arithmetic::div_mod::lemma_fundamental_div_mod(volume, count);
            let delta = volume / count;
            assert(delta * count == count * delta) by (nonlinear_arith);
            if volume < count {
                vstd::arithmetic::div_mod::lemma_basic_div(volume, count);
            } else {
                vstd::arithmetic::div_mod::lemma_div_non_zero(volume, count);
            }
        }
        let growth = f.smss as nat * pow2(f.bw_probe_up_rounds as nat);
        lemma_pow2_pos(f.bw_probe_up_rounds as nat);
        assert(growth > 0) by (nonlinear_arith)
            requires
                f.smss > 0,
                pow2(f.bw_probe_up_rounds as nat) > 0,
                growth == f.smss as nat * pow2(f.bw_probe_up_rounds as nat),
        ;
        let cwnd = f.cwnd as nat;
        assert(cwnd / growth <= cwnd) by (nonlinear_arith)
            requires
                growth > 0,
        ;
        assert(g == c.after_probe_inflight_long_term_upward());
    }
}

} // verus!
