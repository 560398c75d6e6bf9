//! When startup ends, and when it does not.
use crate::bbr3::ControllerState;
use crate::flow::{BbrState, Flow, ProbeBwSubstate};
use crate::model::ModelState;
use crate::packet::BbrPacket;
use crate::params::{MAX_FULL_BW_COUNT, STARTUP_FULL_LOSS_CNT};
use crate::time::{Duration, Instant};
use vstd::prelude::*;

verus! {

/// A round trip ends that the application did not limit and that shows no growth,
/// while the flow looks for a full pipe.
pub open spec fn stalled(f: Flow) -> bool {
    !f.full_bw_now && f.round_start && !f.app_limited_sample() && !f.still_growing()
}

/// Three consecutive round trips without growth, and no fewer, fill the pipe.
pub proof fn law_plateau_fills_pipe(first: Flow, second: Flow, third: Flow)
    requires
        stalled(first),
        stalled(second),
        stalled(third),
        first.full_bw_count == 0,
        second.full_bw_count == first.after_check_full_bw_reached().full_bw_count,
        third.full_bw_count == second.after_check_full_bw_reached().full_bw_count,
    ensures
        !first.after_check_full_bw_reached().full_bw_now,
        !second.after_check_full_bw_reached().full_bw_now,
        third.after_check_full_bw_reached().full_bw_count == MAX_FULL_BW_COUNT,
        third.after_check_full_bw_reached().full_bw_now,
        third.after_check_full_bw_reached().full_bw_reached,
{
    reveal(Flow::after_check_full_bw_reached);
}

/// The third round trip without growth ends startup.
pub proof fn law_plateau_ends_startup(f: Flow)
    requires
        f.state == BbrState::Startup,
        stalled(f),
        f.full_bw_count == MAX_FULL_BW_COUNT - 1,
    ensures
        f.after_check_full_bw_reached().after_check_startup_done().state == BbrState::Drain,
        f.after_check_full_bw_reached().after_check_startup_done().full_bw_count
            == MAX_FULL_BW_COUNT,
{
    reveal(Flow::after_check_full_bw_reached);
    reveal(Flow::after_check_startup_done);
}

/// A round trip that shows growth begins the count anew, from the rate it showed.
pub proof fn law_growth_restarts_count(f: Flow)
    requires
        !f.full_bw_now,
        f.round_start,
        !f.app_limited_sample(),
        f.still_growing(),
    ensures
        f.after_check_full_bw_reached().full_bw_count == 0,
        f.after_check_full_bw_reached().full_bw == f.rs->0.delivery_rate,
        !f.after_check_full_bw_reached().full_bw_now,
        f.after_check_full_bw_reached().full_bw_reached == f.full_bw_reached,
{
    reveal(Flow::after_check_full_bw_reached);
}

/// What the application limits counts neither as growth nor against it.
pub proof fn law_app_limited_round_does_not_count(f: Flow)
    requires
        f.app_limited_sample(),
    ensures
        f.after_check_full_bw_reached() == f,
{
    reveal(Flow::after_check_full_bw_reached);
}

/// Loss fills the pipe exactly where a loss round ends that saw enough losses, at a
/// rate above the tolerated one.
pub proof fn law_high_loss_fills_pipe(f: Flow)
    requires
        !f.full_bw_reached,
    ensures
        f.after_check_startup_high_loss().full_bw_reached <==> f.loss_round_start
            && f.loss_events_in_round >= STARTUP_FULL_LOSS_CNT && f.inflight_too_high(),
        f.after_check_startup_high_loss().full_bw_reached
            ==> f.after_check_startup_high_loss().full_bw_now,
{
}

/// With each loss round the losses are counted anew, also once the pipe has been full.
pub proof fn law_losses_are_counted_by_round(f: Flow)
    ensures
        f.after_check_startup_high_loss().loss_events_in_round == (if f.loss_round_start {
            0
        } else {
            f.loss_events_in_round
        }),
        f.loss_round_start ==> f.after_check_startup_high_loss().last_lost_packet is None,
{
}

/// Packets lost one directly after another are one loss event; a packet that does not
/// directly follow the last one lost begins another.
pub proof fn law_loss_events_are_discontiguous(
    f: Flow,
    p: BbrPacket,
    lost_bytes: u64,
    now: Instant,
)
    requires
        f.loss_events_in_round < u64::MAX,
    ensures
        ({
            let after = f.after_lose_packet(p, lost_bytes, now);
            let follows = f.last_lost_packet matches Some(last) && last + 1 == p.packet_number;
            &&& after.loss_events_in_round == f.loss_events_in_round + (if follows {
                0int
            } else {
                1
            })
            &&& after.last_lost_packet == Some(p.packet_number)
        }),
{
}

/// Startup ends exactly where the pipe is full, and drains from that round trip on,
/// at the pacing gain for draining.
pub proof fn law_startup_ends_when_full(f: Flow)
    requires
        f.state == BbrState::Startup,
    ensures
        f.after_check_startup_done().state == (if f.full_bw_reached || f.startup_loss_too_high() {
            BbrState::Drain
        } else {
            BbrState::Startup
        }),
        f.after_check_startup_done().state == BbrState::Drain ==> {
            &&& f.after_check_startup_done().pacing_gain == f.drain_pacing_gain
            &&& f.after_check_startup_done().drain_start_round == f.round_count
        },
{
    reveal(Flow::after_check_startup_done);
}

/// A measurement of the round-trip time that is over leads back to startup while the
/// pipe has not been full, and to cruising otherwise.
pub proof fn law_probe_rtt_exit(f: Flow, now: Instant)
    requires
        f.probe_rtt_over(now),
    ensures
        f.after_check_probe_rtt_done(now).state == (if f.full_bw_reached {
            BbrState::ProbeBw(ProbeBwSubstate::Cruise)
        } else {
            BbrState::Startup
        }),
{
    reveal(Flow::after_check_probe_rtt_done);
}

/// A flow that has neither filled the pipe nor lost enough to end startup.
pub open spec fn in_startup(f: Flow) -> bool {
    &&& !f.full_bw_reached
    &&& f.state == BbrState::Startup || f.state == BbrState::ProbeRtt
    &&& f.loss_events_in_round < STARTUP_FULL_LOSS_CNT
}

proof fn lemma_signals_in_startup(m: ModelState, packet: BbrPacket, now: Instant)
    requires
        in_startup(m.flow),
        m.flow.app_limited_sample(),
    ensures
        in_startup(m.after_signals(packet).after_update_ack_aggregation(now).flow),
        m.after_signals(packet).after_update_ack_aggregation(now).flow.app_limited_sample(),
{
    reveal(Flow::after_update_latest_delivery_signals);
    reveal(Flow::after_update_round);
    reveal(Flow::after_close_loss_round);
    reveal(Flow::after_measure_aggregation);
}

proof fn lemma_check_probe_rtt_in_startup(f: Flow, now: Instant)
    requires
        in_startup(f),
    ensures
        in_startup(f.after_check_probe_rtt(now)),
{
    reveal(Flow::after_check_probe_rtt);
    reveal(Flow::after_arm_probe_rtt);
    reveal(Flow::after_wait_probe_rtt);
    reveal(Flow::after_check_probe_rtt_done);
    reveal(Flow::after_begin_probe_rtt);
    reveal(Flow::after_note_delivery);
}

proof fn lemma_advance_in_startup(f: Flow, now: Instant)
    requires
        in_startup(f),
        f.app_limited_sample(),
    ensures
        in_startup(f.after_advance(now)),
{
    reveal(Flow::after_advance);
    reveal(Flow::after_check_full_bw_reached);
    let checked = f.after_check_full_bw_reached();
    assert(checked == f);
    let cycle = f.before_cycle(now);
    assert(in_startup(cycle)) by {
        reveal(Flow::after_check_startup_done);
        reveal(Flow::after_check_drain_done);
    }
    let phased = cycle.after_update_probe_bw_cycle_phase(now);
    assert(phased == cycle) by {
        reveal(Flow::after_update_probe_bw_cycle_phase);
    }
    let timed = phased.after_update_min_rtt(now);
    assert(in_startup(timed)) by {
        reveal(Flow::after_update_min_rtt);
    }
    lemma_check_probe_rtt_in_startup(timed, now);
}

/// A flow in startup whose samples the application limits, and which does not lose
/// enough, stays in startup, but for measurements of the round-trip time.
pub proof fn law_app_limited_startup_persists(
    s: ControllerState,
    now: Instant,
    sent: Instant,
    bytes: u64,
    pn: u64,
    srtt: Duration,
)
    requires
        in_startup(s.model.flow),
        crate::packet::lookup(s.packets, pn) matches Some(i) ==> s.packets[i].is_app_limited,
    ensures
        in_startup(s.after_ack(now, sent, bytes, pn, srtt).model.flow),
{
    let counted = s.counted(now, bytes);
    if let Some(index) = crate::packet::lookup(s.packets, pn) {
        if counted.takes_sample(sent, pn) {
            let p = crate::packet::as_acknowledged(s.packets[index]);
            let taken = counted.with_flow(
                counted.model.flow.after_take_packet(p, bytes, srtt, now),
            ).model;
            lemma_signals_in_startup(taken, p, now);
            let measured = taken.after_signals(p).after_update_ack_aggregation(now);
            lemma_advance_in_startup(measured.flow, now);
            reveal(Flow::after_update_control_parameters);
        }
    }
}

/// Sends and the ends of rounds of acknowledgements keep a flow in startup.
pub proof fn law_startup_persists_otherwise(
    s: ControllerState,
    now: Instant,
    bytes: u16,
    pn: u64,
    in_flight: u64,
    app_limited: bool,
    largest: Option<u64>,
)
    requires
        in_startup(s.model.flow),
    ensures
        in_startup(s.after_packet_sent(now, bytes, pn).model.flow),
        in_startup(s.after_end_acks(in_flight, app_limited, largest).model.flow),
{
    reveal(Flow::after_check_probe_rtt_done);
}

} // verus!
