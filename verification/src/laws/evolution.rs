//! What no operation undoes, and what leads from one state to another.
use crate::bbr3::ControllerState;
use crate::double::Double;
use crate::flow::{BbrState, Flow, ProbeBwSubstate};
use crate::model::ModelState;
use crate::packet::BbrPacket;
use crate::params::send_size;
use crate::time::{Duration, Instant};
use vstd::prelude::*;

verus! {

/// The setup of a flow stays as it is, and what the flow counts or has reached
/// does not go back.
pub open spec fn evolves(before: Flow, after: Flow) -> bool {
    &&& after.smss == before.smss
    &&& after.min_pipe_cwnd == before.min_pipe_cwnd
    &&& evolves_in_size(before, after)
}

/// As `evolves`, though packets may be of another size.
pub open spec fn evolves_in_size(before: Flow, after: Flow) -> bool {
    &&& after.initial_cwnd == before.initial_cwnd
    &&& after.startup_pacing_gain == before.startup_pacing_gain
    &&& after.default_pacing_gain == before.default_pacing_gain
    &&& after.probe_bw_down_pacing_gain == before.probe_bw_down_pacing_gain
    &&& after.probe_bw_up_pacing_gain == before.probe_bw_up_pacing_gain
    &&& after.drain_pacing_gain == before.drain_pacing_gain
    &&& after.pacing_margin_percent == before.pacing_margin_percent
    &&& after.default_cwnd_gain == before.default_cwnd_gain
    &&& after.probe_bw_up_cwnd_gain == before.probe_bw_up_cwnd_gain
    &&& after.probe_rtt_cwnd_gain == before.probe_rtt_cwnd_gain
    &&& after.probe_rtt_duration == before.probe_rtt_duration
    &&& after.probe_rtt_interval == before.probe_rtt_interval
    &&& before.full_bw_reached ==> after.full_bw_reached
    &&& before.round_count <= after.round_count
    &&& before.cycle_count <= after.cycle_count
    &&& before.delivered <= after.delivered
    &&& before.lost <= after.lost
}

/// What the flow counts, and what it would take up again after a spurious loss, is
/// as it was.
pub open spec fn keeps_counts(before: Flow, after: Flow) -> bool {
    &&& after.delivered == before.delivered
    &&& after.delivered_time == before.delivered_time
    &&& after.lost == before.lost
    &&& after.inflight == before.inflight
    &&& after.app_limited == before.app_limited
    &&& keeps_undo(before, after)
}

/// What the flow would take up again after a spurious loss is as it was.
pub open spec fn keeps_undo(before: Flow, after: Flow) -> bool {
    &&& after.undo_state == before.undo_state
    &&& after.undo_bw_shortterm == before.undo_bw_shortterm
    &&& after.undo_inflight_shortterm == before.undo_inflight_shortterm
    &&& after.undo_inflight_longterm == before.undo_inflight_longterm
}

/// The states that an acknowledgement can lead to.
pub open spec fn ack_leads_to(before: Flow, after: Flow) -> bool {
    match after.state {
        BbrState::Startup => before.state == BbrState::Startup || (before.state
            == BbrState::ProbeRtt && !after.full_bw_reached),
        BbrState::Drain => after.full_bw_reached && (before.state == BbrState::Startup
            || before.state == BbrState::Drain),
        BbrState::ProbeBw(_) => before.state is ProbeBw || after.full_bw_reached,
        BbrState::ProbeRtt => true,
    }
}

/// A step that takes in a signal leaves the state as it is.
spec fn takes_signal(before: Flow, after: Flow) -> bool {
    &&& evolves(before, after)
    &&& keeps_counts(before, after)
    &&& after.round_count <= before.round_count + 1
    &&& after.state == before.state
    &&& after.full_bw_reached == before.full_bw_reached
    &&& before.wf() ==> after.wf()
}

proof fn lemma_latest_delivery(f: Flow)
    ensures
        takes_signal(f, f.after_update_latest_delivery_signals()),
        f.after_update_latest_delivery_signals().round_count == f.round_count,
{
    reveal(Flow::after_update_latest_delivery_signals);
}

proof fn lemma_update_round(f: Flow, packet: BbrPacket)
    requires
        f.update_round_fits(packet),
    ensures
        takes_signal(f, f.after_update_round(packet)),
{
    reveal(Flow::after_update_round);
}

proof fn lemma_close_loss_round(f: Flow)
    ensures
        takes_signal(f, f.after_close_loss_round()),
        f.after_close_loss_round().round_count == f.round_count,
{
    reveal(Flow::after_close_loss_round);
}

proof fn lemma_measure_aggregation(f: Flow, now: Instant)
    ensures
        takes_signal(f, f.after_measure_aggregation(now)),
        f.after_measure_aggregation(now).round_count == f.round_count,
{
    reveal(Flow::after_measure_aggregation);
}

proof fn lemma_startup_done(f: Flow)
    requires
        f.wf(),
    ensures
        ({
            let after = f.after_check_full_bw_reached().after_check_startup_done();
            &&& evolves(f, after)
            &&& keeps_counts(f, after)
            &&& after.round_count == f.round_count
            &&& Flow::past_startup(after.state) ==> after.full_bw_reached
            &&& after.state == BbrState::Startup ==> !after.full_bw_reached
            &&& after.state == f.state || (f.state == BbrState::Startup && after.state
                == BbrState::Drain)
        }),
{
    reveal(Flow::after_check_full_bw_reached);
    reveal(Flow::after_check_startup_done);
}

proof fn lemma_drain_done(f: Flow, now: Instant)
    ensures
        evolves(f, f.after_check_drain_done(now)),
        keeps_counts(f, f.after_check_drain_done(now)),
        f.after_check_drain_done(now).round_count == f.round_count,
        f.after_check_drain_done(now).full_bw_reached == f.full_bw_reached,
        f.after_check_drain_done(now).state == f.state || (f.state == BbrState::Drain
            && f.after_check_drain_done(now).state is ProbeBw),
{
    reveal(Flow::after_check_drain_done);
}

proof fn lemma_before_cycle(f: Flow, now: Instant)
    requires
        f.wf(),
    ensures
        keeps_counts(f, f.before_cycle(now)),
        f.before_cycle(now).round_count == f.round_count,
        evolves(f, f.before_cycle(now)),
        Flow::past_startup(f.before_cycle(now).state) ==> f.before_cycle(now).full_bw_reached,
        f.before_cycle(now).state == BbrState::Startup ==> !f.before_cycle(now).full_bw_reached,
        match f.state {
            BbrState::Startup => true,
            BbrState::Drain => f.before_cycle(now).state is Drain || f.before_cycle(
                now,
            ).state is ProbeBw,
            _ => f.before_cycle(now).state == f.state,
        },
{
    lemma_startup_done(f);
    lemma_drain_done(f.after_check_full_bw_reached().after_check_startup_done(), now);
}

proof fn lemma_adapt_long_term_model(f: Flow)
    requires
        f.adapt_long_term_fits(),
    ensures
        evolves(f, f.after_adapt_long_term_model()),
        keeps_counts(f, f.after_adapt_long_term_model()),
        f.after_adapt_long_term_model().round_count == f.round_count,
        f.after_adapt_long_term_model().full_bw_reached == f.full_bw_reached,
        f.after_adapt_long_term_model().state == f.state,
{
    reveal(Flow::after_adapt_long_term_model);
}

proof fn lemma_next_phase(f: Flow, now: Instant)
    ensures
        evolves(f, f.after_next_phase(now)),
        keeps_counts(f, f.after_next_phase(now)),
        f.after_next_phase(now).round_count == f.round_count,
        f.after_next_phase(now).full_bw_reached == f.full_bw_reached,
        f.after_next_phase(now).state == f.state || f.state is ProbeBw,
        f.state is ProbeBw ==> f.after_next_phase(now).state is ProbeBw,
{
    reveal(Flow::after_next_phase);
    reveal(Flow::after_down_phase);
}

proof fn lemma_update_cycle(f: Flow, now: Instant)
    requires
        f.cycle_fits(),
    ensures
        keeps_counts(f, f.after_update_probe_bw_cycle_phase(now)),
        f.after_update_probe_bw_cycle_phase(now).round_count == f.round_count,
        evolves(f, f.after_update_probe_bw_cycle_phase(now)),
        f.after_update_probe_bw_cycle_phase(now).full_bw_reached == f.full_bw_reached,
        f.after_update_probe_bw_cycle_phase(now).state == f.state || f.state is ProbeBw,
        f.state is ProbeBw ==> f.after_update_probe_bw_cycle_phase(now).state is ProbeBw,
{
    reveal(Flow::after_update_probe_bw_cycle_phase);
    if f.full_bw_reached {
        lemma_adapt_long_term_model(f);
        lemma_next_phase(f.after_adapt_long_term_model(), now);
    }
}

proof fn lemma_update_min_rtt(f: Flow, now: Instant)
    ensures
        keeps_counts(f, f.after_update_min_rtt(now)),
        f.after_update_min_rtt(now).round_count == f.round_count,
        evolves(f, f.after_update_min_rtt(now)),
        f.after_update_min_rtt(now).state == f.state,
        f.after_update_min_rtt(now).full_bw_reached == f.full_bw_reached,
{
    reveal(Flow::after_update_min_rtt);
}

/// A step of the measurement of the round-trip time ends it, or goes on with it.
spec fn measures(before: Flow, after: Flow) -> bool {
    &&& evolves(before, after)
    &&& keeps_counts(before, after)
    &&& after.round_count == before.round_count
    &&& after.full_bw_reached == before.full_bw_reached
    &&& after.state == before.state || (if before.full_bw_reached {
        after.state is ProbeBw
    } else {
        after.state is Startup
    })
}

proof fn lemma_check_probe_rtt_done(f: Flow, now: Instant)
    ensures
        measures(f, f.after_check_probe_rtt_done(now)),
{
    reveal(Flow::after_check_probe_rtt_done);
}

proof fn lemma_handle_probe_rtt(f: Flow, now: Instant)
    ensures
        measures(f, f.after_handle_probe_rtt(now)),
{
    reveal(Flow::after_arm_probe_rtt);
    reveal(Flow::after_wait_probe_rtt);
    lemma_check_probe_rtt_done(
        Flow { probe_rtt_round_done: f.round_start || f.probe_rtt_round_done, ..f },
        now,
    );
}

proof fn lemma_begin_probe_rtt(f: Flow)
    ensures
        evolves(f, f.after_begin_probe_rtt()),
        keeps_counts(f, f.after_begin_probe_rtt()),
        f.after_begin_probe_rtt().round_count == f.round_count,
        f.after_begin_probe_rtt().full_bw_reached == f.full_bw_reached,
        f.after_begin_probe_rtt().state == BbrState::ProbeRtt,
{
    reveal(Flow::after_begin_probe_rtt);
}

proof fn lemma_check_probe_rtt(f: Flow, now: Instant)
    ensures
        keeps_counts(f, f.after_check_probe_rtt(now)),
        f.after_check_probe_rtt(now).round_count == f.round_count,
        evolves(f, f.after_check_probe_rtt(now)),
        f.after_check_probe_rtt(now).full_bw_reached == f.full_bw_reached,
        match f.after_check_probe_rtt(now).state {
            BbrState::ProbeRtt => true,
            BbrState::Startup => f.state == BbrState::Startup || (f.state == BbrState::ProbeRtt
                && !f.full_bw_reached),
            BbrState::ProbeBw(_) => f.state == f.after_check_probe_rtt(now).state || (f.state
                == BbrState::ProbeRtt && f.full_bw_reached),
            BbrState::Drain => f.state == BbrState::Drain,
        },
{
    reveal(Flow::after_check_probe_rtt);
    lemma_handle_probe_rtt(f, now);
    lemma_begin_probe_rtt(f);
    reveal(Flow::after_note_delivery);
}

proof fn lemma_close_sample_update(f: Flow)
    ensures
        keeps_counts(f, f.after_advance_latest_delivery_signals().after_bound_bw_for_model()),
        f.after_advance_latest_delivery_signals().after_bound_bw_for_model().round_count == f.round_count,
        evolves(f, f.after_advance_latest_delivery_signals().after_bound_bw_for_model()),
        f.after_advance_latest_delivery_signals().after_bound_bw_for_model().state == f.state,
        f.after_advance_latest_delivery_signals().after_bound_bw_for_model().full_bw_reached
            == f.full_bw_reached,
{
}

proof fn lemma_advance(f: Flow, now: Instant)
    requires
        f.wf(),
        f.advance_fits(now),
    ensures
        keeps_counts(f, f.after_advance(now)),
        f.after_advance(now).round_count == f.round_count,
        evolves(f, f.after_advance(now)),
        ack_leads_to(f, f.after_advance(now)),
{
    reveal(Flow::after_advance);
    reveal(Flow::advance_fits);
    let cycle = f.before_cycle(now);
    lemma_before_cycle(f, now);
    lemma_update_cycle(cycle, now);
    let phased = cycle.after_update_probe_bw_cycle_phase(now);
    lemma_update_min_rtt(phased, now);
    lemma_check_probe_rtt(phased.after_update_min_rtt(now), now);
    lemma_close_sample_update(phased.after_update_min_rtt(now).after_check_probe_rtt(now));
}

proof fn lemma_control(f: Flow)
    ensures
        keeps_counts(f, f.after_update_control_parameters()),
        f.after_update_control_parameters().round_count == f.round_count,
        evolves(f, f.after_update_control_parameters()),
        f.after_update_control_parameters().state == f.state,
        f.after_update_control_parameters().full_bw_reached == f.full_bw_reached,
{
    reveal(Flow::after_update_control_parameters);
}

proof fn lemma_sample(m: ModelState, packet: BbrPacket, now: Instant)
    requires
        m.flow.wf(),
        m.sample_fits(packet, now),
    ensures
        keeps_counts(m.flow, m.after_sample(packet, now).flow),
        evolves(m.flow, m.after_sample(packet, now).flow),
        ack_leads_to(m.flow, m.after_sample(packet, now).flow),
        m.after_sample(packet, now).flow.round_count <= m.flow.round_count + 1,
{
    let latest = m.flow.after_update_latest_delivery_signals();
    lemma_latest_delivery(m.flow);
    lemma_update_round(latest, packet);
    let recorded = (ModelState { flow: latest, ..m }).after_update_max_bw(packet);
    assert(takes_signal(latest, recorded.flow));
    lemma_close_loss_round(recorded.flow);
    let signalled = m.after_signals(packet);
    assert(signalled.flow == recorded.flow.after_close_loss_round());
    lemma_measure_aggregation(signalled.flow, now);
    let measured = signalled.after_update_ack_aggregation(now);
    assert(takes_signal(signalled.flow, measured.flow));
    lemma_advance(measured.flow, now);
    lemma_control(measured.flow.after_advance(now));
}

/// An acknowledgement of `bytes` bytes delivers them, the first one as any other, and
/// ends at most one round trip. It leads to startup only from a
/// measurement of the round-trip time, while the pipe has not been full; to drain
/// only from startup, once the pipe is full; to bandwidth probing only where the
/// pipe has been full.
pub proof fn law_ack(
    s: ControllerState,
    now: Instant,
    sent: Instant,
    bytes: u64,
    pn: u64,
    srtt: Duration,
)
    requires
        s.model.flow.wf(),
        s.ack_fits(now, sent, bytes, pn, srtt),
    ensures
        evolves(s.model.flow, s.after_ack(now, sent, bytes, pn, srtt).model.flow),
        ack_leads_to(s.model.flow, s.after_ack(now, sent, bytes, pn, srtt).model.flow),
        s.after_ack(now, sent, bytes, pn, srtt).model.flow.round_count <= s.model.flow.round_count
            + 1,
        s.after_ack(now, sent, bytes, pn, srtt).model.flow.delivered == s.model.flow.delivered
            + bytes,
        s.after_ack(now, sent, bytes, pn, srtt).model.flow.delivered_time == Some(now),
        s.after_ack(now, sent, bytes, pn, srtt).model.flow.lost == s.model.flow.lost,
        keeps_undo(s.model.flow, s.after_ack(now, sent, bytes, pn, srtt).model.flow),
        s.after_ack(now, sent, bytes, pn, srtt).model.flow.inflight == s.model.flow.inflight,
        s.after_ack(now, sent, bytes, pn, srtt).packets.len() == s.packets.len(),
{
    crate::packet::lemma_lookup_sound(s.packets, pn);
    let counted = s.counted(now, bytes);
    assert(counted.model.flow.wf());
    if let Some(index) = crate::packet::lookup(s.packets, pn) {
        if counted.takes_sample(sent, pn) {
            let p = crate::packet::as_acknowledged(s.packets[index]);
            let taken = counted.with_flow(
                counted.model.flow.after_take_packet(p, bytes, srtt, now),
            ).model;
            assert(taken.flow.wf());
            lemma_sample(taken, p, now);
        }
    }
}

/// A packet that is sent adds its size to what is in flight, and itself to the log.
pub proof fn law_packet_sent(s: ControllerState, now: Instant, bytes: u16, pn: u64)
    requires
        s.model.flow.wf(),
        s.send_fits(bytes),
    ensures
        evolves(s.model.flow, s.after_packet_sent(now, bytes, pn).model.flow),
        s.after_packet_sent(now, bytes, pn).model.flow.inflight == s.model.flow.inflight + bytes,
        keeps_undo(s.model.flow, s.after_packet_sent(now, bytes, pn).model.flow),
        s.after_packet_sent(now, bytes, pn).packets.drop_last() == s.packets,
        s.after_packet_sent(now, bytes, pn).packets.last().packet_number == pn,
{
    reveal(Flow::after_check_probe_rtt_done);
    assert(s.after_packet_sent(now, bytes, pn).packets.drop_last() =~= s.packets);
}

/// A send by a flow with nothing in flight that the application limited restarts the
/// flow from idle; no other send does. The restart begins a new aggregation interval, and
/// ends a measurement of the round-trip time whose time is over.
pub proof fn law_restart_from_idle(s: ControllerState, now: Instant, bytes: u16, pn: u64)
    ensures
        ({
            let before = s.model.flow;
            let after = s.after_packet_sent(now, bytes, pn).model.flow;
            let restarts = before.inflight == 0 && before.app_limited != 0;
            &&& restarts ==> after.idle_restart && after.extra_acked_interval_start == Some(now)
            &&& !restarts ==> after.idle_restart == before.idle_restart
                && after.extra_acked_interval_start == before.extra_acked_interval_start
                && after.state == before.state && after.pacing_rate == before.pacing_rate
            &&& restarts && before.state == BbrState::ProbeRtt && before.probe_rtt_over(now)
                ==> after.state != BbrState::ProbeRtt
            &&& restarts && before.state is ProbeBw && before.full_bw_reached
                ==> after.pacing_rate == before.paced_rate(Double::of(1))
        }),
{
    reveal(Flow::after_check_probe_rtt_done);
}

/// A round of acknowledgements leaves the state of the flow as it is.
pub proof fn law_end_acks(
    s: ControllerState,
    in_flight: u64,
    app_limited: bool,
    largest: Option<u64>,
)
    ensures
        evolves(s.model.flow, s.after_end_acks(in_flight, app_limited, largest).model.flow),
        s.after_end_acks(in_flight, app_limited, largest).model.flow.state == s.model.flow.state,
        s.after_end_acks(in_flight, app_limited, largest).model.flow.cwnd == s.model.flow.cwnd,
        keeps_undo(
            s.model.flow,
            s.after_end_acks(in_flight, app_limited, largest).model.flow,
        ),
{
}

/// A loss ends an upward probe or leaves the state of the flow as it is.
pub proof fn law_packet_lost(s: ControllerState, lost_bytes: u64, pn: u64, now: Instant)
    requires
        s.loss_fits(lost_bytes),
    ensures
        evolves(s.model.flow, s.after_packet_lost(lost_bytes, pn, now).model.flow),
        s.after_packet_lost(lost_bytes, pn, now).model.flow.state == s.model.flow.state || (
        s.model.flow.state == BbrState::ProbeBw(ProbeBwSubstate::Up) && s.after_packet_lost(
            lost_bytes,
            pn,
            now,
        ).model.flow.state == BbrState::ProbeBw(ProbeBwSubstate::Down)),
        s.after_packet_lost(lost_bytes, pn, now).model.flow.cwnd == s.model.flow.cwnd,
        s.after_packet_lost(lost_bytes, pn, now).model.flow.lost == s.model.flow.lost + lost_bytes,
{
}

/// A signal by the network does what a loss of the same bytes does, but for the window
/// of a persistent one, which shrinks to the smallest. Nothing else is answered.
pub proof fn law_congestion_signal_is_a_loss(
    s: ControllerState,
    now: Instant,
    is_persistent: bool,
    lost_bytes: u64,
    pn: u64,
)
    ensures
        ({
            let lost = s.after_packet_lost(lost_bytes, pn, now);
            let flow = lost.model.flow;
            s.after_congestion_event(now, is_persistent, true, lost_bytes, pn) == (
            if is_persistent {
                lost.with_flow(Flow { cwnd: flow.min_pipe_cwnd, ..flow })
            } else {
                lost
            })
        }),
        s.after_congestion_event(now, is_persistent, false, lost_bytes, pn) == s,
{
}

/// An answered signal keeps what the flow counts and has reached.
pub proof fn law_congestion_event(
    s: ControllerState,
    now: Instant,
    is_persistent: bool,
    is_ecn: bool,
    lost_bytes: u64,
    pn: u64,
)
    requires
        is_ecn ==> s.loss_fits(lost_bytes),
    ensures
        ({
            let after = s.after_congestion_event(now, is_persistent, is_ecn, lost_bytes, pn);
            &&& evolves(s.model.flow, after.model.flow)
            &&& is_ecn && is_persistent ==> after.model.flow.cwnd == s.model.flow.min_pipe_cwnd
        }),
{
    if is_ecn {
        law_packet_lost(s, lost_bytes, pn, now);
    }
}

/// A spurious loss keeps what the flow counts and has reached.
pub proof fn law_spurious_loss_evolves(f: Flow)
    ensures
        evolves(f, f.after_undo_loss()),
{
}

/// A new datagram size keeps what the flow counts and has reached. The smallest window
/// holds four packets of the new size, and the window is at least that.
pub proof fn law_mtu_update(s: ControllerState, new_mtu: u16)
    ensures
        evolves_in_size(s.model.flow, s.after_mtu_update(new_mtu).model.flow),
        s.after_mtu_update(new_mtu).model.flow.smss == send_size(new_mtu),
        s.after_mtu_update(new_mtu).model.flow.min_pipe_cwnd == 4 * send_size(new_mtu),
        s.after_mtu_update(new_mtu).model.flow.cwnd >= 4 * send_size(new_mtu),
        s.after_mtu_update(new_mtu).model.flow.state == s.model.flow.state,
{
}

} // verus!
