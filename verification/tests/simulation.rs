//! Flows over a simulated link: one bottleneck with a constant bandwidth, a
//! constant propagation time and an infinite buffer.
use bbr3::double::Double;
use bbr3::flow::{BbrState, Flow, ProbeBwSubstate};
use bbr3::params::{
    drain_pacing_gain, probe_bw_down_pacing_gain, startup_pacing_gain, MAX_FULL_BW_COUNT,
};
use bbr3::time::{Duration, Instant};
use bbr3::{Bbr3, Bbr3Config};
use std::collections::VecDeque;
use std::sync::Arc;

/// packet size in bytes
const MSS: u64 = 1200;
/// simulated bottleneck bandwidth: 100 Mbit/s in bytes/sec
const BW: f64 = 12_500_000.0;
/// Simulated propagation round-trip time. It is large (100ms), so that the
/// measurement of the round-trip time that begins with the first ack spans fewer
/// than `MAX_FULL_BW_COUNT` rounds and cannot complete a plateau.
const RTT_NS: u64 = 100_000_000;
const FWD_NS: u64 = RTT_NS / 2;
const RET_NS: u64 = RTT_NS / 2;
/// drop 1 in every `LOSS_PERIOD` packets: 4% loss, above the tolerated 2%, spread
/// evenly over each round trip
const LOSS_PERIOD: u64 = 25;

/// A smoothed round-trip time as a connection keeps it.
struct RttEstimator {
    latest: u64,
    smoothed: Option<u64>,
    min: u64,
}

impl RttEstimator {
    fn new(initial_rtt: u64) -> Self {
        Self { latest: initial_rtt, smoothed: None, min: initial_rtt }
    }

    fn get(&self) -> Duration {
        Duration::from_nanos(self.smoothed.unwrap_or(self.latest))
    }

    fn update(&mut self, ack_delay: u64, rtt: u64) {
        self.latest = rtt;
        self.min = self.min.min(rtt);
        match self.smoothed {
            Some(smoothed) => {
                let adjusted = if self.min + ack_delay <= rtt { rtt - ack_delay } else { rtt };
                self.smoothed = Some((7 * smoothed + adjusted) / 8);
            }
            None => {
                self.smoothed = Some(rtt);
                self.min = rtt;
            }
        }
    }
}

struct InFlight {
    pn: u64,
    send_ns: u64,
    ack_ns: u64,
    lost: bool,
}

/// A flow and the link that it crosses.
struct Sim {
    bbr: Bbr3,
    rtt_est: RttEstimator,
    flight: VecDeque<InFlight>,
    now_ns: u64,
    next_send_ns: u64,
    /// time at which the bottleneck finishes serving everything queued so far
    btl_free_ns: u64,
    /// bottleneck serialization time for one MSS-sized packet
    btl_service_ns: u64,
    inflight: u64,
    pn: u64,
}

fn at(off_ns: u64) -> Instant {
    Instant { nanos: 1_000_000_000_000 + off_ns as u128 }
}

fn service_ns(bandwidth: f64) -> u64 {
    (MSS as f64 / bandwidth * 1e9).round() as u64
}

fn as_f64(d: Double) -> f64 {
    f64::from_bits(d.bits)
}

impl Sim {
    /// The default configuration, at the start.
    fn new() -> Self {
        let bbr = Bbr3::new(Arc::new(Bbr3Config::default()), MSS as u16);
        assert_eq!(bbr.model.flow.state, BbrState::Startup);
        Sim {
            bbr,
            rtt_est: RttEstimator::new(RTT_NS),
            flight: VecDeque::new(),
            now_ns: 0,
            next_send_ns: 0,
            btl_free_ns: 0,
            btl_service_ns: service_ns(BW),
            inflight: 0,
            pn: 0,
        }
    }

    fn flow(&self) -> &Flow {
        &self.bbr.model.flow
    }

    fn next_ack(&self) -> Option<u64> {
        self.flight.front().map(|p| p.ack_ns)
    }

    /// Room for another packet in `window`, and a paced send due no later than the
    /// next ack.
    fn send_due(&self, window: u64) -> bool {
        let can_send = self.inflight + MSS <= window;
        can_send
            && match self.next_ack() {
                Some(ack) => self.next_send_ns <= ack,
                None => true,
            }
    }

    /// Sends a packet at `now_ns`; the FIFO bottleneck serves it at its rate.
    fn send(&mut self, lost: bool) {
        let send_ns = self.now_ns;
        let arrival = send_ns + FWD_NS;
        let service_start = arrival.max(self.btl_free_ns);
        let finish = service_start + self.btl_service_ns;
        self.btl_free_ns = finish;
        let ack_ns = finish + RET_NS;
        assert!(self.bbr.can_send(MSS as u16));
        self.bbr.on_packet_sent(at(send_ns), MSS as u16, self.pn);
        self.inflight += MSS;
        self.flight.push_back(InFlight { pn: self.pn, send_ns, ack_ns, lost });
    }

    /// Sends a packet when it is due, and paces the next one.
    fn paced_send(&mut self, lost: bool, app_limited: bool) {
        self.now_ns = self.now_ns.max(self.next_send_ns);
        self.send(lost);
        if app_limited {
            // What a connection does whose application has no more data: the last
            // packet sent is the one up to which the flow is limited.
            self.bbr.model.flow.app_limited = self.pn;
        }
        let pacing = as_f64(self.flow().pacing_rate).max(1.0);
        self.next_send_ns = self.now_ns + (MSS as f64 / pacing * 1e9).round() as u64;
        self.pn += 1;
    }

    /// Takes the next packet off the link.
    fn arrive(&mut self) -> InFlight {
        match self.flight.pop_front() {
            Some(p) => {
                self.now_ns = self.now_ns.max(p.ack_ns);
                self.inflight -= MSS;
                p
            }
            None => panic!("simulation stalled: window full but nothing in flight"),
        }
    }

    fn ack(&mut self, p: &InFlight, app_limited: bool) {
        self.rtt_est.update(0, self.now_ns - p.send_ns);
        let srtt = self.rtt_est.get();
        let now = at(self.now_ns);
        let sent = at(p.send_ns);
        assert!(self.bbr.can_ack(now, sent, MSS, p.pn, srtt));
        self.bbr.on_ack(now, sent, MSS, p.pn, app_limited, srtt);
    }

    fn lose(&mut self, p: &InFlight) {
        assert!(self.bbr.can_lose(MSS));
        self.bbr.on_packet_lost(MSS as u16, p.pn, at(self.now_ns));
    }

    fn end_acks(&mut self, p: &InFlight, app_limited: bool) {
        self.bbr.on_end_acks(at(self.now_ns), self.inflight, app_limited, Some(p.pn));
    }

    /// One event of a sender that always has data: a send, or an ack. Says whether
    /// it was an ack.
    fn step(&mut self) -> bool {
        let cwnd = self.bbr.window();
        if self.send_due(cwnd) {
            self.paced_send(false, false);
            false
        } else {
            let p = self.arrive();
            self.ack(&p, false);
            self.end_acks(&p, false);
            true
        }
    }

    fn unit_inflight(&mut self) -> u64 {
        self.bbr.model.flow.get_inflight(Double::from_u64(1))
    }
}

/// Startup ends on a bandwidth plateau: once the measured delivery rate stops
/// growing by 25% for three consecutive rounds, the pipe counts as full, the
/// bandwidth estimate is within 2% of the link's, and the flow drains.
#[test]
fn startup_exits_to_drain_on_bandwidth_plateau() {
    let mut sim = Sim::new();
    let mut transition: Option<(u64, bool, bool, f64)> = None;
    for _ in 0..1_000_000 {
        if sim.step() && sim.flow().state == BbrState::Drain {
            let flow = sim.flow();
            transition = Some((
                flow.full_bw_count,
                flow.full_bw_now,
                flow.full_bw_reached,
                as_f64(flow.max_bw),
            ));
            break;
        }
    }
    let (full_bw_count, full_bw_now, full_bw_reached, max_bw) =
        transition.expect("BBR never left STARTUP");
    assert_eq!(full_bw_count, MAX_FULL_BW_COUNT);
    assert!(full_bw_now, "full_bw_now should be set on plateau");
    assert!(full_bw_reached, "full_bw_reached should be set on plateau");
    let err = (max_bw - BW).abs() / BW;
    assert!(err < 0.02, "max_bw {max_bw} not within 2% of simulated {BW} (rel err {err})");
}

/// Startup ends on loss though the application limits every sample, so that no
/// plateau can end it.
#[test]
fn startup_exits_to_drain_on_loss_when_app_limited() {
    // Well below the window in startup, and large enough for a round trip to carry
    // enough losses.
    let app_window: u64 = 200 * MSS;
    let mut sim = Sim::new();
    let mut observed_high_loss = false;
    let mut transition: Option<(u64, bool, bool)> = None;
    for _ in 0..1_000_000 {
        let can_send = sim.inflight + MSS <= app_window.min(sim.bbr.window());
        let next_ack = sim.next_ack();
        let due = match next_ack {
            Some(ack) => sim.now_ns <= ack,
            None => true,
        };
        if can_send && due {
            let lost = sim.pn % LOSS_PERIOD == LOSS_PERIOD - 1;
            sim.send(lost);
            sim.bbr.model.flow.app_limited = sim.pn;
            sim.pn += 1;
        } else if next_ack.is_some() {
            let p = sim.arrive();
            if p.lost {
                sim.lose(&p);
            } else {
                sim.ack(&p, true);
            }
            // Sampled before the end of the round of acks clears the losses.
            observed_high_loss |= sim.flow().is_inflight_too_high();
            sim.end_acks(&p, true);
            if sim.flow().state == BbrState::Drain {
                let flow = sim.flow();
                transition = Some((flow.full_bw_count, flow.full_bw_now, flow.full_bw_reached));
                break;
            }
        } else {
            sim.now_ns += sim.btl_service_ns;
        }
    }
    let (full_bw_count, full_bw_now, full_bw_reached) =
        transition.expect("BBR never left STARTUP on loss");
    assert!(
        full_bw_count < MAX_FULL_BW_COUNT,
        "expected loss-driven exit, but plateau counter reached {full_bw_count}"
    );
    assert!(observed_high_loss, "no too-high loss rate was observed");
    assert!(full_bw_reached, "full_bw_reached should be set on high loss");
    assert!(full_bw_now, "full_bw_now should be set on high loss");
}

/// Draining ends when what is in flight has fallen to what the path holds.
#[test]
fn drain_exits_to_probe_bw_on_inflight() {
    let mut sim = Sim::new();
    let mut drain_gain: Option<Double> = None;
    let mut drain_start_round: u64 = 0;
    let mut transition: Option<(BbrState, u64, u64, u64)> = None;
    for _ in 0..1_000_000 {
        if sim.step() {
            if sim.flow().state == BbrState::Drain && drain_gain.is_none() {
                drain_gain = Some(sim.flow().pacing_gain);
                drain_start_round = sim.flow().drain_start_round;
            }
            if matches!(sim.flow().state, BbrState::ProbeBw(_)) {
                let bdp = sim.unit_inflight();
                transition = Some((sim.flow().state, sim.inflight, bdp, sim.flow().round_count));
                break;
            }
        }
    }
    let drain_gain = drain_gain.expect("BBR never entered DRAIN");
    assert_eq!(drain_gain, drain_pacing_gain(), "DRAIN pacing_gain should be 0.5");
    assert_eq!(as_f64(drain_gain), 0.5);
    let (state, inflight_at_exit, bdp, round_count) = transition.expect("BBR never left DRAIN");
    assert!(
        matches!(state, BbrState::ProbeBw(ProbeBwSubstate::Down | ProbeBwSubstate::Cruise)),
        "DRAIN should transition to PROBE_BW (DOWN or same-ack CRUISE), got {state:?}"
    );
    assert!(
        inflight_at_exit <= bdp,
        "expected inflight-driven DRAIN exit: inflight {inflight_at_exit} > {bdp}"
    );
    assert!(
        round_count <= drain_start_round + 3,
        "expected inflight-driven exit, but the round fallback fired"
    );
}

/// Draining ends after a few round trips though the queue persists: with the link
/// cut below half its rate, what the flow sends while draining still exceeds it.
#[test]
fn drain_exits_to_probe_bw_on_time() {
    let drain_bw_factor: f64 = 0.4;
    let mut sim = Sim::new();
    let mut drain_start_round: Option<u64> = None;
    let mut samples: Vec<(u64, u64, u64)> = Vec::new();
    let mut last_sampled_round: Option<u64> = None;
    let mut transition: Option<(BbrState, u64, u64, u64)> = None;
    for _ in 0..1_000_000 {
        if sim.step() {
            if sim.flow().state == BbrState::Drain && drain_start_round.is_none() {
                drain_start_round = Some(sim.flow().drain_start_round);
                sim.btl_service_ns = service_ns(BW * drain_bw_factor);
            }
            let round_count = sim.flow().round_count;
            if sim.flow().state == BbrState::Drain && last_sampled_round != Some(round_count) {
                let bdp = sim.unit_inflight();
                samples.push((round_count, sim.inflight, bdp));
                last_sampled_round = Some(round_count);
            }
            if matches!(sim.flow().state, BbrState::ProbeBw(_)) {
                let bdp = sim.unit_inflight();
                transition = Some((sim.flow().state, sim.inflight, bdp, round_count));
                break;
            }
        }
    }
    let drain_start_round = drain_start_round.expect("BBR never entered DRAIN");
    let (state, inflight_at_exit, bdp_at_exit, round_count) =
        transition.expect("BBR never left DRAIN");
    assert!(
        matches!(state, BbrState::ProbeBw(ProbeBwSubstate::Down | ProbeBwSubstate::Cruise)),
        "DRAIN should transition to PROBE_BW, got {state:?}"
    );
    assert!(
        round_count > drain_start_round + 3,
        "expected time-driven DRAIN exit, got round_count {round_count}, \
         drain_start_round {drain_start_round}"
    );
    assert!(
        inflight_at_exit > bdp_at_exit,
        "expected time-driven exit with inflight still above target: \
         inflight {inflight_at_exit} <= {bdp_at_exit}"
    );
    assert!(
        samples.iter().all(|&(_, inflight, bdp)| inflight > bdp),
        "inflight dropped to the target during DRAIN: {samples:?}"
    );
    assert!(
        samples.len() >= 3,
        "expected several round trips observed in DRAIN, got {}",
        samples.len()
    );
}

/// An upward probe ends on a bandwidth plateau.
#[test]
fn probe_bw_exits_probe_up_to_probe_down_on_bandwidth_plateau() {
    let mut sim = Sim::new();
    let mut reached_probe_up = false;
    let mut transition: Option<(BbrState, u64, bool)> = None;
    for _ in 0..1_000_000 {
        if sim.step() {
            let flow = sim.flow();
            if flow.state == BbrState::ProbeBw(ProbeBwSubstate::Up) {
                reached_probe_up = true;
            }
            if reached_probe_up && flow.state == BbrState::ProbeBw(ProbeBwSubstate::Down) {
                transition = Some((flow.state, flow.full_bw_count, flow.full_bw_now));
                break;
            }
        }
    }
    assert!(reached_probe_up, "BBR never reached the PROBE_UP phase");
    let (state, full_bw_count, full_bw_now) = transition.expect("BBR never left PROBE_UP");
    assert_eq!(
        full_bw_count, MAX_FULL_BW_COUNT,
        "full_bw_count should reach MAX_FULL_BW_COUNT on the plateau"
    );
    assert!(full_bw_now, "full_bw_now should be set on the plateau");
    assert_eq!(
        state,
        BbrState::ProbeBw(ProbeBwSubstate::Down),
        "PROBE_UP should transition to PROBE_DOWN on the plateau"
    );
}

/// An upward probe ends on loss, and a loss while the application limits the flow
/// leaves the long-term bound as it is.
#[test]
fn probe_bw_exits_probe_up_to_probe_down_on_loss_when_app_limited() {
    let app_window: u64 = 200 * MSS;
    let mut sim = Sim::new();
    // From the first bandwidth probing state on, the application limits the flow and
    // packets are dropped.
    let mut app_limited_phase = false;
    let mut reached_probe_up = false;
    let mut go_down: Option<(u64, u64, bool, bool)> = None;
    for _ in 0..1_000_000 {
        let cwnd = sim.bbr.window();
        let window = if app_limited_phase { app_window.min(cwnd) } else { cwnd };
        if sim.send_due(window) {
            let lost = app_limited_phase && sim.pn % LOSS_PERIOD == LOSS_PERIOD - 1;
            sim.paced_send(lost, app_limited_phase);
        } else {
            let p = sim.arrive();
            if p.lost {
                let before = sim.flow().inflight_longterm;
                let was_up = sim.flow().state == BbrState::ProbeBw(ProbeBwSubstate::Up);
                sim.lose(&p);
                let flow = sim.flow();
                if was_up && flow.state == BbrState::ProbeBw(ProbeBwSubstate::Down) {
                    let app_limited = flow.rs.is_some_and(|rs| rs.is_app_limited);
                    go_down =
                        Some((before, flow.inflight_longterm, app_limited, flow.full_bw_now));
                    break;
                }
            } else {
                sim.ack(&p, app_limited_phase);
                sim.end_acks(&p, app_limited_phase);
                if !app_limited_phase && matches!(sim.flow().state, BbrState::ProbeBw(_)) {
                    app_limited_phase = true;
                }
                if sim.flow().state == BbrState::ProbeBw(ProbeBwSubstate::Up) {
                    reached_probe_up = true;
                }
            }
        }
    }
    assert!(reached_probe_up, "BBR never reached the PROBE_UP phase");
    let (before, after, app_limited, full_bw_now) =
        go_down.expect("BBR never left PROBE_UP on loss");
    assert!(app_limited, "deciding loss sample should be application-limited");
    assert!(
        !full_bw_now,
        "expected loss-driven exit, but the plateau signal full_bw_now was set"
    );
    assert_eq!(
        before, after,
        "inflight_longterm should be unchanged on an app-limited loss exit"
    );
}

/// A flow that the application limits and that loses nothing never leaves startup,
/// but for the measurements of the round-trip time, from which it comes back.
#[test]
fn startup_never_exits_when_app_limited_without_loss() {
    let app_window: u64 = 20 * MSS;
    // Each round is about 100ms, so this spans several measurements of the
    // round-trip time.
    let rounds_to_observe: u64 = 160;
    let mut sim = Sim::new();
    let mut saw_probe_rtt = false;
    let mut returned_to_startup = false;
    let mut advanced_past_startup: Option<BbrState> = None;
    let mut all_samples_app_limited = true;
    let mut samples_seen: u64 = 0;
    let mut max_full_bw_count: u64 = 0;
    let mut full_bw_now_ever = false;
    let mut full_bw_reached_ever = false;
    for _ in 0..1_000_000 {
        let window = app_window.min(sim.bbr.window());
        if sim.send_due(window) {
            sim.paced_send(false, true);
        } else {
            let p = sim.arrive();
            sim.ack(&p, true);
            sim.end_acks(&p, true);
            let flow = sim.flow();
            // While the round-trip time is measured the window itself is below the
            // application's, so only samples in startup count.
            if let Some(rs) = flow.rs {
                if flow.state == BbrState::Startup {
                    samples_seen += 1;
                    all_samples_app_limited &= rs.is_app_limited;
                }
            }
            max_full_bw_count = max_full_bw_count.max(flow.full_bw_count);
            full_bw_now_ever |= flow.full_bw_now;
            full_bw_reached_ever |= flow.full_bw_reached;
            match flow.state {
                BbrState::Startup => {
                    if saw_probe_rtt {
                        returned_to_startup = true;
                    }
                }
                BbrState::ProbeRtt => {
                    saw_probe_rtt = true;
                }
                other => {
                    advanced_past_startup.get_or_insert(other);
                }
            }
            if advanced_past_startup.is_some() || flow.round_count >= rounds_to_observe {
                break;
            }
        }
    }
    assert!(
        advanced_past_startup.is_none(),
        "BBR left STARTUP for {advanced_past_startup:?} while application-limited with no loss"
    );
    let flow = sim.flow();
    assert!(
        flow.round_count >= rounds_to_observe,
        "simulation ended early ({} rounds) before observing enough rounds",
        flow.round_count
    );
    assert!(saw_probe_rtt, "expected a scheduled PROBE_RTT interlude");
    assert!(
        returned_to_startup,
        "PROBE_RTT should route back to STARTUP while full_bw_reached is false"
    );
    assert_eq!(
        flow.state,
        BbrState::Startup,
        "BBR should still be in STARTUP at the end of the run"
    );
    assert!(samples_seen > 0, "no samples were observed");
    assert!(all_samples_app_limited, "every sample should be application-limited");
    assert!(
        !full_bw_reached_ever,
        "full_bw_reached must never be set on application-limited samples"
    );
    assert!(
        !full_bw_now_ever,
        "full_bw_now must never be set on application-limited samples"
    );
    assert!(
        max_full_bw_count < MAX_FULL_BW_COUNT,
        "full_bw_count must never reach MAX_FULL_BW_COUNT on application-limited samples \
         (was {max_full_bw_count})"
    );
}

/// A downward probe ends when the queue of the upward probe is gone.
#[test]
fn probe_bw_exits_probe_down_to_probe_cruise_on_inflight() {
    let mut sim = Sim::new();
    let mut reached_probe_up = false;
    let mut down_entry: Option<(Double, u64, u64, u64)> = None;
    let mut cruise_edge: Option<(Double, u64, u64, u64)> = None;
    for _ in 0..1_000_000 {
        if sim.step() {
            let state = sim.flow().state;
            if state == BbrState::ProbeBw(ProbeBwSubstate::Up) {
                reached_probe_up = true;
            }
            if reached_probe_up
                && down_entry.is_none()
                && state == BbrState::ProbeBw(ProbeBwSubstate::Down)
            {
                let unit = sim.unit_inflight();
                let flow = sim.flow();
                down_entry =
                    Some((flow.pacing_gain, flow.inflight, flow.inflight_with_headroom(), unit));
            }
            if down_entry.is_some() && state == BbrState::ProbeBw(ProbeBwSubstate::Cruise) {
                let unit = sim.unit_inflight();
                let flow = sim.flow();
                cruise_edge =
                    Some((flow.pacing_gain, flow.inflight, flow.inflight_with_headroom(), unit));
                break;
            }
        }
    }
    assert!(reached_probe_up, "BBR never reached the PROBE_UP phase");
    let (down_gain, down_inflight, down_headroom, down_inflight_1) =
        down_entry.expect("BBR never entered PROBE_DOWN after PROBE_UP");
    let flow = sim.flow();
    assert_eq!(
        down_gain, flow.probe_bw_down_pacing_gain,
        "PROBE_DOWN pacing_gain should be the one for probing down"
    );
    assert_eq!(down_gain, probe_bw_down_pacing_gain());
    assert_eq!(as_f64(down_gain), 0.9, "the gain for probing down should be 0.90");
    assert!(
        down_inflight > down_headroom || down_inflight > down_inflight_1,
        "expected a standing queue at PROBE_DOWN entry (inflight {down_inflight} vs \
         headroom {down_headroom}, inflight(1.0) {down_inflight_1})"
    );
    let (cruise_gain, cruise_inflight, cruise_headroom, cruise_inflight_1) =
        cruise_edge.expect("PROBE_DOWN never transitioned to PROBE_CRUISE");
    assert_eq!(
        flow.state,
        BbrState::ProbeBw(ProbeBwSubstate::Cruise),
        "flow should have transitioned to PROBE_CRUISE"
    );
    assert_eq!(
        cruise_gain, flow.default_pacing_gain,
        "PROBE_CRUISE pacing_gain should be the default one"
    );
    assert!(
        cruise_inflight <= cruise_headroom,
        "at PROBE_CRUISE, inflight ({cruise_inflight}) should be <= {cruise_headroom}"
    );
    assert!(
        cruise_inflight <= cruise_inflight_1,
        "at PROBE_CRUISE, inflight ({cruise_inflight}) should be <= {cruise_inflight_1}"
    );
}

/// Every state of a long run paces and sizes its window with the gains that belong
/// to it, and the bandwidth in use is the smaller of the two estimates.
#[test]
fn gains_follow_the_state() {
    let mut sim = Sim::new();
    let mut acks = 0;
    for _ in 0..60_000 {
        if sim.step() {
            acks += 1;
            let flow = sim.flow();
            let (pacing, window) = match flow.state {
                BbrState::Startup => (2.773, 2.0),
                BbrState::Drain => (0.5, 2.0),
                BbrState::ProbeBw(ProbeBwSubstate::Down) => (0.9, 2.0),
                BbrState::ProbeBw(ProbeBwSubstate::Up) => (1.25, 2.25),
                BbrState::ProbeBw(_) => (1.0, 2.0),
                BbrState::ProbeRtt => (1.0, 0.5),
            };
            assert_eq!(as_f64(flow.pacing_gain), pacing);
            assert_eq!(as_f64(flow.cwnd_gain), window);
            assert_eq!(as_f64(flow.bw), as_f64(flow.max_bw).min(as_f64(flow.bw_shortterm)));
            assert!(flow.cwnd >= flow.min_pipe_cwnd);
        }
    }
    assert!(acks > 10_000);
    assert_eq!(as_f64(startup_pacing_gain()), 2.773);
}
