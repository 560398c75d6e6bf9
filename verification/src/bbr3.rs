//! The congestion controller.
use crate::config::Bbr3Config;
use crate::double::Double;
use crate::flow::{AckPhase, BbrState, Flow};
use crate::max_filter::MaxFilter;
use crate::model::{Model, ModelState};
use crate::packet::{find_packet, replace_packet, sweep, BbrPacket};
use crate::params::{
    default_cwnd_gain, default_pacing_gain, drain_pacing_gain, nominal_rtt, pacing_margin_percent,
    probe_bw_down_pacing_gain, probe_bw_up_cwnd_gain, probe_bw_up_pacing_gain, probe_rtt_cwnd_gain,
    send_size, startup_pacing_gain, EXTRA_ACKED_FILTER_LEN, MAX_BW_FILTER_LEN,
    PROBE_RTT_DURATION_MS, PROBE_RTT_INTERVAL_SEC,
};
use crate::probe_rng::ProbeRng;
use crate::time::{Duration, Instant};
use std::collections::VecDeque;
use std::sync::Arc;
use vstd::prelude::*;

verus! {

/// What a connection reports of its controller.
#[derive(Clone, Copy, Debug, PartialEq, Eq, Structural)]
pub struct ControllerMetrics {
    /// The congestion window, in bytes.
    pub congestion_window: u64,
    /// The slow start threshold, which this controller has not.
    pub ssthresh: Option<u64>,
    /// The pacing rate, in bytes per second.
    pub pacing_rate: Option<u64>,
    /// The largest burst, in bytes.
    pub send_quantum: Option<u64>,
}

/// `chosen`, or `default` where nothing was chosen.
pub open spec fn gain_or(chosen: Option<Double>, default: Double) -> Double {
    match chosen {
        Some(gain) => gain,
        None => default,
    }
}

fn pick_gain(chosen: Option<Double>, default: Double) -> (gain: Double)
    ensures
        gain == gain_or(chosen, default),
{
    match chosen {
        Some(gain) => gain,
        None => default,
    }
}

impl Flow {
    /// A flow at its start.
    pub open spec fn initial(config: Bbr3Config, current_mtu: u16, probe_rng: ProbeRng) -> Flow {
        let smss = send_size(current_mtu);
        let startup_gain = gain_or(config.startup_pacing_gain, startup_pacing_gain());
        let cwnd_gain = gain_or(config.default_cwnd_gain, default_cwnd_gain());
        Flow {
            smss,
            initial_cwnd: config.initial_window,
            delivered: 0,
            inflight: 0,
            is_cwnd_limited: false,
            cycle_count: 0,
            cwnd: config.initial_window,
            pacing_rate: startup_gain.product(
                Double::of(config.initial_window as nat).quotient(nominal_rtt()),
            ),
            send_quantum: (2 * smss) as u64,
            pacing_gain: startup_gain,
            default_pacing_gain: gain_or(config.default_pacing_gain, default_pacing_gain()),
            probe_bw_down_pacing_gain: gain_or(
                config.probe_bw_down_pacing_gain,
                probe_bw_down_pacing_gain(),
            ),
            probe_bw_up_pacing_gain: gain_or(
                config.probe_bw_up_pacing_gain,
                probe_bw_up_pacing_gain(),
            ),
            startup_pacing_gain: startup_gain,
            drain_pacing_gain: gain_or(config.drain_pacing_gain, drain_pacing_gain()),
            pacing_margin_percent: gain_or(config.pacing_margin_percent, pacing_margin_percent()),
            cwnd_gain,
            default_cwnd_gain: cwnd_gain,
            probe_rng,
            probe_bw_up_cwnd_gain: gain_or(config.probe_bw_up_cwnd_gain, probe_bw_up_cwnd_gain()),
            probe_rtt_cwnd_gain: gain_or(config.probe_rtt_cwnd_gain, probe_rtt_cwnd_gain()),
            state: BbrState::Startup,
            undo_state: BbrState::Startup,
            round_count: 0,
            round_start: true,
            next_round_delivered: 0,
            idle_restart: false,
            min_pipe_cwnd: (4 * smss) as u64,
            max_bw: Double::positive_zero(),
            bw_shortterm: Double::positive_infinity(),
            undo_bw_shortterm: Double::positive_infinity(),
            bw: Double::positive_zero(),
            min_rtt: Duration::of_secs(u64::MAX),
            bdp: 0,
            extra_acked: 0,
            offload_budget: 0,
            max_inflight: 0,
            inflight_longterm: u64::MAX,
            undo_inflight_longterm: u64::MAX,
            inflight_shortterm: u64::MAX,
            undo_inflight_shortterm: u64::MAX,
            bw_latest: Double::positive_zero(),
            inflight_latest: 0,
            extra_acked_interval_start: None,
            extra_acked_delivered: 0,
            full_bw_reached: false,
            full_bw_now: false,
            full_bw: Double::positive_zero(),
            full_bw_count: 0,
            min_rtt_stamp: None,
            probe_rtt_duration: Duration::of_millis(PROBE_RTT_DURATION_MS),
            probe_rtt_interval: Duration::of_secs(PROBE_RTT_INTERVAL_SEC),
            probe_rtt_min_delay: Duration::of_secs(0),
            probe_rtt_min_stamp: None,
            probe_rtt_expired: false,
            delivered_time: None,
            first_send_time: None,
            app_limited: 0,
            lost: 0,
            srtt: Duration::of_secs(0),
            rs: None,
            rounds_since_bw_probe: 0,
            bw_probe_wait: Duration::of_secs(0),
            bw_probe_up_rounds: 0,
            bw_probe_up_acks: 0,
            probe_up_cnt: 0,
            cycle_stamp: None,
            ack_phase: AckPhase::ProbeStarting,
            bw_probe_samples: false,
            loss_round_delivered: 0,
            loss_in_round: false,
            loss_events_in_round: 0,
            last_lost_packet: None,
            probe_rtt_done_stamp: None,
            probe_rtt_round_done: false,
            prior_cwnd: 0,
            loss_round_start: false,
            drain_start_round: 0,
            ack_eliciting_threshold: 1,
            max_ack_delay: Duration::of_millis(25),
        }
    }

    fn start(config: &Bbr3Config, current_mtu: u16, probe_rng: ProbeRng) -> (flow: Flow)
        ensures
            flow == Flow::initial(*config, current_mtu, probe_rng),
            flow.wf(),
    {
        let smss: u64 = send_size(current_mtu);
        let startup_gain: Double = pick_gain(config.startup_pacing_gain, startup_pacing_gain());
        let cwnd_gain: Double = pick_gain(config.default_cwnd_gain, default_cwnd_gain());
        let nominal_bandwidth: Double = Double::from_u64(config.initial_window).over(nominal_rtt());
        Flow {
            smss,
            initial_cwnd: config.initial_window,
            delivered: 0,
            inflight: 0,
            is_cwnd_limited: false,
            cycle_count: 0,
            cwnd: config.initial_window,
            pacing_rate: startup_gain.times(nominal_bandwidth),
            send_quantum: 2 * smss,
            pacing_gain: startup_gain,
            default_pacing_gain: pick_gain(config.default_pacing_gain, default_pacing_gain()),
            probe_bw_down_pacing_gain: pick_gain(
                config.probe_bw_down_pacing_gain,
                probe_bw_down_pacing_gain(),
            ),
            probe_bw_up_pacing_gain: pick_gain(
                config.probe_bw_up_pacing_gain,
                probe_bw_up_pacing_gain(),
            ),
            startup_pacing_gain: startup_gain,
            drain_pacing_gain: pick_gain(config.drain_pacing_gain, drain_pacing_gain()),
            pacing_margin_percent: pick_gain(config.pacing_margin_percent, pacing_margin_percent()),
            cwnd_gain,
            default_cwnd_gain: cwnd_gain,
            probe_rng,
            probe_bw_up_cwnd_gain: pick_gain(config.probe_bw_up_cwnd_gain, probe_bw_up_cwnd_gain()),
            probe_rtt_cwnd_gain: pick_gain(config.probe_rtt_cwnd_gain, probe_rtt_cwnd_gain()),
            state: BbrState::Startup,
            undo_state: BbrState::Startup,
            round_count: 0,
            round_start: true,
            next_round_delivered: 0,
            idle_restart: false,
            min_pipe_cwnd: 4 * smss,
            max_bw: Double::positive_zero(),
            bw_shortterm: Double::positive_infinity(),
            undo_bw_shortterm: Double::positive_infinity(),
            bw: Double::positive_zero(),
            min_rtt: Duration::from_secs(u64::MAX),
            bdp: 0,
            extra_acked: 0,
            offload_budget: 0,
            max_inflight: 0,
            inflight_longterm: u64::MAX,
            undo_inflight_longterm: u64::MAX,
            inflight_shortterm: u64::MAX,
            undo_inflight_shortterm: u64::MAX,
            bw_latest: Double::positive_zero(),
            inflight_latest: 0,
            extra_acked_interval_start: None,
            extra_acked_delivered: 0,
            full_bw_reached: false,
            full_bw_now: false,
            full_bw: Double::positive_zero(),
            full_bw_count: 0,
            min_rtt_stamp: None,
            probe_rtt_duration: Duration::from_millis(PROBE_RTT_DURATION_MS),
            probe_rtt_interval: Duration::from_secs(PROBE_RTT_INTERVAL_SEC),
            probe_rtt_min_delay: Duration::from_secs(0),
            probe_rtt_min_stamp: None,
            probe_rtt_expired: false,
            delivered_time: None,
            first_send_time: None,
            app_limited: 0,
            lost: 0,
            srtt: Duration::from_secs(0),
            rs: None,
            rounds_since_bw_probe: 0,
            bw_probe_wait: Duration::from_secs(0),
            bw_probe_up_rounds: 0,
            bw_probe_up_acks: 0,
            probe_up_cnt: 0,
            cycle_stamp: None,
            ack_phase: AckPhase::ProbeStarting,
            bw_probe_samples: false,
            loss_round_delivered: 0,
            loss_in_round: false,
            loss_events_in_round: 0,
            last_lost_packet: None,
            probe_rtt_done_stamp: None,
            probe_rtt_round_done: false,
            prior_cwnd: 0,
            loss_round_start: false,
            drain_start_round: 0,
            ack_eliciting_threshold: 1,
            max_ack_delay: Duration::from_millis(25),
        }
    }
}

/// A controller as contracts speak of it.
pub struct ControllerState {
    pub model: ModelState,
    pub packets: Seq<BbrPacket>,
}

impl ControllerState {
    /// The state with another flow.
    pub open spec fn with_flow(self, flow: Flow) -> ControllerState {
        ControllerState { model: ModelState { flow, ..self.model }, ..self }
    }

    /// A controller at its start.
    pub open spec fn initial(
        config: Bbr3Config,
        current_mtu: u16,
        probe_rng: ProbeRng,
    ) -> ControllerState {
        ControllerState {
            model: ModelState {
                flow: Flow::initial(config, current_mtu, probe_rng),
                bandwidths: Map::empty(),
                aggregates: Map::empty(),
            },
            packets: Seq::empty(),
        }
    }

    pub open spec fn send_fits(self, bytes: u16) -> bool {
        self.model.flow.inflight + bytes <= u64::MAX
    }

    /// Packet `pn` was sent, which may restart the flow from idle.
    pub open spec fn after_packet_sent(self, now: Instant, bytes: u16, pn: u64) -> ControllerState {
        let restarted = self.model.flow.after_handle_restart_from_idle(now);
        let sent = restarted.after_send(now, bytes);
        ControllerState {
            packets: self.packets.push(sent.packet_record(now, bytes, pn)),
            ..self.with_flow(sent)
        }
    }

    /// The logged packet at `index` was acknowledged, and is the newest one that
    /// was.
    pub open spec fn after_newest_ack(
        self,
        now: Instant,
        bytes: u64,
        index: int,
        srtt: Duration,
    ) -> ControllerState {
        let p = crate::packet::as_acknowledged(self.packets[index]);
        ControllerState {
            model: self.with_flow(
                self.model.flow.after_take_packet(p, bytes, srtt, now),
            ).model.after_sample(p, now),
            packets: self.packets.update(index, p),
        }
    }

    /// The logged packet at `index` was acknowledged after a newer one.
    pub open spec fn after_older_ack(self, index: int) -> ControllerState {
        ControllerState {
            packets: self.packets.update(
                index,
                crate::packet::as_acknowledged(self.packets[index]),
            ),
            ..self
        }
    }

    /// A logged packet is sampled where it is the newest, or the first, that was
    /// acknowledged.
    pub open spec fn takes_sample(self, sent: Instant, pn: u64) -> bool {
        self.model.flow.rs is None || self.model.flow.newest_packet(sent, pn)
    }

    /// The state in which the acknowledged packet is looked up.
    pub open spec fn counted(self, now: Instant, bytes: u64) -> ControllerState {
        self.with_flow(self.model.flow.after_count_ack(bytes, now))
    }

    /// Packet `pn`, sent at `sent`, was acknowledged.
    pub open spec fn after_ack(
        self,
        now: Instant,
        sent: Instant,
        bytes: u64,
        pn: u64,
        srtt: Duration,
    ) -> ControllerState {
        let counted = self.counted(now, bytes);
        match crate::packet::lookup(self.packets, pn) {
            Some(index) => if counted.takes_sample(sent, pn) {
                counted.after_newest_ack(now, bytes, index, srtt)
            } else {
                counted.after_older_ack(index)
            },
            None => counted,
        }
    }

    /// No sum on the way to `after_ack` is out of range.
    pub open spec fn ack_fits(
        self,
        now: Instant,
        sent: Instant,
        bytes: u64,
        pn: u64,
        srtt: Duration,
    ) -> bool {
        let counted = self.counted(now, bytes);
        &&& self.model.flow.count_ack_fits(bytes)
        &&& match crate::packet::lookup(self.packets, pn) {
            Some(index) => counted.takes_sample(sent, pn) ==> {
                let p = crate::packet::as_acknowledged(self.packets[index]);
                counted.with_flow(
                    counted.model.flow.after_take_packet(p, bytes, srtt, now),
                ).model.sample_fits(p, now)
            },
            None => true,
        }
    }

    /// A round of acknowledgements is over, with `in_flight` bytes in flight.
    pub open spec fn after_end_acks(
        self,
        in_flight: u64,
        app_limited: bool,
        largest_packet_num_acked: Option<u64>,
    ) -> ControllerState {
        let flow = Flow { inflight: in_flight, ..self.model.flow };
        match largest_packet_num_acked {
            Some(largest) => ControllerState {
                packets: crate::packet::swept(self.packets, flow.round_count),
                ..self.with_flow(
                    flow.after_note_app_limit(app_limited, largest).after_close_sample(),
                )
            },
            None => self.with_flow(flow),
        }
    }

    pub open spec fn loss_fits(self, lost_bytes: u64) -> bool {
        self.model.flow.lost + lost_bytes <= u64::MAX
    }

    /// The logged packet at `index` is lost and leaves the log.
    pub open spec fn after_process_lost_packet(
        self,
        lost_bytes: u64,
        index: int,
        now: Instant,
    ) -> ControllerState {
        ControllerState {
            packets: self.packets.remove(index),
            ..self.with_flow(
                self.model.flow.after_lose_packet(self.packets[index], lost_bytes, now),
            )
        }
    }

    /// Packet `pn`, of `lost_bytes` bytes, was lost.
    pub open spec fn after_packet_lost(
        self,
        lost_bytes: u64,
        pn: u64,
        now: Instant,
    ) -> ControllerState {
        let flow = self.model.flow;
        let charged = self.with_flow(Flow { lost: (flow.lost + lost_bytes) as u64, ..flow });
        match crate::packet::lookup(self.packets, pn) {
            Some(index) => charged.after_process_lost_packet(lost_bytes, index, now),
            None => charged,
        }
    }

    /// Congestion was signalled. Losses are reported packet by packet, so only a
    /// signal by the network is answered here; a persistent one shrinks the window
    /// to the smallest.
    pub open spec fn after_congestion_event(
        self,
        now: Instant,
        is_persistent_congestion: bool,
        is_ecn: bool,
        lost_bytes: u64,
        largest_lost_pn: u64,
    ) -> ControllerState {
        let answered = self.after_packet_lost(lost_bytes, largest_lost_pn, now);
        let flow = answered.model.flow;
        if !is_ecn {
            self
        } else if is_persistent_congestion {
            answered.with_flow(Flow { cwnd: flow.min_pipe_cwnd, ..flow })
        } else {
            answered
        }
    }

    pub open spec fn mtu_fits(self, new_mtu: u16) -> bool {
        self.model.flow.after_resize(new_mtu).set_cwnd_fits()
    }

    pub open spec fn after_mtu_update(self, new_mtu: u16) -> ControllerState {
        self.with_flow(self.model.flow.after_resize(new_mtu).after_set_cwnd())
    }
}

/// A congestion controller that models the bandwidth and the round-trip time of
/// the path, for little queueing and for high bandwidth-delay products.
///
/// Experimental: use at your own risk.
#[derive(Debug)]
pub struct Bbr3 {
    /// The model of the path.
    pub model: Model,
    /// The packets in flight or just acknowledged.
    pub packets: VecDeque<BbrPacket>,
}

impl Clone for Bbr3 {
    fn clone(&self) -> (copy: Bbr3)
        ensures
            copy@ == self@,
            self.wf() ==> copy.wf(),
    {
        Bbr3 { model: self.model.clone(), packets: self.packets.clone() }
    }
}

impl Bbr3 {
    pub open spec fn view(&self) -> ControllerState {
        ControllerState { model: self.model@, packets: self.packets@ }
    }

    /// What every operation keeps.
    pub open spec fn wf(&self) -> bool {
        &&& self.model.wf()
        &&& crate::packet::rounds_up_to(self.packets@, self.model.flow.round_count)
    }

    /// A controller whose probes are spread by `probe_rng`.
    pub fn with_rng(config: &Bbr3Config, current_mtu: u16, probe_rng: ProbeRng) -> (bbr: Bbr3)
        ensures
            bbr.wf(),
            bbr@ == ControllerState::initial(*config, current_mtu, probe_rng),
    {
        Bbr3 {
            model: Model {
                flow: Flow::start(config, current_mtu, probe_rng),
                max_bw_filter: MaxFilter::new(MAX_BW_FILTER_LEN),
                extra_acked_filter: MaxFilter::new(EXTRA_ACKED_FILTER_LEN),
            },
            packets: VecDeque::new(),
        }
    }

    /// A controller for a path with the given datagram size. Without a seed in the
    /// configuration its probes are spread by a generator with a seed of its own.
    pub fn new(config: Arc<Bbr3Config>, current_mtu: u16) -> (bbr: Bbr3)
        ensures
            bbr.wf(),
            bbr@ == ControllerState::initial(*config, current_mtu, bbr.model.flow.probe_rng),
            match config.probe_rng_seed {
                Some(seed) => bbr.model.flow.probe_rng == ProbeRng::seeded(seed@),
                None => crate::probe_rng::comes_from_seed(
                    (bbr.model.flow.probe_rng.state, bbr.model.flow.probe_rng.stream),
                ),
            },
    {
        let probe_rng: ProbeRng = match config.probe_rng_seed {
            Some(seed) => ProbeRng::from_seed(seed),
            None => ProbeRng::from_entropy(),
        };
        Bbr3::with_rng(&config, current_mtu, probe_rng)
    }

    pub fn on_packet_sent(&mut self, now: Instant, bytes: u16, pn: u64)
        requires
            old(self).wf(),
            old(self)@.send_fits(bytes),
        ensures
            final(self).wf(),
            final(self)@ == old(self)@.after_packet_sent(now, bytes, pn),
    {
        self.model.flow.handle_restart_from_idle(now);
        self.model.flow.note_send(now, bytes);
        let p: BbrPacket = self.model.flow.record_packet(now, bytes, pn);
        self.packets.push_back(p);
    }

    /// `srtt` is the smoothed round-trip time at the acknowledgement.
    pub fn on_ack(
        &mut self,
        now: Instant,
        sent: Instant,
        bytes: u64,
        pn: u64,
        _app_limited: bool,
        srtt: Duration,
    )
        requires
            old(self).wf(),
            old(self)@.ack_fits(now, sent, bytes, pn, srtt),
        ensures
            final(self).wf(),
            final(self)@ == old(self)@.after_ack(now, sent, bytes, pn, srtt),
    {
        self.model.flow.count_ack(bytes, now);
        if let Some(index) = find_packet(&self.packets, pn) {
            let p: BbrPacket = BbrPacket { acknowledged: true, ..self.packets[index] };
            replace_packet(&mut self.packets, index, p);
            let sampled: bool = match self.model.flow.rs {
                Some(_) => self.model.flow.is_newest_packet(sent, pn),
                None => true,
            };
            if sampled {
                self.model.flow.take_packet(p, bytes, srtt, now);
                self.model.take_sample(p, now);
            }
        }
    }

    pub fn on_end_acks(
        &mut self,
        _now: Instant,
        in_flight: u64,
        app_limited: bool,
        largest_packet_num_acked: Option<u64>,
    )
        requires
            old(self).wf(),
        ensures
            final(self).wf(),
            final(self)@ == old(self)@.after_end_acks(
                in_flight,
                app_limited,
                largest_packet_num_acked,
            ),
    {
        self.model.flow = Flow { inflight: in_flight, ..self.model.flow };
        if let Some(largest) = largest_packet_num_acked {
            self.model.flow.note_app_limit(app_limited, largest);
            let round: u64 = self.model.flow.round_count;
            proof {
                crate::packet::lemma_swept_rounds(self.packets@, round, round);
            }
            sweep(&mut self.packets, round);
            self.model.flow.close_sample();
        }
    }

    /// Takes the logged packet at `packet_index` for lost. The flow stays well-formed where
    /// the bytes are charged to it already.
    pub fn process_lost_packet(&mut self, lost_bytes: u64, packet_index: usize, now: Instant)
        requires
            old(self).wf(),
            packet_index < old(self).packets@.len(),
            old(self).model.flow.lose_packet_fits(lost_bytes),
        ensures
            old(self).model.flow.loss_charged(lost_bytes) ==> final(self).wf(),
            final(self)@ == old(self)@.after_process_lost_packet(
                lost_bytes,
                packet_index as int,
                now,
            ),
    {
        let p: BbrPacket = self.packets[packet_index];
        self.model.flow.lose_packet(p, lost_bytes, now);
        let _ = self.packets.remove(packet_index);
    }

    /// Charges `lost_bytes` to the flow and takes packet `pn`, where it is logged,
    /// for lost.
    fn charge_loss(&mut self, lost_bytes: u64, pn: u64, now: Instant)
        requires
            old(self).wf(),
            old(self)@.loss_fits(lost_bytes),
        ensures
            final(self).wf(),
            final(self)@ == old(self)@.after_packet_lost(lost_bytes, pn, now),
    {
        let lost: u64 = self.model.flow.lost + lost_bytes;
        self.model.flow = Flow { lost, ..self.model.flow };
        if let Some(index) = find_packet(&self.packets, pn) {
            self.process_lost_packet(lost_bytes, index, now);
        }
    }

    pub fn on_congestion_event(
        &mut self,
        now: Instant,
        _sent: Instant,
        is_persistent_congestion: bool,
        is_ecn: bool,
        lost_bytes: u64,
        largest_lost_pn: u64,
    )
        requires
            old(self).wf(),
            is_ecn ==> old(self)@.loss_fits(lost_bytes),
        ensures
            final(self).wf(),
            final(self)@ == old(self)@.after_congestion_event(
                now,
                is_persistent_congestion,
                is_ecn,
                lost_bytes,
                largest_lost_pn,
            ),
    {
        if is_ecn {
            self.charge_loss(lost_bytes, largest_lost_pn, now);
            if is_persistent_congestion {
                let cwnd: u64 = self.model.flow.min_pipe_cwnd;
                self.model.flow = Flow { cwnd, ..self.model.flow };
            }
        }
    }

    pub fn on_packet_lost(&mut self, lost_bytes: u16, pn: u64, now: Instant)
        requires
            old(self).wf(),
            old(self)@.loss_fits(lost_bytes as u64),
        ensures
            final(self).wf(),
            final(self)@ == old(self)@.after_packet_lost(lost_bytes as u64, pn, now),
    {
        self.charge_loss(lost_bytes as u64, pn, now);
    }

    /// A loss was spurious: what it has lowered comes back.
    pub fn on_spurious_congestion_event(&mut self)
        requires
            old(self).wf(),
        ensures
            final(self).wf(),
            final(self)@ == old(self)@.with_flow(old(self).model.flow.after_undo_loss()),
    {
        self.model.flow.undo_loss();
    }

    pub fn on_mtu_update(&mut self, new_mtu: u16)
        requires
            old(self).wf(),
            old(self)@.mtu_fits(new_mtu),
        ensures
            final(self).wf(),
            final(self)@ == old(self)@.after_mtu_update(new_mtu),
    {
        self.model.flow.resize(new_mtu);
        self.model.flow.set_cwnd();
    }

    pub fn on_ack_frequency_update(
        &mut self,
        ack_eliciting_threshold: u64,
        requested_max_ack_delay: Duration,
    )
        requires
            old(self).wf(),
        ensures
            final(self).wf(),
            final(self)@ == old(self)@.with_flow(
                Flow {
                    ack_eliciting_threshold,
                    max_ack_delay: requested_max_ack_delay,
                    ..old(self).model.flow
                },
            ),
    {
        self.model.flow =
        Flow {
            ack_eliciting_threshold,
            max_ack_delay: requested_max_ack_delay,
            ..self.model.flow
        };
    }

    /// The congestion window, in bytes.
    pub fn window(&self) -> (cwnd: u64)
        ensures
            cwnd == self@.model.flow.cwnd,
    {
        self.model.flow.cwnd
    }

    pub fn metrics(&self) -> (m: ControllerMetrics)
        ensures
            m == (ControllerMetrics {
                congestion_window: self@.model.flow.cwnd,
                ssthresh: None,
                pacing_rate: Some(self@.model.flow.pacing_rate.nearest_integer()),
                send_quantum: Some(self@.model.flow.send_quantum),
            }),
    {
        ControllerMetrics {
            congestion_window: self.window(),
            ssthresh: None,
            pacing_rate: Some(self.model.flow.pacing_rate.round_to_u64()),
            send_quantum: Some(self.model.flow.send_quantum),
        }
    }

    /// The congestion window at the start, in bytes.
    pub fn initial_window(&self) -> (cwnd: u64)
        ensures
            cwnd == self@.model.flow.initial_cwnd,
    {
        self.model.flow.initial_cwnd
    }
}

} // verus!
