//! The state of a flow, apart from its filters and its packet log.
use crate::double::Double;
use crate::packet::BbrRateSample;
use crate::params::{
    MAX_DATAGRAM_SIZE, MAX_FULL_BW_COUNT, MAX_LONG_TERM_PROBE_UP_ROUNDS, MIN_MAX_DATAGRAM_SIZE,
};
use crate::probe_rng::ProbeRng;
use crate::time::{Duration, Instant};
use vstd::prelude::*;

verus! {

/// The phases of bandwidth probing.
#[derive(Clone, Copy, Debug, PartialEq, Eq, Structural)]
pub enum ProbeBwSubstate {
    /// Sends more slowly than the flow delivers, to shrink the queue.
    Down,
    /// Sends as fast as the flow delivers.
    Cruise,
    /// Fills the pipe for one round trip.
    Refill,
    /// Sends faster than the flow delivers, to look for more bandwidth.
    Up,
}

/// The states of a flow.
#[derive(Clone, Copy, Debug, PartialEq, Eq, Structural)]
pub enum BbrState {
    /// Ramps up quickly.
    Startup,
    /// Drains the queue that startup has built.
    Drain,
    /// Cycles through the phases of bandwidth probing.
    ProbeBw(ProbeBwSubstate),
    /// Holds little in flight, to measure the round-trip time.
    ProbeRtt,
}

/// What the acknowledgements that arrive report on, in a probing cycle.
#[derive(Clone, Copy, Debug, PartialEq, Eq, Structural)]
pub enum AckPhase {
    /// The start of a probe.
    ProbeStarting,
    /// The end of a probe.
    ProbeStopping,
    /// The refilling of the pipe.
    Refilling,
    /// The probe itself.
    ProbeFeedback,
}

/// The state of a flow. Volumes are in bytes, rates in bytes per second.
#[derive(Clone, Copy, Debug, PartialEq, Eq, Structural)]
pub struct Flow {
    /// The maximum send size.
    pub smss: u64,
    /// The congestion window at the start.
    pub initial_cwnd: u64,
    /// The volume delivered so far.
    pub delivered: u64,
    /// The volume in flight.
    pub inflight: u64,
    /// Whether the window was fully used in the current round trip.
    pub is_cwnd_limited: bool,
    /// The virtual time of the bandwidth filter.
    pub cycle_count: u64,
    /// The congestion window.
    pub cwnd: u64,
    /// The pacing rate.
    pub pacing_rate: Double,
    /// The largest burst that is sent as a unit.
    pub send_quantum: u64,
    /// The gain that the pacing rate is scaled by.
    pub pacing_gain: Double,
    /// The pacing gain while cruising, refilling and measuring.
    pub default_pacing_gain: Double,
    /// The pacing gain while probing downwards.
    pub probe_bw_down_pacing_gain: Double,
    /// The pacing gain while probing upwards.
    pub probe_bw_up_pacing_gain: Double,
    /// The pacing gain in startup.
    pub startup_pacing_gain: Double,
    /// The pacing gain while draining.
    pub drain_pacing_gain: Double,
    /// The discount on the pacing rate, in percent.
    pub pacing_margin_percent: Double,
    /// The gain that the window is scaled by.
    pub cwnd_gain: Double,
    /// The window gain in most phases.
    pub default_cwnd_gain: Double,
    /// The generator of the waits between probes.
    pub probe_rng: ProbeRng,
    /// The window gain while probing upwards.
    pub probe_bw_up_cwnd_gain: Double,
    /// The window gain while measuring the round-trip time.
    pub probe_rtt_cwnd_gain: Double,
    /// The current state.
    pub state: BbrState,
    /// The state before the last loss, should the loss prove spurious.
    pub undo_state: BbrState,
    /// The number of round trips so far.
    pub round_count: u64,
    /// Whether the last acknowledgement began a round trip.
    pub round_start: bool,
    /// The delivered volume that ends the current round trip.
    pub next_round_delivered: u64,
    /// Whether the flow is restarting after being idle.
    pub idle_restart: bool,
    /// The smallest window that keeps the pipe busy.
    pub min_pipe_cwnd: u64,
    /// The largest recent bandwidth.
    pub max_bw: Double,
    /// The bandwidth that recent losses leave.
    pub bw_shortterm: Double,
    /// `bw_shortterm` before the last loss.
    pub undo_bw_shortterm: Double,
    /// The bandwidth that the model permits.
    pub bw: Double,
    /// The smallest recent round-trip time.
    pub min_rtt: Duration,
    /// The bandwidth-delay product.
    pub bdp: u64,
    /// The estimate of the recent degree of aggregation.
    pub extra_acked: u64,
    /// The volume that host offloads need.
    pub offload_budget: u64,
    /// The volume in flight that uses the bottleneck fully.
    pub max_inflight: u64,
    /// The volume in flight that longer experience permits.
    pub inflight_longterm: u64,
    /// `inflight_longterm` before the last loss.
    pub undo_inflight_longterm: u64,
    /// The volume in flight that recent losses leave.
    pub inflight_shortterm: u64,
    /// `inflight_shortterm` before the last loss.
    pub undo_inflight_shortterm: u64,
    /// The largest delivery rate of the last round trip.
    pub bw_latest: Double,
    /// The largest delivered volume of the last round trip.
    pub inflight_latest: u64,
    /// The start of the interval over which aggregation is estimated.
    pub extra_acked_interval_start: Option<Instant>,
    /// The volume delivered over that interval.
    pub extra_acked_delivered: u64,
    /// Whether the flow has ever filled the pipe.
    pub full_bw_reached: bool,
    /// Whether the flow has filled the pipe since it last began to look.
    pub full_bw_now: bool,
    /// The delivery rate that growth is measured against.
    pub full_bw: Double,
    /// The number of round trips without growth.
    pub full_bw_count: u64,
    /// When `min_rtt` was measured.
    pub min_rtt_stamp: Option<Instant>,
    /// How long the window is held down to measure the round-trip time.
    pub probe_rtt_duration: Duration,
    /// The least time between two such measurements.
    pub probe_rtt_interval: Duration,
    /// The smallest round-trip time since the last measurement.
    pub probe_rtt_min_delay: Duration,
    /// When `probe_rtt_min_delay` was measured.
    pub probe_rtt_min_stamp: Option<Instant>,
    /// Whether a measurement of the round-trip time is due.
    pub probe_rtt_expired: bool,
    /// When the flow last delivered.
    pub delivered_time: Option<Instant>,
    /// The start of the current sending interval.
    pub first_send_time: Option<Instant>,
    /// The last packet sent while the application limited the flow, or zero.
    pub app_limited: u64,
    /// The volume lost so far.
    pub lost: u64,
    /// The smoothed round-trip time.
    pub srtt: Duration,
    /// The current rate sample.
    pub rs: Option<BbrRateSample>,
    /// The number of round trips since the last bandwidth probe.
    pub rounds_since_bw_probe: u64,
    /// The wait before the next bandwidth probe.
    pub bw_probe_wait: Duration,
    /// The number of round trips of the current upward probe.
    pub bw_probe_up_rounds: u32,
    /// The volume acknowledged since the long-term bound last grew.
    pub bw_probe_up_acks: u64,
    /// The volume to be acknowledged for the long-term bound to grow by one byte.
    pub probe_up_cnt: u64,
    /// When the current probing cycle began.
    pub cycle_stamp: Option<Instant>,
    /// What the acknowledgements that arrive report on.
    pub ack_phase: AckPhase,
    /// Whether the acknowledgements that arrive are of a probe.
    pub bw_probe_samples: bool,
    /// The delivered volume that ends the current loss round.
    pub loss_round_delivered: u64,
    /// Whether the current loss round has seen a loss.
    pub loss_in_round: bool,
    /// The number of losses in the current loss round that do not directly follow one
    /// another.
    pub loss_events_in_round: u64,
    /// The last packet lost in the current loss round.
    pub last_lost_packet: Option<u64>,
    /// When a measurement of the round-trip time may end.
    pub probe_rtt_done_stamp: Option<Instant>,
    /// Whether a measurement has lasted for a round trip.
    pub probe_rtt_round_done: bool,
    /// The window before the last loss or measurement.
    pub prior_cwnd: u64,
    /// Whether the last acknowledgement began a loss round.
    pub loss_round_start: bool,
    /// The round trip in which draining began.
    pub drain_start_round: u64,
    /// The number of packets that the peer may leave unacknowledged.
    pub ack_eliciting_threshold: u64,
    /// The acknowledgement delay that the peer was asked to keep to.
    pub max_ack_delay: Duration,
}

impl Flow {
    /// The gain of the pacing rate that belongs to the current state.
    pub open spec fn state_pacing_gain(self) -> Double {
        match self.state {
            BbrState::Startup => self.startup_pacing_gain,
            BbrState::Drain => self.drain_pacing_gain,
            BbrState::ProbeBw(ProbeBwSubstate::Down) => self.probe_bw_down_pacing_gain,
            BbrState::ProbeBw(ProbeBwSubstate::Up) => self.probe_bw_up_pacing_gain,
            _ => self.default_pacing_gain,
        }
    }

    /// The gain of the window that belongs to the current state.
    pub open spec fn state_cwnd_gain(self) -> Double {
        match self.state {
            BbrState::ProbeBw(ProbeBwSubstate::Up) => self.probe_bw_up_cwnd_gain,
            BbrState::ProbeRtt => self.probe_rtt_cwnd_gain,
            _ => self.default_cwnd_gain,
        }
    }

    /// The states that follow a full pipe.
    pub open spec fn past_startup(state: BbrState) -> bool {
        state is Drain || state is ProbeBw
    }

    /// What every operation keeps.
    pub open spec fn wf(self) -> bool {
        &&& MIN_MAX_DATAGRAM_SIZE <= self.smss <= MAX_DATAGRAM_SIZE
        &&& self.min_pipe_cwnd == 4 * self.smss
        &&& self.bw_probe_up_rounds <= MAX_LONG_TERM_PROBE_UP_ROUNDS
        &&& self.full_bw_count <= MAX_FULL_BW_COUNT
        &&& self.full_bw_now || self.full_bw_count < MAX_FULL_BW_COUNT
        &&& self.drain_start_round <= self.round_count
        &&& self.rs matches Some(rs) ==> rs.newly_acked <= self.delivered && rs.newly_lost
            <= self.lost
        &&& self.pacing_gain == self.state_pacing_gain()
        &&& self.cwnd_gain == self.state_cwnd_gain()
        &&& Flow::past_startup(self.state) ==> self.full_bw_reached
        &&& Flow::past_startup(self.undo_state) ==> self.full_bw_reached
    }
}

} // verus!
