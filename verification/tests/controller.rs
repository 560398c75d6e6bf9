//! The operations of the controller, one at a time.
use bbr3::bbr3::ControllerMetrics;
use bbr3::double::Double;
use bbr3::flow::{AckPhase, BbrState, Flow, ProbeBwSubstate};
use bbr3::packet::{BbrPacket, BbrRateSample};
use bbr3::params::{send_size, MAX_DATAGRAM_SIZE};
use bbr3::probe_rng::ProbeRng;
use bbr3::time::{Duration, Instant};
use bbr3::{Bbr3, Bbr3Config};
use std::sync::Arc;

const MSS: u64 = 1200;

fn at_ms(ms: u64) -> Instant {
    Instant { nanos: 1_000_000_000 + ms as u128 * 1_000_000 }
}

fn d(x: f64) -> Double {
    Double { bits: x.to_bits() }
}

fn f(x: Double) -> f64 {
    f64::from_bits(x.bits)
}

fn seeded() -> Bbr3Config {
    Bbr3Config { probe_rng_seed: Some([7; 16]), ..Bbr3Config::default() }
}

fn fresh() -> Bbr3 {
    Bbr3::new(Arc::new(seeded()), MSS as u16)
}

/// A controller whose flow `change` has changed.
fn with(change: impl Fn(&mut Flow)) -> Bbr3 {
    let mut bbr = fresh();
    change(&mut bbr.model.flow);
    bbr
}

fn packet(pn: u64) -> BbrPacket {
    BbrPacket {
        delivered: 0,
        delivered_time: at_ms(0),
        first_send_time: at_ms(0),
        send_time: at_ms(0),
        is_app_limited: false,
        tx_in_flight: 0,
        packet_number: pn,
        size: MSS as u16,
        lost: 0,
        acknowledged: false,
        stale: false,
        round_count: 0,
    }
}

fn sample() -> BbrRateSample {
    BbrRateSample {
        delivery_rate: d(0.0),
        is_app_limited: false,
        interval: Duration::from_nanos(0),
        delivered: 0,
        prior_delivered: 0,
        prior_time: at_ms(0),
        send_elapsed: Duration::from_nanos(0),
        ack_elapsed: Duration::from_nanos(0),
        rtt: Duration::from_millis(50),
        tx_in_flight: 0,
        newly_acked: 0,
        newly_lost: 0,
        lost: 0,
        last_end_seq: 0,
        last_packet: packet(0),
    }
}

fn probe_up(flow: &mut Flow) {
    flow.state = BbrState::ProbeBw(ProbeBwSubstate::Up);
    flow.pacing_gain = flow.probe_bw_up_pacing_gain;
    flow.cwnd_gain = flow.probe_bw_up_cwnd_gain;
    flow.full_bw_reached = true;
}

fn ack(bbr: &mut Bbr3, ms: u64, sent_ms: u64, pn: u64) {
    let done = bbr.try_on_ack(
        at_ms(ms),
        at_ms(sent_ms),
        MSS,
        pn,
        false,
        Duration::from_millis(ms - sent_ms),
    );
    assert!(done);
}

#[test]
fn default_configuration() {
    let mut config = Bbr3Config::default();
    assert_eq!(config.initial_window, 131_054);
    assert_eq!(config.probe_rng_seed, None);
    assert_eq!(config.startup_pacing_gain, None);
    config.initial_window(20_000).initial_window(30_000);
    assert_eq!(config.initial_window, 30_000);
    assert_eq!(config.clone().initial_window, 30_000);
}

#[test]
fn initial_state() {
    let bbr = fresh();
    let flow = bbr.model.flow;
    assert_eq!(bbr.window(), 131_054);
    assert_eq!(bbr.initial_window(), 131_054);
    assert_eq!(flow.smss, 1200);
    assert_eq!(flow.min_pipe_cwnd, 4800);
    assert_eq!(flow.send_quantum, 2400);
    assert_eq!(f(flow.pacing_rate), 2.773 * (131_054.0 / 0.001));
    assert_eq!(f(flow.bw_shortterm), f64::INFINITY);
    assert_eq!(flow.inflight_longterm, u64::MAX);
    assert_eq!(flow.min_rtt, Duration::from_secs(u64::MAX));
    assert_eq!(flow.probe_rtt_duration, Duration::from_millis(200));
    assert_eq!(flow.probe_rtt_interval, Duration::from_secs(5));
    assert_eq!(flow.max_ack_delay, Duration::from_millis(25));
    assert_eq!(flow.ack_phase, AckPhase::ProbeStarting);
    assert_eq!(
        bbr.metrics(),
        ControllerMetrics {
            congestion_window: 131_054,
            ssthresh: None,
            pacing_rate: Some((2.773f64 * (131_054.0 / 0.001)).round() as u64),
            send_quantum: Some(2400),
        }
    );
}

#[test]
fn configured_gains_are_used() {
    let config = Bbr3Config {
        initial_window: 50_000,
        startup_pacing_gain: Some(d(2.0)),
        default_pacing_gain: Some(d(1.1)),
        probe_bw_down_pacing_gain: Some(d(0.8)),
        probe_bw_up_pacing_gain: Some(d(1.3)),
        probe_bw_up_cwnd_gain: Some(d(2.5)),
        probe_rtt_cwnd_gain: Some(d(0.6)),
        drain_pacing_gain: Some(d(0.4)),
        pacing_margin_percent: Some(d(2.0)),
        default_cwnd_gain: Some(d(3.0)),
        ..seeded()
    };
    let flow = Bbr3::new(Arc::new(config), 1500).model.flow;
    assert_eq!(f(flow.pacing_gain), 2.0);
    assert_eq!(f(flow.startup_pacing_gain), 2.0);
    assert_eq!(f(flow.default_pacing_gain), 1.1);
    assert_eq!(f(flow.probe_bw_down_pacing_gain), 0.8);
    assert_eq!(f(flow.probe_bw_up_pacing_gain), 1.3);
    assert_eq!(f(flow.probe_bw_up_cwnd_gain), 2.5);
    assert_eq!(f(flow.probe_rtt_cwnd_gain), 0.6);
    assert_eq!(f(flow.drain_pacing_gain), 0.4);
    assert_eq!(f(flow.pacing_margin_percent), 2.0);
    assert_eq!(f(flow.cwnd_gain), 3.0);
    assert_eq!(f(flow.pacing_rate), 2.0 * (50_000.0 / 0.001));
    assert_eq!(flow.smss, 1500);
}

#[test]
fn send_size_is_held_to_its_range() {
    assert_eq!(send_size(0), 1200);
    assert_eq!(send_size(1199), 1200);
    assert_eq!(send_size(1500), 1500);
    assert_eq!(send_size(65535), MAX_DATAGRAM_SIZE);
}

/// A generator that was seeded alike gives the same waits; each lies between two and
/// three seconds.
#[test]
fn probe_waits() {
    let mut one = fresh();
    let mut other = fresh();
    let mut waits = Vec::new();
    for _ in 0..200 {
        one.model.flow.pick_probe_wait();
        other.model.flow.pick_probe_wait();
        assert_eq!(one.model.flow, other.model.flow);
        let wait = one.model.flow.bw_probe_wait.nanos;
        assert!(2_000_000_000 <= wait && wait <= 3_000_000_000);
        assert!(one.model.flow.rounds_since_bw_probe <= 1);
        waits.push((wait, one.model.flow.rounds_since_bw_probe));
    }
    assert!(waits.iter().any(|w| w.0 != waits[0].0));
    assert!(waits.iter().any(|w| w.1 == 0) && waits.iter().any(|w| w.1 == 1));
    let mut set = fresh();
    set.model.flow.set_probe_wait(true, 652);
    assert_eq!(set.model.flow.rounds_since_bw_probe, 1);
    assert_eq!(set.model.flow.bw_probe_wait, Duration::from_millis(2652));
    set.model.flow.set_probe_wait(false, 0);
    assert_eq!(set.model.flow.rounds_since_bw_probe, 0);
    assert_eq!(set.model.flow.bw_probe_wait, Duration::from_millis(2000));
}

/// The seed is two little-endian words; the generator takes one step from them.
#[test]
fn seeds() {
    let seed: [u8; 16] = [1, 2, 3, 4, 5, 6, 7, 8, 9, 10, 11, 12, 13, 14, 15, 0xff];
    let first = u64::from_le_bytes([1, 2, 3, 4, 5, 6, 7, 8]);
    let second = u64::from_le_bytes([9, 10, 11, 12, 13, 14, 15, 0xff]);
    let increment = second | 1;
    let state =
        first.wrapping_add(increment).wrapping_mul(6364136223846793005).wrapping_add(increment);
    assert_eq!(ProbeRng::from_seed(seed), ProbeRng { state, stream: second >> 1 });
}

#[test]
fn generators_move_on() {
    let seed: [u8; 16] = [9; 16];
    let mut rng = ProbeRng::from_seed(seed);
    let start = rng;
    assert_ne!(start, ProbeRng::from_seed([8; 16]));
    let _ = rng.flip();
    let flipped = rng;
    assert_ne!(flipped.state, start.state);
    assert_eq!(flipped.stream, start.stream);
    let number = rng.up_to(10);
    assert!(number <= 10);
    assert_ne!(rng.state, flipped.state);
    assert_eq!(rng.up_to(0), 0);
    let unseeded = Bbr3Config::default();
    let one = Bbr3::new(Arc::new(unseeded.clone()), 1200).model.flow.probe_rng;
    let other = Bbr3::new(Arc::new(unseeded), 1200).model.flow.probe_rng;
    assert_ne!(one, other);
}

#[test]
fn sent_packets_are_logged() {
    let mut bbr = fresh();
    assert!(bbr.can_send(1200));
    bbr.on_packet_sent(at_ms(0), 1200, 4);
    bbr.on_packet_sent(at_ms(3), 1000, 5);
    assert_eq!(bbr.model.flow.inflight, 2200);
    assert_eq!(bbr.model.flow.first_send_time, Some(at_ms(0)));
    assert_eq!(bbr.model.flow.delivered_time, Some(at_ms(0)));
    assert_eq!(bbr.packets.len(), 2);
    assert_eq!(
        bbr.packets[1],
        BbrPacket {
            delivered: 0,
            delivered_time: at_ms(0),
            first_send_time: at_ms(0),
            send_time: at_ms(3),
            is_app_limited: false,
            tx_in_flight: 2200,
            packet_number: 5,
            size: 1000,
            lost: 0,
            acknowledged: false,
            stale: false,
            round_count: 0,
        }
    );
    let full = with(|flow| flow.inflight = u64::MAX - 5);
    assert!(full.can_send(5));
    assert!(!full.can_send(6));
}

#[test]
fn first_ack_begins_a_sample() {
    let mut bbr = fresh();
    bbr.on_packet_sent(at_ms(0), 1200, 0);
    bbr.on_packet_sent(at_ms(1), 1200, 1);
    ack(&mut bbr, 50, 0, 0);
    let flow = bbr.model.flow;
    let rs = flow.rs.unwrap();
    assert_eq!(flow.delivered, 1200);
    assert_eq!(flow.delivered_time, Some(at_ms(50)));
    assert_eq!(rs.newly_acked, 1200);
    assert_eq!(rs.rtt, Duration::from_millis(50));
    assert_eq!(rs.last_end_seq, 0);
    assert_eq!(flow.srtt, Duration::from_millis(50));
    assert_eq!(flow.min_rtt, Duration::from_millis(50));
    assert_eq!(flow.round_count, 1);
    assert!(bbr.packets[0].acknowledged);
    // A first measurement of the round-trip time is due at once.
    assert_eq!(flow.state, BbrState::ProbeRtt);
    assert_eq!(f(flow.cwnd_gain), 0.5);
    // The second ack is counted and is the newest.
    ack(&mut bbr, 51, 1, 1);
    assert_eq!(bbr.model.flow.delivered, 2400);
    assert_eq!(bbr.model.flow.delivered_time, Some(at_ms(51)));
    assert_eq!(bbr.model.flow.rs.unwrap().last_end_seq, 1);
    assert_eq!(bbr.model.flow.first_send_time, Some(at_ms(1)));
}

#[test]
fn older_ack_is_only_counted() {
    let mut bbr = fresh();
    for pn in 0..3 {
        bbr.on_packet_sent(at_ms(pn), 1200, pn);
    }
    ack(&mut bbr, 50, 0, 0);
    ack(&mut bbr, 52, 2, 2);
    let before = bbr.model.flow;
    ack(&mut bbr, 53, 1, 1);
    let after = bbr.model.flow;
    assert!(bbr.packets[1].acknowledged);
    assert_eq!(after.delivered, before.delivered + 1200);
    assert_eq!(after.rs.unwrap().newly_acked, before.rs.unwrap().newly_acked + 1200);
    assert_eq!(after.rs.unwrap().rtt, before.rs.unwrap().rtt);
    assert_eq!(after.rs.unwrap().last_end_seq, 2);
    assert_eq!(after.cwnd, before.cwnd);
    // A packet that is not in the log is only counted, too.
    ack(&mut bbr, 54, 1, 77);
    assert_eq!(bbr.model.flow.delivered, before.delivered + 2400);
    assert_eq!(bbr.packets.len(), 3);
}

#[test]
fn acks_out_of_range_change_nothing() {
    let mut bbr = with(|flow| {
        flow.rs = Some(sample());
        flow.delivered = u64::MAX - 100;
    });
    assert!(!bbr.can_ack(at_ms(5), at_ms(1), 101, 0, Duration::from_millis(4)));
    let before = bbr.model.flow;
    assert!(!bbr.try_on_ack(at_ms(5), at_ms(1), 101, 0, false, Duration::from_millis(4)));
    assert_eq!(bbr.model.flow, before);
    assert!(bbr.try_on_ack(at_ms(5), at_ms(1), 100, 0, false, Duration::from_millis(4)));
    assert_eq!(bbr.model.flow.delivered, u64::MAX);
}

#[test]
fn end_of_acks_rates_the_sample() {
    let mut bbr = with(|flow| {
        flow.delivered = 12_000;
        flow.cwnd = 10_000;
        flow.rs = Some(BbrRateSample {
            prior_delivered: 2_000,
            send_elapsed: Duration::from_millis(30),
            ack_elapsed: Duration::from_millis(40),
            newly_acked: 5,
            newly_lost: 6,
            lost: 7,
            ..sample()
        });
    });
    bbr.on_end_acks(at_ms(100), 3_000, false, Some(9));
    let rs = bbr.model.flow.rs.unwrap();
    assert_eq!(bbr.model.flow.inflight, 3_000);
    assert_eq!(rs.interval, Duration::from_millis(40));
    assert_eq!(rs.delivered, 10_000);
    assert_eq!(f(rs.delivery_rate), 10_000.0 / 0.04);
    assert_eq!((rs.newly_acked, rs.newly_lost, rs.lost), (0, 0, 0));
    assert!(bbr.model.flow.is_cwnd_limited);
}

#[test]
fn short_or_first_samples_do_not_count() {
    let rs = BbrRateSample {
        prior_delivered: 1,
        ack_elapsed: Duration::from_millis(40),
        newly_acked: 5,
        ..sample()
    };
    let mut short = with(|flow| {
        flow.min_rtt = Duration::from_millis(41);
        flow.rs = Some(rs);
    });
    short.on_end_acks(at_ms(100), 0, false, Some(9));
    assert_eq!(short.model.flow.rs, Some(rs));
    let first = BbrRateSample { prior_delivered: 0, ..rs };
    let mut start = with(|flow| flow.rs = Some(first));
    start.on_end_acks(at_ms(100), 0, false, Some(9));
    assert_eq!(start.model.flow.rs, Some(first));
    let mut none = with(|flow| flow.rs = Some(rs));
    none.on_end_acks(at_ms(100), 55, true, None);
    assert_eq!(none.model.flow.rs, Some(rs));
    assert_eq!(none.model.flow.inflight, 55);
    assert_eq!(none.model.flow.app_limited, 0);
    // An interval of zero keeps the rate.
    let mut instant = with(|flow| {
        flow.rs = Some(BbrRateSample {
            prior_delivered: 1,
            delivery_rate: d(77.0),
            ..sample()
        });
    });
    instant.on_end_acks(at_ms(100), 0, false, Some(9));
    assert_eq!(f(instant.model.flow.rs.unwrap().delivery_rate), 77.0);
    assert_eq!(instant.model.flow.rs.unwrap().interval, Duration::from_nanos(0));
}

#[test]
fn application_limits_are_followed() {
    let mut bbr = fresh();
    bbr.on_end_acks(at_ms(0), 0, true, Some(5));
    assert_eq!(bbr.model.flow.app_limited, 5);
    bbr.on_end_acks(at_ms(0), 0, true, Some(3));
    assert_eq!(bbr.model.flow.app_limited, 5);
    bbr.on_end_acks(at_ms(0), 0, false, Some(5));
    assert_eq!(bbr.model.flow.app_limited, 5);
    bbr.on_packet_sent(at_ms(1), 1200, 6);
    assert!(bbr.packets[0].is_app_limited);
    bbr.on_end_acks(at_ms(0), 0, true, Some(6));
    assert_eq!(bbr.model.flow.app_limited, 0);
}

/// What is acknowledged or old is marked by one round of acknowledgements and gone
/// after the next.
#[test]
fn log_forgets() {
    let mut bbr = fresh();
    for pn in 0..4 {
        bbr.on_packet_sent(at_ms(pn), 1200, pn);
    }
    ack(&mut bbr, 50, 1, 1);
    bbr.model.flow.round_count = 11;
    bbr.packets[3].round_count = 1;
    bbr.on_end_acks(at_ms(51), 3600, false, Some(1));
    let marks: Vec<(u64, bool)> = bbr.packets.iter().map(|p| (p.packet_number, p.stale)).collect();
    assert_eq!(marks, vec![(0, true), (1, true), (2, true), (3, false)]);
    bbr.on_end_acks(at_ms(52), 3600, false, Some(1));
    let left: Vec<u64> = bbr.packets.iter().map(|p| p.packet_number).collect();
    assert_eq!(left, vec![3]);
    // Without an acknowledged packet the log stays as it is.
    bbr.model.flow.round_count = 50;
    bbr.on_end_acks(at_ms(53), 3600, false, None);
    assert!(!bbr.packets[0].stale);
}

#[test]
fn losses_leave_the_log() {
    let mut bbr = fresh();
    for pn in 0..3 {
        bbr.on_packet_sent(at_ms(pn), 1200, pn);
    }
    bbr.on_packet_lost(1200, 1, at_ms(60));
    assert_eq!(bbr.model.flow.lost, 1200);
    assert!(bbr.model.flow.loss_in_round);
    assert_eq!(bbr.model.flow.loss_events_in_round, 1);
    let left: Vec<u64> = bbr.packets.iter().map(|p| p.packet_number).collect();
    assert_eq!(left, vec![0, 2]);
    // A loss that is not in the log is only charged.
    bbr.on_packet_lost(1000, 1, at_ms(61));
    assert_eq!(bbr.model.flow.lost, 2200);
    assert_eq!(bbr.model.flow.loss_events_in_round, 1);
    assert!(!bbr.can_lose(u64::MAX));
}

/// Packets lost one directly after another are one loss event.
#[test]
fn loss_events_are_discontiguous() {
    let mut bbr = fresh();
    for pn in 0..20 {
        bbr.on_packet_sent(at_ms(pn), 1200, pn);
    }
    let mut events = Vec::new();
    for pn in [3, 4, 5, 6, 7, 8, 10, 12, 11] {
        bbr.on_packet_lost(1200, pn, at_ms(60));
        events.push(bbr.model.flow.loss_events_in_round);
    }
    assert_eq!(events, vec![1, 1, 1, 1, 1, 1, 2, 3, 4]);
    assert_eq!(bbr.model.flow.lost, 9 * 1200);
    // A loss round begins the count anew.
    bbr.model.flow.loss_round_start = true;
    bbr.model.flow.check_startup_high_loss();
    assert_eq!(bbr.model.flow.loss_events_in_round, 0);
    bbr.on_packet_lost(1200, 13, at_ms(61));
    assert_eq!(bbr.model.flow.loss_events_in_round, 1);
}

#[test]
fn high_loss_ends_an_upward_probe() {
    let lossy = |app_limited: bool| {
        let mut bbr = with(|flow| {
            probe_up(flow);
            flow.bw_probe_samples = true;
            flow.cwnd = 100_000;
            flow.bdp = 80_000;
            flow.lost = 10_000;
            flow.rs = Some(sample());
        });
        bbr.packets.push_back(BbrPacket {
            tx_in_flight: 50_000,
            lost: 7_000,
            is_app_limited: app_limited,
            ..packet(3)
        });
        bbr.on_packet_lost(1200, 3, at_ms(70));
        bbr
    };
    let bbr = lossy(false);
    let flow = bbr.model.flow;
    assert_eq!(flow.state, BbrState::ProbeBw(ProbeBwSubstate::Down));
    assert!(!flow.bw_probe_samples);
    assert_eq!(flow.cycle_stamp, Some(at_ms(70)));
    assert_eq!(flow.undo_state, BbrState::ProbeBw(ProbeBwSubstate::Up));
    assert_eq!(bbr.packets.len(), 0);
    // 4200 bytes were lost since the packet was sent, with 50000 in flight.
    let inflight_prev = (50_000 - 1_200) as f64;
    let lost_prev = (4_200 - 1_200) as f64;
    let prefix = (0.02 * inflight_prev - lost_prev) / (1.0 - 0.02);
    let point = (inflight_prev + prefix) as u64;
    assert_eq!(flow.rs.unwrap().tx_in_flight, point);
    assert_eq!(flow.rs.unwrap().newly_lost, 1200);
    assert_eq!(flow.inflight_longterm, point.max((80_000.0 * 0.7) as u64));
    let limited = lossy(true);
    assert_eq!(limited.model.flow.state, BbrState::ProbeBw(ProbeBwSubstate::Down));
    assert_eq!(limited.model.flow.inflight_longterm, u64::MAX);
}

#[test]
fn tolerated_loss_goes_on_probing() {
    let mut bbr = with(|flow| {
        probe_up(flow);
        flow.bw_probe_samples = true;
        flow.rs = Some(sample());
    });
    bbr.packets.push_back(BbrPacket { tx_in_flight: 60_000, ..packet(3) });
    bbr.on_packet_lost(1200, 3, at_ms(70));
    // Exactly two percent is tolerated.
    assert_eq!(bbr.model.flow.rs.unwrap().lost, 1200);
    assert!(!bbr.model.flow.is_inflight_too_high());
    assert_eq!(bbr.model.flow.state, BbrState::ProbeBw(ProbeBwSubstate::Up));
    assert!(bbr.model.flow.bw_probe_samples);
}

/// A loss that proves spurious is undone.
#[test]
fn spurious_loss_is_undone() {
    let mut bbr = with(|flow| {
        probe_up(flow);
        flow.bw_probe_samples = true;
        flow.inflight_longterm = 90_000;
        flow.inflight_shortterm = 70_000;
        flow.bw_shortterm = d(5e6);
        flow.rs = Some(sample());
    });
    bbr.packets.push_back(BbrPacket { tx_in_flight: 10_000, ..packet(3) });
    bbr.on_packet_lost(1200, 3, at_ms(70));
    assert_eq!(bbr.model.flow.state, BbrState::ProbeBw(ProbeBwSubstate::Down));
    assert!(bbr.model.flow.inflight_longterm < 90_000);
    // Undone at once, the short-term bounds are as they were.
    let mut at_once = bbr.clone();
    at_once.on_spurious_congestion_event();
    assert_eq!(at_once.model.flow.state, BbrState::ProbeBw(ProbeBwSubstate::Up));
    assert_eq!(at_once.model.flow.inflight_shortterm, 70_000);
    assert_eq!(f(at_once.model.flow.bw_shortterm), 5e6);
    assert_eq!(at_once.model.flow.inflight_longterm, 90_000);
    bbr.model.flow.inflight_shortterm = 20_000;
    bbr.model.flow.bw_shortterm = d(1e6);
    bbr.on_spurious_congestion_event();
    let flow = bbr.model.flow;
    assert_eq!(flow.state, BbrState::ProbeBw(ProbeBwSubstate::Up));
    assert_eq!(f(flow.pacing_gain), 1.25);
    assert_eq!(flow.inflight_longterm, 90_000);
    assert_eq!(flow.inflight_shortterm, 70_000);
    assert_eq!(f(flow.bw_shortterm), 5e6);
    assert!(!flow.loss_in_round);
    assert_eq!(flow.full_bw_count, 0);
    // A loss in startup leads back to startup, but not out of a measurement.
    let mut drained = with(|flow| {
        flow.enter_drain();
        flow.full_bw_reached = true;
    });
    drained.on_spurious_congestion_event();
    assert_eq!(drained.model.flow.state, BbrState::Startup);
    let mut measuring = with(|flow| flow.enter_probe_rtt());
    measuring.on_spurious_congestion_event();
    assert_eq!(measuring.model.flow.state, BbrState::ProbeRtt);
}

#[test]
fn congestion_signals() {
    let mut bbr = fresh();
    bbr.on_packet_sent(at_ms(0), 1200, 0);
    let before = bbr.model.flow;
    bbr.on_congestion_event(at_ms(9), at_ms(0), true, false, 1200, 0);
    assert_eq!(bbr.model.flow, before);
    assert_eq!(bbr.packets.len(), 1);
    let mut lossy = bbr.clone();
    lossy.on_packet_lost(1200, 0, at_ms(9));
    bbr.on_congestion_event(at_ms(9), at_ms(0), false, true, 1200, 0);
    assert_eq!(bbr.model.flow, lossy.model.flow);
    assert_eq!(bbr.model.flow.lost, 1200);
    assert_eq!(bbr.packets.len(), 0);
    assert_eq!(bbr.window(), 131_054);
    bbr.on_congestion_event(at_ms(9), at_ms(0), true, true, 100, 0);
    assert_eq!(bbr.model.flow.lost, 1300);
    assert_eq!(bbr.window(), 4800);
}

#[test]
fn mtu_update() {
    let mut bbr = with(|flow| flow.cwnd = 1_000);
    assert!(bbr.can_resize(9_000));
    bbr.on_mtu_update(9_000);
    assert_eq!(bbr.model.flow.smss, 9_000);
    assert_eq!(bbr.model.flow.min_pipe_cwnd, 36_000);
    // The window is brought up to the smallest one.
    assert_eq!(bbr.window(), 36_000);
    // The cap is the initial window before any round-trip time was measured.
    assert_eq!(bbr.model.flow.max_inflight, 131_054);
    bbr.on_mtu_update(100);
    assert_eq!(bbr.model.flow.smss, 1_200);
    assert_eq!(bbr.model.flow.min_pipe_cwnd, 4_800);
    let mut wide = fresh();
    wide.on_mtu_update(9_000);
    assert_eq!(wide.window(), 131_054);
    let full = with(|flow| {
        flow.initial_cwnd = u64::MAX;
        flow.extra_acked = 1;
    });
    assert!(!full.can_resize(1_200));
}

#[test]
fn ack_frequency_update() {
    let mut bbr = fresh();
    bbr.on_ack_frequency_update(10, Duration::from_millis(40));
    assert_eq!(bbr.model.flow.ack_eliciting_threshold, 10);
    assert_eq!(bbr.model.flow.max_ack_delay, Duration::from_millis(40));
    // Ten packets are less than what arrives in forty milliseconds.
    bbr.model.flow.max_bw = d(1e6);
    bbr.model.flow.update_offload_budget();
    assert_eq!(bbr.model.flow.offload_budget, 2_400 + 12_000);
    // At a low rate the delay decides.
    bbr.model.flow.max_bw = d(1e5);
    bbr.model.flow.update_offload_budget();
    assert_eq!(bbr.model.flow.offload_budget, 2_400 + 4_000);
    bbr.on_ack_frequency_update(0, Duration::from_millis(40));
    bbr.model.flow.update_offload_budget();
    assert_eq!(bbr.model.flow.offload_budget, 2_400);
    bbr.on_ack_frequency_update(u64::MAX, Duration::from_secs(u64::MAX));
    bbr.model.flow.update_offload_budget();
    assert_eq!(bbr.model.flow.offload_budget, u64::MAX);
}

/// A send by a flow with nothing in flight, which the application limited, restarts the
/// flow.
#[test]
fn restart_from_idle() {
    let mut probing = with(|flow| {
        flow.full_bw_reached = true;
        flow.start_probe_bw_cruise();
        flow.app_limited = 3;
        flow.bw = d(1e6);
    });
    probing.on_packet_sent(at_ms(5), 1200, 4);
    assert!(probing.model.flow.idle_restart);
    assert_eq!(probing.model.flow.inflight, 1200);
    assert_eq!(probing.model.flow.extra_acked_interval_start, Some(at_ms(5)));
    assert_eq!(f(probing.model.flow.pacing_rate), 1.0 * 1e6 * (100.0 - 1.0) / 100.0);
    assert_eq!(probing.packets[0].tx_in_flight, 1200);
    let measuring = |done_ms: u64| {
        let mut bbr = with(|flow| {
            flow.enter_probe_rtt();
            flow.app_limited = 3;
            flow.probe_rtt_done_stamp = Some(at_ms(done_ms));
            flow.prior_cwnd = 200_000;
        });
        bbr.on_packet_sent(at_ms(5), 1200, 4);
        bbr
    };
    let over = measuring(4);
    assert_eq!(over.model.flow.state, BbrState::Startup);
    assert_eq!(over.window(), 200_000);
    assert_eq!(over.model.flow.probe_rtt_min_stamp, Some(at_ms(5)));
    assert!(over.model.flow.idle_restart);
    let held = measuring(5);
    assert_eq!(held.model.flow.state, BbrState::ProbeRtt);
    assert!(held.model.flow.idle_restart);
    // Neither a flow with packets in flight restarts, nor one that was not limited.
    let mut busy = with(|flow| {
        flow.app_limited = 3;
        flow.inflight = 1;
    });
    busy.on_packet_sent(at_ms(5), 1200, 4);
    assert!(!busy.model.flow.idle_restart);
    assert_eq!(busy.model.flow.extra_acked_interval_start, None);
    let mut unlimited = fresh();
    unlimited.on_packet_sent(at_ms(5), 1200, 4);
    assert!(!unlimited.model.flow.idle_restart);
}

#[test]
fn clones_are_equal_and_apart() {
    let mut bbr = fresh();
    for pn in 0..3 {
        bbr.on_packet_sent(at_ms(pn), 1200, pn);
    }
    ack(&mut bbr, 50, 0, 0);
    let mut copy = bbr.clone();
    assert_eq!(copy.model.flow, bbr.model.flow);
    assert_eq!(copy.packets, bbr.packets);
    ack(&mut copy, 60, 1, 1);
    assert_eq!(bbr.model.flow.delivered, 1200);
    ack(&mut bbr, 60, 1, 1);
    assert_eq!(copy.model.flow, bbr.model.flow);
    assert_eq!(copy.model.max_bw_filter.slots, bbr.model.max_bw_filter.slots);
}
