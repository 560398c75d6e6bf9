//! The steps of the algorithm, on exact values.
use bbr3::double::Double;
use bbr3::flow::{AckPhase, BbrState, Flow, ProbeBwSubstate};
use bbr3::max_filter::MaxFilter;
use bbr3::model::Model;
use bbr3::packet::{find_packet, replace_packet, sweep, BbrPacket, BbrRateSample};
use bbr3::probe_rng::ProbeRng;
use bbr3::time::{Duration, Instant};
use bbr3::{Bbr3, Bbr3Config};
use std::collections::VecDeque;

fn at_ms(ms: u64) -> Instant {
    Instant { nanos: 1_000_000_000 + ms as u128 * 1_000_000 }
}

fn d(x: f64) -> Double {
    Double { bits: x.to_bits() }
}

fn f(x: Double) -> f64 {
    f64::from_bits(x.bits)
}

fn model() -> Model {
    let rng = ProbeRng { state: 11, stream: 22 };
    Bbr3::with_rng(&Bbr3Config::default(), 1200, rng).model
}

fn flow() -> Flow {
    model().flow
}

fn packet(pn: u64) -> BbrPacket {
    BbrPacket {
        delivered: 0,
        delivered_time: at_ms(0),
        first_send_time: at_ms(0),
        send_time: at_ms(0),
        is_app_limited: false,
        tx_in_flight: 0,
        packet_number: pn,
        size: 1200,
        lost: 0,
        acknowledged: false,
        stale: false,
        round_count: 0,
    }
}

fn sample() -> BbrRateSample {
    BbrRateSample {
        delivery_rate: d(0.0),
        is_app_limited: false,
        interval: Duration::from_nanos(0),
        delivered: 0,
        prior_delivered: 0,
        prior_time: at_ms(0),
        send_elapsed: Duration::from_nanos(0),
        ack_elapsed: Duration::from_nanos(0),
        rtt: Duration::from_millis(50),
        tx_in_flight: 0,
        newly_acked: 0,
        newly_lost: 0,
        lost: 0,
        last_end_seq: 0,
        last_packet: packet(0),
    }
}

fn sampled(rs: BbrRateSample) -> Flow {
    Flow { rs: Some(rs), ..flow() }
}

fn rated(rate: f64) -> BbrRateSample {
    BbrRateSample { delivery_rate: d(rate), ..sample() }
}

#[test]
fn bandwidth_delay_products() {
    let mut unknown = flow();
    assert_eq!(unknown.bdp_multiple(d(1e6), d(2.0)), 131_054);
    assert_eq!(unknown.bdp, 0);
    let mut known = Flow { min_rtt: Duration::from_millis(50), ..flow() };
    assert_eq!(known.bdp_multiple(d(1_000_010.0), d(2.25)), (2.25f64 * 50_001.0) as u64);
    assert_eq!(known.bdp, 50_001);
}

#[test]
fn inflight_targets() {
    let path = Flow { min_rtt: Duration::from_millis(50), max_bw: d(1e6), ..flow() };
    let mut cruising = path;
    // The bandwidth-delay product exceeds the burst and the delayed acks.
    assert_eq!(cruising.get_inflight(d(1.0)), 50_000);
    assert_eq!(cruising.offload_budget, 2_400 + 1_200);
    let mut small = Flow { max_bw: d(1e3), ..path };
    assert_eq!(small.get_inflight(d(1.0)), 4_800);
    let mut bursty = Flow { send_quantum: 70_000, ..path };
    assert_eq!(bursty.get_inflight(d(1.0)), 71_200);
    let mut probing = Flow { state: BbrState::ProbeBw(ProbeBwSubstate::Up), ..path };
    assert_eq!(probing.get_inflight(d(1.0)), 52_400);
    let mut capped = Flow { extra_acked: 7_000, ..path };
    capped.update_max_inflight();
    assert_eq!(capped.max_inflight, 107_000);
    assert_eq!(capped.bdp, 50_000);
}

#[test]
fn headroom() {
    let bound = |longterm: u64| Flow { inflight_longterm: longterm, ..flow() };
    assert_eq!(bound(u64::MAX).inflight_with_headroom(), u64::MAX);
    assert_eq!(bound(100_000).inflight_with_headroom(), 85_000);
    // At least one packet is left, and the smallest window is kept.
    assert_eq!(bound(7_000).inflight_with_headroom(), 5_800);
    assert_eq!(bound(5_000).inflight_with_headroom(), 4_800);
    assert_eq!(bound(1_000).inflight_with_headroom(), 4_800);
}

#[test]
fn loss_rates() {
    let lossy = |lost: u64, tx_in_flight: u64| {
        sampled(BbrRateSample { lost, tx_in_flight, ..sample() })
    };
    assert!(!flow().is_inflight_too_high());
    assert!(!lossy(2_000, 100_000).is_inflight_too_high());
    assert!(lossy(2_001, 100_000).is_inflight_too_high());
    assert!(lossy(1, 0).is_inflight_too_high());
    assert_eq!(flow().inflight_at_loss(1200), 0);
    let expected = 98_800.0 + (0.02 * 98_800.0 - 1_800.0) / (1.0 - 0.02);
    assert_eq!(lossy(3_000, 100_000).inflight_at_loss(1200), expected as u64);
    // The point lies in the packet that took the loss above what is tolerated.
    let mut crossings = 0;
    for size in [1, 500, 1_200, 9_000, 65_527] {
        for tx_in_flight in [100_000, 1_234_567, 999_999_999_999] {
            let lost = tx_in_flight / 50 + 1;
            let crossing = lossy(lost, tx_in_flight);
            assert!(crossing.is_inflight_too_high());
            if lost >= size && !lossy(lost - size, tx_in_flight - size).is_inflight_too_high() {
                crossings += 1;
                let point = crossing.inflight_at_loss(size);
                assert!(tx_in_flight - size <= point && point <= tx_in_flight);
            }
        }
    }
    assert_eq!(crossings, 11);
    // Less in flight than the packet itself, and a negative outcome.
    assert_eq!(lossy(3_000, 1_000).inflight_at_loss(1200), 0);
}

#[test]
fn phases_elapse() {
    assert!(flow().has_elapsed_in_phase(Duration::from_secs(1), at_ms(0)));
    let started = Flow { cycle_stamp: Some(at_ms(100)), ..flow() };
    assert!(!started.has_elapsed_in_phase(Duration::from_millis(50), at_ms(150)));
    assert!(started.has_elapsed_in_phase(Duration::from_millis(50), at_ms(151)));
    let waits = |rounds: u64, bdp: u64| Flow { rounds_since_bw_probe: rounds, bdp, ..flow() };
    assert!(waits(0, 0).is_reno_coexistence_probe_time());
    assert!(!waits(9, 10).is_reno_coexistence_probe_time());
    assert!(waits(10, 10).is_reno_coexistence_probe_time());
    assert!(!waits(62, 1_000_000).is_reno_coexistence_probe_time());
    assert!(waits(63, 1_000_000).is_reno_coexistence_probe_time());
}

#[test]
fn rounds_end_with_packets_sent_in_them() {
    let mut counting = Flow {
        delivered: 5_000,
        next_round_delivered: 3_000,
        is_cwnd_limited: true,
        rounds_since_bw_probe: 4,
        ..flow()
    };
    counting.update_round(BbrPacket { delivered: 2_999, ..packet(0) });
    assert_eq!((counting.round_count, counting.round_start), (0, false));
    counting.update_round(BbrPacket { delivered: 3_000, ..packet(0) });
    assert_eq!((counting.round_count, counting.round_start), (1, true));
    assert_eq!(counting.next_round_delivered, 5_000);
    assert_eq!(counting.rounds_since_bw_probe, 5);
    assert!(!counting.is_cwnd_limited);
    let last = Flow { round_count: u64::MAX, ..flow() };
    assert!(!last.can_update_round(packet(0)));
    assert!(flow().can_update_round(packet(0)));
}

#[test]
fn latest_delivery_signals() {
    let mut signals = Flow {
        bw_latest: d(5.0),
        inflight_latest: 50,
        loss_round_delivered: 10,
        delivered: 99,
        ..sampled(BbrRateSample { delivered: 60, prior_delivered: 9, ..rated(4.0) })
    };
    signals.update_latest_delivery_signals();
    assert_eq!((f(signals.bw_latest), signals.inflight_latest), (5.0, 60));
    assert!(!signals.loss_round_start);
    signals.advance_latest_delivery_signals();
    assert_eq!(f(signals.bw_latest), 5.0);
    signals.loss_round_delivered = 9;
    signals.update_latest_delivery_signals();
    assert!(signals.loss_round_start);
    assert_eq!(signals.loss_round_delivered, 99);
    signals.advance_latest_delivery_signals();
    assert_eq!((f(signals.bw_latest), signals.inflight_latest), (4.0, 60));
}

#[test]
fn short_term_bounds() {
    let lossy = Flow {
        loss_round_start: true,
        loss_in_round: true,
        max_bw: d(1e6),
        cwnd: 100_000,
        bw_latest: d(5e5),
        inflight_latest: 80_000,
        ..flow()
    };
    let mut cruising = Flow { state: BbrState::ProbeBw(ProbeBwSubstate::Cruise), ..lossy };
    cruising.close_loss_round();
    assert_eq!(f(cruising.bw_shortterm), 0.7 * 1e6);
    assert_eq!(cruising.inflight_shortterm, 80_000);
    assert!(!cruising.loss_in_round);
    // The next loss round begins with the bounds that are there.
    cruising.loss_in_round = true;
    cruising.inflight_latest = 0;
    cruising.bw_latest = d(0.0);
    cruising.close_loss_round();
    assert_eq!(f(cruising.bw_shortterm), 0.7 * (0.7 * 1e6));
    assert_eq!(cruising.inflight_shortterm, (0.7f64 * 80_000.0) as u64);
    for state in [
        BbrState::Startup,
        BbrState::ProbeBw(ProbeBwSubstate::Refill),
        BbrState::ProbeBw(ProbeBwSubstate::Up),
    ] {
        let mut probing = Flow { state, ..lossy };
        probing.close_loss_round();
        assert_eq!(probing.inflight_shortterm, u64::MAX);
        assert_eq!(f(probing.bw_shortterm), f64::INFINITY);
    }
    cruising.max_bw = d(9e5);
    cruising.bound_bw_for_model();
    assert_eq!(f(cruising.bw), 0.7 * (0.7 * 1e6));
    cruising.reset_short_term_model();
    cruising.bound_bw_for_model();
    assert_eq!(f(cruising.bw), 9e5);
}

/// Three round trips without growth, and no fewer, fill the pipe.
#[test]
fn plateaus() {
    let mut search = Flow { full_bw: d(100.0), ..sampled(rated(124.9)) };
    for count in 1..3 {
        search.check_full_bw_reached();
        assert_eq!((search.full_bw_count, search.full_bw_now), (count, false));
    }
    let stalled_twice = search;
    search.check_full_bw_reached();
    assert_eq!((search.full_bw_count, search.full_bw_now), (3, true));
    assert!(search.full_bw_reached);
    search.check_full_bw_reached();
    assert_eq!(search.full_bw_count, 3);
    // Growth begins the count anew.
    let mut growing = Flow { rs: Some(rated(125.0)), ..stalled_twice };
    growing.check_full_bw_reached();
    assert_eq!((growing.full_bw_count, f(growing.full_bw)), (0, 125.0));
    assert!(!growing.full_bw_reached);
    // What the application limits does not count.
    let mut limited = Flow {
        rs: Some(BbrRateSample { is_app_limited: true, ..rated(1.0) }),
        ..stalled_twice
    };
    limited.check_full_bw_reached();
    assert_eq!(limited.full_bw_count, 2);
    let mut inside = Flow { round_start: false, ..stalled_twice };
    inside.check_full_bw_reached();
    assert_eq!(inside.full_bw_count, 2);
}

#[test]
fn startup_ends_on_loss() {
    let lossy = |events: u64, lost: u64, round: bool| {
        let mut flow = Flow {
            loss_round_start: round,
            loss_events_in_round: events,
            bdp: 30_000,
            inflight_latest: 40_000,
            round_count: 8,
            ..sampled(BbrRateSample {
                lost,
                tx_in_flight: 100_000,
                delivered: 35_000,
                ..sample()
            })
        };
        flow.check_startup_done();
        flow
    };
    let ended = lossy(6, 2_001, true);
    assert_eq!(ended.state, BbrState::Drain);
    assert_eq!(ended.inflight_longterm, 40_000);
    assert!(ended.full_bw_reached && ended.full_bw_now);
    assert_eq!(ended.loss_events_in_round, 0);
    assert_eq!(ended.drain_start_round, 8);
    assert_eq!(f(ended.pacing_gain), 0.5);
    let few = lossy(5, 2_001, true);
    assert_eq!((few.state, few.loss_events_in_round), (BbrState::Startup, 0));
    let tolerated = lossy(6, 2_000, true);
    assert_eq!((tolerated.state, tolerated.loss_events_in_round), (BbrState::Startup, 0));
    let early = lossy(6, 2_001, false);
    assert_eq!((early.state, early.loss_events_in_round), (BbrState::Startup, 6));
    // Losses are counted by the round also once the pipe has been full.
    let mut filled = Flow {
        full_bw_reached: true,
        loss_round_start: true,
        loss_events_in_round: 7,
        last_lost_packet: Some(3),
        ..flow()
    };
    filled.check_startup_high_loss();
    assert_eq!((filled.loss_events_in_round, filled.last_lost_packet), (0, None));
    assert_eq!(filled.inflight_longterm, u64::MAX);
}

#[test]
fn draining_ends() {
    let draining = |inflight: u64, rounds: u64| {
        let mut flow = Flow {
            min_rtt: Duration::from_millis(50),
            max_bw: d(1e6),
            full_bw_reached: true,
            round_count: 10,
            inflight,
            ..flow()
        };
        flow.enter_drain();
        flow.round_count = 10 + rounds;
        flow.check_drain_done(at_ms(7));
        flow.state
    };
    let down = BbrState::ProbeBw(ProbeBwSubstate::Down);
    assert_eq!(draining(50_000, 0), down);
    assert_eq!(draining(50_001, 0), BbrState::Drain);
    assert_eq!(draining(50_001, 3), BbrState::Drain);
    assert_eq!(draining(50_001, 4), down);
}

#[test]
fn long_term_slope() {
    let mut probing = Flow { cwnd: 100_000, bw_probe_up_rounds: 3, ..flow() };
    probing.raise_inflight_long_term_slope();
    assert_eq!(probing.bw_probe_up_rounds, 4);
    assert_eq!(probing.probe_up_cnt, 100_000 / (1200 << 3));
    probing.bw_probe_up_rounds = 30;
    probing.raise_inflight_long_term_slope();
    assert_eq!(probing.bw_probe_up_rounds, 30);
    assert_eq!(probing.probe_up_cnt, 1);
}

#[test]
fn long_term_bound_grows() {
    let held = Flow {
        is_cwnd_limited: true,
        cwnd: 50_000,
        inflight_longterm: 50_000,
        probe_up_cnt: 300,
        bw_probe_up_acks: 250,
        round_start: false,
        ..sampled(BbrRateSample { newly_acked: 800, ..sample() })
    };
    let mut grown = held;
    grown.probe_inflight_long_term_upward();
    assert_eq!(grown.inflight_longterm, 50_003);
    assert_eq!(grown.bw_probe_up_acks, 150);
    assert_eq!(grown.bw_probe_up_rounds, 0);
    let mut round = Flow { round_start: true, ..held };
    round.probe_inflight_long_term_upward();
    assert_eq!(round.bw_probe_up_rounds, 1);
    assert_eq!(round.probe_up_cnt, 50_000 / 1200);
    let mut few = Flow { probe_up_cnt: 1051, ..held };
    few.probe_inflight_long_term_upward();
    assert_eq!((few.inflight_longterm, few.bw_probe_up_acks), (50_000, 1050));
    let mut never = Flow { probe_up_cnt: 0, ..held };
    never.probe_inflight_long_term_upward();
    assert_eq!((never.inflight_longterm, never.bw_probe_up_acks), (50_000, 1050));
    let mut free = Flow { is_cwnd_limited: false, ..held };
    free.probe_inflight_long_term_upward();
    assert_eq!(free.bw_probe_up_acks, 250);
    let mut below = Flow { cwnd: 49_999, ..held };
    below.probe_inflight_long_term_upward();
    assert_eq!(below.bw_probe_up_acks, 250);
}

#[test]
fn long_term_model() {
    let probing = |ack_phase: AckPhase, app_limited: bool| {
        let mut flow = Flow {
            state: BbrState::ProbeBw(ProbeBwSubstate::Down),
            ack_phase,
            round_start: true,
            inflight_longterm: 40_000,
            ..sampled(BbrRateSample {
                tx_in_flight: 45_000,
                is_app_limited: app_limited,
                ..sample()
            })
        };
        flow.adapt_long_term_model();
        flow
    };
    let starting = probing(AckPhase::ProbeStarting, false);
    assert_eq!(starting.ack_phase, AckPhase::ProbeFeedback);
    assert_eq!(starting.cycle_count, 0);
    assert_eq!(starting.inflight_longterm, 45_000);
    let stopping = probing(AckPhase::ProbeStopping, false);
    assert_eq!(stopping.ack_phase, AckPhase::ProbeStopping);
    assert_eq!(stopping.cycle_count, 1);
    assert_eq!(probing(AckPhase::ProbeStopping, true).cycle_count, 0);
    let mut unbounded = sampled(BbrRateSample { tx_in_flight: 45_000, ..sample() });
    unbounded.adapt_long_term_model();
    assert_eq!(unbounded.inflight_longterm, u64::MAX);
    let mut lossy = Flow {
        inflight_longterm: 40_000,
        ..sampled(BbrRateSample { tx_in_flight: 45_000, lost: 2_000, ..sample() })
    };
    lossy.adapt_long_term_model();
    assert_eq!(lossy.inflight_longterm, 40_000);
    let mut last = Flow { cycle_count: u64::MAX, ..flow() };
    last.advance_max_bw_filter();
    assert_eq!(last.cycle_count, u64::MAX);
}

#[test]
fn probing_cycle() {
    let mut flow = Flow {
        full_bw_reached: true,
        min_rtt: Duration::from_millis(50),
        max_bw: d(1e6),
        bdp: 50_000,
        cwnd: 90_000,
        inflight_longterm: 80_000,
        inflight: 68_001,
        ..sampled(rated(1e6))
    };
    flow.start_probe_bw_down(at_ms(0));
    assert_eq!(flow.ack_phase, AckPhase::ProbeStopping);
    assert_eq!(flow.probe_up_cnt, u64::MAX);
    assert_eq!(f(flow.pacing_gain), 0.9);
    flow.round_start = false;
    // Above the headroom, then above the path, then cruising.
    flow.update_probe_bw_cycle_phase(at_ms(1));
    assert_eq!(flow.state, BbrState::ProbeBw(ProbeBwSubstate::Down));
    flow.inflight = 50_001;
    flow.update_probe_bw_cycle_phase(at_ms(2));
    assert_eq!(flow.state, BbrState::ProbeBw(ProbeBwSubstate::Down));
    flow.inflight = 50_000;
    flow.update_probe_bw_cycle_phase(at_ms(3));
    assert_eq!(flow.state, BbrState::ProbeBw(ProbeBwSubstate::Cruise));
    assert_eq!(f(flow.pacing_gain), 1.0);
    // The wait is over.
    flow.inflight_shortterm = 10;
    flow.update_probe_bw_cycle_phase(at_ms(1_999));
    assert_eq!(flow.state, BbrState::ProbeBw(ProbeBwSubstate::Cruise));
    flow.update_probe_bw_cycle_phase(at_ms(3_001));
    assert_eq!(flow.state, BbrState::ProbeBw(ProbeBwSubstate::Refill));
    assert_eq!(flow.inflight_shortterm, u64::MAX);
    assert_eq!(flow.ack_phase, AckPhase::Refilling);
    // A round trip later the probe goes upwards.
    flow.update_probe_bw_cycle_phase(at_ms(3_010));
    assert_eq!(flow.state, BbrState::ProbeBw(ProbeBwSubstate::Refill));
    flow.round_start = true;
    flow.update_probe_bw_cycle_phase(at_ms(3_050));
    assert_eq!(flow.state, BbrState::ProbeBw(ProbeBwSubstate::Up));
    assert!(flow.bw_probe_samples);
    assert_eq!(flow.ack_phase, AckPhase::ProbeStarting);
    assert_eq!(f(flow.pacing_gain), 1.25);
    assert_eq!(f(flow.cwnd_gain), 2.25);
    assert_eq!(f(flow.full_bw), 1e6);
    assert_eq!(flow.probe_up_cnt, 90_000 / 1200);
    // Held by the long-term bound the probe goes on; a plateau ends it.
    flow.is_cwnd_limited = true;
    flow.full_bw_now = true;
    flow.update_probe_bw_cycle_phase(at_ms(3_100));
    assert_eq!(flow.state, BbrState::ProbeBw(ProbeBwSubstate::Up));
    assert!(!flow.full_bw_now);
    flow.is_cwnd_limited = false;
    flow.full_bw_now = true;
    flow.update_probe_bw_cycle_phase(at_ms(3_150));
    assert_eq!(flow.state, BbrState::ProbeBw(ProbeBwSubstate::Down));
    assert_eq!(flow.cycle_stamp, Some(at_ms(3_150)));
}

#[test]
fn minimum_round_trip_times() {
    let mut flow = sampled(sample());
    flow.update_min_rtt(at_ms(0));
    assert!(flow.probe_rtt_expired);
    assert_eq!(flow.min_rtt, Duration::from_millis(50));
    assert_eq!(flow.min_rtt_stamp, Some(at_ms(0)));
    // A larger one is taken only once the interval has passed.
    flow.rs = Some(BbrRateSample { rtt: Duration::from_millis(60), ..sample() });
    flow.update_min_rtt(at_ms(5_000));
    assert!(!flow.probe_rtt_expired);
    assert_eq!(flow.probe_rtt_min_delay, Duration::from_millis(50));
    flow.update_min_rtt(at_ms(5_001));
    assert!(flow.probe_rtt_expired);
    assert_eq!(flow.probe_rtt_min_delay, Duration::from_millis(60));
    assert_eq!(flow.min_rtt, Duration::from_millis(50));
    // The minimum itself lasts for ten seconds.
    flow.update_min_rtt(at_ms(10_000));
    assert_eq!(flow.min_rtt, Duration::from_millis(50));
    flow.update_min_rtt(at_ms(10_001));
    assert_eq!(flow.min_rtt, Duration::from_millis(60));
    assert_eq!(flow.min_rtt_stamp, Some(at_ms(5_001)));
    flow.rs = Some(BbrRateSample { rtt: Duration::from_millis(40), ..sample() });
    flow.update_min_rtt(at_ms(10_002));
    assert_eq!(flow.min_rtt, Duration::from_millis(40));
}

/// A measurement holds the window down for its time and a round trip; the window
/// comes back whole.
#[test]
fn measurements_of_the_round_trip_time() {
    let mut flow = Flow {
        probe_rtt_expired: true,
        min_rtt: Duration::from_millis(50),
        bw: d(1e6),
        inflight: 30_000,
        ..sampled(sample())
    };
    flow.check_probe_rtt(at_ms(0));
    assert_eq!(flow.state, BbrState::ProbeRtt);
    assert_eq!(flow.prior_cwnd, 131_054);
    assert_eq!(flow.ack_phase, AckPhase::ProbeStopping);
    flow.bound_cwnd_for_probe_rtt();
    assert_eq!(flow.cwnd, 25_000);
    // Too much in flight, then little enough.
    flow.check_probe_rtt(at_ms(10));
    assert_eq!(flow.probe_rtt_done_stamp, None);
    flow.inflight = 25_000;
    flow.round_start = false;
    flow.check_probe_rtt(at_ms(20));
    assert_eq!(flow.probe_rtt_done_stamp, Some(at_ms(220)));
    // The time is over, but not the round trip; then both.
    flow.check_probe_rtt(at_ms(300));
    assert_eq!(flow.state, BbrState::ProbeRtt);
    flow.round_start = true;
    flow.check_probe_rtt(at_ms(220));
    assert!(flow.probe_rtt_round_done);
    assert_eq!(flow.state, BbrState::ProbeRtt);
    let mut filled = Flow { full_bw_reached: true, ..flow };
    flow.check_probe_rtt(at_ms(221));
    assert_eq!(flow.state, BbrState::Startup);
    assert_eq!(flow.cwnd, 131_054);
    assert_eq!(flow.probe_rtt_min_stamp, Some(at_ms(221)));
    filled.check_probe_rtt(at_ms(221));
    assert_eq!(filled.state, BbrState::ProbeBw(ProbeBwSubstate::Cruise));
    assert_eq!(filled.cycle_stamp, Some(at_ms(221)));
    // A flow that restarts puts the measurement off until it delivers.
    let mut idle = Flow {
        probe_rtt_expired: true,
        idle_restart: true,
        ..sampled(BbrRateSample { delivered: 1, ..sample() })
    };
    idle.check_probe_rtt(at_ms(0));
    assert_eq!(idle.state, BbrState::Startup);
    assert!(!idle.idle_restart);
}

#[test]
fn remembered_windows() {
    let saved = |loss_in_round: bool, cwnd: u64| {
        let mut flow = Flow { prior_cwnd: 9_000, loss_in_round, cwnd, ..flow() };
        flow.save_cwnd();
        flow.prior_cwnd
    };
    assert_eq!(saved(false, 5_000), 5_000);
    assert_eq!(saved(true, 5_000), 9_000);
    assert_eq!(saved(true, 12_000), 12_000);
    let mut restored = Flow { prior_cwnd: 9_000, cwnd: 5_000, ..flow() };
    restored.restore_cwnd();
    assert_eq!(restored.cwnd, 9_000);
    restored.prior_cwnd = 1;
    restored.restore_cwnd();
    assert_eq!(restored.cwnd, 9_000);
}

#[test]
fn pacing_rates() {
    let mut pacing = Flow { bw: d(1e6), pacing_rate: d(5e6), ..flow() };
    pacing.set_pacing_rate();
    assert_eq!(f(pacing.pacing_rate), 5e6);
    pacing.pacing_rate = d(2e6);
    pacing.set_pacing_rate();
    assert_eq!(f(pacing.pacing_rate), 2.773 * 1e6 * 99.0 / 100.0);
    pacing.full_bw_reached = true;
    pacing.set_pacing_rate_with_gain(d(0.5));
    assert_eq!(f(pacing.pacing_rate), 0.5 * 1e6 * 99.0 / 100.0);
}

#[test]
fn bursts() {
    let burst = |rate: f64| {
        let mut flow = Flow { pacing_rate: d(rate), ..flow() };
        flow.set_send_quantum();
        flow.send_quantum
    };
    assert_eq!(burst(0.0), 64_000);
    assert_eq!(burst(149_999.9), 64_000);
    assert_eq!(burst(150_000.0), 64_000);
    assert_eq!(burst(2_999_999.0), 64_000);
    assert_eq!(burst(3_000_000.0), 3_000);
    assert_eq!(burst(10_000_000.0), 10_000);
    assert_eq!(burst(24_000_000.0), 24_000);
    assert_eq!(burst(63_999_999.0), 63_999);
    assert_eq!(burst(1e12), 64_000);
}

#[test]
fn windows() {
    let acked = |full: bool, cwnd: u64, delivered: u64| {
        let mut flow = Flow {
            min_rtt: Duration::from_millis(50),
            max_bw: d(1e6),
            full_bw_reached: full,
            cwnd,
            delivered,
            ..sampled(BbrRateSample { newly_acked: 3_000, ..sample() })
        };
        flow.set_cwnd();
        flow.cwnd
    };
    // Up to twice the bandwidth-delay product once the pipe has been full.
    assert_eq!(acked(true, 90_000, 0), 93_000);
    assert_eq!(acked(true, 99_000, 0), 100_000);
    assert_eq!(acked(true, 200_000, 0), 100_000);
    // Before, growth goes on past it until enough was delivered.
    assert_eq!(acked(false, 99_000, 500_000), 102_000);
    assert_eq!(acked(false, 100_000, 500_000), 100_000);
    assert_eq!(acked(false, 100_000, 100_000), 103_000);
    assert_eq!(acked(false, 100, 0), 4_800);
    let bounded = |state: BbrState| {
        let mut flow = Flow {
            state,
            inflight_longterm: 60_000,
            inflight_shortterm: 55_000,
            ..flow()
        };
        flow.bound_cwnd_for_model();
        flow.cwnd
    };
    assert_eq!(bounded(BbrState::Startup), 55_000);
    assert_eq!(bounded(BbrState::ProbeBw(ProbeBwSubstate::Up)), 55_000);
    assert_eq!(bounded(BbrState::ProbeBw(ProbeBwSubstate::Cruise)), 51_000);
    assert_eq!(bounded(BbrState::ProbeRtt), 51_000);
    let mut tiny = Flow { inflight_shortterm: 1, ..flow() };
    tiny.bound_cwnd_for_model();
    assert_eq!(tiny.cwnd, 4_800);
    let full = Flow {
        full_bw_reached: true,
        cwnd: u64::MAX,
        ..sampled(BbrRateSample { newly_acked: 1, ..sample() })
    };
    assert!(!full.can_set_cwnd());
    assert!(flow().can_set_cwnd());
}

#[test]
fn aggregation() {
    let mut model = model();
    model.flow = Flow {
        bw: d(1e6),
        cwnd: 20_000,
        ..sampled(BbrRateSample { newly_acked: 6_000, ..sample() })
    };
    // Nothing is expected yet, and nothing was delivered: an interval begins.
    model.update_ack_aggregation(at_ms(0));
    assert_eq!(model.flow.extra_acked, 6_000);
    assert_eq!(model.flow.extra_acked_interval_start, Some(at_ms(0)));
    // Four milliseconds deliver 4000 bytes, as expected, of 12000.
    model.update_ack_aggregation(at_ms(4));
    assert_eq!(model.flow.extra_acked, 8_000);
    assert_eq!(model.flow.extra_acked_delivered, 12_000);
    // What is expected has caught up: the interval begins anew.
    model.update_ack_aggregation(at_ms(12));
    assert_eq!(model.flow.extra_acked, 6_000);
    assert_eq!(model.flow.extra_acked_interval_start, Some(at_ms(12)));
    // No more than a window counts.
    model.flow.cwnd = 5_000;
    model.update_ack_aggregation(at_ms(12));
    assert_eq!(model.flow.extra_acked, 5_000);
    // Once the pipe has been full the largest of ten round trips counts.
    model.flow.full_bw_reached = true;
    model.update_ack_aggregation(at_ms(12));
    model.flow.cwnd = 1_000;
    model.flow.round_count = 9;
    model.update_ack_aggregation(at_ms(12));
    assert_eq!(model.flow.extra_acked, 5_000);
    model.flow.round_count = 10;
    model.update_ack_aggregation(at_ms(12));
    assert_eq!(model.flow.extra_acked, 1_000);
}

#[test]
fn largest_bandwidths() {
    let mut model = model();
    let mut take = |rate: f64, limited: bool, cycle: u64| {
        model.flow.rs = Some(BbrRateSample { is_app_limited: limited, ..rated(rate) });
        model.flow.cycle_count = cycle;
        model.update_max_bw(packet(0));
        f(model.flow.max_bw)
    };
    assert_eq!(take(1000.4, false, 0), 1000.0);
    assert_eq!(take(900.0, false, 0), 1000.0);
    // What the application limits counts only where it is larger.
    assert_eq!(take(950.0, true, 1), 1000.0);
    assert_eq!(take(1200.5, true, 1), 1201.0);
    assert_eq!(take(0.0, false, 1), 1201.0);
    // The current and the previous cycle count.
    assert_eq!(take(800.0, false, 2), 1201.0);
    assert_eq!(take(700.0, false, 3), 800.0);
}

#[test]
fn filters() {
    let mut filter = MaxFilter::new(2);
    assert_eq!(filter.get_max(), 0);
    filter.update_max(5, 10);
    filter.update_max(5, 7);
    filter.update_max(6, 8);
    assert_eq!(filter.get_max(), 10);
    let copy = filter.clone();
    filter.update_max(7, 1);
    assert_eq!(filter.get_max(), 8);
    assert_eq!(copy.get_max(), 10);
    filter.update_max(100, 0);
    assert_eq!(filter.get_max(), 0);
    assert_eq!(filter.slots.len(), 1);
}

#[test]
fn packets_are_found() {
    let mut log: VecDeque<BbrPacket> = VecDeque::new();
    assert_eq!(find_packet(&log, 0), None);
    for pn in [2, 3, 5, 8, 13] {
        log.push_back(packet(pn));
    }
    for (i, pn) in [2, 3, 5, 8, 13].iter().enumerate() {
        assert_eq!(find_packet(&log, *pn), Some(i));
    }
    for pn in [0, 4, 6, 14] {
        assert_eq!(find_packet(&log, pn), None);
    }
    replace_packet(&mut log, 1, BbrPacket { size: 7, ..packet(3) });
    assert_eq!(log[1].size, 7);
    assert_eq!(log.len(), 5);
    log[0].stale = true;
    log[2].acknowledged = true;
    sweep(&mut log, 10);
    let marks: Vec<(u64, bool)> = log.iter().map(|p| (p.packet_number, p.stale)).collect();
    assert_eq!(marks, vec![(3, false), (5, true), (8, false), (13, false)]);
    sweep(&mut log, 11);
    assert!(log.iter().all(|p| p.stale));
    assert_eq!(log.len(), 3);
}
