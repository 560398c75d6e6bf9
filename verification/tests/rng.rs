use bbr3::params::MAX_DATAGRAM_SIZE;
use bbr3::time::Duration;
use bbr3::{Bbr3, Bbr3Config};
use std::sync::Arc;

#[test]
fn test_probe_rng() {
    let seed: [u8; 16] = [1, 2, 3, 4, 5, 6, 7, 8, 9, 10, 11, 12, 13, 14, 15, 16];
    let config = Bbr3Config {
        initial_window: 14720.clamp(2 * MAX_DATAGRAM_SIZE, 10 * MAX_DATAGRAM_SIZE),
        probe_rng_seed: Some(seed),
        startup_pacing_gain: None,
        default_pacing_gain: None,
        probe_bw_down_pacing_gain: None,
        probe_bw_up_pacing_gain: None,
        probe_bw_up_cwnd_gain: None,
        probe_rtt_cwnd_gain: None,
        drain_pacing_gain: None,
        pacing_margin_percent: None,
        default_cwnd_gain: None,
    };
    let mut bbr3 = Bbr3::new(Arc::new(config), 2500);
    bbr3.model.flow.pick_probe_wait();
    assert_eq!(bbr3.model.flow.rounds_since_bw_probe, 1);
    assert_eq!(bbr3.model.flow.bw_probe_wait, Duration::from_millis(2652));
    bbr3.model.flow.pick_probe_wait();
    assert_eq!(bbr3.model.flow.rounds_since_bw_probe, 1);
    assert_eq!(bbr3.model.flow.bw_probe_wait, Duration::from_millis(2570));
}
