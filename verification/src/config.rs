//! The configuration of a controller.
use crate::double::Double;
use crate::params::{MAX_DATAGRAM_SIZE, RECOMMENDED_INITIAL_WINDOW};
use vstd::prelude::*;

verus! {

/// The configuration of a `Bbr3` controller.
///
/// Each gain belongs to a state of the algorithm: pacing gains scale the sending
/// rate, window gains the congestion window. `pacing_margin_percent` keeps the
/// pacing rate below the full capacity. What is left out takes its default.
#[derive(Debug)]
pub struct Bbr3Config {
    pub initial_window: u64,
    pub probe_rng_seed: Option<[u8; 16]>,
    pub startup_pacing_gain: Option<Double>,
    pub default_pacing_gain: Option<Double>,
    pub probe_bw_down_pacing_gain: Option<Double>,
    pub probe_bw_up_pacing_gain: Option<Double>,
    pub probe_bw_up_cwnd_gain: Option<Double>,
    pub probe_rtt_cwnd_gain: Option<Double>,
    pub drain_pacing_gain: Option<Double>,
    pub pacing_margin_percent: Option<Double>,
    pub default_cwnd_gain: Option<Double>,
}

/// `value`, held between `low` and `high`.
pub open spec fn held_between(value: int, low: int, high: int) -> int {
    if value < low {
        low
    } else if value > high {
        high
    } else {
        value
    }
}

impl Bbr3Config {
    /// The default initial window: the recommended one, held between two and ten
    /// datagrams of the largest size.
    pub open spec fn default_window() -> int {
        held_between(
            RECOMMENDED_INITIAL_WINDOW as int,
            2 * MAX_DATAGRAM_SIZE,
            10 * MAX_DATAGRAM_SIZE,
        )
    }

    /// Sets the default limit on the amount of outstanding data in bytes.
    ///
    /// Recommended value: `min(10 * max_datagram_size, max(2 * max_datagram_size, 14720))`
    pub fn initial_window(&mut self, value: u64) -> (r: &mut Self)
        ensures
            *r == (Bbr3Config { initial_window: value, ..*old(self) }),
            *final(self) == *final(r),
    {
        self.initial_window = value;
        self
    }
}

impl Clone for Bbr3Config {
    fn clone(&self) -> (copy: Bbr3Config)
        ensures
            copy == *self,
    {
        Bbr3Config {
            initial_window: self.initial_window,
            probe_rng_seed: self.probe_rng_seed,
            startup_pacing_gain: self.startup_pacing_gain,
            default_pacing_gain: self.default_pacing_gain,
            probe_bw_down_pacing_gain: self.probe_bw_down_pacing_gain,
            probe_bw_up_pacing_gain: self.probe_bw_up_pacing_gain,
            probe_bw_up_cwnd_gain: self.probe_bw_up_cwnd_gain,
            probe_rtt_cwnd_gain: self.probe_rtt_cwnd_gain,
            drain_pacing_gain: self.drain_pacing_gain,
            pacing_margin_percent: self.pacing_margin_percent,
            default_cwnd_gain: self.default_cwnd_gain,
        }
    }
}

impl Default for Bbr3Config {
    fn default() -> (c: Bbr3Config)
        ensures
            c.initial_window == Bbr3Config::default_window(),
            c == (Bbr3Config {
                initial_window: c.initial_window,
                probe_rng_seed: None,
                startup_pacing_gain: None,
                default_pacing_gain: None,
                probe_bw_down_pacing_gain: None,
                probe_bw_up_pacing_gain: None,
                probe_bw_up_cwnd_gain: None,
                probe_rtt_cwnd_gain: None,
                drain_pacing_gain: None,
                pacing_margin_percent: None,
                default_cwnd_gain: None,
            }),
    {
        let initial_window: u64 = if RECOMMENDED_INITIAL_WINDOW < 2 * MAX_DATAGRAM_SIZE {
            2 * MAX_DATAGRAM_SIZE
        } else if RECOMMENDED_INITIAL_WINDOW > 10 * MAX_DATAGRAM_SIZE {
            10 * MAX_DATAGRAM_SIZE
        } else {
            RECOMMENDED_INITIAL_WINDOW
        };
        Bbr3Config {
            initial_window,
            probe_rng_seed: None,
            startup_pacing_gain: None,
            default_pacing_gain: None,
            probe_bw_down_pacing_gain: None,
            probe_bw_up_pacing_gain: None,
            probe_bw_up_cwnd_gain: None,
            probe_rtt_cwnd_gain: None,
            drain_pacing_gain: None,
            pacing_margin_percent: None,
            default_cwnd_gain: None,
        }
    }
}

} // verus!
