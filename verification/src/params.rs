//! The constants of the algorithm.
use crate::double::Double;
use vstd::prelude::*;

verus! {

/// The number of time slots of the bandwidth filter: the current and the
/// previous bandwidth probing cycle.
pub const MAX_BW_FILTER_LEN: u64 = 2;

/// The number of time slots, in round trips, of the aggregation filter.
pub const EXTRA_ACKED_FILTER_LEN: u64 = 10;

/// Packets that were sent more round trips ago than this are dropped from the
/// packet log, so that it cannot grow without bound. Loss detection declares
/// such a packet lost long before.
pub const ROUND_COUNT_WINDOW: u64 = 10;

/// The smallest maximum datagram size, in bytes.
pub const MIN_MAX_DATAGRAM_SIZE: u16 = 1200;

/// The largest maximum datagram size, in bytes.
pub const MAX_DATAGRAM_SIZE: u64 = 65527;

/// 1.2 Mbit/s, in bytes per second. Below this pacing rate a burst is no larger than one
/// full packet.
pub const LOW_PACING_RATE: u64 = 150_000;

/// 24 Mbit/s, in bytes per second. Below this pacing rate a burst is no larger than two
/// full packets.
pub const MID_PACING_RATE: u64 = 3_000_000;

/// The largest burst, in bytes.
pub const HIGH_PACE_MAX_QUANTUM: u64 = 64_000;

/// How long the window is held down to measure the round-trip time.
pub const PROBE_RTT_DURATION_MS: u64 = 200;

/// The least time between two measurements of the round-trip time.
pub const PROBE_RTT_INTERVAL_SEC: u64 = 5;

/// The length of the window of the minimum round-trip time, in seconds.
pub const MIN_RTT_FILTER_LEN: u64 = 10;

/// The number of rounds without growth after which the pipe counts as full.
pub const MAX_FULL_BW_COUNT: u64 = 3;

/// The least number of loss events in one round trip that can end startup.
pub const STARTUP_FULL_LOSS_CNT: u64 = 6;

/// The cap on the number of rounds that steepen the growth of the long-term
/// inflight bound.
pub const MAX_LONG_TERM_PROBE_UP_ROUNDS: u32 = 30;

/// The cap on the number of rounds between bandwidth probes.
pub const MAX_RENO_ROUNDS: u64 = 63;

/// The least wait before bandwidth is probed again.
pub const MIN_PROBE_WAIT_MS: u64 = 2000;

/// The largest random addition to that wait.
pub const MAX_ADDED_PROBE_WAIT_MS: u64 = 1000;

/// The number of round trips after which a flow stops draining in any case.
pub const MAX_DRAIN_ROUNDS: u64 = 3;

/// The initial congestion window that is recommended for any datagram size.
pub const RECOMMENDED_INITIAL_WINDOW: u64 = 14720;

/// The gain of the pacing rate in startup: it lets the sending rate double each
/// round trip.
#[verifier::allow_in_spec]
pub fn startup_pacing_gain() -> Double
    returns
        Double::of_ratio(2773, 1000),
{
    Double::ratio(2773, 1000)
}

/// The gain of the pacing rate while cruising, refilling and measuring.
#[verifier::allow_in_spec]
pub fn default_pacing_gain() -> Double
    returns
        Double::of(1),
{
    Double::from_u64(1)
}

/// The gain of the pacing rate while probing downwards.
#[verifier::allow_in_spec]
pub fn probe_bw_down_pacing_gain() -> Double
    returns
        Double::of_ratio(9, 10),
{
    Double::ratio(9, 10)
}

/// The gain of the pacing rate while probing upwards.
#[verifier::allow_in_spec]
pub fn probe_bw_up_pacing_gain() -> Double
    returns
        Double::of_ratio(125, 100),
{
    Double::ratio(125, 100)
}

/// The discount on the pacing rate, in percent.
#[verifier::allow_in_spec]
pub fn pacing_margin_percent() -> Double
    returns
        Double::of(1),
{
    Double::from_u64(1)
}

/// The gain of the window in most phases.
#[verifier::allow_in_spec]
pub fn default_cwnd_gain() -> Double
    returns
        Double::of(2),
{
    Double::from_u64(2)
}

/// The gain of the pacing rate while draining: the inverse of the default gain
/// of the window.
#[verifier::allow_in_spec]
pub fn drain_pacing_gain() -> Double
    returns
        Double::of_ratio(1, 2),
{
    Double::ratio(1, 2)
}

/// The gain of the window while probing upwards.
#[verifier::allow_in_spec]
pub fn probe_bw_up_cwnd_gain() -> Double
    returns
        Double::of_ratio(225, 100),
{
    Double::ratio(225, 100)
}

/// The gain of the window while measuring the round-trip time.
#[verifier::allow_in_spec]
pub fn probe_rtt_cwnd_gain() -> Double
    returns
        Double::of_ratio(1, 2),
{
    Double::ratio(1, 2)
}

/// The largest tolerated loss rate per round trip while probing.
#[verifier::allow_in_spec]
pub fn loss_thresh() -> Double
    returns
        Double::of_ratio(2, 100),
{
    Double::ratio(2, 100)
}

/// The multiplicative decrease upon a round trip with loss.
#[verifier::allow_in_spec]
pub fn beta() -> Double
    returns
        Double::of_ratio(7, 10),
{
    Double::ratio(7, 10)
}

/// The share of the long-term inflight bound that is left to other traffic.
#[verifier::allow_in_spec]
pub fn headroom() -> Double
    returns
        Double::of_ratio(15, 100),
{
    Double::ratio(15, 100)
}

/// The growth of the delivery rate below which a round counts as without growth.
#[verifier::allow_in_spec]
pub fn full_bw_growth() -> Double
    returns
        Double::of_ratio(125, 100),
{
    Double::ratio(125, 100)
}

/// The round-trip time that is assumed for the initial pacing rate, in seconds.
#[verifier::allow_in_spec]
pub fn nominal_rtt() -> Double
    returns
        Double::of_ratio(1, 1000),
{
    Double::ratio(1, 1000)
}

#[verifier::allow_in_spec]
pub fn smaller_of(a: u64, b: u64) -> u64
    returns
        (if a <= b {
            a
        } else {
            b
        }),
{
    if a <= b {
        a
    } else {
        b
    }
}

#[verifier::allow_in_spec]
pub fn larger_of(a: u64, b: u64) -> u64
    returns
        (if a >= b {
            a
        } else {
            b
        }),
{
    if a >= b {
        a
    } else {
        b
    }
}

/// `a * b`, held to the range of `u64`.
pub fn saturating_product(a: u64, b: u64) -> (r: u64)
    ensures
        r == (if a * b <= u64::MAX {
            a * b
        } else {
            u64::MAX as int
        }),
{
    match a.checked_mul(b) {
        Some(r) => r,
        None => u64::MAX,
    }
}

/// The sender's maximum send size for a path with the given datagram size.
#[verifier::allow_in_spec]
pub fn send_size(mtu: u16) -> u64
    returns
        smaller_of(
            if mtu >= MIN_MAX_DATAGRAM_SIZE {
                mtu as u64
            } else {
                MIN_MAX_DATAGRAM_SIZE as u64
            },
            MAX_DATAGRAM_SIZE,
        ),
{
    let size: u16 = if mtu >= MIN_MAX_DATAGRAM_SIZE {
        mtu
    } else {
        MIN_MAX_DATAGRAM_SIZE
    };
    smaller_of(size as u64, MAX_DATAGRAM_SIZE)
}

} // verus!
