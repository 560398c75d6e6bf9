//! The round-trip time: what is measured, and when.
use crate::flow::{BbrState, Flow};
use crate::params::MIN_RTT_FILTER_LEN;
use crate::time::{Duration, Instant};
use vstd::prelude::*;

verus! {

/// The minimum round-trip time is at most the one just sampled, and at most the
/// smallest one of the probing interval.
pub proof fn law_min_rtt_covers_sample(f: Flow, now: Instant)
    requires
        f.rs is Some,
    ensures
        f.after_update_min_rtt(now).min_rtt.nanos <= f.rs->0.rtt.nanos,
        f.after_update_min_rtt(now).min_rtt.nanos <= f.after_update_min_rtt(
            now,
        ).probe_rtt_min_delay.nanos,
{
    reveal(Flow::after_update_min_rtt);
}

/// Within its window the minimum round-trip time does not grow.
pub proof fn law_min_rtt_lasts(f: Flow, now: Instant)
    requires
        !Flow::outdated(f.min_rtt_stamp, Duration::of_secs(MIN_RTT_FILTER_LEN), now),
    ensures
        f.after_update_min_rtt(now).min_rtt.nanos <= f.min_rtt.nanos,
{
    reveal(Flow::after_update_min_rtt);
}

/// A measurement does not begin before the interval since the last one is over.
pub proof fn law_measurements_keep_apart(f: Flow, stamp: Instant, now: Instant)
    requires
        f.state != BbrState::ProbeRtt,
        f.probe_rtt_min_stamp == Some(stamp),
        now.nanos <= stamp.nanos + f.probe_rtt_interval.nanos <= u128::MAX,
    ensures
        f.after_update_min_rtt(now).after_check_probe_rtt(now).state == f.state,
{
    reveal(Flow::after_update_min_rtt);
    reveal(Flow::after_check_probe_rtt);
    reveal(Flow::after_note_delivery);
}

/// A measurement that is due begins, unless the flow is restarting from idle.
pub proof fn law_measurement_begins_when_due(f: Flow, now: Instant)
    requires
        f.state != BbrState::ProbeRtt,
        Flow::outdated(f.probe_rtt_min_stamp, f.probe_rtt_interval, now),
        !f.idle_restart,
    ensures
        f.after_update_min_rtt(now).after_check_probe_rtt(now).state == BbrState::ProbeRtt,
        f.after_update_min_rtt(now).after_check_probe_rtt(now).probe_rtt_done_stamp is None,
{
    reveal(Flow::after_update_min_rtt);
    reveal(Flow::after_check_probe_rtt);
    reveal(Flow::after_begin_probe_rtt);
    reveal(Flow::after_note_delivery);
}

/// A measurement whose time began at `armed` lasts for its whole duration.
pub proof fn law_measurement_lasts(f: Flow, armed: Instant, now: Instant)
    requires
        f.inflight <= f.probe_rtt_window(),
        armed.nanos + f.probe_rtt_duration.nanos <= u128::MAX,
    ensures
        f.after_arm_probe_rtt(armed).probe_rtt_over(now) <==> now.nanos > armed.nanos
            + f.probe_rtt_duration.nanos,
{
    reveal(Flow::after_arm_probe_rtt);
}

/// No measurement ends before little enough was in flight, nor before a round trip
/// has passed since.
pub proof fn law_measurement_waits(f: Flow, now: Instant)
    requires
        f.state == BbrState::ProbeRtt,
        f.probe_rtt_done_stamp is None || !(f.round_start || f.probe_rtt_round_done),
    ensures
        f.after_check_probe_rtt(now).state == BbrState::ProbeRtt,
{
    reveal(Flow::after_check_probe_rtt);
    reveal(Flow::after_arm_probe_rtt);
    reveal(Flow::after_wait_probe_rtt);
    reveal(Flow::after_note_delivery);
}

} // verus!
