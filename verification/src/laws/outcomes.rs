//! What the state machine and the control parameters make of an acknowledgement.
use crate::double::Double;
use crate::flow::{AckPhase, BbrState, Flow, ProbeBwSubstate};
use crate::time::{Duration, Instant};
use vstd::math::*;
use vstd::prelude::*;

verus! {

impl Flow {
    /// A measurement of the round-trip time is due.
    pub open spec fn measurement_due(self, now: Instant) -> bool {
        match self.probe_rtt_min_stamp {
            Some(stamp) => now.nanos > stamp.moved_by(self.probe_rtt_interval).nanos,
            None => true,
        }
    }

    /// The minimum round-trip time is out of date.
    pub open spec fn min_rtt_old(self, now: Instant) -> bool {
        match self.min_rtt_stamp {
            Some(stamp) => now.nanos > stamp.moved_by(Duration { nanos: 10_000_000_000 }).nanos,
            None => true,
        }
    }

    /// More was lost since the sampled packet was sent than two hundredths of what was then
    /// in flight.
    pub open spec fn lossy_sample(self) -> bool {
        self.rs matches Some(rs) && Double::of(rs.tx_in_flight as nat).product(
            Double::of_ratio(2, 100),
        ).less(Double::of(rs.lost as nat))
    }
}

/// The pipe is full from the third round trip on that shows no growth by a quarter and that
/// the application did not limit, or from the end of a loss round on with at least six loss
/// events and a loss above what is tolerated. It stays full.
pub proof fn law_pipe_fills(f: Flow)
    requires
        f.rs is Some,
        f.full_bw_count < u64::MAX,
    ensures
        ({
            let r = f.rs->0;
            let g = f.after_check_full_bw_reached().after_check_startup_done();
            let grown = f.full_bw.product(Double::of_ratio(125, 100)).at_most(r.delivery_rate);
            let looks = !f.full_bw_now && f.round_start && !r.is_app_limited;
            let third = looks && !grown && f.full_bw_count + 1 >= 3;
            let lost = !f.full_bw_reached && !third && f.loss_round_start && f.loss_events_in_round
                >= 6 && f.lossy_sample();
            &&& g.full_bw_reached == (f.full_bw_reached || third || lost)
            &&& g.full_bw_now == (f.full_bw_now || third || lost)
            &&& g.full_bw_count == (if looks && grown {
                0
            } else if looks {
                f.full_bw_count + 1
            } else {
                f.full_bw_count as int
            })
            &&& g.full_bw == (if looks && grown {
                r.delivery_rate
            } else {
                f.full_bw
            })
            &&& g.inflight_longterm == (if lost {
                max(max(f.bdp as int, f.inflight_latest as int), r.delivered as int)
            } else {
                f.inflight_longterm as int
            })
            &&& g.loss_events_in_round == (if f.loss_round_start {
                0
            } else {
                f.loss_events_in_round
            })
            &&& g.last_lost_packet == (if f.loss_round_start {
                None
            } else {
                f.last_lost_packet
            })
            &&& if f.state == BbrState::Startup && g.full_bw_reached {
                g.state == BbrState::Drain && g.pacing_gain == f.drain_pacing_gain && g.cwnd_gain
                    == f.default_cwnd_gain && g.drain_start_round == f.round_count
            } else {
                g.state == f.state && g.pacing_gain == f.pacing_gain && g.cwnd_gain == f.cwnd_gain
                    && g.drain_start_round == f.drain_start_round
            }
        }),
{
    let h = f.after_check_full_bw_reached();
    crate::laws::frames::law_full_pipe_changes(f);
    assert(h.full_bw_count == (if !f.full_bw_now && f.round_start && !f.rs->0.is_app_limited {
        if f.full_bw.product(Double::of_ratio(125, 100)).at_most(f.rs->0.delivery_rate) {
            0
        } else {
            f.full_bw_count + 1
        }
    } else {
        f.full_bw_count as int
    })) by {
        reveal(Flow::after_check_full_bw_reached);
    }
    reveal(Flow::after_check_full_bw_reached);
    reveal(Flow::after_check_startup_done);
}

/// Draining gives way to a downward probe when no more is in flight than the path holds, or
/// after more than three round trips; other states are left alone.
pub proof fn law_drain_gives_way(f: Flow, now: Instant)
    ensures
        ({
            let g = f.after_check_drain_done(now);
            if f.state != BbrState::Drain {
                g == f
            } else if f.inflight <= f.unit_target() || f.round_count > f.drain_start_round + 3 {
                &&& g.state == BbrState::ProbeBw(ProbeBwSubstate::Down)
                &&& g.pacing_gain == f.probe_bw_down_pacing_gain
                &&& g.cwnd_gain == f.default_cwnd_gain
                &&& g.cycle_stamp == Some(now)
                &&& g.ack_phase == AckPhase::ProbeStopping
                &&& g.probe_up_cnt == u64::MAX
                &&& !g.loss_in_round
                &&& g.rounds_since_bw_probe <= 1
                &&& g.bdp == f.noted_bdp(f.max_bw)
                &&& g.offload_budget == f.offload_volume()
                &&& g.bw_latest.bits == 0
                &&& g.inflight_latest == 0
                &&& g.begins_round_after(f)
                &&& g.rounds_since_bw_probe == f.after_pick_probe_wait().rounds_since_bw_probe
                &&& g.bw_probe_wait == f.after_pick_probe_wait().bw_probe_wait
            } else {
                &&& g == (Flow { bdp: g.bdp, offload_budget: g.offload_budget, ..f })
                &&& g.bdp == f.noted_bdp(f.max_bw)
                &&& g.offload_budget == f.offload_volume()
            }
        }),
{
    reveal(Flow::after_check_drain_done);
    crate::laws::estimates::law_path_volume(f, f.max_bw, Double::of(1));
    crate::laws::estimates::law_offload(f);
    if f.state == BbrState::Drain {
        crate::laws::estimates::law_unit_target(f);
    }
}

/// The smallest round-trip time of the probing interval follows the sample downwards, and
/// upwards where it is out of date; the minimum follows that in the same way.
pub proof fn law_round_trip_times(f: Flow, now: Instant)
    requires
        f.rs is Some,
    ensures
        ({
            let rtt = f.rs->0.rtt;
            let g = f.after_update_min_rtt(now);
            let taken = rtt.nanos < f.probe_rtt_min_delay.nanos || f.measurement_due(now);
            let delay = if taken {
                rtt
            } else {
                f.probe_rtt_min_delay
            };
            let stamp = if taken {
                Some(now)
            } else {
                f.probe_rtt_min_stamp
            };
            let follows = delay.nanos < f.min_rtt.nanos || f.min_rtt_old(now);
            &&& g.probe_rtt_expired == f.measurement_due(now)
            &&& g.probe_rtt_min_delay == delay
            &&& g.probe_rtt_min_stamp == stamp
            &&& g.min_rtt == (if follows {
                delay
            } else {
                f.min_rtt
            })
            &&& g.min_rtt_stamp == (if follows {
                stamp
            } else {
                f.min_rtt_stamp
            })
        }),
{
    reveal(Flow::after_update_min_rtt);
    assert(Duration::of_secs(10) == Duration { nanos: 10_000_000_000 });
}

/// A flow that delivers is no longer restarting from idle.
pub proof fn law_restart_is_over(f: Flow, now: Instant)
    ensures
        f.after_check_probe_rtt(now).idle_restart == (f.idle_restart && !(f.rs matches Some(rs)
            && rs.delivered > 0)),
{
    reveal(Flow::after_check_probe_rtt);
    reveal(Flow::after_note_delivery);
    reveal(Flow::after_arm_probe_rtt);
    reveal(Flow::after_wait_probe_rtt);
    reveal(Flow::after_check_probe_rtt_done);
    reveal(Flow::after_begin_probe_rtt);
}

/// A measurement begins when it is due, unless the flow restarts from idle; it remembers the
/// window. Otherwise nothing changes.
pub proof fn law_measurement_is_begun(f: Flow, now: Instant)
    requires
        f.state != BbrState::ProbeRtt,
    ensures
        ({
            let g = f.after_check_probe_rtt(now);
            if f.probe_rtt_expired && !f.idle_restart {
                g == (Flow {
                    idle_restart: g.idle_restart,
                    state: BbrState::ProbeRtt,
                    pacing_gain: f.default_pacing_gain,
                    cwnd_gain: f.probe_rtt_cwnd_gain,
                    prior_cwnd: if f.cwnd >= f.prior_cwnd {
                        f.cwnd
                    } else {
                        f.prior_cwnd
                    },
                    probe_rtt_done_stamp: None,
                    ack_phase: AckPhase::ProbeStopping,
                    next_round_delivered: f.delivered,
                    is_cwnd_limited: false,
                    ..f
                })
            } else {
                g == (Flow { idle_restart: g.idle_restart, ..f })
            }
        }),
{
    reveal(Flow::after_check_probe_rtt);
    reveal(Flow::after_note_delivery);
    crate::laws::moves::law_measurement_begins(f);
}

/// The time of a measurement begins to run, with a round trip, once no more is in flight than
/// the share of the path that the measurement holds, or the smallest window.
pub proof fn law_measurement_is_armed(f: Flow, now: Instant)
    requires
        f.state == BbrState::ProbeRtt,
        f.probe_rtt_done_stamp is None,
    ensures
        ({
            let g = f.after_check_probe_rtt(now);
            let low = f.inflight <= max(
                f.path_volume(f.bw, f.probe_rtt_cwnd_gain),
                f.min_pipe_cwnd as int,
            );
            &&& g.bdp == f.noted_bdp(f.bw)
            &&& if low {
                g == (Flow {
                    idle_restart: g.idle_restart,
                    bdp: g.bdp,
                    probe_rtt_done_stamp: Some(now.moved_by(f.probe_rtt_duration)),
                    probe_rtt_round_done: false,
                    next_round_delivered: f.delivered,
                    is_cwnd_limited: false,
                    ..f
                })
            } else {
                g == (Flow { idle_restart: g.idle_restart, bdp: g.bdp, ..f })
            }
        }),
{
    reveal(Flow::after_check_probe_rtt);
    reveal(Flow::after_note_delivery);
    reveal(Flow::after_arm_probe_rtt);
    crate::laws::estimates::law_path_volume(f, f.bw, f.probe_rtt_cwnd_gain);
}

/// A measurement whose time runs ends after its time and a round trip: the window comes back,
/// the short-term bounds are lifted, and the flow cruises where the pipe has been full and
/// goes back to startup otherwise. Until then it goes on.
pub proof fn law_measurement_is_ended(f: Flow, now: Instant)
    requires
        f.state == BbrState::ProbeRtt,
        f.probe_rtt_done_stamp is Some,
    ensures
        ({
            let g = f.after_check_probe_rtt(now);
            let round = f.round_start || f.probe_rtt_round_done;
            if round && now.nanos > f.probe_rtt_done_stamp->0.nanos {
                &&& g.cwnd == max(f.cwnd as int, f.prior_cwnd as int)
                &&& g.probe_rtt_min_stamp == Some(now)
                &&& g.bw_shortterm.bits == 0x7FF0_0000_0000_0000
                &&& g.inflight_shortterm == u64::MAX
                &&& g.state == (if f.full_bw_reached {
                    BbrState::ProbeBw(ProbeBwSubstate::Cruise)
                } else {
                    BbrState::Startup
                })
                &&& g.pacing_gain == (if f.full_bw_reached {
                    f.default_pacing_gain
                } else {
                    f.startup_pacing_gain
                })
                &&& g.cwnd_gain == f.default_cwnd_gain
                &&& f.full_bw_reached ==> g.cycle_stamp == Some(now)
            } else {
                g == (Flow {
                    idle_restart: g.idle_restart,
                    probe_rtt_round_done: round,
                    ..f
                })
            }
        }),
{
    reveal(Flow::after_check_probe_rtt);
    reveal(Flow::after_note_delivery);
    reveal(Flow::after_wait_probe_rtt);
    let waited = Flow { probe_rtt_round_done: f.round_start || f.probe_rtt_round_done, ..f };
    if now.nanos > f.probe_rtt_done_stamp->0.nanos {
        crate::laws::moves::law_measurement_ends(waited, now);
    } else {
        crate::laws::moves::law_measurement_goes_on(waited, now);
    }
}

/// The permitted bandwidth is the smaller of the largest and the short-term one. A loss round
/// begins the latest deliveries anew.
pub proof fn law_permitted_bandwidth_follows(f: Flow)
    ensures
        ({
            let g = f.after_advance_latest_delivery_signals().after_bound_bw_for_model();
            &&& g.bw == f.max_bw.smaller(f.bw_shortterm)
            &&& match f.rs {
                Some(rs) => if f.loss_round_start {
                    g.bw_latest == rs.delivery_rate && g.inflight_latest == rs.delivered
                } else {
                    g.bw_latest == f.bw_latest && g.inflight_latest == f.inflight_latest
                },
                None => g.bw_latest == f.bw_latest && g.inflight_latest == f.inflight_latest,
            }
            &&& g == (Flow {
                bw: g.bw,
                bw_latest: g.bw_latest,
                inflight_latest: g.inflight_latest,
                ..f
            })
        }),
{
}

/// The pacing rate is the permitted bandwidth times the gain, less the margin; until the pipe
/// has been full it only grows. The burst follows the pacing rate.
pub proof fn law_rate_and_burst(f: Flow)
    ensures
        ({
            let g = f.after_update_control_parameters();
            let hundred = Double::of(100);
            let rate = f.pacing_gain.product(f.bw).product(
                hundred.difference(f.pacing_margin_percent),
            ).quotient(hundred);
            &&& g.pacing_rate == (if f.full_bw_reached || f.pacing_rate.less(rate) {
                rate
            } else {
                f.pacing_rate
            })
            &&& g.send_quantum == min(
                if g.pacing_rate.less(Double::of(150_000)) {
                    65_527
                } else if g.pacing_rate.less(Double::of(3_000_000)) {
                    131_054
                } else {
                    g.pacing_rate.quotient(Double::of(1000)).truncated() as int
                },
                64_000,
            )
        }),
{
    reveal(Flow::after_update_control_parameters);
}

/// The window grows with what is acknowledged, up to what the path needs once the pipe has
/// been full, and is held by the bounds of the model.
pub proof fn law_window_follows_model(f: Flow)
    requires
        f.set_cwnd_fits(),
        f.rs is Some,
    ensures
        ({
            let g = f.after_set_cwnd();
            let acked = f.rs->0.newly_acked;
            let need = f.quantized_volume(f.path_volume(f.max_bw, f.cwnd_gain) + f.extra_acked);
            let open = if f.full_bw_reached {
                min(f.cwnd + acked, need)
            } else if f.cwnd < need || f.delivered < f.initial_cwnd {
                f.cwnd + acked
            } else {
                f.cwnd as int
            };
            let busy = max(open, f.min_pipe_cwnd as int);
            let held = if f.state == BbrState::ProbeRtt {
                min(
                    busy,
                    max(
                        f.path_volume(f.bw, f.probe_rtt_cwnd_gain),
                        f.min_pipe_cwnd as int,
                    ),
                )
            } else {
                busy
            };
            let long = match f.state {
                BbrState::ProbeRtt => f.headroom_volume(),
                BbrState::ProbeBw(ProbeBwSubstate::Cruise) => f.headroom_volume(),
                BbrState::ProbeBw(_) => f.inflight_longterm as int,
                _ => u64::MAX as int,
            };
            &&& g.max_inflight == need
            &&& g.offload_budget == f.offload_volume()
            &&& g.bdp == (if f.state == BbrState::ProbeRtt {
                f.noted_bdp(f.bw)
            } else {
                f.noted_bdp(f.max_bw)
            })
            &&& g.cwnd == min(
                held,
                max(min(long, f.inflight_shortterm as int), f.min_pipe_cwnd as int),
            )
        }),
{
    crate::laws::estimates::law_path_volume(f, f.max_bw, f.cwnd_gain);
    crate::laws::estimates::law_offload(f);
    let sized = f.after_update_max_inflight();
    let grown = sized.after_grow_cwnd();
    crate::laws::estimates::law_path_volume(grown, f.bw, f.probe_rtt_cwnd_gain);
    let held = grown.after_bound_cwnd_for_probe_rtt();
    crate::laws::estimates::law_headroom(held);
}

proof fn lemma_window_leaves_rates(f: Flow)
    ensures
        f.after_set_cwnd().pacing_rate == f.pacing_rate,
        f.after_set_cwnd().send_quantum == f.send_quantum,
{
}

/// The window of an acknowledgement is set from the model and the burst that it comes to.
pub proof fn law_control_sets_window(f: Flow)
    ensures
        ({
            let g = f.after_update_control_parameters();
            let paced = Flow { pacing_rate: g.pacing_rate, send_quantum: g.send_quantum, ..f };
            g == paced.after_set_cwnd() && (f.control_fits() ==> paced.set_cwnd_fits())
        }),
{
    reveal(Flow::after_update_control_parameters);
    reveal(Flow::control_fits);
    let first = f.after_set_pacing_rate();
    let second = first.after_set_send_quantum();
    lemma_window_leaves_rates(second);
    let g = f.after_update_control_parameters();
    assert(second == (Flow { pacing_rate: g.pacing_rate, send_quantum: g.send_quantum, ..f }));
}

} // verus!
