//! The volumes in flight, from the bandwidth and the round-trip time.
use crate::double::Double;
use crate::flow::{BbrState, Flow, ProbeBwSubstate};
use vstd::math::*;
use vstd::prelude::*;

verus! {

impl Flow {
    /// `gain` times the product of `bw` and the minimum round-trip time, rounded to bytes; the
    /// initial window before any round-trip time was measured.
    pub open spec fn path_volume(self, bw: Double, gain: Double) -> int {
        if self.min_rtt.nanos == u64::MAX * 1_000_000_000 {
            self.initial_cwnd as int
        } else {
            gain.product(
                Double::of(bw.product(self.min_rtt.seconds()).nearest_integer() as nat),
            ).truncated() as int
        }
    }

    /// The bandwidth-delay product that is noted with it.
    pub open spec fn noted_bdp(self, bw: Double) -> int {
        if self.min_rtt.nanos == u64::MAX * 1_000_000_000 {
            self.bdp as int
        } else {
            bw.product(self.min_rtt.seconds()).nearest_integer() as int
        }
    }

    /// A burst, and what arrives before the peer has to acknowledge: as many packets as the
    /// peer may leave unacknowledged, or what arrives in its delay, whichever is less.
    pub open spec fn offload_volume(self) -> int {
        min(
            self.send_quantum + min(
                self.ack_eliciting_threshold * self.smss,
                self.max_ack_delay.seconds().product(self.max_bw).nearest_integer() as int,
            ),
            u64::MAX as int,
        )
    }

    /// `cap` raised to what offloads and a busy pipe need; an upward probe adds two packets.
    pub open spec fn quantized_volume(self, cap: int) -> int {
        max(max(cap, self.offload_volume()), self.min_pipe_cwnd as int) + (if self.state
            == BbrState::ProbeBw(ProbeBwSubstate::Up) {
            2 * self.smss
        } else {
            0
        })
    }

    /// What the path holds at the largest bandwidth.
    pub open spec fn unit_target(self) -> int {
        self.quantized_volume(self.path_volume(self.max_bw, Double::of(1)))
    }

    /// The long-term bound less fifteen hundredths, at least one packet less, though not below
    /// the smallest window; no bound where there is none.
    pub open spec fn headroom_volume(self) -> int {
        if self.inflight_longterm == u64::MAX {
            u64::MAX as int
        } else {
            max(
                self.inflight_longterm - max(
                    self.smss as int,
                    Double::of_ratio(15, 100).product(
                        Double::of(self.inflight_longterm as nat),
                    ).truncated() as int,
                ),
                self.min_pipe_cwnd as int,
            )
        }
    }
}

/// The volume of the path is `gain` times the rounded product of `bw` and the minimum
/// round-trip time; the initial window before any was measured. The product is noted.
pub proof fn law_path_volume(f: Flow, bw: Double, gain: Double)
    ensures
        f.bdp_multiple_for(bw, gain) == f.path_volume(bw, gain),
        f.bdp_for(bw) == f.noted_bdp(bw),
        f.min_rtt.nanos == u64::MAX * 1_000_000_000 ==> f.bdp_multiple_for(bw, gain)
            == f.initial_cwnd && f.bdp_for(bw) == f.bdp,
        f.min_rtt.nanos != u64::MAX * 1_000_000_000 ==> {
            &&& f.bdp_for(bw) == bw.product(f.min_rtt.seconds()).nearest_integer()
            &&& f.bdp_multiple_for(bw, gain) == gain.product(
                Double::of(bw.product(f.min_rtt.seconds()).nearest_integer() as nat),
            ).truncated()
        },
{
    assert(crate::time::Duration::of_secs(u64::MAX).nanos == u64::MAX * 1_000_000_000);
}

/// The offload budget holds a burst and, beyond it, the lesser of the packets that the peer
/// may leave unacknowledged and of what arrives in its delay.
pub proof fn law_offload(f: Flow)
    ensures
        f.offload_need() == f.offload_volume(),
        ({
            let packets = f.ack_eliciting_threshold * f.smss;
            let delayed = f.max_ack_delay.seconds().product(f.max_bw).nearest_integer();
            let beyond = f.offload_need() - f.send_quantum;
            &&& beyond >= 0
            &&& beyond <= packets
            &&& beyond <= delayed
            &&& beyond == packets || beyond == delayed || f.offload_need() == u64::MAX
        }),
{
    assert(f.ack_eliciting_threshold * f.smss >= 0) by (nonlinear_arith);
}

/// The target at a gain of one is what the path holds at the largest bandwidth, or what
/// offloads need, or the smallest window, whichever is the most; an upward probe adds two
/// packets.
pub proof fn law_unit_target(f: Flow)
    requires
        f.inflight_fits(Double::of(1)) || f.state != BbrState::ProbeBw(ProbeBwSubstate::Up),
    ensures
        f.inflight_for(Double::of(1)) == f.unit_target(),
        ({
            let target = f.inflight_for(Double::of(1)) - (if f.state == BbrState::ProbeBw(
                ProbeBwSubstate::Up,
            ) {
                2 * f.smss
            } else {
                0
            });
            let held = f.bdp_multiple_for(f.max_bw, Double::of(1));
            &&& target >= held
            &&& target >= f.offload_need()
            &&& target >= f.min_pipe_cwnd
            &&& target == held || target == f.offload_need() || target == f.min_pipe_cwnd
        }),
{
    law_path_volume(f, f.max_bw, Double::of(1));
    law_offload(f);
}

/// Of the long-term bound fifteen hundredths, and at least one packet, are left to other
/// traffic, as far as the smallest window permits.
pub proof fn law_headroom(f: Flow)
    ensures
        f.headroom_bound() == f.headroom_volume(),
        f.inflight_longterm == u64::MAX ==> f.headroom_bound() == u64::MAX,
        f.inflight_longterm < u64::MAX ==> ({
            let left = f.inflight_longterm - f.headroom_bound();
            let share = Double::of_ratio(15, 100).product(
                Double::of(f.inflight_longterm as nat),
            ).truncated();
            &&& f.headroom_bound() >= f.min_pipe_cwnd
            &&& f.headroom_bound() > f.min_pipe_cwnd ==> left >= share && left >= f.smss && (left
                == share || left == f.smss)
            &&& f.inflight_longterm - share >= f.min_pipe_cwnd && f.inflight_longterm - f.smss
                >= f.min_pipe_cwnd ==> left == share || left == f.smss
        }),
{
}

/// The point of loss is where the tolerated share of what was in flight is lost.
pub proof fn law_loss_point_formula(f: Flow, size: u64)
    requires
        f.rs is Some,
        size <= f.rs->0.tx_in_flight,
        size <= f.rs->0.lost,
    ensures
        ({
            let before = Double::of((f.rs->0.tx_in_flight - size) as nat);
            let lost = Double::of((f.rs->0.lost - size) as nat);
            let tolerated = Double::of_ratio(2, 100);
            f.loss_point(size) == before.sum(
                tolerated.product(before).difference(lost).quotient(
                    Double::of(1).difference(tolerated),
                ),
            ).truncated()
        }),
{
}

} // verus!
