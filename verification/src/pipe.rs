//! When the pipe is full.
use crate::flow::Flow;
use crate::params::{full_bw_growth, larger_of, MAX_FULL_BW_COUNT, STARTUP_FULL_LOSS_CNT};
use vstd::prelude::*;

verus! {

impl Flow {
    /// The sampled rate has grown enough for the pipe not to be full.
    pub open spec fn still_growing(self) -> bool {
        self.rs matches Some(rs) && self.full_bw.product(full_bw_growth()).at_most(rs.delivery_rate)
    }

    pub open spec fn app_limited_sample(self) -> bool {
        self.rs matches Some(rs) && rs.is_app_limited
    }

    /// A round trip that the application did not limit either shows growth, or
    /// counts towards a full pipe.
    #[verifier::opaque]
    pub open spec fn after_check_full_bw_reached(self) -> Flow {
        if self.full_bw_now || !self.round_start || self.app_limited_sample() {
            self
        } else if self.still_growing() {
            self.after_rebase_full_bw()
        } else {
            let full = self.full_bw_count + 1 >= MAX_FULL_BW_COUNT;
            Flow {
                full_bw_count: (self.full_bw_count + 1) as u64,
                full_bw_now: full,
                full_bw_reached: full || self.full_bw_reached,
                ..self
            }
        }
    }

    fn has_grown(&self) -> (b: bool)
        ensures
            b == self.still_growing(),
    {
        match self.rs {
            Some(rs) => self.full_bw.times(full_bw_growth()).is_at_most(rs.delivery_rate),
            None => false,
        }
    }

    fn has_app_limited_sample(&self) -> (b: bool)
        ensures
            b == self.app_limited_sample(),
    {
        match self.rs {
            Some(rs) => rs.is_app_limited,
            None => false,
        }
    }

    pub fn check_full_bw_reached(&mut self)
        requires
            old(self).wf(),
        ensures
            *final(self) == old(self).after_check_full_bw_reached(),
            final(self).wf(),
            final(self).round_count == old(self).round_count,
    {
        proof {
            reveal(Flow::after_check_full_bw_reached);
        }
        if !self.full_bw_now && self.round_start && !self.has_app_limited_sample() {
            if self.has_grown() {
                self.rebase_full_bw();
            } else {
                let count: u64 = self.full_bw_count + 1;
                let full: bool = count >= MAX_FULL_BW_COUNT;
                *self =
                Flow {
                    full_bw_count: count,
                    full_bw_now: full,
                    full_bw_reached: full || self.full_bw_reached,
                    ..*self
                };
            }
        }
    }

    /// A round trip of startup lost too much, in too many pieces.
    pub open spec fn startup_loss_too_high(self) -> bool {
        self.loss_round_start && self.loss_events_in_round >= STARTUP_FULL_LOSS_CNT
            && self.inflight_too_high()
    }

    /// The long-term bound that such a round trip leaves behind.
    pub open spec fn startup_loss_bound(self) -> u64 {
        let known = larger_of(self.bdp, self.inflight_latest);
        match self.rs {
            Some(rs) => larger_of(known, rs.delivered),
            None => known,
        }
    }

    /// With each loss round the losses are counted anew.
    pub open spec fn after_reset_loss_events(self) -> Flow {
        if self.loss_round_start {
            Flow { loss_events_in_round: 0, last_lost_packet: None, ..self }
        } else {
            self
        }
    }

    pub fn reset_loss_events(&mut self)
        ensures
            *final(self) == old(self).after_reset_loss_events(),
    {
        if self.loss_round_start {
            *self = Flow { loss_events_in_round: 0, last_lost_packet: None, ..*self };
        }
    }

    /// A round trip with too much loss counts as a full pipe.
    pub open spec fn after_judge_startup_loss(self) -> Flow {
        if !self.full_bw_reached && self.startup_loss_too_high() {
            Flow {
                inflight_longterm: self.startup_loss_bound(),
                full_bw_reached: true,
                full_bw_now: true,
                ..self
            }
        } else {
            self
        }
    }

    fn judge_startup_loss(&mut self)
        ensures
            *final(self) == old(self).after_judge_startup_loss(),
    {
        let high: bool = !self.full_bw_reached && self.loss_round_start && self.loss_events_in_round
            >= STARTUP_FULL_LOSS_CNT && self.is_inflight_too_high();
        if high {
            let known: u64 = larger_of(self.bdp, self.inflight_latest);
            let bound: u64 = match self.rs {
                Some(rs) => larger_of(known, rs.delivered),
                None => known,
            };
            *self =
            Flow {
                inflight_longterm: bound,
                full_bw_reached: true,
                full_bw_now: true,
                ..*self
            };
        }
    }

    /// Until the pipe has been full, a round trip with too much loss counts as a
    /// full pipe. With each loss round the losses are counted anew.
    pub open spec fn after_check_startup_high_loss(self) -> Flow {
        self.after_judge_startup_loss().after_reset_loss_events()
    }

    pub fn check_startup_high_loss(&mut self)
        ensures
            *final(self) == old(self).after_check_startup_high_loss(),
            old(self).wf() ==> final(self).wf(),
    {
        self.judge_startup_loss();
        self.reset_loss_events();
    }
}

} // verus!
