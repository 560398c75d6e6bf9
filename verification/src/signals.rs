//! What rate samples and losses tell about the path.
use crate::double::Double;
use crate::flow::{BbrState, Flow, ProbeBwSubstate};
use crate::packet::BbrPacket;
use crate::params::{beta, larger_of};
use vstd::prelude::*;

verus! {

impl Flow {
    /// The search for a full pipe begins anew.
    pub open spec fn after_reset_full_bw(self) -> Flow {
        Flow { full_bw: Double::positive_zero(), full_bw_count: 0, full_bw_now: false, ..self }
    }

    pub fn reset_full_bw(&mut self)
        ensures
            *final(self) == old(self).after_reset_full_bw(),
    {
        *self =
        Flow { full_bw: Double::positive_zero(), full_bw_count: 0, full_bw_now: false, ..*self };
    }

    /// The search for a full pipe begins anew, from the current delivery rate.
    pub open spec fn after_rebase_full_bw(self) -> Flow {
        Flow {
            full_bw: match self.rs {
                Some(rs) => rs.delivery_rate,
                None => Double::positive_zero(),
            },
            ..self.after_reset_full_bw()
        }
    }

    pub fn rebase_full_bw(&mut self)
        ensures
            *final(self) == old(self).after_rebase_full_bw(),
    {
        let rate: Double = match self.rs {
            Some(rs) => rs.delivery_rate,
            None => Double::positive_zero(),
        };
        *self = Flow { full_bw: rate, full_bw_count: 0, full_bw_now: false, ..*self };
    }

    /// What a spurious loss would have to restore is remembered.
    pub open spec fn after_save_state_upon_loss(self) -> Flow {
        Flow {
            undo_state: self.state,
            undo_bw_shortterm: self.bw_shortterm,
            undo_inflight_shortterm: self.inflight_shortterm,
            undo_inflight_longterm: self.inflight_longterm,
            ..self
        }
    }

    pub fn save_state_upon_loss(&mut self)
        ensures
            *final(self) == old(self).after_save_state_upon_loss(),
    {
        *self =
        Flow {
            undo_state: self.state,
            undo_bw_shortterm: self.bw_shortterm,
            undo_inflight_shortterm: self.inflight_shortterm,
            undo_inflight_longterm: self.inflight_longterm,
            ..*self
        };
    }

    /// Packet `pn` directly follows the last one lost in the loss round.
    pub open spec fn continues_loss(self, pn: u64) -> bool {
        self.last_lost_packet matches Some(last) && last + 1 == pn
    }

    /// Packet `pn` is lost; the first loss of a round trip begins a loss round. Packets
    /// that are lost one directly after another are one loss event.
    pub open spec fn after_note_loss(self, pn: u64) -> Flow {
        Flow {
            loss_round_delivered: if self.loss_in_round {
                self.loss_round_delivered
            } else {
                self.delivered
            },
            loss_in_round: true,
            loss_events_in_round: if self.continues_loss(pn) || self.loss_events_in_round
                == u64::MAX {
                self.loss_events_in_round
            } else {
                (self.loss_events_in_round + 1) as u64
            },
            last_lost_packet: Some(pn),
            ..self.after_save_state_upon_loss()
        }
    }

    pub fn note_loss(&mut self, pn: u64)
        ensures
            *final(self) == old(self).after_note_loss(pn),
    {
        self.save_state_upon_loss();
        let round_delivered: u64 = if self.loss_in_round {
            self.loss_round_delivered
        } else {
            self.delivered
        };
        let continues: bool = match self.last_lost_packet {
            Some(last) => last < pn && pn - last == 1,
            None => false,
        };
        let events: u64 = if continues {
            self.loss_events_in_round
        } else {
            self.loss_events_in_round.saturating_add(1)
        };
        *self =
        Flow {
            loss_round_delivered: round_delivered,
            loss_in_round: true,
            loss_events_in_round: events,
            last_lost_packet: Some(pn),
            ..*self
        };
    }

    pub open spec fn after_reset_congestion_signals(self) -> Flow {
        Flow { loss_in_round: false, bw_latest: Double::positive_zero(), inflight_latest: 0, ..self }
    }

    pub fn reset_congestion_signals(&mut self)
        ensures
            *final(self) == old(self).after_reset_congestion_signals(),
    {
        *self =
        Flow {
            loss_in_round: false,
            bw_latest: Double::positive_zero(),
            inflight_latest: 0,
            ..*self
        };
    }

    /// A round trip begins: it ends when what is now delivered is left behind.
    pub open spec fn after_start_round(self) -> Flow {
        Flow { next_round_delivered: self.delivered, is_cwnd_limited: false, ..self }
    }

    pub fn start_round(&mut self)
        ensures
            *final(self) == old(self).after_start_round(),
    {
        *self = Flow { next_round_delivered: self.delivered, is_cwnd_limited: false, ..*self };
    }

    pub open spec fn ends_round(self, packet: BbrPacket) -> bool {
        packet.delivered >= self.next_round_delivered
    }

    pub open spec fn update_round_fits(self, packet: BbrPacket) -> bool {
        self.ends_round(packet) ==> self.round_count < u64::MAX && self.rounds_since_bw_probe
            < u64::MAX
    }

    /// A packet that was sent after the round trip began ends it.
    #[verifier::opaque]
    pub open spec fn after_update_round(self, packet: BbrPacket) -> Flow {
        if self.ends_round(packet) {
            Flow {
                round_count: (self.round_count + 1) as u64,
                rounds_since_bw_probe: (self.rounds_since_bw_probe + 1) as u64,
                round_start: true,
                ..self.after_start_round()
            }
        } else {
            Flow { round_start: false, ..self }
        }
    }

    pub fn update_round(&mut self, packet: BbrPacket)
        requires
            old(self).update_round_fits(packet),
        ensures
            *final(self) == old(self).after_update_round(packet),
            old(self).wf() ==> final(self).wf(),
            old(self).round_count <= final(self).round_count <= old(self).round_count + 1,
    {
        proof {
            reveal(Flow::after_update_round);
        }
        if packet.delivered >= self.next_round_delivered {
            self.start_round();
            *self =
            Flow {
                round_count: self.round_count + 1,
                rounds_since_bw_probe: self.rounds_since_bw_probe + 1,
                round_start: true,
                ..*self
            };
        } else {
            *self = Flow { round_start: false, ..*self };
        }
    }

    /// The largest rate and volume of the round trip are kept up to date, and a
    /// loss round ends with the first packet that was sent after it began.
    #[verifier::opaque]
    pub open spec fn after_update_latest_delivery_signals(self) -> Flow {
        match self.rs {
            Some(rs) => {
                let ends = rs.prior_delivered >= self.loss_round_delivered;
                Flow {
                    bw_latest: self.bw_latest.larger(rs.delivery_rate),
                    inflight_latest: larger_of(self.inflight_latest, rs.delivered),
                    loss_round_delivered: if ends {
                        self.delivered
                    } else {
                        self.loss_round_delivered
                    },
                    loss_round_start: ends,
                    ..self
                }
            },
            None => Flow { loss_round_start: false, ..self },
        }
    }

    pub fn update_latest_delivery_signals(&mut self)
        ensures
            *final(self) == old(self).after_update_latest_delivery_signals(),
            old(self).wf() ==> final(self).wf(),
            final(self).round_count == old(self).round_count,
    {
        proof {
            reveal(Flow::after_update_latest_delivery_signals);
        }
        match self.rs {
            Some(rs) => {
                let ends: bool = rs.prior_delivered >= self.loss_round_delivered;
                let round_delivered: u64 = if ends {
                    self.delivered
                } else {
                    self.loss_round_delivered
                };
                *self =
                Flow {
                    bw_latest: self.bw_latest.max_with(rs.delivery_rate),
                    inflight_latest: larger_of(self.inflight_latest, rs.delivered),
                    loss_round_delivered: round_delivered,
                    loss_round_start: ends,
                    ..*self
                };
            },
            None => {
                *self = Flow { loss_round_start: false, ..*self };
            },
        }
    }

    /// With a loss round the largest rate and volume begin anew.
    pub open spec fn after_advance_latest_delivery_signals(self) -> Flow {
        match self.rs {
            Some(rs) => if self.loss_round_start {
                Flow { bw_latest: rs.delivery_rate, inflight_latest: rs.delivered, ..self }
            } else {
                self
            },
            None => self,
        }
    }

    pub fn advance_latest_delivery_signals(&mut self)
        ensures
            *final(self) == old(self).after_advance_latest_delivery_signals(),
            old(self).wf() ==> final(self).wf(),
            final(self).round_count == old(self).round_count,
    {
        if self.loss_round_start {
            if let Some(rs) = self.rs {
                *self =
                Flow { bw_latest: rs.delivery_rate, inflight_latest: rs.delivered, ..*self };
            }
        }
    }

    /// The short-term model places no bound.
    pub open spec fn after_reset_short_term_model(self) -> Flow {
        Flow {
            bw_shortterm: Double::positive_infinity(),
            inflight_shortterm: u64::MAX,
            ..self
        }
    }

    pub fn reset_short_term_model(&mut self)
        ensures
            *final(self) == old(self).after_reset_short_term_model(),
    {
        *self =
        Flow {
            bw_shortterm: Double::positive_infinity(),
            inflight_shortterm: u64::MAX,
            ..*self
        };
    }

    /// A short-term model without a bound takes the current bandwidth and window.
    pub open spec fn after_init_lower_bounds(self) -> Flow {
        Flow {
            bw_shortterm: if self.bw_shortterm == Double::positive_infinity() {
                self.max_bw
            } else {
                self.bw_shortterm
            },
            inflight_shortterm: if self.inflight_shortterm == u64::MAX {
                self.cwnd
            } else {
                self.inflight_shortterm
            },
            ..self
        }
    }

    pub fn init_lower_bounds(&mut self)
        ensures
            *final(self) == old(self).after_init_lower_bounds(),
    {
        let bw: Double = if self.bw_shortterm == Double::positive_infinity() {
            self.max_bw
        } else {
            self.bw_shortterm
        };
        let inflight: u64 = if self.inflight_shortterm == u64::MAX {
            self.cwnd
        } else {
            self.inflight_shortterm
        };
        *self = Flow { bw_shortterm: bw, inflight_shortterm: inflight, ..*self };
    }

    /// The short-term bounds shrink, though not below what was just delivered.
    pub open spec fn after_loss_lower_bounds(self) -> Flow {
        Flow {
            bw_shortterm: self.bw_latest.larger(beta().product(self.bw_shortterm)),
            inflight_shortterm: larger_of(
                self.inflight_latest,
                beta().product(Double::of(self.inflight_shortterm as nat)).truncated(),
            ),
            ..self
        }
    }

    pub fn loss_lower_bounds(&mut self)
        ensures
            *final(self) == old(self).after_loss_lower_bounds(),
    {
        let share: u64 = beta().times(Double::from_u64(self.inflight_shortterm)).to_u64();
        *self =
        Flow {
            bw_shortterm: self.bw_latest.max_with(beta().times(self.bw_shortterm)),
            inflight_shortterm: larger_of(self.inflight_latest, share),
            ..*self
        };
    }

    /// A flow that is not probing for more answers to loss.
    pub open spec fn answers_loss(self) -> bool {
        match self.state {
            BbrState::Startup => false,
            BbrState::ProbeBw(ProbeBwSubstate::Refill) => false,
            BbrState::ProbeBw(ProbeBwSubstate::Up) => false,
            _ => self.loss_in_round,
        }
    }

    pub open spec fn after_adapt_lower_bounds_from_congestion(self) -> Flow {
        if self.answers_loss() {
            self.after_init_lower_bounds().after_loss_lower_bounds()
        } else {
            self
        }
    }

    pub fn adapt_lower_bounds_from_congestion(&mut self)
        ensures
            *final(self) == old(self).after_adapt_lower_bounds_from_congestion(),
    {
        match self.state {
            BbrState::Startup => {},
            BbrState::ProbeBw(ProbeBwSubstate::Refill) => {},
            BbrState::ProbeBw(ProbeBwSubstate::Up) => {},
            _ => {
                if self.loss_in_round {
                    self.init_lower_bounds();
                    self.loss_lower_bounds();
                }
            },
        }
    }

    /// At the end of a loss round the short-term model answers its losses.
    #[verifier::opaque]
    pub open spec fn after_close_loss_round(self) -> Flow {
        if self.loss_round_start {
            Flow { loss_in_round: false, ..self.after_adapt_lower_bounds_from_congestion() }
        } else {
            self
        }
    }

    pub fn close_loss_round(&mut self)
        ensures
            *final(self) == old(self).after_close_loss_round(),
            old(self).wf() ==> final(self).wf(),
            final(self).round_count == old(self).round_count,
    {
        proof {
            reveal(Flow::after_close_loss_round);
        }
        if !self.loss_round_start {
            return;
        }
        self.adapt_lower_bounds_from_congestion();
        *self = Flow { loss_in_round: false, ..*self };
    }

    /// The sample that the bandwidth filter takes: a positive rate, unless the
    /// application limited the flow below the bandwidth that is known already.
    pub open spec fn bandwidth_sample(self) -> Option<u64> {
        match self.rs {
            Some(rs) => if Double::positive_zero().less(rs.delivery_rate) && (self.max_bw.at_most(
                rs.delivery_rate,
            ) || !rs.is_app_limited) {
                Some(rs.delivery_rate.nearest_integer())
            } else {
                None
            },
            None => None,
        }
    }

    pub fn bandwidth_to_record(&self) -> (sample: Option<u64>)
        ensures
            sample == self.bandwidth_sample(),
    {
        match self.rs {
            Some(rs) => {
                if Double::positive_zero().is_less(rs.delivery_rate) && (self.max_bw.is_at_most(
                    rs.delivery_rate,
                ) || !rs.is_app_limited) {
                    Some(rs.delivery_rate.round_to_u64())
                } else {
                    None
                }
            },
            None => None,
        }
    }

    /// The bandwidth that the model permits is the smaller of the long-term and the
    /// short-term one.
    pub open spec fn after_bound_bw_for_model(self) -> Flow {
        Flow { bw: self.max_bw.smaller(self.bw_shortterm), ..self }
    }

    pub fn bound_bw_for_model(&mut self)
        ensures
            *final(self) == old(self).after_bound_bw_for_model(),
            old(self).wf() ==> final(self).wf(),
            final(self).round_count == old(self).round_count,
    {
        *self = Flow { bw: self.max_bw.min_with(self.bw_shortterm), ..*self };
    }
}

} // verus!
