//! How sends, acknowledgements and losses reach the flow.
use crate::double::Double;
use crate::flow::{BbrState, Flow, ProbeBwSubstate};
use crate::packet::{BbrPacket, BbrRateSample};
use crate::params::larger_of;
use crate::time::{Duration, Instant};
use vstd::prelude::*;

verus! {

/// `a` less `b`, at least zero.
pub open spec fn less_down_to_zero(a: u64, b: u64) -> u64 {
    if a >= b {
        (a - b) as u64
    } else {
        0
    }
}

impl Flow {
    /// A packet of `bytes` bytes is in flight; the first one begins a sending
    /// interval.
    pub open spec fn after_send(self, now: Instant, bytes: u16) -> Flow {
        Flow {
            first_send_time: if self.inflight == 0 {
                Some(now)
            } else {
                self.first_send_time
            },
            delivered_time: if self.inflight == 0 {
                Some(now)
            } else {
                self.delivered_time
            },
            inflight: (self.inflight + bytes) as u64,
            ..self
        }
    }

    pub fn note_send(&mut self, now: Instant, bytes: u16)
        requires
            old(self).inflight + bytes <= u64::MAX,
        ensures
            *final(self) == old(self).after_send(now, bytes),
            old(self).wf() ==> final(self).wf(),
            final(self).round_count == old(self).round_count,
    {
        let idle: bool = self.inflight == 0;
        let first_send_time: Option<Instant> = if idle {
            Some(now)
        } else {
            self.first_send_time
        };
        let delivered_time: Option<Instant> = if idle {
            Some(now)
        } else {
            self.delivered_time
        };
        let inflight: u64 = self.inflight + bytes as u64;
        *self = Flow { first_send_time, delivered_time, inflight, ..*self };
    }

    /// What is remembered of packet `pn`, right after it was sent.
    pub open spec fn packet_record(self, now: Instant, bytes: u16, pn: u64) -> BbrPacket {
        BbrPacket {
            delivered: self.delivered,
            delivered_time: match self.delivered_time {
                Some(time) => time,
                None => now,
            },
            first_send_time: match self.first_send_time {
                Some(time) => time,
                None => now,
            },
            send_time: now,
            is_app_limited: self.app_limited != 0,
            tx_in_flight: self.inflight,
            packet_number: pn,
            size: bytes,
            lost: self.lost,
            acknowledged: false,
            stale: false,
            round_count: self.round_count,
        }
    }

    pub fn record_packet(&self, now: Instant, bytes: u16, pn: u64) -> (p: BbrPacket)
        ensures
            p == self.packet_record(now, bytes, pn),
    {
        BbrPacket {
            delivered: self.delivered,
            delivered_time: match self.delivered_time {
                Some(time) => time,
                None => now,
            },
            first_send_time: match self.first_send_time {
                Some(time) => time,
                None => now,
            },
            send_time: now,
            is_app_limited: self.app_limited != 0,
            tx_in_flight: self.inflight,
            packet_number: pn,
            size: bytes,
            lost: self.lost,
            acknowledged: false,
            stale: false,
            round_count: self.round_count,
        }
    }

    /// A flow with nothing in flight that the application limited restarts from
    /// idle.
    pub open spec fn restarts_from_idle(self) -> bool {
        self.inflight == 0 && self.app_limited != 0
    }

    pub open spec fn after_handle_restart_from_idle(self, now: Instant) -> Flow {
        let restarted = Flow {
            idle_restart: true,
            extra_acked_interval_start: Some(now),
            ..self
        };
        if !self.restarts_from_idle() {
            self
        } else {
            match self.state {
                BbrState::ProbeBw(_) => restarted.after_set_pacing_rate_with_gain(Double::of(1)),
                BbrState::ProbeRtt => restarted.after_check_probe_rtt_done(now),
                _ => restarted,
            }
        }
    }

    pub fn handle_restart_from_idle(&mut self, now: Instant)
        ensures
            *final(self) == old(self).after_handle_restart_from_idle(now),
            final(self).inflight == old(self).inflight,
            old(self).wf() ==> final(self).wf(),
            final(self).round_count == old(self).round_count,
    {
        if self.inflight == 0 && self.app_limited != 0 {
            *self =
            Flow { idle_restart: true, extra_acked_interval_start: Some(now), ..*self };
            match self.state {
                BbrState::ProbeBw(_) => {
                    self.set_pacing_rate_with_gain(Double::from_u64(1));
                },
                BbrState::ProbeRtt => {
                    self.check_probe_rtt_done(now);
                },
                _ => {},
            }
        }
    }

    /// No acknowledged packet was sent after the one sent at `send_time` with number
    /// `end_seq`.
    pub open spec fn newest_packet(self, send_time: Instant, end_seq: u64) -> bool {
        self.first_send_time matches Some(first) && (send_time.nanos > first.nanos || (
        self.rs matches Some(rs) && end_seq > rs.last_end_seq))
    }

    pub fn is_newest_packet(&self, send_time: Instant, end_seq: u64) -> (b: bool)
        ensures
            b == self.newest_packet(send_time, end_seq),
    {
        match self.first_send_time {
            Some(first) => send_time.nanos > first.nanos || match self.rs {
                Some(rs) => end_seq > rs.last_end_seq,
                None => false,
            },
            None => false,
        }
    }

    pub open spec fn count_ack_fits(self, bytes: u64) -> bool {
        self.delivered + bytes <= u64::MAX
    }

    /// `bytes` more bytes are delivered; a sample, where there is one, counts them too.
    pub open spec fn after_count_ack(self, bytes: u64, now: Instant) -> Flow {
        Flow {
            rs: match self.rs {
                Some(rs) => Some(
                    BbrRateSample { newly_acked: (rs.newly_acked + bytes) as u64, ..rs },
                ),
                None => None,
            },
            delivered: (self.delivered + bytes) as u64,
            delivered_time: Some(now),
            ..self
        }
    }

    pub fn count_ack(&mut self, bytes: u64, now: Instant)
        requires
            old(self).wf(),
            old(self).count_ack_fits(bytes),
        ensures
            *final(self) == old(self).after_count_ack(bytes, now),
            final(self).wf(),
            bytes <= final(self).delivered,
            final(self).rs is Some == old(self).rs is Some,
            final(self).round_count == old(self).round_count,
    {
        let rs: Option<BbrRateSample> = match self.rs {
            Some(rs) => Some(BbrRateSample { newly_acked: rs.newly_acked + bytes, ..rs }),
            None => None,
        };
        *self =
        Flow { rs, delivered: self.delivered + bytes, delivered_time: Some(now), ..*self };
    }

    /// The time from the delivery that packet `p` was sent after to the last one.
    pub open spec fn ack_span(self, p: BbrPacket, now: Instant) -> Duration {
        (match self.delivered_time {
            Some(time) => time,
            None => now,
        }).span_since(p.delivered_time)
    }

    fn ack_elapsed(&self, p: BbrPacket, now: Instant) -> (d: Duration)
        ensures
            d == self.ack_span(p, now),
    {
        let time: Instant = match self.delivered_time {
            Some(time) => time,
            None => now,
        };
        time.duration_since(p.delivered_time)
    }

    /// The current sample `rs`, taken anew from the acknowledged packet `p`.
    pub open spec fn resampled(self, rs: BbrRateSample, p: BbrPacket, now: Instant) -> BbrRateSample {
        BbrRateSample {
            rtt: now.span_since(p.send_time),
            prior_delivered: p.delivered,
            prior_time: p.delivered_time,
            is_app_limited: p.is_app_limited,
            tx_in_flight: p.tx_in_flight,
            lost: less_down_to_zero(self.lost, p.lost),
            send_elapsed: p.send_time.span_since(p.first_send_time),
            ack_elapsed: self.ack_span(p, now),
            last_end_seq: p.packet_number,
            last_packet: p,
            ..rs
        }
    }

    /// The first sample of the flow, taken from the acknowledged packet `p`.
    pub open spec fn first_sample(
        self,
        p: BbrPacket,
        bytes: u64,
        srtt: Duration,
        now: Instant,
    ) -> BbrRateSample {
        BbrRateSample {
            rtt: srtt,
            prior_time: p.delivered_time,
            interval: Duration::of_secs(0),
            delivery_rate: Double::positive_zero(),
            is_app_limited: p.is_app_limited,
            delivered: 0,
            prior_delivered: p.delivered,
            tx_in_flight: p.tx_in_flight,
            send_elapsed: p.send_time.span_since(p.first_send_time),
            ack_elapsed: self.ack_span(p, now),
            newly_acked: bytes,
            newly_lost: 0,
            lost: less_down_to_zero(self.lost, p.lost),
            last_end_seq: p.packet_number,
            last_packet: p,
        }
    }

    /// The flow holds a sample of the acknowledged packet `p`.
    pub open spec fn after_take_packet(
        self,
        p: BbrPacket,
        bytes: u64,
        srtt: Duration,
        now: Instant,
    ) -> Flow {
        Flow {
            rs: Some(
                match self.rs {
                    Some(rs) => self.resampled(rs, p, now),
                    None => self.first_sample(p, bytes, srtt, now),
                },
            ),
            first_send_time: Some(p.send_time),
            srtt,
            ..self
        }
    }

    pub fn take_packet(&mut self, p: BbrPacket, bytes: u64, srtt: Duration, now: Instant)
        ensures
            *final(self) == old(self).after_take_packet(p, bytes, srtt, now),
            old(self).wf() && bytes <= old(self).delivered ==> final(self).wf(),
            final(self).round_count == old(self).round_count,
    {
        let send_elapsed: Duration = p.send_time.duration_since(p.first_send_time);
        let ack_elapsed: Duration = self.ack_elapsed(p, now);
        let lost: u64 = self.lost.saturating_sub(p.lost);
        let sample: BbrRateSample = match self.rs {
            Some(rs) => BbrRateSample {
                rtt: now.duration_since(p.send_time),
                prior_delivered: p.delivered,
                prior_time: p.delivered_time,
                is_app_limited: p.is_app_limited,
                tx_in_flight: p.tx_in_flight,
                lost,
                send_elapsed,
                ack_elapsed,
                last_end_seq: p.packet_number,
                last_packet: p,
                ..rs
            },
            None => BbrRateSample {
                rtt: srtt,
                prior_time: p.delivered_time,
                interval: Duration::from_secs(0),
                delivery_rate: Double::positive_zero(),
                is_app_limited: p.is_app_limited,
                delivered: 0,
                prior_delivered: p.delivered,
                tx_in_flight: p.tx_in_flight,
                send_elapsed,
                ack_elapsed,
                newly_acked: bytes,
                newly_lost: 0,
                lost,
                last_end_seq: p.packet_number,
                last_packet: p,
            },
        };
        *self = Flow { rs: Some(sample), first_send_time: Some(p.send_time), srtt, ..*self };
    }

    /// What limits the flow after a round of acknowledgements up to packet
    /// `largest`.
    pub open spec fn next_app_limited(self, app_limited: bool, largest: u64) -> u64 {
        if self.app_limited != 0 && largest > self.app_limited {
            0
        } else if app_limited {
            larger_of(self.app_limited, largest)
        } else {
            self.app_limited
        }
    }

    pub open spec fn after_note_app_limit(self, app_limited: bool, largest: u64) -> Flow {
        Flow { app_limited: self.next_app_limited(app_limited, largest), ..self }
    }

    pub fn note_app_limit(&mut self, app_limited: bool, largest: u64)
        ensures
            *final(self) == old(self).after_note_app_limit(app_limited, largest),
            old(self).wf() ==> final(self).wf(),
            final(self).round_count == old(self).round_count,
    {
        let limit: u64 = if self.app_limited != 0 && largest > self.app_limited {
            0
        } else if app_limited {
            larger_of(self.app_limited, largest)
        } else {
            self.app_limited
        };
        *self = Flow { app_limited: limit, ..*self };
    }

    /// The sampling interval: the longer of sending and acknowledging.
    pub open spec fn sample_interval(rs: BbrRateSample) -> Duration {
        if rs.send_elapsed.nanos >= rs.ack_elapsed.nanos {
            rs.send_elapsed
        } else {
            rs.ack_elapsed
        }
    }

    /// The sample is long enough to be trusted, and not the first one.
    pub open spec fn sample_counts(self, rs: BbrRateSample) -> bool {
        rs.prior_delivered != 0 && (Flow::sample_interval(rs).nanos >= self.min_rtt.nanos
            || self.rtt_unknown())
    }

    /// The sample with its delivery rate, ready for the next round of
    /// acknowledgements.
    pub open spec fn closed_sample(self, rs: BbrRateSample) -> BbrRateSample {
        let interval = Flow::sample_interval(rs);
        let delivered = less_down_to_zero(self.delivered, rs.prior_delivered);
        BbrRateSample {
            interval,
            delivered,
            delivery_rate: if interval.nanos != 0 {
                Double::of(delivered as nat).quotient(interval.seconds())
            } else {
                rs.delivery_rate
            },
            newly_acked: 0,
            lost: 0,
            newly_lost: 0,
            ..rs
        }
    }

    /// A round of acknowledgements closes the sample.
    pub open spec fn after_close_sample(self) -> Flow {
        match self.rs {
            Some(rs) => if self.sample_counts(rs) {
                let closed = self.closed_sample(rs);
                Flow {
                    rs: Some(closed),
                    is_cwnd_limited: self.is_cwnd_limited || closed.delivered >= self.cwnd,
                    ..self
                }
            } else {
                self
            },
            None => self,
        }
    }

    pub fn close_sample(&mut self)
        ensures
            *final(self) == old(self).after_close_sample(),
            old(self).wf() ==> final(self).wf(),
            final(self).round_count == old(self).round_count,
    {
        if let Some(rs) = self.rs {
            let interval: Duration = if rs.send_elapsed.nanos >= rs.ack_elapsed.nanos {
                rs.send_elapsed
            } else {
                rs.ack_elapsed
            };
            let counts: bool = rs.prior_delivered != 0 && (interval.nanos >= self.min_rtt.nanos
                || self.min_rtt == Duration::from_secs(u64::MAX));
            if counts {
                let delivered: u64 = self.delivered.saturating_sub(rs.prior_delivered);
                let delivery_rate: Double = if interval.nanos != 0 {
                    Double::from_u64(delivered).over(interval.as_seconds())
                } else {
                    rs.delivery_rate
                };
                let limited: bool = self.is_cwnd_limited || delivered >= self.cwnd;
                let closed: BbrRateSample = BbrRateSample {
                    interval,
                    delivered,
                    delivery_rate,
                    newly_acked: 0,
                    lost: 0,
                    newly_lost: 0,
                    ..rs
                };
                *self = Flow { rs: Some(closed), is_cwnd_limited: limited, ..*self };
            }
        }
    }

    pub open spec fn lose_packet_fits(self, lost_bytes: u64) -> bool {
        self.bw_probe_samples && self.rs is Some ==> self.rs->0.newly_lost + lost_bytes <= u64::MAX
    }

    /// What is lost in this round of acknowledgements, with `lost_bytes` more, is part of
    /// what the flow has lost.
    pub open spec fn loss_charged(self, lost_bytes: u64) -> bool {
        self.rs matches Some(rs) ==> rs.newly_lost + lost_bytes <= self.lost
    }

    /// The current sample `rs`, seen from the lost packet `p`.
    pub open spec fn loss_sample(
        self,
        rs: BbrRateSample,
        p: BbrPacket,
        lost_bytes: u64,
    ) -> BbrRateSample {
        BbrRateSample {
            newly_lost: (rs.newly_lost + lost_bytes) as u64,
            tx_in_flight: p.tx_in_flight,
            lost: less_down_to_zero(self.lost, p.lost),
            is_app_limited: p.is_app_limited,
            ..rs
        }
    }

    /// The flow holds the sample `rs`, seen from a lost packet of `size` bytes;
    /// where too much was lost, the probe ends at the point where it passed what is
    /// tolerated.
    pub open spec fn after_judge_loss(self, rs: BbrRateSample, size: u64, now: Instant) -> Flow {
        let sampled = Flow { rs: Some(rs), ..self };
        if sampled.inflight_too_high() {
            (Flow {
                rs: Some(BbrRateSample { tx_in_flight: sampled.loss_point(size), ..rs }),
                ..self
            }).after_handle_inflight_too_high(now)
        } else {
            sampled
        }
    }

    fn judge_loss(&mut self, rs: BbrRateSample, size: u64, now: Instant)
        ensures
            *final(self) == old(self).after_judge_loss(rs, size, now),
    {
        *self = Flow { rs: Some(rs), ..*self };
        if self.is_inflight_too_high() {
            let point: u64 = self.inflight_at_loss(size);
            *self = Flow { rs: Some(BbrRateSample { tx_in_flight: point, ..rs }), ..*self };
            self.handle_inflight_too_high(now);
        }
    }

    /// Packet `p` is lost. While a probe is sampled, the loss is judged.
    pub open spec fn after_lose_packet(self, p: BbrPacket, lost_bytes: u64, now: Instant) -> Flow {
        let noted = self.after_note_loss(p.packet_number);
        match self.rs {
            Some(rs) => if self.bw_probe_samples {
                noted.after_judge_loss(self.loss_sample(rs, p, lost_bytes), p.size as u64, now)
            } else {
                noted
            },
            None => noted,
        }
    }

    pub fn lose_packet(&mut self, p: BbrPacket, lost_bytes: u64, now: Instant)
        requires
            old(self).lose_packet_fits(lost_bytes),
        ensures
            *final(self) == old(self).after_lose_packet(p, lost_bytes, now),
            old(self).wf() && old(self).loss_charged(lost_bytes) ==> final(self).wf(),
            final(self).round_count == old(self).round_count,
    {
        self.note_loss(p.packet_number);
        if self.bw_probe_samples {
            if let Some(rs) = self.rs {
                let sample: BbrRateSample = BbrRateSample {
                    newly_lost: rs.newly_lost + lost_bytes,
                    tx_in_flight: p.tx_in_flight,
                    lost: self.lost.saturating_sub(p.lost),
                    is_app_limited: p.is_app_limited,
                    ..rs
                };
                self.judge_loss(sample, p.size as u64, now);
            }
        }
    }

    /// The state that a spurious loss left behind is taken up again.
    pub open spec fn after_resume_state(self) -> Flow {
        if self.state == BbrState::ProbeRtt || self.state == self.undo_state {
            self
        } else if self.undo_state == BbrState::Startup {
            self.after_enter_startup()
        } else if self.undo_state == BbrState::ProbeBw(ProbeBwSubstate::Up) {
            self.after_start_probe_bw_up()
        } else {
            self
        }
    }

    /// The bounds that a spurious loss has lowered come back.
    pub open spec fn after_lift_bounds(self) -> Flow {
        Flow {
            loss_in_round: false,
            bw_shortterm: self.bw_shortterm.larger(self.undo_bw_shortterm),
            inflight_shortterm: larger_of(self.inflight_shortterm, self.undo_inflight_shortterm),
            inflight_longterm: larger_of(self.inflight_longterm, self.undo_inflight_longterm),
            ..self.after_reset_full_bw()
        }
    }

    pub open spec fn after_undo_loss(self) -> Flow {
        self.after_lift_bounds().after_resume_state()
    }

    pub fn undo_loss(&mut self)
        requires
            old(self).wf(),
        ensures
            *final(self) == old(self).after_undo_loss(),
            final(self).wf(),
            final(self).round_count == old(self).round_count,
    {
        self.reset_full_bw();
        *self =
        Flow {
            loss_in_round: false,
            bw_shortterm: self.bw_shortterm.max_with(self.undo_bw_shortterm),
            inflight_shortterm: larger_of(self.inflight_shortterm, self.undo_inflight_shortterm),
            inflight_longterm: larger_of(self.inflight_longterm, self.undo_inflight_longterm),
            ..*self
        };
        if self.state != BbrState::ProbeRtt && self.state != self.undo_state {
            if self.undo_state == BbrState::Startup {
                self.enter_startup();
            } else if self.undo_state == BbrState::ProbeBw(ProbeBwSubstate::Up) {
                self.start_probe_bw_up();
            }
        }
    }
}

} // verus!
