//! The packet log: what is found in it, and what leaves it.
use crate::bbr3::ControllerState;
use crate::packet::BbrPacket;
use crate::params::ROUND_COUNT_WINDOW;
use crate::time::{Duration, Instant};
use vstd::prelude::*;

verus! {

proof fn lemma_swept_member(log: Seq<BbrPacket>, round: u64, j: int) -> (i: int)
    requires
        0 <= j < crate::packet::swept(log, round).len(),
    ensures
        0 <= i < log.len(),
        !log[i].stale,
        crate::packet::swept(log, round)[j] == crate::packet::as_swept(log[i], round),
    decreases log.len(),
{
    reveal(Seq::filter);
    let n = log.len() - 1;
    if log.len() == 0 {
        assert(false);
        0
    } else {
        crate::packet::lemma_sweep_step(log, n, round);
        assert(log.take(n + 1) =~= log);
        let head = crate::packet::swept(log.take(n), round);
        if j < head.len() {
            let i = lemma_swept_member(log.take(n), round, j);
            assert(log.take(n)[i] == log[i]);
            i
        } else {
            n
        }
    }
}

proof fn lemma_swept_in_order(log: Seq<BbrPacket>, round: u64)
    requires
        crate::packet::numbered_in_order(log),
    ensures
        crate::packet::numbered_in_order(crate::packet::swept(log, round)),
    decreases log.len(),
{
    reveal(Seq::filter);
    if log.len() > 0 {
        let n = log.len() - 1;
        let front = log.take(n);
        assert forall|i: int, j: int| 0 <= i < j < front.len() implies #[trigger] front[i].packet_number
            < #[trigger] front[j].packet_number by {
            assert(front[i] == log[i] && front[j] == log[j]);
        }
        lemma_swept_in_order(front, round);
        crate::packet::lemma_sweep_step(log, n, round);
        assert(log.take(n + 1) =~= log);
        let head = crate::packet::swept(front, round);
        let all = crate::packet::swept(log, round);
        assert forall|i: int, j: int| 0 <= i < j < all.len() implies #[trigger] all[i].packet_number
            < #[trigger] all[j].packet_number by {
            if j < head.len() {
                assert(all[i] == head[i] && all[j] == head[j]);
            } else {
                let k = lemma_swept_member(front, round, i);
                assert(front[k] == log[k]);
                assert(all[i] == head[i]);
                assert(log[k].packet_number < log[n].packet_number);
            }
        }
    }
}

/// After a round of acknowledgements everything in the log that is acknowledged, or
/// older than the window of rounds, is marked to leave it.
pub proof fn law_due_packets_are_marked(log: Seq<BbrPacket>, round: u64, j: int)
    requires
        0 <= j < crate::packet::swept(log, round).len(),
    ensures
        ({
            let p = crate::packet::swept(log, round)[j];
            p.acknowledged || round - p.round_count > ROUND_COUNT_WINDOW <==> p.stale
        }),
{
    let i = lemma_swept_member(log, round, j);
}

/// What was acknowledged or too old at one round of acknowledgements has left the
/// log after the next one, so the log holds a bounded number of rounds.
pub proof fn law_log_forgets(log: Seq<BbrPacket>, first: u64, second: u64, j: int)
    requires
        0 <= j < crate::packet::swept(crate::packet::swept(log, first), second).len(),
    ensures
        ({
            let p = crate::packet::swept(crate::packet::swept(log, first), second)[j];
            !p.acknowledged && first - p.round_count <= ROUND_COUNT_WINDOW
        }),
{
    let i = lemma_swept_member(crate::packet::swept(log, first), second, j);
    law_due_packets_are_marked(log, first, i);
}

/// What was not marked to leave the log stays in it after a round of acknowledgements,
/// unchanged but for the mark.
pub proof fn law_sweep_keeps_the_rest(log: Seq<BbrPacket>, round: u64, i: int) -> (j: int)
    requires
        0 <= i < log.len(),
        !log[i].stale,
    ensures
        0 <= j < crate::packet::swept(log, round).len(),
        crate::packet::swept(log, round)[j] == (BbrPacket {
            stale: log[i].acknowledged || round - log[i].round_count > 10,
            ..log[i]
        }),
    decreases log.len(),
{
    reveal(Seq::filter);
    let n = log.len() - 1;
    crate::packet::lemma_sweep_step(log, n, round);
    assert(log.take(n + 1) =~= log);
    if i == n {
        crate::packet::swept(log.take(n), round).len() as int
    } else {
        assert(log.take(n)[i] == log[i]);
        law_sweep_keeps_the_rest(log.take(n), round, i)
    }
}

/// Every operation keeps the packet numbers in order, sends those of packets that
/// are numbered above all others.
pub proof fn law_log_stays_in_order(
    s: ControllerState,
    now: Instant,
    sent: Instant,
    bytes: u64,
    size: u16,
    pn: u64,
    srtt: Duration,
    in_flight: u64,
    app_limited: bool,
    largest: Option<u64>,
)
    requires
        crate::packet::numbered_in_order(s.packets),
    ensures
        (forall|i: int| 0 <= i < s.packets.len() ==> #[trigger] s.packets[i].packet_number < pn)
            ==> crate::packet::numbered_in_order(s.after_packet_sent(now, size, pn).packets),
        crate::packet::numbered_in_order(s.after_ack(now, sent, bytes, pn, srtt).packets),
        crate::packet::numbered_in_order(s.after_end_acks(in_flight, app_limited, largest).packets),
        crate::packet::numbered_in_order(s.after_packet_lost(bytes, pn, now).packets),
{
    crate::packet::lemma_lookup_sound(s.packets, pn);
    lemma_swept_in_order(s.packets, s.model.flow.round_count);
}

/// In a log with packet numbers in order, a packet that is acknowledged is marked so.
pub proof fn law_ack_is_noted(
    s: ControllerState,
    now: Instant,
    sent: Instant,
    bytes: u64,
    pn: u64,
    srtt: Duration,
    i: int,
)
    requires
        crate::packet::numbered_in_order(s.packets),
        0 <= i < s.packets.len(),
        s.packets[i].packet_number == pn,
    ensures
        s.after_ack(now, sent, bytes, pn, srtt).packets == s.packets.update(
            i,
            BbrPacket { acknowledged: true, ..s.packets[i] },
        ),
{
    crate::packet::lemma_lookup_complete(s.packets, pn, i);
}

/// A packet that is lost leaves the log; no other one does.
pub proof fn law_loss_leaves_log(
    s: ControllerState,
    lost_bytes: u64,
    pn: u64,
    now: Instant,
    i: int,
)
    requires
        crate::packet::numbered_in_order(s.packets),
        0 <= i < s.packets.len(),
        s.packets[i].packet_number == pn,
    ensures
        s.after_packet_lost(lost_bytes, pn, now).packets == s.packets.remove(i),
{
    crate::packet::lemma_lookup_complete(s.packets, pn, i);
}

} // verus!
