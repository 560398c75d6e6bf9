//! What is remembered of each packet, and the rate samples taken from them.
use crate::double::Double;
use crate::params::ROUND_COUNT_WINDOW;
use crate::time::{Duration, Instant};
use std::collections::VecDeque;
use vstd::prelude::*;

verus! {

/// A packet that was sent. Volumes are in bytes, rates in bytes per second.
#[derive(Clone, Copy, Debug, PartialEq, Eq, Structural)]
pub struct BbrPacket {
    /// What the flow had delivered when the packet was sent.
    pub delivered: u64,
    /// When the flow had last delivered, at the time the packet was sent.
    pub delivered_time: Instant,
    /// The start of the sending interval that the packet belongs to.
    pub first_send_time: Instant,
    /// When the packet was sent.
    pub send_time: Instant,
    /// Whether the application limited the flow when the packet was sent.
    pub is_app_limited: bool,
    /// The volume in flight right after the packet was sent.
    pub tx_in_flight: u64,
    /// The number of the packet.
    pub packet_number: u64,
    /// The size of the packet.
    pub size: u16,
    /// What the flow had lost when the packet was sent.
    pub lost: u64,
    /// Whether the packet was acknowledged. It stays in the log for one more
    /// round of acknowledgements, since it may still be declared lost.
    pub acknowledged: bool,
    /// Whether the packet leaves the log with the next round of acknowledgements.
    pub stale: bool,
    /// The round trip in which the packet was sent.
    pub round_count: u64,
}

/// The state of delivery as seen from the newest acknowledged packet.
#[derive(Clone, Copy, Debug, PartialEq, Eq, Structural)]
pub struct BbrRateSample {
    /// The delivery rate.
    pub delivery_rate: Double,
    /// Whether the packet was sent while the application limited the flow.
    pub is_app_limited: bool,
    /// The length of the sampling interval.
    pub interval: Duration,
    /// The volume delivered over the interval.
    pub delivered: u64,
    /// What had been delivered when the packet was sent.
    pub prior_delivered: u64,
    /// When that had been delivered.
    pub prior_time: Instant,
    /// The length of the sending interval.
    pub send_elapsed: Duration,
    /// The length of the acknowledging interval.
    pub ack_elapsed: Duration,
    /// The round-trip time of the packet.
    pub rtt: Duration,
    /// The volume in flight when the packet was sent.
    pub tx_in_flight: u64,
    /// The volume acknowledged since the last round of acknowledgements.
    pub newly_acked: u64,
    /// The volume declared lost since the last round of acknowledgements.
    pub newly_lost: u64,
    /// The volume lost since the packet was sent.
    pub lost: u64,
    /// The number of the packet.
    pub last_end_seq: u64,
    /// The packet.
    pub last_packet: BbrPacket,
}

/// Packet numbers rise along the log, as they do where packets are logged in the
/// order of their numbers.
pub open spec fn numbered_in_order(log: Seq<BbrPacket>) -> bool {
    forall|i: int, j: int|
        0 <= i < j < log.len() ==> #[trigger] log[i].packet_number < #[trigger] log[j].packet_number
}

/// Where a search by halving finds packet `pn` in `log[low..high]`.
pub open spec fn bisect(log: Seq<BbrPacket>, pn: u64, low: int, high: int) -> Option<int>
    decreases high - low,
{
    let mid = low + (high - low) / 2;
    if low >= high {
        None
    } else if log[mid].packet_number == pn {
        Some(mid)
    } else if log[mid].packet_number < pn {
        bisect(log, pn, mid + 1, high)
    } else {
        bisect(log, pn, low, mid)
    }
}

/// Where packet `pn` is found in the log.
pub open spec fn lookup(log: Seq<BbrPacket>, pn: u64) -> Option<int> {
    bisect(log, pn, 0, log.len() as int)
}

/// The packet with its acknowledgement noted.
pub open spec fn as_acknowledged(p: BbrPacket) -> BbrPacket {
    BbrPacket { acknowledged: true, ..p }
}

/// A packet that is due to leave the log at round trip `round`.
pub open spec fn due(p: BbrPacket, round: u64) -> bool {
    p.acknowledged || round - p.round_count > ROUND_COUNT_WINDOW
}

/// The packet as a round of acknowledgements at round trip `round` leaves it.
pub open spec fn as_swept(p: BbrPacket, round: u64) -> BbrPacket {
    if due(p, round) {
        BbrPacket { stale: true, ..p }
    } else {
        p
    }
}

/// The log after a round of acknowledgements at round trip `round`: what was
/// stale is gone, what is acknowledged or old is stale.
pub open spec fn swept(log: Seq<BbrPacket>, round: u64) -> Seq<BbrPacket> {
    log.filter(|p: BbrPacket| !p.stale).map_values(|p: BbrPacket| as_swept(p, round))
}

/// No packet of the log was sent after round trip `round`.
pub open spec fn rounds_up_to(log: Seq<BbrPacket>, round: u64) -> bool {
    forall|i: int| 0 <= i < log.len() ==> #[trigger] log[i].round_count <= round
}

proof fn lemma_bisect_sound(log: Seq<BbrPacket>, pn: u64, low: int, high: int)
    requires
        0 <= low,
        high <= log.len(),
    ensures
        bisect(log, pn, low, high) matches Some(i) ==> low <= i < high && log[i].packet_number == pn,
    decreases high - low,
{
    if low < high {
        let mid = low + (high - low) / 2;
        if log[mid].packet_number < pn {
            lemma_bisect_sound(log, pn, mid + 1, high);
        } else if log[mid].packet_number > pn {
            lemma_bisect_sound(log, pn, low, mid);
        }
    }
}

proof fn lemma_bisect_complete(log: Seq<BbrPacket>, pn: u64, low: int, high: int, i: int)
    requires
        numbered_in_order(log),
        0 <= low <= i < high <= log.len(),
        log[i].packet_number == pn,
    ensures
        bisect(log, pn, low, high) == Some(i),
    decreases high - low,
{
    let mid = low + (high - low) / 2;
    if log[mid].packet_number < pn {
        lemma_bisect_complete(log, pn, mid + 1, high, i);
    } else if log[mid].packet_number > pn {
        lemma_bisect_complete(log, pn, low, mid, i);
    }
}

/// What the search finds is in the log and has the number that was asked for.
pub proof fn lemma_lookup_sound(log: Seq<BbrPacket>, pn: u64)
    ensures
        lookup(log, pn) matches Some(i) ==> 0 <= i < log.len() && log[i].packet_number == pn,
{
    lemma_bisect_sound(log, pn, 0, log.len() as int);
}

/// In a log with rising packet numbers the search finds every packet.
pub proof fn lemma_lookup_complete(log: Seq<BbrPacket>, pn: u64, i: int)
    requires
        numbered_in_order(log),
        0 <= i < log.len(),
        log[i].packet_number == pn,
    ensures
        lookup(log, pn) == Some(i),
{
    lemma_bisect_complete(log, pn, 0, log.len() as int, i);
}

/// Finds packet `pn`.
pub fn find_packet(log: &VecDeque<BbrPacket>, pn: u64) -> (r: Option<usize>)
    ensures
        match r {
            Some(i) => lookup(log@, pn) == Some(i as int) && i < log@.len(),
            None => lookup(log@, pn) is None,
        },
{
    let mut low: usize = 0;
    let mut high: usize = log.len();
    while low < high
        invariant
            0 <= low <= high <= log@.len(),
            bisect(log@, pn, low as int, high as int) == lookup(log@, pn),
        decreases high - low,
    {
        let mid: usize = low + (high - low) / 2;
        let number: u64 = log[mid].packet_number;
        if number == pn {
            return Some(mid);
        }
        if number < pn {
            low = mid + 1;
        } else {
            high = mid;
        }
    }
    None
}

/// Replaces one packet of the log.
pub fn replace_packet(log: &mut VecDeque<BbrPacket>, i: usize, p: BbrPacket)
    requires
        i < old(log)@.len(),
    ensures
        final(log)@ == old(log)@.update(i as int, p),
{
    let ghost before = log@;
    let _ = log.remove(i);
    log.insert(i, p);
    assert(log@ =~= before.update(i as int, p));
}

/// Carries out a round of acknowledgements on the log.
pub fn sweep(log: &mut VecDeque<BbrPacket>, round: u64)
    requires
        rounds_up_to(old(log)@, round),
    ensures
        final(log)@ == swept(old(log)@, round),
{
    let ghost before = log@;
    let ghost mut done: int = 0;
    let mut i: usize = 0;
    proof {
        assert(before.take(0) =~= Seq::<BbrPacket>::empty());
        reveal(Seq::filter);
        assert(swept(before.take(0), round) =~= Seq::<BbrPacket>::empty());
        assert(log@ =~= swept(before.take(0), round) + before.skip(0));
    }
    while i < log.len()
        invariant
            0 <= done <= before.len(),
            i == swept(before.take(done), round).len(),
            log@ == swept(before.take(done), round) + before.skip(done),
            rounds_up_to(before, round),
        decreases before.len() - done,
    {
        let ghost head = swept(before.take(done), round);
        let p: BbrPacket = log[i];
        proof {
            assert(p == before[done]);
            lemma_sweep_step(before, done, round);
        }
        if p.stale {
            let _ = log.remove(i);
            assert(log@ =~= head + before.skip(done + 1));
        } else {
            if p.acknowledged || round - p.round_count > ROUND_COUNT_WINDOW {
                replace_packet(log, i, BbrPacket { stale: true, ..p });
            }
            assert(log@ =~= head.push(as_swept(p, round)) + before.skip(done + 1));
            i = i + 1;
        }
        proof {
            done = done + 1;
        }
    }
    proof {
        assert(before.take(before.len() as int) =~= before);
        assert(done == before.len());
        assert(log@ =~= swept(before, round));
    }
}

/// A round of acknowledgements changes the rounds of no packet.
pub proof fn lemma_swept_rounds(log: Seq<BbrPacket>, round: u64, most: u64)
    requires
        rounds_up_to(log, most),
    ensures
        rounds_up_to(swept(log, round), most),
    decreases log.len(),
{
    reveal(Seq::filter);
    if log.len() > 0 {
        let n = log.len() - 1;
        let head = log.take(n);
        assert(rounds_up_to(head, most)) by {
            assert forall|i: int| 0 <= i < head.len() implies #[trigger] head[i].round_count
                <= most by {
                assert(head[i] == log[i]);
            }
        }
        lemma_swept_rounds(head, round, most);
        lemma_sweep_step(log, n, round);
        assert(log.take(n + 1) =~= log);
    }
}

pub proof fn lemma_sweep_step(log: Seq<BbrPacket>, n: int, round: u64)
    requires
        0 <= n < log.len(),
    ensures
        swept(log.take(n + 1), round) == (if log[n].stale {
            swept(log.take(n), round)
        } else {
            swept(log.take(n), round).push(as_swept(log[n], round))
        }),
{
    reveal(Seq::filter);
    let keep = |p: BbrPacket| !p.stale;
    assert(log.take(n + 1).drop_last() =~= log.take(n));
    assert(log.take(n + 1).last() == log[n]);
    if !log[n].stale {
        assert(log.take(n + 1).filter(keep) == log.take(n).filter(keep).push(log[n]));
        assert(swept(log.take(n + 1), round) =~= swept(log.take(n), round).push(
            as_swept(log[n], round),
        ));
    }
}

} // verus!
