//! A windowed maximum: the largest sample of the most recent time slots.
use vstd::prelude::*;

verus! {

/// The largest sample of one time slot.
#[derive(Clone, Copy, Debug, PartialEq, Eq, Structural)]
pub struct Slot {
    pub time: u64,
    pub value: u64,
}

/// The largest of the samples taken in the last `window` time slots.
#[derive(Debug)]
pub struct MaxFilter {
    pub window: u64,
    pub slots: Vec<Slot>,
}

/// The slot maxima `m` with one more sample.
pub open spec fn with_sample(m: Map<u64, u64>, time: u64, value: u64) -> Map<u64, u64> {
    m.insert(
        time,
        if m.contains_key(time) && m[time] > value {
            m[time]
        } else {
            value
        },
    )
}

/// Slots, newest last, as a map from the time to the largest sample.
pub open spec fn slot_maxima(slots: Seq<Slot>) -> Map<u64, u64>
    decreases slots.len(),
{
    if slots.len() == 0 {
        Map::empty()
    } else {
        with_sample(slot_maxima(slots.drop_last()), slots.last().time, slots.last().value)
    }
}

/// Whether a slot still counts at `now`: the window ends with the current slot.
pub open spec fn in_window(time: u64, now: u64, window: u64) -> bool {
    time + window > now
}

/// The slot maxima that still count at `now`.
pub open spec fn recent(m: Map<u64, u64>, now: u64, window: u64) -> Map<u64, u64> {
    m.restrict(Set::new(|time: u64| in_window(time, now, window) || time == now))
}

/// `v` is the largest value of `m`, or zero where `m` holds none.
pub open spec fn is_peak(m: Map<u64, u64>, v: u64) -> bool {
    &&& forall|time: u64| #[trigger] m.contains_key(time) ==> m[time] <= v
    &&& v == 0 || exists|time: u64| #[trigger] m.contains_key(time) && m[time] == v
}

/// The largest value of `m`, or zero where `m` holds none.
pub open spec fn peak(m: Map<u64, u64>) -> u64 {
    choose|v: u64| is_peak(m, v)
}

pub proof fn lemma_peak_unique(m: Map<u64, u64>, v: u64)
    requires
        is_peak(m, v),
    ensures
        peak(m) == v,
{
    let p = peak(m);
    assert(is_peak(m, p));
    if p > 0 {
        let time = choose|time: u64| #[trigger] m.contains_key(time) && m[time] == p;
        assert(m[time] <= v);
    }
    if v > 0 {
        let time = choose|time: u64| #[trigger] m.contains_key(time) && m[time] == v;
        assert(m[time] <= p);
    }
}

proof fn lemma_finite_peak_exists(m: Map<u64, u64>)
    requires
        m.dom().finite(),
    ensures
        is_peak(m, peak(m)),
    decreases m.dom().len(),
{
    if m.dom().len() == 0 {
        assert(m.dom() =~= Set::empty());
        assert(is_peak(m, 0));
    } else {
        let time = m.dom().choose();
        assert(m.contains_key(time));
        let rest = m.remove(time);
        lemma_finite_peak_exists(rest);
        let top = peak(rest);
        let best: u64 = if top > m[time] {
            top
        } else {
            m[time]
        };
        assert forall|t: u64| #[trigger] m.contains_key(t) implies m[t] <= best by {
            if t != time {
                assert(rest.contains_key(t));
            }
        }
        if best > 0 {
            if top > m[time] {
                let t = choose|t: u64| #[trigger] rest.contains_key(t) && rest[t] == top;
                assert(m.contains_key(t) && m[t] == best);
            } else {
                assert(m.contains_key(time) && m[time] == best);
            }
        }
        assert(is_peak(m, best));
    }
}

/// There are finitely many slots, so one of them has the largest value.
pub proof fn lemma_peak_exists(m: Map<u64, u64>)
    ensures
        m.dom().finite(),
        is_peak(m, peak(m)),
{
    broadcast use vstd::set_lib::full_set_properties;

    assert(m.dom().subset_of(Set::<u64>::full()));
    vstd::set_lib::lemma_set_subset_finite(Set::<u64>::full(), m.dom());
    lemma_finite_peak_exists(m);
}

proof fn lemma_peak_with_sample(m: Map<u64, u64>, top: u64, time: u64, value: u64)
    requires
        is_peak(m, top),
    ensures
        is_peak(with_sample(m, time, value), if top > value { top } else { value }),
{
    let after = with_sample(m, time, value);
    let best: u64 = if top > value {
        top
    } else {
        value
    };
    assert forall|t: u64| #[trigger] after.contains_key(t) implies after[t] <= best by {
        if t != time {
            assert(m.contains_key(t));
        }
    }
    if best > 0 {
        if top > value {
            let t = choose|t: u64| #[trigger] m.contains_key(t) && m[t] == top;
            assert(after.contains_key(t) && after[t] == best);
        } else {
            assert(after.contains_key(time) && after[time] == best);
        }
    }
}

impl Clone for MaxFilter {
    fn clone(&self) -> (copy: MaxFilter)
        ensures
            copy.window == self.window,
            copy@ == self@,
    {
        MaxFilter { window: self.window, slots: self.slots.clone() }
    }
}

impl MaxFilter {
    /// The largest sample of each slot that the filter holds.
    pub open spec fn view(&self) -> Map<u64, u64> {
        slot_maxima(self.slots@)
    }

    pub fn new(window: u64) -> (f: MaxFilter)
        ensures
            f.window == window,
            f@ == Map::<u64, u64>::empty(),
    {
        MaxFilter { window, slots: Vec::new() }
    }

    /// Takes a sample and drops what has left the window.
    pub fn update_max(&mut self, time: u64, value: u64)
        ensures
            final(self).window == old(self).window,
            final(self)@ == with_sample(recent(old(self)@, time, old(self).window), time, value),
    {
        let mut kept: Vec<Slot> = Vec::new();
        let mut top: u64 = value;
        let mut i: usize = 0;
        let ghost slots = self.slots@;
        let ghost window = self.window;
        assert(slots.take(0) =~= Seq::<Slot>::empty());
        assert(slot_maxima(kept@) =~= recent(slot_maxima(slots.take(0)), time, window).remove(time));
        while i < self.slots.len()
            invariant
                i <= slots.len(),
                self.slots@ == slots,
                self.window == window,
                slot_maxima(kept@) == recent(slot_maxima(slots.take(i as int)), time, window).remove(
                    time,
                ),
                top == with_sample(slot_maxima(slots.take(i as int)), time, value)[time],
            decreases slots.len() - i,
        {
            let slot: Slot = self.slots[i];
            let ghost earlier = kept@;
            proof {
                assert(slots.take(i + 1).drop_last() =~= slots.take(i as int));
                assert(slots.take(i + 1).last() == slot);
            }
            if slot.time == time {
                if slot.value > top {
                    top = slot.value;
                }
            } else if slot.time > time || time - slot.time < self.window {
                kept.push(slot);
                assert(kept@.drop_last() =~= earlier);
            }
            assert(slot_maxima(kept@) =~= recent(slot_maxima(slots.take(i + 1)), time, window).remove(
                time,
            ));
            i = i + 1;
        }
        let ghost earlier = kept@;
        kept.push(Slot { time, value: top });
        proof {
            assert(slots.take(slots.len() as int) =~= slots);
            assert(kept@.drop_last() =~= earlier);
            assert(slot_maxima(kept@) =~= with_sample(
                recent(slot_maxima(slots), time, window),
                time,
                value,
            ));
        }
        self.slots = kept;
    }

    /// The largest sample in the window, zero where there is none.
    pub fn get_max(&self) -> (best: u64)
        ensures
            best == peak(self@),
            is_peak(self@, best),
    {
        let mut best: u64 = 0;
        let mut i: usize = 0;
        assert(self.slots@.take(0) =~= Seq::<Slot>::empty());
        while i < self.slots.len()
            invariant
                i <= self.slots.len(),
                is_peak(slot_maxima(self.slots@.take(i as int)), best),
            decreases self.slots.len() - i,
        {
            let slot: Slot = self.slots[i];
            proof {
                assert(self.slots@.take(i + 1).drop_last() =~= self.slots@.take(i as int));
                lemma_peak_with_sample(
                    slot_maxima(self.slots@.take(i as int)),
                    best,
                    slot.time,
                    slot.value,
                );
            }
            if slot.value >= best {
                best = slot.value;
            }
            i = i + 1;
        }
        proof {
            assert(self.slots@.take(self.slots@.len() as int) =~= self.slots@);
            lemma_peak_unique(self@, best);
        }
        best
    }
}

} // verus!
