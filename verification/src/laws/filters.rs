//! The windowed maxima.
use crate::double::Double;
use crate::model::ModelState;
use crate::params::MAX_BW_FILTER_LEN;
use vstd::prelude::*;

verus! {

/// A filter remembers the current slot and those less than a window before it, and
/// nothing older.
pub proof fn law_filter_forgets(m: Map<u64, u64>, now: u64, window: u64, value: u64)
    ensures
        ({
            let after = crate::max_filter::with_sample(
                crate::max_filter::recent(m, now, window),
                now,
                value,
            );
            forall|time: u64| #[trigger]
                after.contains_key(time) <==> time == now || (m.contains_key(time) && time + window
                    > now)
        }),
{
}

/// The maximum is at least the newest sample, and is one of the samples in the
/// window.
pub proof fn law_filter_maximum(m: Map<u64, u64>, now: u64, window: u64, value: u64)
    ensures
        ({
            let after = crate::max_filter::with_sample(
                crate::max_filter::recent(m, now, window),
                now,
                value,
            );
            let top = crate::max_filter::peak(after);
            &&& top >= value
            &&& forall|time: u64| #[trigger]
                m.contains_key(time) && time + window > now ==> m[time] <= top
            &&& top == value || exists|time: u64| #[trigger]
                m.contains_key(time) && m[time] == top && (time + window > now || time == now)
        }),
{
    let kept = crate::max_filter::recent(m, now, window);
    let after = crate::max_filter::with_sample(kept, now, value);
    crate::max_filter::lemma_peak_exists(after);
    let top = crate::max_filter::peak(after);
    assert(after.contains_key(now));
    assert forall|time: u64| #[trigger] m.contains_key(time) && time + window > now implies m[time]
        <= top by {
        assert(after.contains_key(time));
    }
    if top != value {
        if top == 0 {
            assert(after[now] <= top);
        } else {
            let time = choose|time: u64| #[trigger] after.contains_key(time) && after[time] == top;
            assert(m.contains_key(time));
        }
    }
}

/// The largest bandwidth is at least the sample just taken, and at least every one of
/// the current and the previous probing cycle.
pub proof fn law_max_bw_covers_two_cycles(m: ModelState)
    requires
        m.flow.bandwidth_sample() is Some,
    ensures
        ({
            let after = m.after_record_bandwidth();
            let top = crate::max_filter::peak(after.bandwidths);
            &&& after.flow.max_bw == Double::of(top as nat)
            &&& top >= m.flow.bandwidth_sample()->0
            &&& forall|cycle: u64| #[trigger]
                m.bandwidths.contains_key(cycle) && cycle + 1 >= m.flow.cycle_count
                    ==> m.bandwidths[cycle] <= top
        }),
{
    law_filter_maximum(
        m.bandwidths,
        m.flow.cycle_count,
        MAX_BW_FILTER_LEN,
        m.flow.bandwidth_sample()->0,
    );
}

} // verus!
