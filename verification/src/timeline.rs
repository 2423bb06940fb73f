//! Locating a moment on a time-stamped log.
//!
//! A log is a sequence of samples, each stamped with a time; the times are
//! given as ordering keys, integers that compare as the timestamps do.

use vstd::prelude::*;

verus! {

/// Where a moment falls on a log of time-stamped samples.
#[derive(Debug, Clone, Copy, PartialEq, Eq, Structural)]
pub enum TimelinePosition {
    /// The log holds no sample.
    Empty,
    /// At or before the first sample.
    AtOrBeforeFirst,
    /// After the first sample and at or after the last one.
    AtOrAfterLast,
    /// Between sample `i` (at or before the moment) and sample `i + 1` (after it).
    Between(usize),
}

/// The times are in non-decreasing order.
pub open spec fn is_sorted(times: Seq<u64>) -> bool {
    forall|i: int, j: int| 0 <= i <= j < times.len() ==> times[i] <= times[j]
}

/// Sample `i` and sample `i + 1` enclose `time`: the first at or before it,
/// the second after it.
pub open spec fn brackets(times: Seq<u64>, i: int, time: u64) -> bool {
    &&& 0 <= i
    &&& i + 1 < times.len()
    &&& times[i] <= time
    &&& time < times[i + 1]
}

/// On a log whose times are in order, a moment lies between at most one pair
/// of neighbouring samples.
pub proof fn bracket_is_unique(times: Seq<u64>, time: u64, i: int, j: int)
    requires
        is_sorted(times),
        brackets(times, i, time),
        brackets(times, j, time),
    ensures
        i == j,
{
    if i < j {
        assert(times[i + 1] <= times[j]);
    } else if j < i {
        assert(times[j + 1] <= times[i]);
    }
}

/// On a log whose times are in order, a later moment never falls between
/// earlier neighbours than an earlier moment does.
pub proof fn bracket_is_monotonic(times: Seq<u64>, t1: u64, t2: u64, i: int, j: int)
    requires
        is_sorted(times),
        t1 <= t2,
        brackets(times, i, t1),
        brackets(times, j, t2),
    ensures
        i <= j,
{
    if j < i {
        assert(times[j + 1] <= times[i]);
    }
}

/// Finds where `time` falls on the log whose sample times are `times`:
/// before the first sample, after the last one, or between two neighbours,
/// found by binary search.
pub fn locate_time(times: &[u64], time: u64) -> (pos: TimelinePosition)
    ensures
        (pos is Empty) <==> times@.len() == 0,
        (pos is AtOrBeforeFirst) <==> (times@.len() > 0 && time <= times@[0]),
        (pos is AtOrAfterLast) <==> (times@.len() > 0 && times@[0] < time && times@[times@.len() - 1] <= time),
        (pos is Between) <==> (times@.len() > 0 && times@[0] < time && time < times@[times@.len() - 1]),
        pos matches TimelinePosition::Between(i) ==> brackets(times@, i as int, time),
        pos matches TimelinePosition::Between(i) ==> (is_sorted(times@) ==> forall|j: int|
            0 <= j < times@.len() ==> (#[trigger] times@[j] <= time <==> j <= i)),
{
    let n = times.len();
    if n == 0 {
        return TimelinePosition::Empty;
    }
    if time <= times[0] {
        return TimelinePosition::AtOrBeforeFirst;
    }
    if time >= times[n - 1] {
        return TimelinePosition::AtOrAfterLast;
    }
    let mut low: usize = 0;
    let mut high: usize = n - 1;
    let mut idx: usize = 0;
    while low <= high
        invariant
            n == times@.len(),
            n >= 1,
            times@[0] < time,
            time < times@[n - 1],
            high < n,
            low <= high + 1,
            idx < n,
            times@[idx as int] <= time,
            (low == 0 && idx == 0) || low == idx + 1,
            high == n - 1 || time < times@[high + 1],
        decreases high + 1 - low,
    {
        let mid = low + (high - low) / 2;
        if times[mid] <= time {
            idx = mid;
            low = mid + 1;
        } else {
            high = mid - 1;
        }
    }
    proof {
        if is_sorted(times@) {
            assert forall|j: int| 0 <= j < times@.len() implies (#[trigger] times@[j] <= time <==> j <= idx) by {
                if j <= idx {
                    assert(times@[j] <= times@[idx as int]);
                } else {
                    assert(times@[idx + 1] <= times@[j]);
                }
            }
        }
    }
    TimelinePosition::Between(idx)
}

} // verus!
