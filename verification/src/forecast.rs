//! The forecaster: projects the cumulative total forward by a fixed number
//! of buckets, adding a constant per-interval increment at each step.

use vstd::prelude::*;
use crate::bucket::Group;
use crate::time::Duration;
use crate::time::Timestamp;

verus! {

/// How many future buckets every forecast holds.
pub const FORECAST_BUCKETS: usize = 36;

/// Projects `FORECAST_BUCKETS` buckets past `now`, each one `interval`
/// after the previous, the first one `interval` after `now`. The running
/// total starts at `size_now` and each step adds `increment` bytes; a
/// negative increment yields a shrinking forecast.
pub fn estimate(increment: i64, interval: Duration, now: Timestamp, size_now: u64) -> (r: Vec<
    Group,
>)
    requires
        interval@ > 0,
        now@ + FORECAST_BUCKETS * interval@ <= u128::MAX,
        0 <= size_now + FORECAST_BUCKETS * increment,
        size_now + FORECAST_BUCKETS * increment <= u64::MAX,
    ensures
        r@.len() == FORECAST_BUCKETS,
        forall|j: int| 0 <= j < FORECAST_BUCKETS ==> (#[trigger] r@[j]).until@ == now@ + (j + 1)
            * interval@,
        forall|j: int| 0 <= j < FORECAST_BUCKETS ==> (#[trigger] r@[j]).size == size_now + (j + 1)
            * increment,
{
    let mut results: Vec<Group> = Vec::new();
    let mut estimated_size: u64 = size_now;
    let mut k: usize = 0;
    while k < FORECAST_BUCKETS
        invariant
            k <= FORECAST_BUCKETS,
            interval@ > 0,
            now@ + FORECAST_BUCKETS * interval@ <= u128::MAX,
            0 <= size_now + FORECAST_BUCKETS * increment,
            size_now + FORECAST_BUCKETS * increment <= u64::MAX,
            results@.len() == k,
            estimated_size == size_now + k * increment,
            forall|j: int| 0 <= j < k ==> (#[trigger] results@[j]).until@ == now@ + (j + 1)
                * interval@,
            forall|j: int| 0 <= j < k ==> (#[trigger] results@[j]).size == size_now + (j + 1)
                * increment,
        decreases FORECAST_BUCKETS - k,
    {
        proof {
            assert(0 <= size_now + (k + 1) * increment <= u64::MAX) by (nonlinear_arith)
                requires
                    0 <= k < FORECAST_BUCKETS,
                    0 <= size_now <= u64::MAX,
                    0 <= size_now + FORECAST_BUCKETS * increment,
                    size_now + FORECAST_BUCKETS * increment <= u64::MAX,
            ;
            assert((k + 1) * interval@ <= FORECAST_BUCKETS * interval@) by (nonlinear_arith)
                requires
                    0 <= k < FORECAST_BUCKETS,
                    interval@ > 0,
            ;
            assert(0 < (k + 1) * interval@) by (nonlinear_arith)
                requires
                    0 <= k,
                    interval@ > 0,
            ;
        }
        let next_size: i128 = estimated_size as i128 + increment as i128;
        proof {
            assert((k + 1) * increment == k * increment + increment) by (nonlinear_arith);
            assert(0 <= next_size <= u64::MAX);
        }
        estimated_size = next_size as u64;
        let offset: u128 = (k as u128 + 1) * interval.nanos;
        let until = Timestamp { nanos: now.nanos + offset };
        results.push(Group { until, size: estimated_size });
        k = k + 1;
    }
    results
}

} // verus!
