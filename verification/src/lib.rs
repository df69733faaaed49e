//! Capacity-planning analysis: buckets file sizes by creation time into
//! regular intervals and projects future cumulative storage usage.

use vstd::prelude::*;
use vstd::arithmetic::div_mod::lemma_div_is_ordered;
use vstd::arithmetic::div_mod::lemma_div_is_ordered_by_denominator;

mod accumulate;
mod bucket;
mod error;
mod forecast;
mod interval;
mod stats;
mod time;

pub use crate::accumulate::acc;
pub use crate::forecast::FORECAST_BUCKETS;
pub use crate::forecast::estimate;
pub use crate::bucket::Group;
pub use crate::bucket::bucket_range_sum;
pub use crate::bucket::bucket_sum;
pub use crate::bucket::group;
pub use crate::bucket::intervals_back;
pub use crate::bucket::lemma_groups_match_range;
pub use crate::bucket::lemma_range_sum_all;
pub use crate::bucket::lemma_record_in_unique_bucket;
pub use crate::bucket::sum_group_sizes;
pub use crate::error::Error;
pub use crate::interval::MIN_BUCKETS;
pub use crate::interval::derive_interval;
pub use crate::interval::interval_for;
pub use crate::stats::File;
pub use crate::stats::Stats;
pub use crate::stats::statistics;
pub use crate::stats::sum_sizes;
pub use crate::stats::min_created;
pub use crate::time::Duration;
pub use crate::time::Timestamp;
pub use crate::time::HOUR_NANOS;
pub use crate::time::DAY_NANOS;
pub use crate::time::MONTH_NANOS;
pub use crate::time::YEAR_NANOS;

verus! {

/// Everything the analytical pipeline derives from a record set: summary
/// statistics, the chosen bucket interval, and the cumulative history.
#[derive(Debug)]
pub struct Analysis {
    pub stats: Stats,
    pub interval: Duration,
    pub history: Vec<Group>,
}

/// Runs the pipeline over a record set against a reference "now": reduces
/// it to statistics, chooses the bucket interval from the observed span,
/// partitions the records into buckets and accumulates them into the
/// cumulative history, oldest bucket first.
///
/// Refused: an empty record set; a record created after `now`; a span
/// shorter than three hours.
pub fn analyze(files: &Vec<File>, now: Timestamp) -> (r: Result<Analysis, Error>)
    requires
        sum_sizes(files@) <= u64::MAX,
        now@ / (HOUR_NANOS as int) < usize::MAX,
    ensures
        r is Ok <==> (files@.len() > 0 && now@ - min_created(files@) >= MIN_BUCKETS * HOUR_NANOS
            && forall|k: int| 0 <= k < files@.len() ==> (#[trigger] files@[k]).created@ <= now@),
        files@.len() == 0 ==> r == Err::<Analysis, Error>(Error::EmptyRecordSet),
        files@.len() > 0 && min_created(files@) > now@ ==> (r matches Err(e)
            && e matches Error::TimeInconsistency { created, now: n }
            && created@ == min_created(files@) && n == now),
        files@.len() > 0 && 0 <= now@ - min_created(files@) < MIN_BUCKETS * HOUR_NANOS ==> (
        r matches Err(e) && e matches Error::UnsupportedSpan { duration }
            && duration@ == now@ - min_created(files@)),
        files@.len() > 0 && now@ - min_created(files@) >= MIN_BUCKETS * HOUR_NANOS && (exists|
            k: int,
        | 0 <= k < files@.len() && (#[trigger] files@[k]).created@ > now@) ==> (r matches Err(e)
            && e matches Error::TimeInconsistency { created, now: n } && n == now
            && created@ > now@),
        r matches Ok(a) ==> ({
            let m = min_created(files@);
            let iv = interval_for(now@ - m);
            let nb = intervals_back(now@, m, iv) + 1;
            &&& a.stats.created_min@ == m
            &&& a.stats.created_max == now
            &&& a.stats.duration@ == now@ - m
            &&& a.stats.total_size == sum_sizes(files@)
            &&& a.stats.total_count == files@.len()
            &&& a.interval@ == iv
            &&& a.history@.len() == nb
            &&& forall|j: int| 0 <= j < nb ==> (#[trigger] a.history@[j]).until@ == now@ - (nb - 1
                - j) * iv
            &&& forall|j: int| 0 <= j < nb ==> (#[trigger] a.history@[j]).size == bucket_range_sum(
                files@,
                now@,
                iv,
                nb - 1 - j,
                nb,
            )
            &&& a.history@[nb - 1].size == a.stats.total_size
            &&& forall|j: int, l: int| 0 <= j <= l < nb ==> (#[trigger] a.history@[j]).size
                <= (#[trigger] a.history@[l]).size
        }),
{
    let stats = match statistics(files, now) {
        Err(e) => {
            return Err(e);
        },
        Ok(s) => s,
    };
    let interval = match derive_interval(stats.duration) {
        Err(e) => {
            return Err(e);
        },
        Ok(i) => i,
    };
    proof {
        lemma_div_is_ordered(now@ - min_created(files@), now@, interval@);
        lemma_div_is_ordered_by_denominator(now@, HOUR_NANOS as int, interval@);
    }
    let groups = match group(files, interval, now) {
        Err(e) => {
            return Err(e);
        },
        Ok(g) => g,
    };
    let history = acc(groups);
    proof {
        let m = min_created(files@);
        let iv = interval@;
        let nb = intervals_back(now@, m, iv) + 1;
        assert(groups@.take(nb as int) =~= groups@);
        assert forall|j: int| 0 <= j < nb implies #[trigger] sum_group_sizes(groups@.take(j + 1))
            == bucket_range_sum(files@, now@, iv, nb - 1 - j, nb) by {
            let prefix = groups@.take(j + 1);
            assert forall|t: int| 0 <= t < prefix.len() implies (#[trigger] prefix[t]).size
                == bucket_sum(files@, now@, iv, (nb - 1 - j) + prefix.len() - 1 - t) by {
                assert(prefix[t] == groups@[t]);
            }
            lemma_groups_match_range(files@, now@, iv, prefix, nb - 1 - j);
        }
    }
    Ok(Analysis { stats, interval, history })
}

} // verus!
