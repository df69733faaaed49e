//! The four-tier interval ladder: maps the observed span to the bucket width.

use vstd::prelude::*;
use crate::error::Error;
use crate::time::Duration;
use crate::time::DAY_NANOS;
use crate::time::HOUR_NANOS;
use crate::time::MONTH_NANOS;
use crate::time::YEAR_NANOS;

verus! {

/// At least this many bucket widths must fit in the observed span before a
/// tier is chosen, so the trend fit always sees that many history points.
pub const MIN_BUCKETS: u128 = 3;

/// The bucket width chosen for an observed span of `duration` nanoseconds:
/// the largest tier of which at least `MIN_BUCKETS` whole widths fit.
/// Spans shorter than three hours map to 0: no tier supports them.
pub open spec fn interval_for(duration: int) -> int {
    if duration >= MIN_BUCKETS * YEAR_NANOS {
        YEAR_NANOS as int
    } else if duration >= MIN_BUCKETS * MONTH_NANOS {
        MONTH_NANOS as int
    } else if duration >= MIN_BUCKETS * DAY_NANOS {
        DAY_NANOS as int
    } else if duration >= MIN_BUCKETS * HOUR_NANOS {
        HOUR_NANOS as int
    } else {
        0
    }
}

/// Chooses the bucket interval for an observed span, or refuses a span too
/// short to yield three buckets of the smallest tier.
pub fn derive_interval(duration: Duration) -> (r: Result<Duration, Error>)
    ensures
        duration@ >= MIN_BUCKETS * HOUR_NANOS ==> (r matches Ok(i)
            && i@ == interval_for(duration@)),
        duration@ < MIN_BUCKETS * HOUR_NANOS ==> (r matches Err(e)
            && e matches Error::UnsupportedSpan { duration: d } && d == duration),
{
    if duration.nanos >= MIN_BUCKETS * YEAR_NANOS {
        Ok(Duration { nanos: YEAR_NANOS })
    } else if duration.nanos >= MIN_BUCKETS * MONTH_NANOS {
        Ok(Duration { nanos: MONTH_NANOS })
    } else if duration.nanos >= MIN_BUCKETS * DAY_NANOS {
        Ok(Duration { nanos: DAY_NANOS })
    } else if duration.nanos >= MIN_BUCKETS * HOUR_NANOS {
        Ok(Duration { nanos: HOUR_NANOS })
    } else {
        Err(Error::UnsupportedSpan { duration })
    }
}

} // verus!
