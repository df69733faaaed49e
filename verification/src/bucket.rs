//! The bucketing engine: partitions records into time buckets anchored at
//! the reference "now" and stepping backward by a fixed interval.

use vstd::prelude::*;
use vstd::arithmetic::div_mod::lemma_div_is_ordered;
use vstd::arithmetic::div_mod::lemma_div_pos_is_pos;
use vstd::arithmetic::div_mod::lemma_fundamental_div_mod;
use vstd::arithmetic::div_mod::lemma_fundamental_div_mod_converse;
use vstd::arithmetic::div_mod::lemma_mod_bound;
use vstd::arithmetic::mul::lemma_mul_inequality;
use crate::error::Error;
use crate::stats::File;
use crate::stats::earliest;
use crate::stats::lemma_min_created_le;
use crate::stats::lemma_sum_sizes_nonneg;
use crate::stats::lemma_sum_sizes_take_le;
use crate::stats::lemma_sum_sizes_take_step;
use crate::stats::min_created;
use crate::stats::sum_sizes;
use crate::time::Duration;
use crate::time::Timestamp;

verus! {

/// One time bucket: the right edge of its window and an aggregated size.
#[derive(Clone, Copy, Debug, PartialEq, Eq, Structural)]
pub struct Group {
    pub size: u64,
    pub until: Timestamp,
}

impl Group {
    pub fn new(until: Timestamp, size: u64) -> (r: Group)
        ensures
            r.until == until,
            r.size == size,
    {
        Group { size, until }
    }
}

/// How many whole intervals lie between `created` and `now`: the bucket,
/// counted backward from "now", that a record created then falls into.
pub open spec fn intervals_back(now: int, created: int, interval: int) -> int {
    (now - created) / interval
}

/// The sum of the sizes of the records lying `back` whole intervals
/// before `now`.
pub open spec fn bucket_sum(files: Seq<File>, now: int, interval: int, back: int) -> int
    decreases files.len(),
{
    if files.len() == 0 {
        0
    } else {
        bucket_sum(files.drop_last(), now, interval, back) + if intervals_back(
            now,
            files.last().created@,
            interval,
        ) == back {
            files.last().size as int
        } else {
            0
        }
    }
}

/// The sum of `bucket_sum` over every `back` in `[lo, hi)`.
pub open spec fn bucket_range_sum(
    files: Seq<File>,
    now: int,
    interval: int,
    lo: int,
    hi: int,
) -> int
    decreases hi - lo,
{
    if lo >= hi {
        0
    } else {
        bucket_sum(files, now, interval, lo) + bucket_range_sum(files, now, interval, lo + 1, hi)
    }
}

/// The sum of the bucket sizes of a group sequence.
pub open spec fn sum_group_sizes(groups: Seq<Group>) -> int
    decreases groups.len(),
{
    if groups.len() == 0 {
        0
    } else {
        sum_group_sizes(groups.drop_last()) + groups.last().size
    }
}

proof fn lemma_bucket_sum_take_step(files: Seq<File>, now: int, interval: int, k: int)
    requires
        0 <= k < files.len(),
    ensures
        forall|back: int| #[trigger] bucket_sum(files.take(k + 1), now, interval, back)
            == bucket_sum(files.take(k), now, interval, back) + if intervals_back(
            now,
            files[k].created@,
            interval,
        ) == back {
            files[k].size as int
        } else {
            0
        },
{
    assert(files.take(k + 1).drop_last() =~= files.take(k));
    assert(files.take(k + 1).last() == files[k]);
}

proof fn lemma_bucket_sum_bounds(files: Seq<File>, now: int, interval: int, back: int)
    ensures
        0 <= bucket_sum(files, now, interval, back) <= sum_sizes(files),
    decreases files.len(),
{
    if files.len() > 0 {
        lemma_bucket_sum_bounds(files.drop_last(), now, interval, back);
    }
}

proof fn lemma_range_sum_empty(files: Seq<File>, now: int, interval: int, lo: int, hi: int)
    requires
        files.len() == 0,
    ensures
        bucket_range_sum(files, now, interval, lo, hi) == 0,
    decreases hi - lo,
{
    if lo < hi {
        lemma_range_sum_empty(files, now, interval, lo + 1, hi);
    }
}

proof fn lemma_range_sum_drop_last(files: Seq<File>, now: int, interval: int, lo: int, hi: int)
    requires
        files.len() > 0,
    ensures
        bucket_range_sum(files, now, interval, lo, hi) == bucket_range_sum(
            files.drop_last(),
            now,
            interval,
            lo,
            hi,
        ) + if lo <= intervals_back(now, files.last().created@, interval) < hi {
            files.last().size as int
        } else {
            0
        },
    decreases hi - lo,
{
    if lo < hi {
        lemma_range_sum_drop_last(files, now, interval, lo + 1, hi);
    }
}

/// Partition: when every record's bucket index lies in `[0, hi)`, the
/// bucket sums over that range add up to the total record size.
pub proof fn lemma_range_sum_all(files: Seq<File>, now: int, interval: int, hi: int)
    requires
        forall|k: int| 0 <= k < files.len() ==> 0 <= intervals_back(
            now,
            (#[trigger] files[k]).created@,
            interval,
        ) < hi,
    ensures
        bucket_range_sum(files, now, interval, 0, hi) == sum_sizes(files),
    decreases files.len(),
{
    if files.len() == 0 {
        lemma_range_sum_empty(files, now, interval, 0, hi);
    } else {
        let prefix = files.drop_last();
        let f = files.last();
        assert(f == files[files.len() - 1]);
        assert(0 <= intervals_back(now, f.created@, interval) < hi);
        assert forall|k: int| 0 <= k < prefix.len() implies 0 <= intervals_back(
            now,
            (#[trigger] prefix[k]).created@,
            interval,
        ) < hi by {
            assert(prefix[k] == files[k]);
        }
        lemma_range_sum_all(prefix, now, interval, hi);
        lemma_range_sum_drop_last(files, now, interval, 0, hi);
    }
}

/// When each bucket of `groups` carries the bucket sum for index
/// `base + len - 1 - j`, the bucket sizes add up to the range sum.
pub proof fn lemma_groups_match_range(
    files: Seq<File>,
    now: int,
    interval: int,
    groups: Seq<Group>,
    base: int,
)
    requires
        forall|j: int| 0 <= j < groups.len() ==> (#[trigger] groups[j]).size == bucket_sum(
            files,
            now,
            interval,
            base + groups.len() - 1 - j,
        ),
    ensures
        sum_group_sizes(groups) == bucket_range_sum(files, now, interval, base, base + groups.len()),
    decreases groups.len(),
{
    if groups.len() > 0 {
        let prefix = groups.drop_last();
        assert(forall|j: int| 0 <= j < prefix.len() ==> (#[trigger] prefix[j]) == groups[j]);
        lemma_groups_match_range(files, now, interval, prefix, base + 1);
        assert(groups.last() == groups[groups.len() - 1]);
    }
}

/// Every record falls inside exactly one bucket window: `created` lies in
/// the half-open window `(now - (back + 1) * interval, now - back * interval]`
/// exactly when `back` counts the whole intervals elapsed since `created`.
pub proof fn lemma_record_in_unique_bucket(created: int, now: int, interval: int, back: int)
    requires
        interval > 0,
        created <= now,
        0 <= back,
    ensures
        (now - (back + 1) * interval < created <= now - back * interval) <==> back
            == intervals_back(now, created, interval),
{
    let d = now - created;
    assert((now - (back + 1) * interval < created <= now - back * interval) <==> (back * interval
        <= now - created < (back + 1) * interval)) by (nonlinear_arith);
    if back * interval <= d < (back + 1) * interval {
        assert(d == back * interval + (d - back * interval));
        assert(0 <= d - back * interval < interval) by (nonlinear_arith)
            requires
                back * interval <= d < (back + 1) * interval,
                interval > 0,
        ;
        lemma_fundamental_div_mod_converse(d, interval, back, d - back * interval);
    }
    if back == intervals_back(now, created, interval) {
        lemma_fundamental_div_mod(d, interval);
        lemma_mod_bound(d, interval);
        assert(back * interval <= d < (back + 1) * interval) by (nonlinear_arith)
            requires
                d == interval * back + d % interval,
                0 <= d % interval < interval,
        ;
    }
}

/// Partitions the records into buckets anchored at `now`, stepping backward
/// by `interval` until the earliest record is covered, in ascending order of
/// the bucket edge. Every record lands in exactly one bucket; buckets no
/// record falls into carry size 0. A record created after `now` is refused.
pub fn group(files: &Vec<File>, interval: Duration, now: Timestamp) -> (r: Result<
    Vec<Group>,
    Error,
>)
    requires
        files@.len() > 0,
        interval@ > 0,
        sum_sizes(files@) <= u64::MAX,
        intervals_back(now@, min_created(files@), interval@) < usize::MAX,
    ensures
        (r is Err) <==> (exists|k: int| 0 <= k < files@.len() && (#[trigger] files@[k]).created@
            > now@),
        r matches Err(e) ==> (e matches Error::TimeInconsistency { created, now: n } && n == now
            && created@ > now@ && exists|k: int| 0 <= k < files@.len()
            && (#[trigger] files@[k]).created == created),
        r matches Ok(gs) ==> ({
            let nb = intervals_back(now@, min_created(files@), interval@) + 1;
            &&& gs@.len() == nb
            &&& forall|k: int| 0 <= k < files@.len() ==> 0 <= intervals_back(
                now@,
                (#[trigger] files@[k]).created@,
                interval@,
            ) < nb
            &&& forall|j: int| 0 <= j < nb ==> (#[trigger] gs@[j]).until@ == now@ - (nb - 1 - j)
                * interval@
            &&& forall|j: int| 0 <= j < nb ==> (#[trigger] gs@[j]).size == bucket_sum(
                files@,
                now@,
                interval@,
                nb - 1 - j,
            )
            &&& sum_group_sizes(gs@) == sum_sizes(files@)
        }),
{
    let ghost n = now@;
    let ghost iv = interval@;

    // Refuse any record created after "now".
    let mut k: usize = 0;
    while k < files.len()
        invariant
            k <= files@.len(),
            forall|t: int| 0 <= t < k ==> (#[trigger] files@[t]).created@ <= n,
            n == now@,
        decreases files@.len() - k,
    {
        if files[k].created.nanos > now.nanos {
            return Err(Error::TimeInconsistency { created: files[k].created, now });
        }
        k = k + 1;
    }

    let absolute_min: Timestamp = earliest(files);
    proof {
        lemma_min_created_le(files@, 0);
    }
    let back_max: u128 = (now.nanos - absolute_min.nanos) / interval.nanos;
    let ghost kmax = intervals_back(n, min_created(files@), iv);
    let nb: usize = (back_max + 1) as usize;

    // Pre-insert every bucket edge with size 0, oldest first.
    let mut groups: Vec<Group> = Vec::new();
    let mut j: usize = 0;
    while j < nb
        invariant
            j <= nb,
            nb == kmax + 1,
            kmax == intervals_back(n, min_created(files@), iv),
            back_max as int == kmax,
            0 <= kmax,
            files@.len() > 0,
            iv > 0,
            n == now@,
            iv == interval@,
            0 <= min_created(files@) <= n,
            groups@.len() == j,
            forall|t: int| 0 <= t < j ==> (#[trigger] groups@[t]).until@ == n - (nb - 1 - t) * iv,
            forall|t: int| 0 <= t < j ==> (#[trigger] groups@[t]).size == 0,
        decreases nb - j,
    {
        let steps: u128 = (nb - 1 - j) as u128;
        proof {
            lemma_fundamental_div_mod(n - min_created(files@), iv);
            lemma_mod_bound(n - min_created(files@), iv);
            lemma_mul_inequality(steps as int, kmax, iv);
            assert(kmax * iv <= n - min_created(files@)) by (nonlinear_arith)
                requires
                    n - min_created(files@) == iv * kmax + (n - min_created(files@)) % iv,
                    0 <= (n - min_created(files@)) % iv,
            ;
        }
        let offset: u128 = steps * interval.nanos;
        let until = Timestamp { nanos: now.nanos - offset };
        groups.push(Group { until, size: 0 });
        j = j + 1;
    }

    // Assign each record to the bucket its creation time falls into.
    let ghost gs0 = groups@;
    let mut k: usize = 0;
    while k < files.len()
        invariant
            k <= files@.len(),
            nb == kmax + 1,
            kmax == intervals_back(n, min_created(files@), iv),
            files@.len() > 0,
            iv > 0,
            n == now@,
            iv == interval@,
            0 <= min_created(files@) <= n,
            sum_sizes(files@) <= u64::MAX,
            forall|t: int| 0 <= t < files@.len() ==> (#[trigger] files@[t]).created@ <= n,
            groups@.len() == nb,
            forall|t: int| 0 <= t < nb ==> (#[trigger] groups@[t]).until@ == n - (nb - 1 - t) * iv,
            forall|t: int| 0 <= t < nb ==> (#[trigger] groups@[t]).size == bucket_sum(
                files@.take(k as int),
                n,
                iv,
                nb - 1 - t,
            ),
        decreases files@.len() - k,
    {
        let f = files[k];
        proof {
            lemma_min_created_le(files@, k as int);
            lemma_div_is_ordered(n - f.created@, n - min_created(files@), iv);
            lemma_div_pos_is_pos(n - f.created@, iv);
        }
        let d: u128 = now.nanos - f.created.nanos;
        let x: u128 = d / interval.nanos;
        let t: usize = nb - 1 - (x as usize);
        proof {
            lemma_bucket_sum_take_step(files@, n, iv, k as int);
            lemma_bucket_sum_bounds(files@.take(k as int + 1), n, iv, nb - 1 - t);
            lemma_sum_sizes_take_le(files@, k as int + 1);
        }
        let g = groups[t];
        groups[t] = Group { until: g.until, size: g.size + f.size };
        proof {
            assert forall|u: int| 0 <= u < nb implies (#[trigger] groups@[u]).size == bucket_sum(
                files@.take(k as int + 1),
                n,
                iv,
                nb - 1 - u,
            ) by {
                if u != t {
                    assert(nb - 1 - u != x as int);
                }
            }
        }
        k = k + 1;
    }

    proof {
        assert(files@.take(files@.len() as int) =~= files@);
        assert forall|t: int| 0 <= t < files@.len() implies 0 <= intervals_back(
            n,
            (#[trigger] files@[t]).created@,
            iv,
        ) < nb by {
            lemma_min_created_le(files@, t);
            lemma_div_is_ordered(n - files@[t].created@, n - min_created(files@), iv);
            lemma_div_pos_is_pos(n - files@[t].created@, iv);
        }
        lemma_groups_match_range(files@, n, iv, groups@, 0);
        lemma_range_sum_all(files@, n, iv, nb as int);
    }
    Ok(groups)
}

} // verus!
