//! Records and the reduction of a record set to its summary statistics.

use vstd::prelude::*;
use crate::error::Error;
use crate::time::Duration;
use crate::time::Timestamp;

verus! {

/// One observed file: its byte size and its creation time.
#[derive(Clone, Copy, Debug, PartialEq, Eq, Structural)]
pub struct File {
    pub size: u64,
    pub created: Timestamp,
}

impl File {
    pub fn new(created: Timestamp, size: u64) -> (r: File)
        ensures
            r.created == created,
            r.size == size,
    {
        File { size, created }
    }
}

/// Summary of a record set against a reference "now".
#[derive(Clone, Copy, Debug, PartialEq, Eq, Structural)]
pub struct Stats {
    pub created_min: Timestamp,
    pub created_max: Timestamp,
    pub duration: Duration,
    pub total_size: u64,
    pub total_count: u64,
}

/// The exact sum of the record sizes.
pub open spec fn sum_sizes(files: Seq<File>) -> int
    decreases files.len(),
{
    if files.len() == 0 {
        0
    } else {
        sum_sizes(files.drop_last()) + files.last().size
    }
}

/// The earliest creation time of a non-empty record set, in nanoseconds.
pub open spec fn min_created(files: Seq<File>) -> int
    decreases files.len(),
{
    if files.len() == 0 {
        0
    } else if files.len() == 1 {
        files[0].created@
    } else if files.last().created@ < min_created(files.drop_last()) {
        files.last().created@
    } else {
        min_created(files.drop_last())
    }
}

pub proof fn lemma_sum_sizes_nonneg(files: Seq<File>)
    ensures
        sum_sizes(files) >= 0,
    decreases files.len(),
{
    if files.len() > 0 {
        lemma_sum_sizes_nonneg(files.drop_last());
    }
}

pub proof fn lemma_sum_sizes_take_step(files: Seq<File>, k: int)
    requires
        0 <= k < files.len(),
    ensures
        sum_sizes(files.take(k + 1)) == sum_sizes(files.take(k)) + files[k].size,
{
    assert(files.take(k + 1).drop_last() =~= files.take(k));
    assert(files.take(k + 1).last() == files[k]);
}

pub proof fn lemma_sum_sizes_take_le(files: Seq<File>, k: int)
    requires
        0 <= k <= files.len(),
    ensures
        sum_sizes(files.take(k)) <= sum_sizes(files),
    decreases files.len() - k,
{
    if k == files.len() {
        assert(files.take(k) =~= files);
    } else {
        lemma_sum_sizes_take_step(files, k);
        lemma_sum_sizes_take_le(files, k + 1);
    }
}

pub proof fn lemma_min_created_take_step(files: Seq<File>, k: int)
    requires
        1 <= k < files.len(),
    ensures
        min_created(files.take(k + 1)) == if files[k].created@ < min_created(files.take(k)) {
            files[k].created@
        } else {
            min_created(files.take(k))
        },
{
    assert(files.take(k + 1).drop_last() =~= files.take(k));
    assert(files.take(k + 1).last() == files[k]);
}

/// The minimum is a lower bound on every record's creation time.
pub proof fn lemma_min_created_le(files: Seq<File>, j: int)
    requires
        0 <= j < files.len(),
    ensures
        min_created(files) <= files[j].created@,
    decreases files.len(),
{
    if files.len() > 1 && j < files.len() - 1 {
        lemma_min_created_le(files.drop_last(), j);
    }
}

/// The earliest creation time of a non-empty record set.
pub fn earliest(files: &Vec<File>) -> (r: Timestamp)
    requires
        files@.len() > 0,
    ensures
        r@ == min_created(files@),
{
    let mut created_min: Timestamp = files[0].created;
    let mut idx: usize = 1;
    proof {
        let t = files@.take(1);
        assert(t.len() == 1);
        assert(min_created(t) == t[0].created@);
    }
    while idx < files.len()
        invariant
            1 <= idx <= files@.len(),
            created_min@ == min_created(files@.take(idx as int)),
        decreases files@.len() - idx,
    {
        proof {
            lemma_min_created_take_step(files@, idx as int);
        }
        if files[idx].created.nanos < created_min.nanos {
            created_min = files[idx].created;
        }
        idx = idx + 1;
    }
    proof {
        assert(files@.take(files@.len() as int) =~= files@);
    }
    created_min
}

/// Reduces the record set to count, total size, earliest creation time and
/// the span from that earliest time up to `max`, the reference "now".
///
/// An empty record set is refused, and so is a set whose earliest record
/// was created after `max`: the span would be negative.
pub fn statistics(files: &Vec<File>, max: Timestamp) -> (r: Result<Stats, Error>)
    requires
        sum_sizes(files@) <= u64::MAX,
    ensures
        files@.len() == 0 ==> r == Err::<Stats, Error>(Error::EmptyRecordSet),
        files@.len() > 0 && min_created(files@) > max@ ==> (r matches Err(e)
            && e matches Error::TimeInconsistency { created, now }
            && created@ == min_created(files@) && now == max),
        files@.len() > 0 && min_created(files@) <= max@ ==> (r matches Ok(s)
            && s.created_min@ == min_created(files@)
            && s.created_max == max
            && s.duration@ == max@ - min_created(files@)
            && s.total_size == sum_sizes(files@)
            && s.total_count == files@.len()),
{
    if files.len() == 0 {
        return Err(Error::EmptyRecordSet);
    }
    let mut total_size: u64 = files[0].size;
    let mut created_min: Timestamp = files[0].created;
    let mut idx: usize = 1;
    proof {
        let t = files@.take(1);
        assert(t.len() == 1);
        assert(t.drop_last() =~= Seq::<File>::empty());
        assert(t.last() == files@[0]);
        assert(sum_sizes(t) == sum_sizes(t.drop_last()) + t.last().size);
        assert(sum_sizes(Seq::<File>::empty()) == 0);
        assert(min_created(t) == t[0].created@);
    }
    while idx < files.len()
        invariant
            1 <= idx <= files@.len(),
            sum_sizes(files@) <= u64::MAX,
            total_size == sum_sizes(files@.take(idx as int)),
            created_min@ == min_created(files@.take(idx as int)),
        decreases files@.len() - idx,
    {
        proof {
            lemma_sum_sizes_take_step(files@, idx as int);
            lemma_sum_sizes_take_le(files@, idx as int + 1);
            lemma_sum_sizes_nonneg(files@.take(idx as int));
            lemma_min_created_take_step(files@, idx as int);
        }
        total_size = total_size + files[idx].size;
        if files[idx].created.nanos < created_min.nanos {
            created_min = files[idx].created;
        }
        idx = idx + 1;
    }
    proof {
        assert(files@.take(files@.len() as int) =~= files@);
    }
    match max.duration_since(created_min) {
        None => Err(Error::TimeInconsistency { created: created_min, now: max }),
        Some(duration) => Ok(Stats {
            created_min,
            created_max: max,
            duration,
            total_size,
            total_count: files.len() as u64,
        }),
    }
}

} // verus!
