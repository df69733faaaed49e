//! The accumulator: turns per-bucket sizes into a running cumulative total.

use vstd::prelude::*;
use crate::bucket::Group;
use crate::bucket::sum_group_sizes;

verus! {

pub proof fn lemma_sum_group_sizes_nonneg(groups: Seq<Group>)
    ensures
        sum_group_sizes(groups) >= 0,
    decreases groups.len(),
{
    if groups.len() > 0 {
        lemma_sum_group_sizes_nonneg(groups.drop_last());
    }
}

pub proof fn lemma_sum_group_sizes_take_step(groups: Seq<Group>, k: int)
    requires
        0 <= k < groups.len(),
    ensures
        sum_group_sizes(groups.take(k + 1)) == sum_group_sizes(groups.take(k)) + groups[k].size,
{
    assert(groups.take(k + 1).drop_last() =~= groups.take(k));
    assert(groups.take(k + 1).last() == groups[k]);
}

pub proof fn lemma_sum_group_sizes_take_le(groups: Seq<Group>, k: int)
    requires
        0 <= k <= groups.len(),
    ensures
        sum_group_sizes(groups.take(k)) <= sum_group_sizes(groups),
    decreases groups.len() - k,
{
    if k == groups.len() {
        assert(groups.take(k) =~= groups);
    } else {
        lemma_sum_group_sizes_take_step(groups, k);
        lemma_sum_group_sizes_take_le(groups, k + 1);
    }
}

/// Replaces each bucket's size by the sum of its own and all earlier bucket
/// sizes, keeping order and edges. The result is non-decreasing, and its
/// last entry carries the total of all input sizes.
pub fn acc(groups: Vec<Group>) -> (r: Vec<Group>)
    requires
        sum_group_sizes(groups@) <= u64::MAX,
    ensures
        r@.len() == groups@.len(),
        forall|j: int| 0 <= j < groups@.len() ==> (#[trigger] r@[j]).until == groups@[j].until,
        forall|j: int| 0 <= j < groups@.len() ==> (#[trigger] r@[j]).size == sum_group_sizes(
            groups@.take(j + 1),
        ),
        forall|j: int, l: int| 0 <= j <= l < groups@.len() ==> (#[trigger] r@[j]).size
            <= (#[trigger] r@[l]).size,
        groups@.len() > 0 ==> r@[groups@.len() - 1].size == sum_group_sizes(groups@),
{
    let mut results: Vec<Group> = Vec::new();
    let mut acc_size: u64 = 0;
    let mut k: usize = 0;
    proof {
        assert(groups@.take(0) =~= Seq::<Group>::empty());
    }
    while k < groups.len()
        invariant
            k <= groups@.len(),
            sum_group_sizes(groups@) <= u64::MAX,
            results@.len() == k,
            acc_size == sum_group_sizes(groups@.take(k as int)),
            forall|j: int| 0 <= j < k ==> (#[trigger] results@[j]).until == groups@[j].until,
            forall|j: int| 0 <= j < k ==> (#[trigger] results@[j]).size == sum_group_sizes(
                groups@.take(j + 1),
            ),
        decreases groups@.len() - k,
    {
        proof {
            lemma_sum_group_sizes_take_step(groups@, k as int);
            lemma_sum_group_sizes_take_le(groups@, k as int + 1);
            lemma_sum_group_sizes_nonneg(groups@.take(k as int));
        }
        acc_size = acc_size + groups[k].size;
        results.push(Group { until: groups[k].until, size: acc_size });
        k = k + 1;
    }
    proof {
        assert(groups@.take(groups@.len() as int) =~= groups@);
        assert forall|j: int, l: int| 0 <= j <= l < groups@.len() implies (#[trigger] results@[j]).size
            <= (#[trigger] results@[l]).size by {
            lemma_sum_group_sizes_monotone(groups@, j + 1, l + 1);
        }
    }
    results
}

proof fn lemma_sum_group_sizes_monotone(groups: Seq<Group>, j: int, l: int)
    requires
        0 <= j <= l <= groups.len(),
    ensures
        sum_group_sizes(groups.take(j)) <= sum_group_sizes(groups.take(l)),
    decreases l - j,
{
    if j < l {
        lemma_sum_group_sizes_take_step(groups, j);
        lemma_sum_group_sizes_monotone(groups, j + 1, l);
    }
}

} // verus!
