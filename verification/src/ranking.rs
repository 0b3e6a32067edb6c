//! The ranking order of devices and the sort that applies it.
//!
//! A device is preferred to another when it has more free memory; among
//! devices with as much free memory, the one with fewer attached processes;
//! among those, the one with the lower index.

use vstd::prelude::*;
use crate::{distinct_indices, GpuInfo};

verus! {

/// The ranking order: `a` is strictly preferred to `b` when it has more free
/// memory, or as much and fewer attached processes, or as much of both and
/// the lower index.
pub open spec fn spec_ranks_before(a: &GpuInfo, b: &GpuInfo) -> bool {
    ||| a.memory_free_mb() > b.memory_free_mb()
    ||| a.memory_free_mb() == b.memory_free_mb() && a.process_count < b.process_count
    ||| a.memory_free_mb() == b.memory_free_mb() && a.process_count == b.process_count && a.index
        < b.index
}

/// Whether `a` is strictly preferred to `b`.
#[verifier::when_used_as_spec(spec_ranks_before)]
pub fn ranks_before(a: &GpuInfo, b: &GpuInfo) -> (before: bool)
    ensures
        before == spec_ranks_before(a, b),
{
    let free_a = a.memory_free_mb();
    let free_b = b.memory_free_mb();
    if free_a != free_b {
        free_a > free_b
    } else if a.process_count != b.process_count {
        a.process_count < b.process_count
    } else {
        a.index < b.index
    }
}

/// Where `gpu` goes into the ranked sequence `ranked`: behind every device
/// that it is not strictly preferred to, so that devices of equal rank keep
/// the order in which they came.
pub open spec fn insert_position(ranked: Seq<GpuInfo>, gpu: GpuInfo) -> int
    decreases ranked.len(),
{
    if ranked.len() > 0 && ranks_before(&gpu, &ranked.last()) {
        insert_position(ranked.drop_last(), gpu)
    } else {
        ranked.len() as int
    }
}

/// `gpus` in ranking order, devices of equal rank in the order given.
pub open spec fn ranked(gpus: Seq<GpuInfo>) -> Seq<GpuInfo>
    decreases gpus.len(),
{
    if gpus.len() == 0 {
        gpus
    } else {
        let front = ranked(gpus.drop_last());
        front.insert(insert_position(front, gpus.last()), gpus.last())
    }
}

/// Ranks `gpus`: most free memory first, then fewest processes, then lowest
/// index.
pub fn sort_by_most_free(gpus: &[GpuInfo]) -> (sorted: Vec<GpuInfo>)
    ensures
        sorted@ == ranked(gpus@),
{
    let mut sorted: Vec<GpuInfo> = Vec::new();
    let mut i: usize = 0;
    while i < gpus.len()
        invariant
            i <= gpus.len(),
            sorted@ == ranked(gpus@.take(i as int)),
        decreases gpus.len() - i,
    {
        let gpu = gpus[i];
        let mut at: usize = sorted.len();
        assert(sorted@.take(at as int) == sorted@);
        while at > 0 && ranks_before(&gpu, &sorted[at - 1])
            invariant
                at <= sorted.len(),
                insert_position(sorted@, gpu) == insert_position(sorted@.take(at as int), gpu),
            decreases at,
        {
            assert(sorted@.take(at as int).drop_last() == sorted@.take(at - 1));
            at -= 1;
        }
        assert(gpus@.take(i + 1).drop_last() == gpus@.take(i as int));
        sorted.insert(at, gpu);
        i += 1;
    }
    assert(gpus@.take(gpus@.len() as int) == gpus@);
    sorted
}

/// The insert position lies within the sequence or at its end.
pub proof fn lemma_insert_position_bounds(ranked: Seq<GpuInfo>, gpu: GpuInfo)
    ensures
        0 <= insert_position(ranked, gpu) <= ranked.len(),
    decreases ranked.len(),
{
    if ranked.len() > 0 && ranks_before(&gpu, &ranked.last()) {
        lemma_insert_position_bounds(ranked.drop_last(), gpu);
    }
}

/// Ranking neither drops nor adds a device.
pub proof fn lemma_ranked_len(gpus: Seq<GpuInfo>)
    ensures
        ranked(gpus).len() == gpus.len(),
    decreases gpus.len(),
{
    if gpus.len() > 0 {
        lemma_ranked_len(gpus.drop_last());
        lemma_insert_position_bounds(ranked(gpus.drop_last()), gpus.last());
    }
}

/// No device stands behind one that it is strictly preferred to.
pub open spec fn is_ranked(gpus: Seq<GpuInfo>) -> bool {
    forall|i: int, j: int| 0 <= i < j < gpus.len() ==> !ranks_before(&gpus[j], &gpus[i])
}

/// In a ranked sequence the insert position parts the devices that `gpu` does
/// not displace from those that it is strictly preferred to.
pub proof fn lemma_insert_position_splits(ranked: Seq<GpuInfo>, gpu: GpuInfo)
    requires
        is_ranked(ranked),
    ensures
        0 <= insert_position(ranked, gpu) <= ranked.len(),
        forall|k: int| 0 <= k < insert_position(ranked, gpu) ==> !ranks_before(&gpu, &ranked[k]),
        forall|k: int|
            insert_position(ranked, gpu) <= k < ranked.len() ==> ranks_before(&gpu, &ranked[k]),
    decreases ranked.len(),
{
    if ranked.len() > 0 && ranks_before(&gpu, &ranked.last()) {
        let front = ranked.drop_last();
        lemma_insert_position_splits(front, gpu);
        let p = insert_position(front, gpu);
        assert forall|k: int| 0 <= k < p implies !ranks_before(&gpu, &ranked[k]) by {
            assert(front[k] == ranked[k]);
        }
        assert forall|k: int| p <= k < ranked.len() implies ranks_before(&gpu, &ranked[k]) by {
            if k < front.len() {
                assert(front[k] == ranked[k]);
            }
        }
    } else if ranked.len() > 0 {
        let last = ranked.len() - 1;
        assert forall|k: int| 0 <= k < ranked.len() implies !ranks_before(&gpu, &ranked[k]) by {
            if k < last {
                assert(!ranks_before(&ranked[last], &ranked[k]));
            }
        }
    }
}

/// Ranking leaves no device behind one that it is strictly preferred to.
pub proof fn lemma_ranked_is_ranked(gpus: Seq<GpuInfo>)
    ensures
        is_ranked(ranked(gpus)),
    decreases gpus.len(),
{
    if gpus.len() > 0 {
        lemma_ranked_is_ranked(gpus.drop_last());
        lemma_insert_position_splits(ranked(gpus.drop_last()), gpus.last());
    }
}

/// Ranking rearranges: every device occurs as often after it as before.
pub proof fn lemma_ranked_permutes(gpus: Seq<GpuInfo>)
    ensures
        ranked(gpus).to_multiset() == gpus.to_multiset(),
    decreases gpus.len(),
{
    if gpus.len() > 0 {
        let front = ranked(gpus.drop_last());
        let gpu = gpus.last();
        lemma_ranked_permutes(gpus.drop_last());
        lemma_insert_position_bounds(front, gpu);
        vstd::seq_lib::to_multiset_insert(front, insert_position(front, gpu), gpu);
        vstd::seq_lib::to_multiset_build(gpus.drop_last(), gpu);
        assert(gpus.drop_last().push(gpu) == gpus);
    }
}

/// Ranking keeps exactly the devices it was given.
pub proof fn lemma_ranked_members(gpus: Seq<GpuInfo>)
    ensures
        forall|gpu: GpuInfo| ranked(gpus).contains(gpu) <==> gpus.contains(gpu),
{
    lemma_ranked_permutes(gpus);
    assert forall|gpu: GpuInfo| ranked(gpus).contains(gpu) <==> gpus.contains(gpu) by {
        vstd::seq_lib::to_multiset_contains(ranked(gpus), gpu);
        vstd::seq_lib::to_multiset_contains(gpus, gpu);
    }
}

/// Devices with distinct indices still have distinct indices once ranked.
pub proof fn lemma_ranked_distinct(gpus: Seq<GpuInfo>)
    requires
        distinct_indices(gpus),
    ensures
        distinct_indices(ranked(gpus)),
    decreases gpus.len(),
{
    if gpus.len() > 0 {
        let rest = gpus.drop_last();
        let front = ranked(rest);
        let gpu = gpus.last();
        lemma_ranked_distinct(rest);
        lemma_ranked_members(rest);
        lemma_insert_position_bounds(front, gpu);
        assert forall|k: int| 0 <= k < front.len() implies front[k].index != gpu.index by {
            assert(rest.contains(front[k]));
        }
    }
}

/// Two arrangements in rank order of devices with distinct indices are one
/// arrangement, if they hold the same devices and are of one length.
proof fn lemma_rank_order_unique(a: Seq<GpuInfo>, b: Seq<GpuInfo>)
    requires
        a.len() == b.len(),
        forall|gpu: GpuInfo| a.contains(gpu) <==> b.contains(gpu),
        distinct_indices(a),
        distinct_indices(b),
        is_ranked(a),
        is_ranked(b),
    ensures
        a == b,
    decreases a.len(),
{
    if a.len() > 0 {
        let n = a.len() - 1;
        let x = a[n];
        let y = b[n];
        assert(b.contains(x));
        let k = choose|k: int| 0 <= k < b.len() && b[k] == x;
        assert(a.contains(y));
        let m = choose|m: int| 0 <= m < a.len() && a[m] == y;
        if k < n {
            assert(!ranks_before(&b[n], &b[k]));
            if m < n {
                assert(!ranks_before(&a[n], &a[m]));
            }
        }
        let a_front = a.drop_last();
        let b_front = b.drop_last();
        assert forall|gpu: GpuInfo| a_front.contains(gpu) <==> b_front.contains(gpu) by {
            if a_front.contains(gpu) {
                assert(b.contains(gpu));
                let j = choose|j: int| 0 <= j < b.len() && b[j] == gpu;
                assert(b_front[j] == gpu);
            }
            if b_front.contains(gpu) {
                assert(a.contains(gpu));
                let j = choose|j: int| 0 <= j < a.len() && a[j] == gpu;
                assert(a_front[j] == gpu);
            }
        }
        lemma_rank_order_unique(a_front, b_front);
        assert(b == b_front.push(x));
    }
}

/// Among devices with distinct indices the ranking is settled by the order
/// alone: whatever holds the same devices in rank order is the ranking.
pub proof fn lemma_ranking_unique(gpus: Seq<GpuInfo>, arranged: Seq<GpuInfo>)
    requires
        distinct_indices(gpus),
        arranged.to_multiset() == gpus.to_multiset(),
        is_ranked(arranged),
    ensures
        arranged == ranked(gpus),
{
    let sorted = ranked(gpus);
    lemma_ranked_permutes(gpus);
    lemma_ranked_is_ranked(gpus);
    lemma_ranked_distinct(gpus);
    vstd::seq_lib::to_multiset_len(arranged);
    vstd::seq_lib::to_multiset_len(sorted);
    assert forall|gpu: GpuInfo| arranged.contains(gpu) <==> sorted.contains(gpu) by {
        vstd::seq_lib::to_multiset_contains(arranged, gpu);
        vstd::seq_lib::to_multiset_contains(sorted, gpu);
    }
    assert(sorted.no_duplicates());
    sorted.lemma_multiset_has_no_duplicates();
    arranged.lemma_multiset_has_no_duplicates_conv();
    assert(distinct_indices(arranged)) by {
        assert forall|i: int, j: int| 0 <= i < j < arranged.len() implies arranged[i].index
            != arranged[j].index by {
            assert(arranged.contains(arranged[i]));
            assert(arranged.contains(arranged[j]));
        }
    }
    lemma_rank_order_unique(arranged, sorted);
}

/// Of two ranked devices with as much free memory and as many attached
/// processes, the one with the lower index comes first.
pub proof fn lemma_ties_broken_by_index(gpus: Seq<GpuInfo>, i: int, j: int)
    requires
        0 <= i < j < ranked(gpus).len(),
        ranked(gpus)[i].memory_free_mb() == ranked(gpus)[j].memory_free_mb(),
        ranked(gpus)[i].process_count == ranked(gpus)[j].process_count,
    ensures
        ranked(gpus)[i].index <= ranked(gpus)[j].index,
        distinct_indices(gpus) ==> ranked(gpus)[i].index < ranked(gpus)[j].index,
{
    let all = ranked(gpus);
    lemma_ranked_is_ranked(gpus);
    assert(!ranks_before(&all[j], &all[i]));
    if distinct_indices(gpus) {
        lemma_ranked_distinct(gpus);
    }
}

} // verus!
