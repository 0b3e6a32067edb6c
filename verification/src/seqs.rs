//! Facts about sequences that the loops of this crate lean on.

use vstd::prelude::*;
use crate::{distinct_indices, GpuInfo};

verus! {

/// Filtering one element more of `s` either appends that element or changes
/// nothing.
pub proof fn lemma_filter_take_step<A>(s: Seq<A>, pred: spec_fn(A) -> bool, i: int)
    requires
        0 <= i < s.len(),
    ensures
        s.take(i + 1).filter(pred) == if pred(s[i]) {
            s.take(i).filter(pred).push(s[i])
        } else {
            s.take(i).filter(pred)
        },
{
    assert(s.take(i + 1) == s.take(i).push(s[i]));
    s.take(i).lemma_filter_push(s[i], pred);
}

/// A filter keeps exactly the elements that meet its predicate.
pub proof fn lemma_filter_member<A>(s: Seq<A>, pred: spec_fn(A) -> bool, x: A)
    ensures
        s.filter(pred).contains(x) <==> s.contains(x) && pred(x),
{
    if s.filter(pred).contains(x) {
        s.lemma_filter_contains_rev(pred, x);
    }
}

/// A filter keeps nothing exactly when no element meets its predicate.
pub proof fn lemma_filter_none<A>(s: Seq<A>, pred: spec_fn(A) -> bool)
    ensures
        s.filter(pred).len() == 0 <==> forall|k: int| 0 <= k < s.len() ==> !pred(#[trigger] s[k]),
{
    if s.filter(pred).len() > 0 {
        let x = s.filter(pred)[0];
        lemma_filter_member(s, pred, x);
        let k = choose|k: int| 0 <= k < s.len() && s[k] == x;
        assert(pred(s[k]));
    } else {
        assert forall|k: int| 0 <= k < s.len() implies !pred(#[trigger] s[k]) by {
            if pred(s[k]) {
                lemma_filter_member(s, pred, s[k]);
            }
        }
    }
}

/// Filtering a snapshot keeps its indices distinct.
pub proof fn lemma_filter_distinct(gpus: Seq<GpuInfo>, pred: spec_fn(GpuInfo) -> bool)
    requires
        distinct_indices(gpus),
    ensures
        distinct_indices(gpus.filter(pred)),
    decreases gpus.len(),
{
    if gpus.len() > 0 {
        let rest = gpus.drop_last();
        let last = gpus.last();
        let kept = rest.filter(pred);
        lemma_filter_distinct(rest, pred);
        assert(rest.push(last) == gpus);
        rest.lemma_filter_push(last, pred);
        if pred(last) {
            let all = kept.push(last);
            assert forall|i: int, j: int| 0 <= i < j < all.len() implies all[i].index
                != all[j].index by {
                if j == kept.len() {
                    lemma_filter_member(rest, pred, kept[i]);
                    let m = choose|m: int| 0 <= m < rest.len() && rest[m] == kept[i];
                    assert(gpus[m] == rest[m]);
                }
            }
        }
    }
}

} // verus!
