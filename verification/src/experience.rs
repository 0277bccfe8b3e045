//! Replay of recorded experience: choosing the keyframe times a replay shows.
use vstd::prelude::*;
use vstd::relations::sorted_by;
use crate::performance::{ascending, lemma_ascending_total, sort_samples, sorted_samples};
use crate::query::compact_index;

verus! {

/// The times at the evenly spaced positions `compact_index(i, len, limit)`, `i < limit`.
pub open spec fn compact_selection(times: Seq<u64>, limit: nat) -> Seq<u64> {
    Seq::new(limit, |i: int| times[compact_index(i, times.len() as int, limit as int)])
}

/// Strictly increasing, hence free of repeats.
pub open spec fn strictly_increasing(s: Seq<u64>) -> bool {
    forall|i: int, j: int| 0 <= i < j < s.len() ==> s[i] < s[j]
}

/// At most `limit` keyframe times: all of them when there are no more than `limit`;
/// otherwise the distinct times at the evenly spaced positions, in increasing order.
pub fn compact_times(times: Vec<u64>, limit: usize) -> (r: Vec<u64>)
    requires
        times@.len() <= limit || limit == 0 || (limit != 1 && (limit - 1) * (times@.len() - 1)
            <= usize::MAX),
    ensures
        times@.len() <= limit ==> r@ == times@,
        times@.len() > limit ==> strictly_increasing(r@) && r@.to_set() == compact_selection(
            times@,
            limit as nat,
        ).to_set(),
{
    let n = times.len();
    if n <= limit {
        return times;
    }
    let mut selected: Vec<u64> = Vec::new();
    let mut i: usize = 0;
    while i < limit
        invariant
            n == times@.len(),
            n > limit,
            limit != 1,
            limit == 0 || (limit - 1) * (n - 1) <= usize::MAX,
            i <= limit,
            selected@ == compact_selection(times@, limit as nat).take(i as int),
        decreases limit - i,
    {
        assert(i * (n - 1) <= (limit - 1) * (n - 1)) by (nonlinear_arith)
            requires
                i < limit,
                n >= 1,
        ;
        let product: usize = i * (n - 1);
        let index: usize = product / (limit - 1);
        assert(index < n) by (nonlinear_arith)
            requires
                index == i * (n - 1) / (limit - 1),
                i <= limit - 1,
                limit >= 2,
                n >= 1,
        {
            assert(i * (n - 1) / (limit - 1) <= (limit - 1) * (n - 1) / (limit - 1));
        }
        selected.push(times[index]);
        assert(selected@ =~= compact_selection(times@, limit as nat).take(i + 1));
        i = i + 1;
    }
    let ghost sel = compact_selection(times@, limit as nat);
    assert(selected@ =~= sel);
    let sorted = sort_samples(selected.as_slice());
    proof {
        lemma_ascending_total();
        sel.lemma_sort_by_ensures(ascending());
        broadcast use vstd::seq_lib::group_to_multiset_ensures;
        assert forall|x: u64| sorted@.contains(x) <==> sel.contains(x) by {
            assert(sorted@.to_multiset().count(x) == sel.to_multiset().count(x));
        }
    }
    let mut out: Vec<u64> = Vec::new();
    let mut k: usize = 0;
    while k < sorted.len()
        invariant
            sorted_by(sorted@, ascending()),
            k <= sorted@.len(),
            strictly_increasing(out@),
            k > 0 ==> out@.len() > 0 && out@.last() == sorted@[k - 1],
            forall|x: u64| out@.contains(x) <==> sorted@.take(k as int).contains(x),
        decreases sorted@.len() - k,
    {
        let x = sorted[k];
        let ghost before = out@;
        proof {
            if k == 0 && before.len() > 0 {
                assert(before.contains(before[0]));
            }
        }
        let push = k == 0 || out[out.len() - 1] != x;
        if push {
            proof {
                if k > 0 {
                    assert(ascending()(sorted@[k - 1], sorted@[k as int]));
                }
            }
            out.push(x);
            proof {
                assert forall|a: int, b: int| 0 <= a < b < out@.len() implies out@[a] < out@[b] by {
                    assert(out@[a] == before[a]);
                    if b < before.len() {
                        assert(out@[b] == before[b]);
                    } else {
                        assert(out@[b] == x);
                        if a < before.len() - 1 {
                            assert(before[a] < before[before.len() - 1]);
                        }
                    }
                }
            }
        }
        proof {
            broadcast use vstd::seq_lib::group_seq_properties;
            assert(sorted@.take(k + 1) =~= sorted@.take(k as int).push(x));
            if push {
                assert(out@ == before.push(x));
            } else {
                assert(out@ == before);
                assert(before.contains(x)) by {
                    assert(before[before.len() - 1] == x);
                }
            }
            assert forall|y: u64| out@.contains(y) <==> sorted@.take(k + 1).contains(y) by {
                assert(sorted@.take(k + 1).contains(y) <==> (sorted@.take(k as int).contains(y) || y == x));
                if push {
                    assert(out@.contains(y) <==> (before.contains(y) || y == x));
                }
            }
        }
        k = k + 1;
    }
    proof {
        assert(sorted@.take(k as int) =~= sorted@);
        assert(out@.to_set() =~= sel.to_set());
    }
    out
}

} // verus!
