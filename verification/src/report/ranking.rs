//! The "largest tensors first" listing shown by the text report and the TUI.
use crate::types::TensorMeta;
use vstd::prelude::*;

verus! {

/// The parameter count of each tensor, in the tensors' order.
pub open spec fn param_counts(tensors: Seq<TensorMeta>) -> Seq<u64> {
    tensors.map_values(|t: TensorMeta| t.param_count)
}

/// Position `a` is listed before position `b`: it has more parameters, or as
/// many and came first (the listing is a stable sort, largest first).
pub open spec fn ranks_before(counts: Seq<u64>, a: int, b: int) -> bool {
    counts[a] > counts[b] || (counts[a] == counts[b] && a < b)
}

/// `r` holds the positions of the `limit` (or all, if fewer) highest-ranked
/// tensors, best first.
pub open spec fn is_top_ranking(counts: Seq<u64>, r: Seq<usize>, limit: nat) -> bool {
    &&& r.len() == (if limit < counts.len() { limit } else { counts.len() })
    &&& forall|i: int| 0 <= i < r.len() ==> r[i] < counts.len()
    &&& forall|i: int, j: int|
        0 <= i < j < r.len() ==> ranks_before(counts, r[i] as int, r[j] as int)
    &&& forall|x: int, i: int|
        0 <= x < counts.len() && !r.contains(x as usize) && 0 <= i < r.len() ==> ranks_before(
            counts,
            r[i] as int,
            x,
        )
}

proof fn rankings_agree_at(counts: Seq<u64>, r1: Seq<usize>, r2: Seq<usize>, limit: nat, i: int)
    requires
        is_top_ranking(counts, r1, limit),
        is_top_ranking(counts, r2, limit),
        0 <= i < r1.len(),
        forall|k: int| 0 <= k < i ==> r1[k] == r2[k],
    ensures
        r1[i] == r2[i],
{
    if r1[i] != r2[i] {
        one_ranking_puts_first(counts, r1, r2, limit, i);
        one_ranking_puts_first(counts, r2, r1, limit, i);
    }
}

proof fn one_ranking_puts_first(counts: Seq<u64>, r1: Seq<usize>, r2: Seq<usize>, limit: nat, i: int)
    requires
        is_top_ranking(counts, r1, limit),
        is_top_ranking(counts, r2, limit),
        0 <= i < r1.len(),
        r1[i] != r2[i],
        forall|k: int| 0 <= k < i ==> r1[k] == r2[k],
    ensures
        ranks_before(counts, r1[i] as int, r2[i] as int),
{
    let b = r2[i];
    if r1.contains(b) {
        let j = choose|j: int| 0 <= j < r1.len() && r1[j] == b;
        if j < i {
            assert(r2[j] == b);
            assert(ranks_before(counts, r2[j] as int, r2[i] as int));
        }
    } else {
        assert(0 <= b < counts.len());
    }
}

proof fn rankings_agree_below(counts: Seq<u64>, r1: Seq<usize>, r2: Seq<usize>, limit: nat, n: int)
    requires
        is_top_ranking(counts, r1, limit),
        is_top_ranking(counts, r2, limit),
        0 <= n <= r1.len(),
    ensures
        forall|k: int| 0 <= k < n ==> r1[k] == r2[k],
    decreases n,
{
    if n > 0 {
        rankings_agree_below(counts, r1, r2, limit, n - 1);
        rankings_agree_at(counts, r1, r2, limit, n - 1);
    }
}

/// The listing is determined by the counts alone: any two sequences of
/// positions that meet `is_top_ranking` for the same counts and limit agree.
pub proof fn top_ranking_is_unique(counts: Seq<u64>, r1: Seq<usize>, r2: Seq<usize>, limit: nat)
    requires
        is_top_ranking(counts, r1, limit),
        is_top_ranking(counts, r2, limit),
    ensures
        r1 == r2,
{
    rankings_agree_below(counts, r1, r2, limit, r1.len() as int);
    assert(r1 =~= r2);
}

/// Position of the tensor to list next among `remaining`: the one with the
/// most parameters, the earliest of those on a tie.
fn best_remaining(tensors: &Vec<TensorMeta>, remaining: &Vec<usize>) -> (b: usize)
    requires
        remaining.len() > 0,
        forall|i: int| 0 <= i < remaining.len() ==> remaining[i] < tensors.len(),
        forall|i: int, j: int| 0 <= i < j < remaining.len() ==> remaining[i] < remaining[j],
    ensures
        b < remaining.len(),
        forall|q: int|
            0 <= q < remaining.len() && q != b ==> ranks_before(
                param_counts(tensors@),
                remaining[b as int] as int,
                remaining[q] as int,
            ),
{
    let ghost counts = param_counts(tensors@);
    let mut best: usize = 0;
    let mut p: usize = 1;
    while p < remaining.len()
        invariant
            counts == param_counts(tensors@),
            forall|i: int| 0 <= i < remaining.len() ==> remaining[i] < tensors.len(),
            forall|i: int, j: int| 0 <= i < j < remaining.len() ==> remaining[i] < remaining[j],
            best < p <= remaining.len(),
            forall|q: int|
                0 <= q < p && q != best ==> ranks_before(
                    counts,
                    remaining[best as int] as int,
                    remaining[q] as int,
                ),
        decreases remaining.len() - p,
    {
        let cand = tensors[remaining[p]].param_count;
        let cur = tensors[remaining[best]].param_count;
        assert(counts[remaining[p as int] as int] == cand);
        assert(counts[remaining[best as int] as int] == cur);
        if cand > cur {
            assert forall|q: int| 0 <= q < p + 1 && q != p implies ranks_before(
                counts,
                remaining[p as int] as int,
                remaining[q] as int,
            ) by {
                if q != best {
                    assert(ranks_before(counts, remaining[best as int] as int, remaining[q] as int));
                }
            }
            best = p;
        }
        p = p + 1;
    }
    best
}

/// Positions of the `limit` tensors with the most parameters, largest first;
/// tensors with equal counts keep their order. All of them when there are
/// fewer than `limit`.
pub fn top_tensor_indices(tensors: &Vec<TensorMeta>, limit: usize) -> (r: Vec<usize>)
    ensures
        is_top_ranking(param_counts(tensors@), r@, limit as nat),
{
    let n = tensors.len();
    let ghost counts = param_counts(tensors@);
    let mut remaining: Vec<usize> = Vec::new();
    let mut k: usize = 0;
    while k < n
        invariant
            k <= n,
            n == tensors.len(),
            remaining.len() == k,
            forall|i: int| 0 <= i < k ==> remaining[i] == i,
        decreases n - k,
    {
        remaining.push(k);
        k = k + 1;
    }
    let mut r: Vec<usize> = Vec::new();
    assert forall|x: usize| x < n implies #[trigger] r@.contains(x) || remaining@.contains(x) by {
        assert(remaining@[x as int] == x);
    }
    while r.len() < limit && r.len() < n
        invariant
            n == tensors.len(),
            counts == param_counts(tensors@),
            counts.len() == n,
            r.len() <= n,
            r.len() <= limit || n == 0,
            r.len() + remaining.len() == n,
            forall|i: int| 0 <= i < remaining.len() ==> remaining[i] < n,
            forall|i: int, j: int| 0 <= i < j < remaining.len() ==> remaining[i] < remaining[j],
            forall|i: int| 0 <= i < r.len() ==> r[i] < n,
            forall|x: usize| x < n ==> #[trigger] r@.contains(x) || remaining@.contains(x),
            forall|i: int, j: int|
                0 <= i < j < r.len() ==> ranks_before(counts, r[i] as int, r[j] as int),
            forall|i: int, j: int|
                0 <= i < r.len() && 0 <= j < remaining.len() ==> ranks_before(
                    counts,
                    r[i] as int,
                    remaining[j] as int,
                ),
        decreases n - r.len(),
    {
        let b = best_remaining(tensors, &remaining);
        let ghost old_r = r@;
        let ghost old_rem = remaining@;
        let picked = remaining.remove(b);
        r.push(picked);
        assert forall|x: usize| x < n implies #[trigger] r@.contains(x) || remaining@.contains(
            x,
        ) by {
            if old_r.contains(x) {
                let i = choose|i: int| 0 <= i < old_r.len() && old_r[i] == x;
                assert(r@[i] == x);
            } else {
                assert(old_rem.contains(x));
                let j = choose|j: int| 0 <= j < old_rem.len() && old_rem[j] == x;
                if j == b {
                    assert(r@[old_r.len() as int] == x);
                } else if j < b {
                    assert(remaining@[j] == x);
                } else {
                    assert(remaining@[j - 1] == x);
                }
            }
        }
        assert forall|i: int, j: int| 0 <= i < j < remaining.len() implies remaining[i]
            < remaining[j] by {
            let oi = if i < b { i } else { i + 1 };
            let oj = if j < b { j } else { j + 1 };
            assert(remaining[i] == old_rem[oi]);
            assert(remaining[j] == old_rem[oj]);
        }
        assert forall|i: int, j: int|
            0 <= i < r.len() && 0 <= j < remaining.len() implies ranks_before(
            counts,
            r[i] as int,
            remaining[j] as int,
        ) by {
            let oj = if j < b { j } else { j + 1 };
            assert(remaining[j] == old_rem[oj]);
            if i < old_r.len() {
                assert(r[i] == old_r[i]);
            }
        }
    }
    proof {
        assert forall|x: int, i: int|
            #![trigger ranks_before(counts, r[i] as int, x)]
            0 <= x < n && !r@.contains(x as usize) && 0 <= i < r.len() implies ranks_before(
            counts,
            r[i] as int,
            x,
        ) by {
            assert(remaining@.contains(x as usize));
            let j = choose|j: int| 0 <= j < remaining.len() && remaining[j] == x as usize;
        }
    }
    r
}

} // verus!
