//! Picking the best of a list of candidates: each candidate has a rank, or
//! none when it is not eligible, and the best is the earliest eligible
//! candidate of smallest rank.
use vstd::prelude::*;

verus! {

/// Among the first `n` ranks, `i` holds the smallest, and holds it first.
pub open spec fn is_earliest_min(ranks: Seq<Option<int>>, n: int, i: int) -> bool {
    &&& 0 <= i < n <= ranks.len()
    &&& ranks[i] is Some
    &&& forall|j: int| 0 <= j < n && #[trigger] ranks[j] is Some ==> ranks[i]->0 <= ranks[j]->0
    &&& forall|j: int| 0 <= j < i && #[trigger] ranks[j] is Some ==> ranks[i]->0 < ranks[j]->0
}

/// None of the first `n` candidates is eligible.
pub open spec fn none_eligible(ranks: Seq<Option<int>>, n: int) -> bool {
    forall|j: int| 0 <= j < n ==> #[trigger] ranks[j] is None
}

/// The best of the first `n` candidates, as found so far.
pub open spec fn best_so_far(ranks: Seq<Option<int>>, n: int, best: Option<usize>) -> bool {
    match best {
        None => none_eligible(ranks, n),
        Some(b) => is_earliest_min(ranks, n, b as int),
    }
}

/// Looking at one more candidate: it becomes the best when it is eligible and
/// ranks strictly before the best so far.
pub proof fn lemma_best_step(ranks: Seq<Option<int>>, n: int, best: Option<usize>, next: Option<usize>)
    requires
        0 <= n < ranks.len(),
        best_so_far(ranks, n, best),
        next == (if ranks[n] is Some && (best is None || ranks[n]->0 < ranks[best->0 as int]->0) {
            Some(n as usize)
        } else {
            best
        }),
        n <= usize::MAX,
    ensures
        best_so_far(ranks, n + 1, next),
{
}

/// There is one best candidate at most.
pub proof fn lemma_earliest_min_unique(ranks: Seq<Option<int>>, n: int, i: int, j: int)
    requires
        is_earliest_min(ranks, n, i),
        is_earliest_min(ranks, n, j),
    ensures
        i == j,
{
}

} // verus!
