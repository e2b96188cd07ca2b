//! Choosing among scored actions: the action scored highest is chosen, the
//! first of equals, when its score is above zero.
//!
//! Scores are `f32` values carried as bit patterns (see [`crate::float_bits`]).
use vstd::prelude::*;
use crate::float_bits::{f32_gt, is_nan, order_key, spec_lt, F32_ZERO};
use crate::ranking::{best_so_far, is_earliest_min, lemma_best_step, lemma_earliest_min_unique};

verus! {

/// The rank of each score, the highest first; None for NaN.
pub open spec fn utility_ranks(scores: Seq<u32>) -> Seq<Option<int>> {
    scores.map_values(|s: u32| if is_nan(s) {
        None
    } else {
        Some(-order_key(s))
    })
}

/// The action chosen from `scores`: the index of the highest score (the
/// first of equals) when that score is above zero; none otherwise, and none
/// when there are no scores.
pub fn select_best_action(scores: &Vec<u32>) -> (r: Option<usize>)
    requires
        forall|i: int| 0 <= i < scores@.len() ==> !is_nan(#[trigger] scores@[i]),
    ensures
        match r {
            Some(i) => is_earliest_min(utility_ranks(scores@), scores@.len() as int, i as int) && spec_lt(
                F32_ZERO,
                scores@[i as int],
            ),
            None => forall|i: int|
                #[trigger] is_earliest_min(utility_ranks(scores@), scores@.len() as int, i) ==> !spec_lt(
                    F32_ZERO,
                    scores@[i],
                ),
        },
{
    let ghost ranks = utility_ranks(scores@);
    let mut best: Option<usize> = None;
    let mut i: usize = 0;
    while i < scores.len()
        invariant
            i <= scores@.len(),
            ranks == utility_ranks(scores@),
            forall|j: int| 0 <= j < scores@.len() ==> !is_nan(#[trigger] scores@[j]),
            best_so_far(ranks, i as int, best),
        decreases scores@.len() - i,
    {
        let next = match best {
            None => Some(i),
            Some(b) => if f32_gt(scores[i], scores[b]) {
                Some(i)
            } else {
                Some(b)
            },
        };
        proof {
            lemma_best_step(ranks, i as int, best, next);
        }
        best = next;
        i = i + 1;
    }
    match best {
        Some(b) => {
            proof {
                assert forall|k: int| #[trigger] is_earliest_min(ranks, scores@.len() as int, k) implies k == b as int by {
                    lemma_earliest_min_unique(ranks, scores@.len() as int, k, b as int);
                }
            }
            if f32_gt(scores[b], F32_ZERO) {
                Some(b)
            } else {
                None
            }
        },
        None => None,
    }
}

} // verus!
