//! Choosing the two experts with the largest router logits.
//!
//! Logits are 32-bit floats, held by their bit patterns.

use crate::float_order::{greater, is_greater, is_nan, rank};
use vstd::prelude::*;

verus! {

/// The positions of the largest logit and of the next: a later logit takes a place only if it is
/// greater than the one that has it.
pub open spec fn top_two(logits: Seq<u32>) -> (int, int)
    decreases logits.len(),
{
    if logits.len() <= 2 {
        if greater(logits[1], logits[0]) {
            (1, 0)
        } else {
            (0, 1)
        }
    } else {
        let (first, second) = top_two(logits.drop_last());
        if greater(logits.last(), logits[first]) {
            (logits.len() - 1, first)
        } else if greater(logits.last(), logits[second]) {
            (first, logits.len() - 1)
        } else {
            (first, second)
        }
    }
}

/// Whatever the logits are, two different experts are chosen.
pub proof fn two_experts_are_chosen(logits: Seq<u32>)
    requires
        logits.len() >= 2,
    ensures
        0 <= top_two(logits).0 < logits.len(),
        0 <= top_two(logits).1 < logits.len(),
        top_two(logits).0 != top_two(logits).1,
    decreases logits.len(),
{
    if logits.len() > 2 {
        two_experts_are_chosen(logits.drop_last());
    }
}

/// Select the top two experts from router logits.
pub fn select_top2(logits: &[u32]) -> (r: (usize, usize))
    requires
        logits.len() >= 2,
    ensures
        (r.0 as int, r.1 as int) == top_two(logits@),
{
    let mut top1_idx: usize = 0;
    let mut top2_idx: usize = 1;
    if is_greater(logits[1], logits[0]) {
        top1_idx = 1;
        top2_idx = 0;
    }
    let mut i: usize = 2;
    assert(logits@.take(2)[0] == logits@[0]);
    while i < logits.len()
        invariant
            2 <= i <= logits.len(),
            (top1_idx as int, top2_idx as int) == top_two(logits@.take(i as int)),
            top1_idx < i,
            top2_idx < i,
        decreases logits.len() - i,
    {
        assert(logits@.take(i + 1).drop_last() =~= logits@.take(i as int));
        if is_greater(logits[i], logits[top1_idx]) {
            top2_idx = top1_idx;
            top1_idx = i;
        } else if is_greater(logits[i], logits[top2_idx]) {
            top2_idx = i;
        }
        i += 1;
    }
    assert(logits@.take(i as int) =~= logits@);
    (top1_idx, top2_idx)
}

/// Where all logits are numbers, the first expert's logit is the largest and the second's the
/// largest of the others, and of equal logits the earlier one is chosen.
pub proof fn largest_logits_are_chosen(logits: Seq<u32>)
    requires
        logits.len() >= 2,
        forall|i: int| 0 <= i < logits.len() ==> !is_nan(#[trigger] logits[i]),
    ensures
        ({
            let (first, second) = top_two(logits);
            &&& forall|i: int|
                0 <= i < logits.len() ==> rank(#[trigger] logits[i]) <= rank(logits[first])
            &&& forall|i: int|
                0 <= i < logits.len() && i != first ==> rank(#[trigger] logits[i]) <= rank(
                    logits[second],
                )
            &&& forall|i: int|
                0 <= i < first ==> rank(#[trigger] logits[i]) < rank(logits[first])
            &&& forall|i: int|
                0 <= i < second && i != first ==> rank(#[trigger] logits[i]) < rank(
                    logits[second],
                )
        }),
    decreases logits.len(),
{
    if logits.len() > 2 {
        let before: Seq<u32> = logits.drop_last();
        two_experts_are_chosen(before);
        largest_logits_are_chosen(before);
        let (first, second) = top_two(before);
        assert forall|i: int| 0 <= i < before.len() implies #[trigger] logits[i] == before[i] by {}
        assert(!is_nan(logits[logits.len() - 1]));
        assert(!is_nan(logits[first]) && !is_nan(logits[second]));
    } else {
        assert(!is_nan(logits[0]) && !is_nan(logits[1]));
    }
}

} // verus!
