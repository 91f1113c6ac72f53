//! Choosing the nearest of a row of candidate hits.
//!
//! A candidate is the distance of a hit, or `None` where there is no hit. The
//! candidates are taken in order: the first hit is kept until a later one is
//! strictly nearer.

use crate::scalar::Scalar;
use vstd::prelude::*;

verus! {

/// The index that is kept after all of `candidates` have been taken in
/// order.
pub open spec fn nearest(candidates: Seq<Option<Scalar>>) -> Option<int>
    decreases candidates.len(),
{
    if candidates.len() == 0 {
        None
    } else {
        let last = candidates.len() - 1;
        nearer(candidates, nearest(candidates.drop_last()), last)
    }
}

/// One step of the choice: `kept` is what the candidates before `next` gave.
pub open spec fn nearer(candidates: Seq<Option<Scalar>>, kept: Option<int>, next: int) -> Option<
    int,
> {
    match (candidates[next], kept) {
        (None, _) => kept,
        (Some(_), None) => Some(next),
        (Some(distance), Some(k)) => if distance.lt(candidates[k].unwrap()) {
            Some(next)
        } else {
            kept
        },
    }
}

/// Every distance among the candidates is a number.
pub open spec fn all_numbers(candidates: Seq<Option<Scalar>>) -> bool {
    forall|j: int|
        0 <= j < candidates.len() ==> (#[trigger] candidates[j] matches Some(d) ==> !d.is_nan())
}

/// `i` is a hit, no hit is nearer, and every hit before it is strictly
/// farther.
pub open spec fn first_minimum(candidates: Seq<Option<Scalar>>, i: int) -> bool {
    &&& 0 <= i < candidates.len()
    &&& candidates[i] is Some
    &&& forall|j: int|
        0 <= j < candidates.len() && (#[trigger] candidates[j]) is Some ==> candidates[i].unwrap().rank()
            <= candidates[j].unwrap().rank()
    &&& forall|j: int|
        0 <= j < i && (#[trigger] candidates[j]) is Some ==> candidates[i].unwrap().rank()
            < candidates[j].unwrap().rank()
}

/// There is a choice exactly when there is a hit, and the choice is a hit.
pub proof fn lemma_nearest_is_hit(candidates: Seq<Option<Scalar>>)
    ensures
        nearest(candidates) is None <==> forall|j: int|
            0 <= j < candidates.len() ==> (#[trigger] candidates[j]) is None,
        nearest(candidates) matches Some(i) ==> 0 <= i < candidates.len() && candidates[i] is Some,
    decreases candidates.len(),
{
    if candidates.len() > 0 {
        let before = candidates.drop_last();
        lemma_nearest_is_hit(before);
        assert forall|j: int| 0 <= j < before.len() implies before[j] == candidates[j] by {}
    }
}

/// Where every distance is a number, the choice is the first of the nearest
/// hits.
pub proof fn lemma_nearest_is_first_minimum(candidates: Seq<Option<Scalar>>)
    requires
        all_numbers(candidates),
    ensures
        nearest(candidates) matches Some(i) ==> first_minimum(candidates, i),
    decreases candidates.len(),
{
    if candidates.len() > 0 {
        let before = candidates.drop_last();
        assert forall|j: int| 0 <= j < before.len() implies before[j] == candidates[j] by {}
        lemma_nearest_is_first_minimum(before);
        lemma_nearest_is_hit(before);
    }
}

/// An index of a vector as the integer it stands for.
pub open spec fn option_index(i: Option<usize>) -> Option<int> {
    match i {
        Some(k) => Some(k as int),
        None => None,
    }
}

/// The index of what is kept, without its distance.
pub open spec fn kept_index(kept: Option<(usize, Scalar)>) -> Option<usize> {
    match kept {
        Some((k, _)) => Some(k),
        None => None,
    }
}

/// Takes the next candidate, at index `next`, after the candidates before it
/// left `kept`: a hit replaces nothing, or a hit that is strictly farther.
pub(crate) fn take_candidate(
    kept: Option<(usize, Scalar)>,
    next: usize,
    candidate: Option<Scalar>,
) -> (r: Option<(usize, Scalar)>)
    ensures
        r == match (candidate, kept) {
            (None, _) => kept,
            (Some(distance), None) => Some((next, distance)),
            (Some(distance), Some((_, held))) => if distance.lt(held) {
                Some((next, distance))
            } else {
                kept
            },
        },
{
    match candidate {
        None => kept,
        Some(distance) => match kept {
            None => Some((next, distance)),
            Some((_, held)) => if distance.less_than(&held) {
                Some((next, distance))
            } else {
                kept
            },
        },
    }
}

} // verus!
