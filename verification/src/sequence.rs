//! Positions in sequences.

use vstd::prelude::*;

verus! {

/// `at` is the index of the first element of `s` that satisfies `pred`.
pub open spec fn is_first_at<T>(s: Seq<T>, pred: spec_fn(T) -> bool, at: int) -> bool {
    &&& 0 <= at < s.len()
    &&& pred(s[at])
    &&& forall|k: int| 0 <= k < at ==> !pred(#[trigger] s[k])
}

/// No element of `s` satisfies `pred`.
pub open spec fn none_satisfies<T>(s: Seq<T>, pred: spec_fn(T) -> bool) -> bool {
    forall|k: int| 0 <= k < s.len() ==> !pred(#[trigger] s[k])
}

/// The index of the first element of `s` that satisfies `pred`.
pub open spec fn spec_position<T>(s: Seq<T>, pred: spec_fn(T) -> bool) -> Option<int> {
    if exists|at: int| is_first_at(s, pred, at) {
        Some(choose|at: int| is_first_at(s, pred, at))
    } else {
        None
    }
}

/// There is at most one first index.
pub proof fn lemma_position_found<T>(s: Seq<T>, pred: spec_fn(T) -> bool, at: int)
    requires
        is_first_at(s, pred, at),
    ensures
        spec_position(s, pred) == Some(at),
{
    let chosen = choose|at: int| is_first_at(s, pred, at);
    if chosen < at {
        assert(!pred(s[chosen]));
    } else if at < chosen {
        assert(!pred(s[at]));
    }
}

/// Where nothing satisfies the predicate, there is no position.
pub proof fn lemma_position_missing<T>(s: Seq<T>, pred: spec_fn(T) -> bool)
    requires
        none_satisfies(s, pred),
    ensures
        spec_position(s, pred) is None,
{
    if exists|at: int| is_first_at(s, pred, at) {
        let at = choose|at: int| is_first_at(s, pred, at);
        assert(!pred(s[at]));
    }
}

/// A position is the first index that satisfies the predicate; without one,
/// nothing satisfies it.
pub proof fn lemma_position_meaning<T>(s: Seq<T>, pred: spec_fn(T) -> bool)
    ensures
        match spec_position(s, pred) {
            Some(at) => is_first_at(s, pred, at),
            None => none_satisfies(s, pred),
        },
{
    if exists|at: int| is_first_at(s, pred, at) {
    } else {
        lemma_no_first_means_none(s, pred, s.len() as int);
    }
}

/// Without a first index, no element up to `upto` satisfies the predicate.
proof fn lemma_no_first_means_none<T>(s: Seq<T>, pred: spec_fn(T) -> bool, upto: int)
    requires
        0 <= upto <= s.len(),
        !exists|at: int| is_first_at(s, pred, at),
    ensures
        forall|k: int| 0 <= k < upto ==> !pred(#[trigger] s[k]),
    decreases upto,
{
    if upto > 0 {
        lemma_no_first_means_none(s, pred, upto - 1);
        if pred(s[upto - 1]) {
            assert(is_first_at(s, pred, upto - 1));
        }
    }
}

} // verus!
