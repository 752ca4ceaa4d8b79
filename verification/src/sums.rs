//! Weighted, filtered sums over sequences, and the little algebra the
//! engine's contracts need about them: congruence, splitting a sum along a
//! disjoint case split of its filter, emptiness, sign and magnitude bounds.
//!
//! Every aggregate the engine computes is stated as a `wsum`: the sum of a
//! weight over exactly those elements of a sequence that a filter selects.

use vstd::prelude::*;

verus! {

/// The sum of `w` over the elements of `s` selected by `f`.
pub open spec fn wsum<A>(s: Seq<A>, f: spec_fn(A) -> bool, w: spec_fn(A) -> int) -> int
    decreases s.len(),
{
    if s.len() == 0 {
        0
    } else {
        wsum(s.drop_last(), f, w) + if f(s.last()) {
            w(s.last())
        } else {
            0
        }
    }
}

/// The weight that counts each element once.
pub open spec fn one_w<A>() -> spec_fn(A) -> int {
    |a: A| 1
}

/// How many elements of `s` the filter `f` selects.
pub open spec fn count<A>(s: Seq<A>, f: spec_fn(A) -> bool) -> int {
    wsum(s, f, one_w())
}

/// A sum only looks at the filter's and the weight's values on the
/// sequence's own elements.
pub proof fn lemma_wsum_congruence<A>(
    s: Seq<A>,
    f1: spec_fn(A) -> bool,
    w1: spec_fn(A) -> int,
    f2: spec_fn(A) -> bool,
    w2: spec_fn(A) -> int,
)
    requires
        forall|i: int| 0 <= i < s.len() ==> f1(s[i]) == f2(s[i]),
        forall|i: int| 0 <= i < s.len() ==> w1(s[i]) == w2(s[i]),
    ensures
        wsum(s, f1, w1) == wsum(s, f2, w2),
    decreases s.len(),
{
    if s.len() > 0 {
        lemma_wsum_congruence(s.drop_last(), f1, w1, f2, w2);
    }
}

/// Extending the summed prefix by one element adds that element's
/// contribution.
pub proof fn lemma_wsum_take_step<A>(s: Seq<A>, f: spec_fn(A) -> bool, w: spec_fn(A) -> int, i: int)
    requires
        0 <= i < s.len(),
    ensures
        wsum(s.take(i + 1), f, w) == wsum(s.take(i), f, w) + if f(s[i]) {
            w(s[i])
        } else {
            0
        },
{
    assert(s.take(i + 1).drop_last() =~= s.take(i));
    assert(s.take(i + 1).last() == s[i]);
}

/// A sum splits along a disjoint case split of its filter.
pub proof fn lemma_wsum_split<A>(
    s: Seq<A>,
    f: spec_fn(A) -> bool,
    f1: spec_fn(A) -> bool,
    f2: spec_fn(A) -> bool,
    w: spec_fn(A) -> int,
)
    requires
        forall|i: int| 0 <= i < s.len() ==> f(s[i]) == (f1(s[i]) || f2(s[i])),
        forall|i: int| 0 <= i < s.len() ==> !(f1(s[i]) && f2(s[i])),
    ensures
        wsum(s, f, w) == wsum(s, f1, w) + wsum(s, f2, w),
    decreases s.len(),
{
    if s.len() > 0 {
        lemma_wsum_split(s.drop_last(), f, f1, f2, w);
    }
}

/// A filter that selects nothing sums to zero.
pub proof fn lemma_wsum_empty<A>(s: Seq<A>, f: spec_fn(A) -> bool, w: spec_fn(A) -> int)
    requires
        forall|i: int| 0 <= i < s.len() ==> !f(s[i]),
    ensures
        wsum(s, f, w) == 0,
    decreases s.len(),
{
    if s.len() > 0 {
        lemma_wsum_empty(s.drop_last(), f, w);
    }
}

/// With non-negative weights a sum is non-negative.
pub proof fn lemma_wsum_nonneg<A>(s: Seq<A>, f: spec_fn(A) -> bool, w: spec_fn(A) -> int)
    requires
        forall|i: int| 0 <= i < s.len() ==> w(s[i]) >= 0,
    ensures
        wsum(s, f, w) >= 0,
    decreases s.len(),
{
    if s.len() > 0 {
        lemma_wsum_nonneg(s.drop_last(), f, w);
    }
}

/// With weights bounded in magnitude, a sum is bounded by the sequence
/// length times the bound.
pub proof fn lemma_wsum_bound<A>(s: Seq<A>, f: spec_fn(A) -> bool, w: spec_fn(A) -> int, b: int)
    requires
        b >= 0,
        forall|i: int| 0 <= i < s.len() ==> -b <= #[trigger] w(s[i]) <= b,
    ensures
        -(s.len() * b) <= wsum(s, f, w) <= s.len() * b,
    decreases s.len(),
{
    if s.len() > 0 {
        lemma_wsum_bound(s.drop_last(), f, w, b);
        assert((s.len() - 1) * b + b == s.len() * b) by (nonlinear_arith);
    }
}

/// A count is zero exactly when the filter selects no element.
pub proof fn lemma_count_zero<A>(s: Seq<A>, f: spec_fn(A) -> bool)
    ensures
        count(s, f) == 0 <==> (forall|i: int| 0 <= i < s.len() ==> !f(s[i])),
        count(s, f) >= 0,
    decreases s.len(),
{
    if s.len() > 0 {
        lemma_count_zero(s.drop_last(), f);
        if f(s.last()) {
            assert(f(s[s.len() - 1]));
        } else {
            assert(forall|i: int| 0 <= i < s.len() - 1 ==> s.drop_last()[i] == s[i]);
        }
    }
}

/// If no element passes a coarser filter, a sum over a finer one is zero.
pub proof fn lemma_wsum_subfilter_zero<A>(
    s: Seq<A>,
    coarse: spec_fn(A) -> bool,
    fine: spec_fn(A) -> bool,
    w: spec_fn(A) -> int,
)
    requires
        count(s, coarse) == 0,
        forall|i: int| 0 <= i < s.len() ==> (fine(s[i]) ==> coarse(s[i])),
    ensures
        wsum(s, fine, w) == 0,
{
    lemma_count_zero(s, coarse);
    lemma_wsum_empty(s, fine, w);
}

} // verus!
