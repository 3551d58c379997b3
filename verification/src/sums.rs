//! Finite sums over sequences, and the facts the estimator needs about
//! them: how a sum changes when one element is removed, that a sum is
//! invariant under permutation, and how large a sum can grow.

use vstd::prelude::*;
use vstd::seq_lib::group_to_multiset_ensures;

verus! {

/// The sum of `f` over every element of `s`, accumulated left to right.
pub open spec fn sum_by<A>(s: Seq<A>, f: spec_fn(A) -> int) -> int
    decreases s.len(),
{
    if s.len() == 0 {
        0
    } else {
        sum_by(s.drop_last(), f) + f(s.last())
    }
}

/// Removing one element takes exactly its contribution out of the sum.
pub proof fn lemma_sum_by_remove<A>(s: Seq<A>, j: int, f: spec_fn(A) -> int)
    requires
        0 <= j < s.len(),
    ensures
        sum_by(s.remove(j), f) == sum_by(s, f) - f(s[j]),
    decreases s.len(),
{
    if j == s.len() - 1 {
        assert(s.remove(j) =~= s.drop_last());
    } else {
        assert(s.remove(j).drop_last() =~= s.drop_last().remove(j));
        assert(s.remove(j).last() == s.last());
        lemma_sum_by_remove(s.drop_last(), j, f);
    }
}

/// Two sequences holding the same elements with the same multiplicities
/// have the same sum: summation does not depend on order.
pub proof fn lemma_sum_by_permutation<A>(s1: Seq<A>, s2: Seq<A>, f: spec_fn(A) -> int)
    requires
        s1.to_multiset() == s2.to_multiset(),
    ensures
        sum_by(s1, f) == sum_by(s2, f),
    decreases s1.len(),
{
    broadcast use group_to_multiset_ensures;

    if s1.len() == 0 {
        assert(s1.to_multiset().len() == s1.len());
        assert(s2.to_multiset().len() == s2.len());
        assert(s2.len() == 0);
    } else {
        let a = s1.last();
        let i = s1.len() - 1;
        assert(s1[i] == a);
        assert(s1.to_multiset().count(a) > 0);
        assert(s2.contains(a));
        let j = choose|j: int| 0 <= j < s2.len() && s2[j] == a;
        assert(s1.remove(i).to_multiset() == s1.to_multiset().remove(a));
        assert(s2.remove(j).to_multiset() == s2.to_multiset().remove(a));
        assert(s1.remove(i) =~= s1.drop_last());
        lemma_sum_by_permutation(s1.drop_last(), s2.remove(j), f);
        lemma_sum_by_remove(s2, j, f);
    }
}

/// A sum of elementwise-bounded terms is bounded by the length times the
/// bound.
pub proof fn lemma_sum_by_bound<A>(s: Seq<A>, f: spec_fn(A) -> int, c: int)
    requires
        forall|i: int| 0 <= i < s.len() ==> -c <= #[trigger] f(s[i]) <= c,
        c >= 0,
    ensures
        -(s.len() * c) <= sum_by(s, f) <= s.len() * c,
    decreases s.len(),
{
    if s.len() == 0 {
    } else {
        assert(forall|i: int|
            0 <= i < s.drop_last().len() ==> -c <= #[trigger] f(s.drop_last()[i]) <= c) by {
            assert(forall|i: int| 0 <= i < s.drop_last().len() ==> s.drop_last()[i] == s[i]);
        }
        lemma_sum_by_bound(s.drop_last(), f, c);
        assert(-c <= f(s[s.len() - 1]) <= c);
        assert(s.last() == s[s.len() - 1]);
        assert(s.len() * c == s.drop_last().len() * c + c) by (nonlinear_arith)
            requires
                s.len() >= 1,
                s.drop_last().len() == s.len() - 1,
        ;
    }
}

/// A sum whose every term is the same constant is the length times that
/// constant.
pub proof fn lemma_sum_by_constant<A>(s: Seq<A>, f: spec_fn(A) -> int, c: int)
    requires
        forall|i: int| 0 <= i < s.len() ==> #[trigger] f(s[i]) == c,
    ensures
        sum_by(s, f) == s.len() * c,
    decreases s.len(),
{
    if s.len() == 0 {
    } else {
        assert(forall|i: int|
            0 <= i < s.drop_last().len() ==> #[trigger] f(s.drop_last()[i]) == c) by {
            assert(forall|i: int| 0 <= i < s.drop_last().len() ==> s.drop_last()[i] == s[i]);
        }
        lemma_sum_by_constant(s.drop_last(), f, c);
        assert(s.last() == s[s.len() - 1]);
        assert(f(s[s.len() - 1]) == c);
        assert(s.len() * c == s.drop_last().len() * c + c) by (nonlinear_arith)
            requires
                s.len() >= 1,
                s.drop_last().len() == s.len() - 1,
        ;
    }
}

/// The sum of `f` over positionwise pairs of `xs` and `ys`, paired from the
/// back, accumulated left to right.
pub open spec fn sum_by2<A, B>(xs: Seq<A>, ys: Seq<B>, f: spec_fn(A, B) -> int) -> int
    decreases xs.len(),
{
    if xs.len() == 0 {
        0
    } else {
        sum_by2(xs.drop_last(), ys.drop_last(), f) + f(xs.last(), ys.last())
    }
}

} // verus!
