//! Sums of a per-element contribution over a sequence.
//!
//! The stores of this crate (balances, positions, totals) are association
//! lists whose aggregate views are stated as such sums: the balance of one
//! key is the sum of the contributions of the entries that carry that key,
//! and an issuance or totals counter is the sum over a whole currency.
//! The lemmas here say how a sum moves under the edits the stores make.

use vstd::prelude::*;

verus! {

/// The sum of `f` over every element of `s`.
pub open spec fn sum_by<T>(s: Seq<T>, f: spec_fn(T) -> int) -> int
    decreases s.len(),
{
    if s.len() == 0 {
        0
    } else {
        sum_by(s.drop_last(), f) + f(s.last())
    }
}

/// Appending one element adds its contribution.
pub proof fn lemma_sum_by_push<T>(s: Seq<T>, x: T, f: spec_fn(T) -> int)
    ensures
        sum_by(s.push(x), f) == sum_by(s, f) + f(x),
{
    assert(s.push(x).drop_last() =~= s);
    assert(s.push(x).last() == x);
}

/// Replacing the element at `i` moves the sum by the difference of the
/// two contributions.
pub proof fn lemma_sum_by_update<T>(s: Seq<T>, i: int, x: T, f: spec_fn(T) -> int)
    requires
        0 <= i < s.len(),
    ensures
        sum_by(s.update(i, x), f) == sum_by(s, f) - f(s[i]) + f(x),
    decreases s.len(),
{
    if i == s.len() - 1 {
        assert(s.update(i, x).drop_last() =~= s.drop_last());
        assert(s.update(i, x).last() == x);
    } else {
        assert(s.update(i, x).drop_last() =~= s.drop_last().update(i, x));
        assert(s.update(i, x).last() == s.last());
        lemma_sum_by_update(s.drop_last(), i, x, f);
    }
}

/// Removing the element at `i` takes its contribution out of the sum.
pub proof fn lemma_sum_by_remove<T>(s: Seq<T>, i: int, f: spec_fn(T) -> int)
    requires
        0 <= i < s.len(),
    ensures
        sum_by(s.remove(i), f) == sum_by(s, f) - f(s[i]),
    decreases s.len(),
{
    if i == s.len() - 1 {
        assert(s.remove(i) =~= s.drop_last());
    } else {
        assert(s.remove(i).drop_last() =~= s.drop_last().remove(i));
        assert(s.remove(i).last() == s.last());
        lemma_sum_by_remove(s.drop_last(), i, f);
    }
}

/// A sum of non-negative contributions is non-negative.
pub proof fn lemma_sum_by_nonneg<T>(s: Seq<T>, f: spec_fn(T) -> int)
    requires
        forall|k: int| 0 <= k < s.len() ==> #[trigger] f(s[k]) >= 0,
    ensures
        sum_by(s, f) >= 0,
    decreases s.len(),
{
    if s.len() > 0 {
        assert(forall|k: int|
            0 <= k < s.drop_last().len() ==> #[trigger] f(s.drop_last()[k]) == f(s[k]));
        lemma_sum_by_nonneg(s.drop_last(), f);
    }
}

/// With non-negative contributions, one element's contribution is at most
/// the whole sum.
pub proof fn lemma_sum_by_single_le<T>(s: Seq<T>, i: int, f: spec_fn(T) -> int)
    requires
        0 <= i < s.len(),
        forall|k: int| 0 <= k < s.len() ==> #[trigger] f(s[k]) >= 0,
    ensures
        f(s[i]) <= sum_by(s, f),
    decreases s.len(),
{
    if i == s.len() - 1 {
        assert(forall|k: int|
            0 <= k < s.drop_last().len() ==> #[trigger] f(s.drop_last()[k]) == f(s[k]));
        lemma_sum_by_nonneg(s.drop_last(), f);
    } else {
        assert(forall|k: int|
            0 <= k < s.drop_last().len() ==> #[trigger] f(s.drop_last()[k]) == f(s[k]));
        lemma_sum_by_single_le(s.drop_last(), i, f);
    }
}

/// With non-negative contributions, two distinct elements together
/// contribute at most the whole sum.
pub proof fn lemma_sum_by_pair_le<T>(s: Seq<T>, i: int, j: int, f: spec_fn(T) -> int)
    requires
        0 <= i < s.len(),
        0 <= j < s.len(),
        i != j,
        forall|k: int| 0 <= k < s.len() ==> #[trigger] f(s[k]) >= 0,
    ensures
        f(s[i]) + f(s[j]) <= sum_by(s, f),
    decreases s.len(),
{
    let lo = if i < j { i } else { j };
    let hi = if i < j { j } else { i };
    assert(forall|k: int|
        0 <= k < s.drop_last().len() ==> #[trigger] f(s.drop_last()[k]) == f(s[k]));
    if hi == s.len() - 1 {
        lemma_sum_by_single_le(s.drop_last(), lo, f);
    } else {
        lemma_sum_by_pair_le(s.drop_last(), lo, hi, f);
    }
}

/// When every contribution vanishes, so does the sum.
pub proof fn lemma_sum_by_zero<T>(s: Seq<T>, f: spec_fn(T) -> int)
    requires
        forall|k: int| 0 <= k < s.len() ==> #[trigger] f(s[k]) == 0,
    ensures
        sum_by(s, f) == 0,
    decreases s.len(),
{
    if s.len() > 0 {
        assert(forall|k: int|
            0 <= k < s.drop_last().len() ==> #[trigger] f(s.drop_last()[k]) == f(s[k]));
        lemma_sum_by_zero(s.drop_last(), f);
    }
}

/// When only the element at `i` contributes, the sum is that contribution.
pub proof fn lemma_sum_by_only<T>(s: Seq<T>, i: int, f: spec_fn(T) -> int)
    requires
        0 <= i < s.len(),
        forall|k: int| 0 <= k < s.len() && k != i ==> #[trigger] f(s[k]) == 0,
    ensures
        sum_by(s, f) == f(s[i]),
    decreases s.len(),
{
    assert(forall|k: int|
        0 <= k < s.drop_last().len() ==> #[trigger] f(s.drop_last()[k]) == f(s[k]));
    if i == s.len() - 1 {
        lemma_sum_by_zero(s.drop_last(), f);
    } else {
        lemma_sum_by_only(s.drop_last(), i, f);
    }
}

/// A sum is pointwise monotone in its contribution function.
pub proof fn lemma_sum_by_le_pointwise<T>(s: Seq<T>, f: spec_fn(T) -> int, g: spec_fn(T) -> int)
    requires
        forall|k: int| 0 <= k < s.len() ==> #[trigger] f(s[k]) <= #[trigger] g(s[k]),
    ensures
        sum_by(s, f) <= sum_by(s, g),
    decreases s.len(),
{
    if s.len() > 0 {
        assert(forall|k: int|
            0 <= k < s.drop_last().len() ==> #[trigger] f(s.drop_last()[k]) == f(s[k]));
        assert(forall|k: int|
            0 <= k < s.drop_last().len() ==> #[trigger] g(s.drop_last()[k]) == g(s[k]));
        lemma_sum_by_le_pointwise(s.drop_last(), f, g);
    }
}

} // verus!
