//! Sums over sequences, and how they change when a sequence is edited.
use vstd::prelude::*;

verus! {

/// The sum of `f` over the elements of `s`.
pub open spec fn sum_of<A>(s: Seq<A>, f: spec_fn(A) -> int) -> int
    decreases s.len(),
{
    if s.len() == 0 {
        0
    } else {
        sum_of(s.drop_last(), f) + f(s.last())
    }
}

/// Appending adds the new element's value.
pub proof fn lemma_sum_push<A>(s: Seq<A>, a: A, f: spec_fn(A) -> int)
    ensures
        sum_of(s.push(a), f) == sum_of(s, f) + f(a),
{
    assert(s.push(a).drop_last() =~= s);
}

/// Replacing one element changes the sum by the difference.
pub proof fn lemma_sum_update<A>(s: Seq<A>, i: int, a: A, f: spec_fn(A) -> int)
    requires
        0 <= i < s.len(),
    ensures
        sum_of(s.update(i, a), f) == sum_of(s, f) - f(s[i]) + f(a),
    decreases s.len(),
{
    let t = s.update(i, a);
    if i == s.len() - 1 {
        assert(t.drop_last() =~= s.drop_last());
    } else {
        assert(t.drop_last() =~= s.drop_last().update(i, a));
        lemma_sum_update(s.drop_last(), i, a, f);
    }
}

/// Removing one element subtracts its value.
pub proof fn lemma_sum_remove<A>(s: Seq<A>, i: int, f: spec_fn(A) -> int)
    requires
        0 <= i < s.len(),
    ensures
        sum_of(s.remove(i), f) == sum_of(s, f) - f(s[i]),
    decreases s.len(),
{
    let t = s.remove(i);
    if i == s.len() - 1 {
        assert(t =~= s.drop_last());
    } else {
        assert(t.drop_last() =~= s.drop_last().remove(i));
        assert(t.last() == s.last());
        lemma_sum_remove(s.drop_last(), i, f);
    }
}

/// With no negative values, a prefix sums to at most the whole and every
/// element's value is at most the whole.
pub proof fn lemma_sum_bounds<A>(s: Seq<A>, f: spec_fn(A) -> int, n: int)
    requires
        forall|j: int| 0 <= j < s.len() ==> f(#[trigger] s[j]) >= 0,
        0 <= n <= s.len(),
    ensures
        0 <= sum_of(s.take(n), f) <= sum_of(s, f),
        n < s.len() ==> f(s[n]) <= sum_of(s, f),
    decreases s.len() - n,
{
    if n < s.len() {
        lemma_sum_bounds(s, f, n + 1);
        assert(s.take(n + 1).drop_last() =~= s.take(n));
        lemma_sum_nonneg(s.take(n), f);
    } else {
        assert(s.take(n) =~= s);
        lemma_sum_nonneg(s, f);
    }
}

/// With no negative values the sum is not negative.
pub proof fn lemma_sum_nonneg<A>(s: Seq<A>, f: spec_fn(A) -> int)
    requires
        forall|j: int| 0 <= j < s.len() ==> f(#[trigger] s[j]) >= 0,
    ensures
        sum_of(s, f) >= 0,
    decreases s.len(),
{
    if s.len() > 0 {
        assert forall|j: int| 0 <= j < s.drop_last().len() implies f(#[trigger] s.drop_last()[j])
            >= 0 by {
            assert(s.drop_last()[j] == s[j]);
        }
        lemma_sum_nonneg(s.drop_last(), f);
    }
}

/// One more element of the prefix adds its value.
pub proof fn lemma_sum_take_step<A>(s: Seq<A>, f: spec_fn(A) -> int, n: int)
    requires
        0 <= n < s.len(),
    ensures
        sum_of(s.take(n + 1), f) == sum_of(s.take(n), f) + f(s[n]),
{
    assert(s.take(n + 1).drop_last() =~= s.take(n));
}

/// A pointwise smaller function sums to no more.
pub proof fn lemma_sum_le<A>(s: Seq<A>, f: spec_fn(A) -> int, g: spec_fn(A) -> int)
    requires
        forall|j: int| 0 <= j < s.len() ==> f(#[trigger] s[j]) <= g(s[j]),
    ensures
        sum_of(s, f) <= sum_of(s, g),
    decreases s.len(),
{
    if s.len() > 0 {
        assert forall|j: int| 0 <= j < s.drop_last().len() implies f(#[trigger] s.drop_last()[j])
            <= g(s.drop_last()[j]) by {
            assert(s.drop_last()[j] == s[j]);
        }
        lemma_sum_le(s.drop_last(), f, g);
        assert(f(s[s.len() - 1]) <= g(s[s.len() - 1]));
    }
}

/// Sums add up pointwise: where `f + g` and `h + k` agree on every
/// element, so do their sums.
pub proof fn lemma_sum_add<A>(
    s: Seq<A>,
    f: spec_fn(A) -> int,
    g: spec_fn(A) -> int,
    h: spec_fn(A) -> int,
    k: spec_fn(A) -> int,
)
    requires
        forall|j: int| 0 <= j < s.len() ==> f(#[trigger] s[j]) + g(s[j]) == h(s[j]) + k(s[j]),
    ensures
        sum_of(s, f) + sum_of(s, g) == sum_of(s, h) + sum_of(s, k),
    decreases s.len(),
{
    if s.len() > 0 {
        assert forall|j: int| 0 <= j < s.drop_last().len() implies f(#[trigger] s.drop_last()[j])
            + g(s.drop_last()[j]) == h(s.drop_last()[j]) + k(s.drop_last()[j]) by {
            assert(s.drop_last()[j] == s[j]);
        }
        lemma_sum_add(s.drop_last(), f, g, h, k);
        assert(f(s[s.len() - 1]) + g(s[s.len() - 1]) == h(s[s.len() - 1]) + k(s[s.len() - 1]));
    }
}

} // verus!
