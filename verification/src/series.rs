//! Sums and concatenations over sequences, and how they grow step by step.

use vstd::prelude::*;

verus! {

/// The sum of a sequence of amounts.
pub open spec fn sum(values: Seq<nat>) -> nat
    decreases values.len(),
{
    if values.len() == 0 {
        0
    } else {
        sum(values.drop_last()) + values.last()
    }
}

/// The lists of a sequence, one after the other.
pub open spec fn concat<T>(lists: Seq<Seq<T>>) -> Seq<T>
    decreases lists.len(),
{
    if lists.len() == 0 {
        Seq::empty()
    } else {
        concat(lists.drop_last()) + lists.last()
    }
}

/// The sum of the first `n + 1` amounts is the sum of the first `n` and the
/// next one.
pub proof fn lemma_sum_step(values: Seq<nat>, n: int)
    requires
        0 <= n < values.len(),
    ensures
        sum(values.take(n + 1)) == sum(values.take(n)) + values[n],
{
    assert(values.take(n + 1).drop_last() =~= values.take(n));
}

/// A sum of amounts is at least the sum of any of its prefixes.
pub proof fn lemma_sum_prefix(values: Seq<nat>, n: int)
    requires
        0 <= n <= values.len(),
    ensures
        sum(values.take(n)) <= sum(values),
    decreases values.len() - n,
{
    if n == values.len() {
        assert(values.take(n) =~= values);
    } else {
        lemma_sum_step(values, n);
        lemma_sum_prefix(values, n + 1);
    }
}

/// A sum of zeros is zero.
pub proof fn lemma_sum_of_zeros(values: Seq<nat>)
    requires
        forall|i: int| 0 <= i < values.len() ==> values[i] == 0,
    ensures
        sum(values) == 0,
    decreases values.len(),
{
    if values.len() > 0 {
        lemma_sum_of_zeros(values.drop_last());
    }
}

/// The sum of two sequences, one after the other, is the sum of their sums.
pub proof fn lemma_sum_of_both(first: Seq<nat>, second: Seq<nat>)
    ensures
        sum(first + second) == sum(first) + sum(second),
    decreases second.len(),
{
    if second.len() == 0 {
        assert(first + second =~= first);
    } else {
        assert((first + second).drop_last() =~= first + second.drop_last());
        lemma_sum_of_both(first, second.drop_last());
    }
}

/// A sum in which one amount alone is not zero is that amount.
pub proof fn lemma_sum_of_one(values: Seq<nat>, at: int)
    requires
        0 <= at < values.len(),
        forall|i: int| 0 <= i < values.len() && i != at ==> values[i] == 0,
    ensures
        sum(values) == values[at],
    decreases values.len(),
{
    if at == values.len() - 1 {
        lemma_sum_of_zeros(values.drop_last());
    } else {
        lemma_sum_of_one(values.drop_last(), at);
    }
}

/// The first `n + 1` lists, one after the other, are the first `n` followed
/// by the next one.
pub proof fn lemma_concat_step<T>(lists: Seq<Seq<T>>, n: int)
    requires
        0 <= n < lists.len(),
    ensures
        concat(lists.take(n + 1)) == concat(lists.take(n)) + lists[n],
{
    assert(lists.take(n + 1).drop_last() =~= lists.take(n));
}

} // verus!
