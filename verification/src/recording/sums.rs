//! Sums over sequences, by a measure of their items.

use vstd::prelude::*;

verus! {

/// The sum of `measure` over the items of `items`.
pub open spec fn sum_by<T>(items: Seq<T>, measure: spec_fn(T) -> int) -> int
    decreases items.len(),
{
    if items.len() == 0 {
        0
    } else {
        sum_by(items.drop_last(), measure) + measure(items.last())
    }
}

/// One more item at the end adds its measure.
pub proof fn lemma_sum_by_push<T>(items: Seq<T>, item: T, measure: spec_fn(T) -> int)
    ensures
        sum_by(items.push(item), measure) == sum_by(items, measure) + measure(item),
{
    assert(items.push(item).drop_last() =~= items);
}

/// The sum over two sequences in a row is the sum of their sums.
pub proof fn lemma_sum_by_concat<T>(front: Seq<T>, back: Seq<T>, measure: spec_fn(T) -> int)
    ensures
        sum_by(front + back, measure) == sum_by(front, measure) + sum_by(back, measure),
    decreases back.len(),
{
    if back.len() == 0 {
    } else {
        assert((front + back).drop_last() =~= front + back.drop_last());
        lemma_sum_by_concat(front, back.drop_last(), measure);
    }
}

/// The sum of a sequence that is not empty is the measure of its first item
/// plus the sum of the rest.
pub proof fn lemma_sum_by_first<T>(items: Seq<T>, measure: spec_fn(T) -> int)
    requires
        items.len() > 0,
    ensures
        sum_by(items, measure) == measure(items[0]) + sum_by(items.drop_first(), measure),
{
    let head = seq![items[0]];
    lemma_sum_by_push(Seq::<T>::empty(), items[0], measure);
    assert(items =~= head + items.drop_first());
    lemma_sum_by_concat(head, items.drop_first(), measure);
}

/// Replacing one item changes the sum by the difference of the two measures.
pub proof fn lemma_sum_by_update<T>(items: Seq<T>, at: int, item: T, measure: spec_fn(T) -> int)
    requires
        0 <= at < items.len(),
    ensures
        sum_by(items.update(at, item), measure) == sum_by(items, measure) - measure(items[at])
            + measure(item),
    decreases items.len(),
{
    if at == items.len() - 1 {
        assert(items.update(at, item).drop_last() =~= items.drop_last());
    } else {
        assert(items.update(at, item).drop_last() =~= items.drop_last().update(at, item));
        lemma_sum_by_update(items.drop_last(), at, item, measure);
    }
}

/// A sum of measures none of which is negative is not negative.
pub proof fn lemma_sum_by_nonnegative<T>(items: Seq<T>, measure: spec_fn(T) -> int)
    requires
        forall|i: int| 0 <= i < items.len() ==> measure(#[trigger] items[i]) >= 0,
    ensures
        sum_by(items, measure) >= 0,
    decreases items.len(),
{
    if items.len() > 0 {
        lemma_sum_by_nonnegative(items.drop_last(), measure);
    }
}

/// Where no measure is negative, the first items sum to no more than all of
/// them.
pub proof fn lemma_sum_by_prefix<T>(items: Seq<T>, n: int, measure: spec_fn(T) -> int)
    requires
        0 <= n <= items.len(),
        forall|i: int| 0 <= i < items.len() ==> measure(#[trigger] items[i]) >= 0,
    ensures
        0 <= sum_by(items.take(n), measure) <= sum_by(items, measure),
{
    assert(items =~= items.take(n) + items.skip(n));
    lemma_sum_by_concat(items.take(n), items.skip(n), measure);
    lemma_sum_by_nonnegative(items.take(n), measure);
    lemma_sum_by_nonnegative(items.skip(n), measure);
}

} // verus!
