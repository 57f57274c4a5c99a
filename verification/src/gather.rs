//! Collecting, in order, what each item of a sequence contributes.

use vstd::prelude::*;

verus! {

/// The contributions of the items, one after the other in the order of the
/// items.
pub open spec fn gather<A, B>(items: Seq<A>, each: spec_fn(A) -> Seq<B>) -> Seq<B>
    decreases items.len(),
{
    if items.len() == 0 {
        Seq::empty()
    } else {
        gather(items.drop_last(), each) + each(items.last())
    }
}

/// One more item adds its contribution at the end.
pub proof fn lemma_gather_push<A, B>(items: Seq<A>, item: A, each: spec_fn(A) -> Seq<B>)
    ensures
        gather(items.push(item), each) == gather(items, each) + each(item),
{
    assert(items.push(item).drop_last() =~= items);
}

/// The next item of a sequence adds its contribution to what the items before
/// it gave.
pub proof fn lemma_gather_step<A, B>(items: Seq<A>, count: int, each: spec_fn(A) -> Seq<B>)
    requires
        0 <= count < items.len(),
    ensures
        gather(items.take(count + 1), each) == gather(items.take(count), each) + each(
            items[count],
        ),
{
    assert(items.take(count + 1) =~= items.take(count).push(items[count]));
    lemma_gather_push(items.take(count), items[count], each);
}

/// Gathering over two sequences end to end gives the two results end to end.
pub proof fn lemma_gather_concat<A, B>(left: Seq<A>, right: Seq<A>, each: spec_fn(A) -> Seq<B>)
    ensures
        gather(left + right, each) == gather(left, each) + gather(right, each),
    decreases right.len(),
{
    if right.len() > 0 {
        lemma_gather_concat(left, right.drop_last(), each);
        assert((left + right).drop_last() =~= left + right.drop_last());
    }
}

/// Two ways of contributing that agree on every item gather the same.
pub proof fn lemma_gather_same<A, B>(
    items: Seq<A>,
    one: spec_fn(A) -> Seq<B>,
    other: spec_fn(A) -> Seq<B>,
)
    requires
        forall|i: int| 0 <= i < items.len() ==> one(#[trigger] items[i]) == other(items[i]),
    ensures
        gather(items, one) == gather(items, other),
    decreases items.len(),
{
    if items.len() > 0 {
        lemma_gather_same(items.drop_last(), one, other);
    }
}

/// An item that contributes nothing can be left out.
pub proof fn lemma_gather_without<A, B>(items: Seq<A>, index: int, each: spec_fn(A) -> Seq<B>)
    requires
        0 <= index < items.len(),
        each(items[index]).len() == 0,
    ensures
        gather(items.remove(index), each) == gather(items, each),
{
    let before = items.take(index);
    let after = items.skip(index + 1);
    assert(items =~= before.push(items[index]) + after);
    lemma_gather_concat(before.push(items[index]), after, each);
    lemma_gather_concat(before, after, each);
    lemma_gather_push(before, items[index], each);
}

/// Where no item contributes anything, nothing is gathered.
pub proof fn lemma_gather_nothing<A, B>(items: Seq<A>, each: spec_fn(A) -> Seq<B>)
    requires
        forall|i: int| 0 <= i < items.len() ==> (#[trigger] each(items[i])).len() == 0,
    ensures
        gather(items, each).len() == 0,
    decreases items.len(),
{
    if items.len() > 0 {
        lemma_gather_nothing(items.drop_last(), each);
    }
}

/// Whatever was gathered came from one of the items: the result names the
/// item and the place within its contribution.
pub proof fn lemma_gather_source<A, B>(items: Seq<A>, each: spec_fn(A) -> Seq<B>, found: int) -> (at:
    (int, int))
    requires
        0 <= found < gather(items, each).len(),
    ensures
        0 <= at.0 < items.len(),
        0 <= at.1 < each(items[at.0]).len(),
        each(items[at.0])[at.1] == gather(items, each)[found],
    decreases items.len(),
{
    let earlier = gather(items.drop_last(), each);
    if found < earlier.len() {
        lemma_gather_source(items.drop_last(), each, found)
    } else {
        (items.len() - 1, found - earlier.len())
    }
}

} // verus!
