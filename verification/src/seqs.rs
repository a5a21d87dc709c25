//! Sequences of values seen through their views.

use vstd::prelude::*;

verus! {

/// The views of the items of a sequence, in the same order.
pub open spec fn views<T: View>(items: Seq<T>) -> Seq<T::V> {
    items.map_values(|item: T| item@)
}

/// Extending a prefix of `items` by one item extends its filtered form by that
/// item where the predicate holds of it, and leaves it unchanged where not.
pub proof fn lemma_filter_next<A>(items: Seq<A>, keep: spec_fn(A) -> bool, i: int)
    requires
        0 <= i < items.len(),
    ensures
        items.take(i + 1).filter(keep) == if keep(items[i]) {
            items.take(i).filter(keep).push(items[i])
        } else {
            items.take(i).filter(keep)
        },
{
    reveal(Seq::filter);
    assert(items.take(i + 1).drop_last() =~= items.take(i));
}

/// Filtering keeps exactly the items of which the predicate holds.
pub proof fn lemma_filter_keeps_exactly<A>(items: Seq<A>, keep: spec_fn(A) -> bool, item: A)
    ensures
        items.filter(keep).contains(item) <==> items.contains(item) && keep(item),
{
    if items.filter(keep).contains(item) {
        items.lemma_filter_contains_rev(keep, item);
        let i = choose|i: int| 0 <= i < items.filter(keep).len() && items.filter(keep)[i] == item;
        items.lemma_filter_pred(keep, i);
    }
    if items.contains(item) && keep(item) {
        let i = choose|i: int| 0 <= i < items.len() && items[i] == item;
        items.lemma_filter_contains(keep, i);
    }
}

/// An item of which the predicate does not hold can be put anywhere into a
/// sequence without changing its filtered form.
pub proof fn lemma_filter_ignores<A>(items: Seq<A>, keep: spec_fn(A) -> bool, at: int, item: A)
    requires
        0 <= at <= items.len(),
        !keep(item),
    ensures
        items.insert(at, item).filter(keep) == items.filter(keep),
{
    reveal(Seq::filter);
    let single = seq![item];
    assert(single.drop_last().filter(keep) =~= Seq::<A>::empty());
    assert(single.filter(keep) =~= Seq::<A>::empty());
    assert(items.insert(at, item) =~= (items.take(at) + single) + items.skip(at));
    assert(items =~= items.take(at) + items.skip(at));
    Seq::filter_distributes_over_add(items.take(at) + single, items.skip(at), keep);
    Seq::filter_distributes_over_add(items.take(at), single, keep);
    Seq::filter_distributes_over_add(items.take(at), items.skip(at), keep);
    assert(items.take(at).filter(keep) + single.filter(keep) =~= items.take(at).filter(keep));
}

} // verus!
