//! Facts about sequences.

use vstd::prelude::*;

verus! {

/// The sequence with the item at `i` gone and the last item in its place.
pub open spec fn swap_removed<T>(items: Seq<T>, i: int) -> Seq<T> {
    items.update(i, items.last()).drop_last()
}

/// Taking an item out by `swap_removed` takes away that item and no other.
pub proof fn lemma_swap_removed<T>(items: Seq<T>, i: int)
    requires
        0 <= i < items.len(),
    ensures
        swap_removed(items, i).to_multiset() == items.to_multiset().remove(items[i]),
        swap_removed(items, i).len() == items.len() - 1,
{
    broadcast use vstd::seq_lib::group_to_multiset_ensures;

    let last = items.last();
    let rest = items.drop_last();
    assert(items =~= rest.push(last));
    if i == items.len() - 1 {
        assert(swap_removed(items, i) =~= rest);
        assert(rest.to_multiset() =~= items.to_multiset().remove(last));
    } else {
        assert(swap_removed(items, i) =~= rest.update(i, last));
        vstd::seq_lib::to_multiset_update(rest, i, last);
        assert(rest.update(i, last).to_multiset() =~= items.to_multiset().remove(items[i]));
    }
}

} // verus!
