//! Counting in the record of what a handler was told to do.

use vstd::prelude::*;

verus! {

/// How often `item` occurs in `items`.
pub open spec fn occurrences<T>(items: Seq<T>, item: T) -> nat
    decreases items.len(),
{
    if items.len() == 0 {
        0
    } else {
        occurrences(items.drop_last(), item) + if items.last() == item {
            1nat
        } else {
            0nat
        }
    }
}

/// Counting over a sequence that grew by one item.
pub proof fn lemma_occurrences_push<T>(items: Seq<T>, last: T, item: T)
    ensures
        occurrences(items.push(last), item) == occurrences(items, item) + if last == item {
            1nat
        } else {
            0nat
        },
{
    assert(items.push(last).drop_last() =~= items);
    assert(items.push(last).last() == last);
}

} // verus!
