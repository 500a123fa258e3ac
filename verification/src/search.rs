//! Two facts about the first place at which a value stands in a sequence.

use vstd::prelude::*;

verus! {

/// A place that holds `wanted`, with no earlier place that does, is the
/// first place of `wanted`.
pub proof fn lemma_first_place<A>(items: Seq<A>, wanted: A, place: int)
    requires
        0 <= place < items.len(),
        items[place] == wanted,
        forall|j: int| 0 <= j < place ==> items[j] != wanted,
    ensures
        items.contains(wanted),
        items.index_of_first(wanted) == Some(place),
{
    items.index_of_first_ensures(wanted);
    assert(items.contains(wanted));
    let first = items.index_of_first(wanted)->Some_0;
    if first < place {
        assert(items[first] != wanted);
    }
    if place < first {
        assert(items[place] != wanted);
    }
}

/// A value that stands at no place has no first place.
pub proof fn lemma_no_place<A>(items: Seq<A>, wanted: A)
    requires
        forall|j: int| 0 <= j < items.len() ==> items[j] != wanted,
    ensures
        !items.contains(wanted),
        items.index_of_first(wanted) is None,
{
    items.index_of_first_ensures(wanted);
    if items.contains(wanted) {
        let k = choose|k: int| 0 <= k < items.len() && items[k] == wanted;
        assert(items[k] != wanted);
    }
}

} // verus!
