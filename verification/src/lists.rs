//! Facts about sequences.

use vstd::prelude::*;

verus! {

/// The last item of a sequence is an item, and so are those before it.
proof fn lemma_push_members<A>(items: Seq<A>, last: A, item: A)
    ensures
        items.push(last).contains(item) <==> items.contains(item) || item == last,
{
    let more = items.push(last);
    if items.contains(item) {
        let i = choose|i: int| 0 <= i < items.len() && items[i] == item;
        assert(more[i] == item);
    }
    assert(more[items.len() as int] == last);
    if more.contains(item) {
        let i = choose|i: int| 0 <= i < more.len() && more[i] == item;
        if i < items.len() {
            assert(items[i] == item);
        }
    }
}

/// Filtering keeps exactly the items that satisfy the condition.
pub(crate) proof fn lemma_filter_members<A>(items: Seq<A>, kept: spec_fn(A) -> bool, item: A)
    ensures
        items.filter(kept).contains(item) <==> items.contains(item) && kept(item),
    decreases items.len(),
{
    reveal(Seq::filter);
    if items.len() > 0 {
        let rest = items.drop_last();
        lemma_filter_members(rest, kept, item);
        assert(rest.push(items.last()) =~= items);
        lemma_push_members(rest, items.last(), item);
        lemma_push_members(rest.filter(kept), items.last(), item);
    }
}

} // verus!
