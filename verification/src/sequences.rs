//! Facts about sequences.

use vstd::prelude::*;

verus! {

/// A sequence holds what it held, and what was appended.
pub proof fn lemma_push_holds<T>(items: Seq<T>, item: T, other: T)
    ensures
        items.push(item).contains(other) <==> items.contains(other) || other == item,
{
    if items.contains(other) {
        let k = choose|k: int| 0 <= k < items.len() && items[k] == other;
        assert(items.push(item)[k] == other);
    }
    assert(items.push(item)[items.len() as int] == item);
}

/// The items of a sequence before a position and at it, filtered.
pub proof fn lemma_filter_next<T>(items: Seq<T>, wanted: spec_fn(T) -> bool, at: int)
    requires
        0 <= at < items.len(),
    ensures
        items.take(at + 1).filter(wanted) == (if wanted(items[at]) {
            items.take(at).filter(wanted).push(items[at])
        } else {
            items.take(at).filter(wanted)
        }),
{
    reveal(Seq::filter);
    assert(items.take(at + 1).drop_last() =~= items.take(at));
}

/// A filtered sequence holds the wanted items, and repeats none that was not
/// repeated.
pub proof fn lemma_filtered<T>(items: Seq<T>, wanted: spec_fn(T) -> bool)
    requires
        items.no_duplicates(),
    ensures
        items.filter(wanted).no_duplicates(),
        forall|item: T| #[trigger]
            items.filter(wanted).contains(item) <==> items.contains(item) && wanted(item),
    decreases items.len(),
{
    reveal(Seq::filter);
    if items.len() > 0 {
        let before = items.drop_last();
        let last = items.last();
        let kept = before.filter(wanted);
        lemma_filtered(before, wanted);
        assert(items =~= before.push(last));
        assert(!before.contains(last));
        assert forall|item: T| #[trigger]
            items.filter(wanted).contains(item) <==> items.contains(item) && wanted(item) by {
            lemma_push_holds(before, last, item);
            lemma_push_holds(kept, last, item);
        }
        assert(!kept.contains(last));
        assert forall|i: int, j: int|
            0 <= i < kept.push(last).len() && 0 <= j < kept.push(last).len() && i
                != j implies kept.push(last)[i] != kept.push(last)[j] by {
            if i < kept.len() {
                assert(kept.contains(kept[i]));
            }
            if j < kept.len() {
                assert(kept.contains(kept[j]));
            }
        }
    }
}

} // verus!
