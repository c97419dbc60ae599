//! Sequences in which no two items share a key.

use vstd::prelude::*;

verus! {

/// No two of `items` have the same key.
pub open spec fn distinct_by<T, K>(items: Seq<T>, key: spec_fn(T) -> K) -> bool {
    forall|i: int, j: int|
        0 <= i < j < items.len() ==> key(#[trigger] items[i]) != key(#[trigger] items[j])
}

/// Filtering keeps the keys distinct, and what is kept was there before and
/// passes the filter.
pub proof fn lemma_filter_keeps_distinct<T, K>(
    items: Seq<T>,
    key: spec_fn(T) -> K,
    keep: spec_fn(T) -> bool,
)
    requires
        distinct_by(items, key),
    ensures
        distinct_by(items.filter(keep), key),
        forall|k: int|
            0 <= k < items.filter(keep).len() ==> items.contains(#[trigger] items.filter(keep)[k])
                && keep(items.filter(keep)[k]),
    decreases items.len(),
{
    reveal(Seq::filter);
    if items.len() > 0 {
        let front = items.drop_last();
        let last = items.last();
        assert(distinct_by(front, key)) by {
            assert forall|i: int, j: int| 0 <= i < j < front.len() implies key(#[trigger] front[i])
                != key(#[trigger] front[j]) by {
                assert(front[i] == items[i]);
                assert(front[j] == items[j]);
            }
        }
        lemma_filter_keeps_distinct(front, key, keep);
        let kept = front.filter(keep);
        assert forall|k: int| 0 <= k < items.filter(keep).len() implies items.contains(
            #[trigger] items.filter(keep)[k],
        ) && keep(items.filter(keep)[k]) by {
            if k < kept.len() {
                assert(front.contains(kept[k]));
                let w = choose|w: int| 0 <= w < front.len() && front[w] == kept[k];
                assert(items[w] == kept[k]);
            } else {
                assert(items[items.len() - 1] == last);
            }
        }
        if keep(last) {
            assert forall|i: int, j: int| 0 <= i < j < kept.push(last).len() implies key(
                #[trigger] kept.push(last)[i],
            ) != key(#[trigger] kept.push(last)[j]) by {
                if j < kept.len() {
                    assert(kept.push(last)[i] == kept[i]);
                    assert(kept.push(last)[j] == kept[j]);
                } else {
                    assert(front.contains(kept[i]));
                    let w = choose|w: int| 0 <= w < front.len() && front[w] == kept[i];
                    assert(key(items[w]) != key(items[items.len() - 1]));
                }
            }
        }
    }
}

/// An item whose key no other item has may be added at the end.
pub proof fn lemma_push_keeps_distinct<T, K>(items: Seq<T>, key: spec_fn(T) -> K, item: T)
    requires
        distinct_by(items, key),
        forall|i: int| 0 <= i < items.len() ==> key(#[trigger] items[i]) != key(item),
    ensures
        distinct_by(items.push(item), key),
{
    assert forall|i: int, j: int| 0 <= i < j < items.push(item).len() implies key(
        #[trigger] items.push(item)[i],
    ) != key(#[trigger] items.push(item)[j]) by {
        assert(items.push(item)[i] == items[i]);
        if j < items.len() {
            assert(items.push(item)[j] == items[j]);
        }
    }
}

} // verus!
