//! Searching and selecting in sequences.

use vstd::prelude::*;

verus! {

/// The first item that satisfies a predicate.
pub open spec fn first<A>(items: Seq<A>, wanted: spec_fn(A) -> bool) -> Option<A>
    decreases items.len(),
{
    if items.len() == 0 {
        None
    } else if wanted(items[0]) {
        Some(items[0])
    } else {
        first(items.drop_first(), wanted)
    }
}

/// The positions of the items that satisfy a predicate, in ascending order.
pub open spec fn positions_where<A>(items: Seq<A>, wanted: spec_fn(A) -> bool) -> Seq<int>
    decreases items.len(),
{
    if items.len() == 0 {
        Seq::empty()
    } else {
        let before = positions_where(items.drop_last(), wanted);
        if wanted(items.last()) {
            before.push(items.len() - 1)
        } else {
            before
        }
    }
}

/// What is found behind a position whose item is not wanted is found from it on.
pub proof fn lemma_first_step<A>(items: Seq<A>, index: int, wanted: spec_fn(A) -> bool)
    requires
        0 <= index < items.len(),
    ensures
        first(items.skip(index), wanted) == if wanted(items[index]) {
            Some(items[index])
        } else {
            first(items.skip(index + 1), wanted)
        },
{
    assert(items.skip(index).drop_first() == items.skip(index + 1));
}

/// Nothing is found exactly where no item is wanted; what is found is a wanted item.
pub proof fn lemma_first<A>(items: Seq<A>, wanted: spec_fn(A) -> bool)
    ensures
        match first(items, wanted) {
            Some(item) => wanted(item) && exists|i: int|
                0 <= i < items.len() && #[trigger] items[i] == item && forall|j: int|
                    0 <= j < i ==> !wanted(#[trigger] items[j]),
            None => forall|i: int| 0 <= i < items.len() ==> !wanted(#[trigger] items[i]),
        },
    decreases items.len(),
{
    if items.len() > 0 {
        if wanted(items[0]) {
            assert(items[0] == first(items, wanted)->0);
        } else {
            let rest = items.drop_first();
            lemma_first(rest, wanted);
            match first(rest, wanted) {
                Some(item) => {
                    let i = choose|i: int|
                        0 <= i < rest.len() && #[trigger] rest[i] == item && forall|j: int|
                            0 <= j < i ==> !wanted(#[trigger] rest[j]);
                    assert(items[i + 1] == item);
                    assert forall|j: int| 0 <= j < i + 1 implies !wanted(#[trigger] items[j]) by {
                        if j > 0 {
                            assert(rest[j - 1] == items[j]);
                        }
                    }
                },
                None => {
                    assert forall|i: int| 0 <= i < items.len() implies !wanted(
                        #[trigger] items[i],
                    ) by {
                        if i > 0 {
                            assert(rest[i - 1] == items[i]);
                        }
                    }
                },
            }
        }
    }
}

/// The first wanted item is found.
pub proof fn lemma_first_at<A>(items: Seq<A>, wanted: spec_fn(A) -> bool, index: int)
    requires
        0 <= index < items.len(),
        wanted(items[index]),
        forall|i: int| 0 <= i < index ==> !wanted(#[trigger] items[i]),
    ensures
        first(items, wanted) == Some(items[index]),
    decreases items.len(),
{
    if index > 0 {
        let rest = items.drop_first();
        assert(!wanted(items[0]));
        assert forall|i: int| 0 <= i < index - 1 implies !wanted(#[trigger] rest[i]) by {
            assert(!wanted(items[i + 1]));
        }
        lemma_first_at(rest, wanted, index - 1);
    }
}

/// Nothing is found where no item is wanted.
pub proof fn lemma_none<A>(items: Seq<A>, wanted: spec_fn(A) -> bool)
    requires
        forall|i: int| 0 <= i < items.len() ==> !wanted(#[trigger] items[i]),
    ensures
        first(items, wanted) is None,
    decreases items.len(),
{
    if items.len() > 0 {
        let rest = items.drop_first();
        assert(!wanted(items[0]));
        assert forall|i: int| 0 <= i < rest.len() implies !wanted(#[trigger] rest[i]) by {
            assert(!wanted(items[i + 1]));
        }
        lemma_none(rest, wanted);
    }
}

/// Growing a prefix by one item selects that item's position exactly if it is wanted.
pub proof fn lemma_positions_step<A>(items: Seq<A>, index: int, wanted: spec_fn(A) -> bool)
    requires
        0 <= index < items.len(),
    ensures
        positions_where(items.take(index + 1), wanted) == if wanted(items[index]) {
            positions_where(items.take(index), wanted).push(index)
        } else {
            positions_where(items.take(index), wanted)
        },
{
    assert(items.take(index + 1).drop_last() == items.take(index));
}

/// The selected positions ascend, lie inside the sequence and hold exactly the wanted items.
pub proof fn lemma_positions<A>(items: Seq<A>, wanted: spec_fn(A) -> bool)
    ensures
        forall|i: int|
            0 <= i < positions_where(items, wanted).len() ==> 0 <= #[trigger] positions_where(
                items,
                wanted,
            )[i] < items.len() && wanted(items[positions_where(items, wanted)[i]]),
        forall|i: int, j: int|
            0 <= i < j < positions_where(items, wanted).len() ==> (#[trigger] positions_where(
                items,
                wanted,
            )[i]) < #[trigger] positions_where(items, wanted)[j],
        forall|k: int|
            0 <= k < items.len() && wanted(#[trigger] items[k]) ==> positions_where(
                items,
                wanted,
            ).contains(k),
    decreases items.len(),
{
    if items.len() > 0 {
        let shorter = items.drop_last();
        let before = positions_where(shorter, wanted);
        let all = positions_where(items, wanted);
        lemma_positions(shorter, wanted);
        assert forall|i: int| 0 <= i < all.len() implies 0 <= #[trigger] all[i] < items.len()
            && wanted(items[all[i]]) by {
            if i < before.len() {
                assert(all[i] == before[i]);
                assert(shorter[before[i]] == items[before[i]]);
            }
        }
        assert forall|i: int, j: int| 0 <= i < j < all.len() implies (#[trigger] all[i])
            < #[trigger] all[j] by {
            assert(all[i] == before[i]);
            if j < before.len() {
                assert(all[j] == before[j]);
            }
        }
        assert forall|k: int| 0 <= k < items.len() && wanted(
            #[trigger] items[k],
        ) implies all.contains(k) by {
            if k < shorter.len() {
                assert(shorter[k] == items[k]);
                let i = choose|i: int| 0 <= i < before.len() && before[i] == k;
                assert(all[i] == k);
            } else {
                assert(all[all.len() - 1] == k);
            }
        }
    }
}

/// Growing a prefix by one item keeps that item exactly if it is wanted.
pub proof fn lemma_filter_step<A>(items: Seq<A>, index: int, wanted: spec_fn(A) -> bool)
    requires
        0 <= index < items.len(),
    ensures
        items.take(index + 1).filter(wanted) == if wanted(items[index]) {
            items.take(index).filter(wanted).push(items[index])
        } else {
            items.take(index).filter(wanted)
        },
{
    reveal(Seq::filter);
    assert(items.take(index + 1).drop_last() == items.take(index));
}

} // verus!
