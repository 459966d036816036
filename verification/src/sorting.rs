//! A stable sort, stated over the views of the sorted items.

use vstd::prelude::*;

use crate::seqs;

verus! {

/// The views of a list of items.
pub open spec fn views<T: View>(items: Seq<T>) -> Seq<T::V> {
    Seq::new(items.len(), |i: int| items[i]@)
}

/// Items with a total order on their views, in which different items may tie.
pub trait Ranked: View + Sized {
    /// Whether `left` may stand before `right`.
    spec fn rank_leq(left: Self::V, right: Self::V) -> bool;

    /// Any two items can be ordered.
    proof fn rank_total(left: Self::V, right: Self::V)
        ensures
            Self::rank_leq(left, right) || Self::rank_leq(right, left),
    ;

    /// The order is transitive.
    proof fn rank_transitive(a: Self::V, b: Self::V, c: Self::V)
        requires
            Self::rank_leq(a, b),
            Self::rank_leq(b, c),
        ensures
            Self::rank_leq(a, c),
    ;

    /// Decides whether `self` may stand before `other`.
    fn ranks_before(&self, other: &Self) -> (before: bool)
        ensures
            before == Self::rank_leq(self@, other@),
    ;
}

/// `after` lists the items of `before` in rank order, and items that
/// tie keep the order in which they came: `from[i]` is where `after[i]` stood.
pub open spec fn stable_order_from<T: Ranked>(
    before: Seq<T::V>,
    after: Seq<T::V>,
    from: Seq<int>,
) -> bool {
    &&& after.len() == before.len()
    &&& from.len() == before.len()
    &&& forall|i: int|
        #![trigger from[i]]
        0 <= i < from.len() ==> 0 <= from[i] < before.len() && after[i] == before[from[i]]
    &&& forall|i: int, j: int|
        #![trigger from[i], from[j]]
        0 <= i < j < from.len() ==> from[i] != from[j]
    &&& forall|i: int, j: int|
        0 <= i < j < after.len() ==> #[trigger] T::rank_leq(after[i], after[j])
    &&& forall|i: int, j: int|
        #![trigger from[i], from[j]]
        0 <= i < j < from.len() && T::rank_leq(after[j], after[i]) ==> from[i] < from[j]
}

/// `after` is the stable sort of `before` by rank.
pub open spec fn stable_order<T: Ranked>(before: Seq<T::V>, after: Seq<T::V>) -> bool {
    exists|from: Seq<int>| stable_order_from::<T>(before, after, from)
}

/// Putting `item`, which came last, behind every item that it may follow keeps
/// the order stable.
proof fn lemma_insert<T: Ranked>(
    before: Seq<T::V>,
    after: Seq<T::V>,
    from: Seq<int>,
    item: T::V,
    position: int,
)
    requires
        stable_order_from::<T>(before, after, from),
        0 <= position <= after.len(),
        forall|i: int| 0 <= i < position ==> T::rank_leq(#[trigger] after[i], item),
        forall|i: int| position <= i < after.len() ==> !T::rank_leq(#[trigger] after[i], item),
    ensures
        stable_order_from::<T>(
            before.push(item),
            after.insert(position, item),
            from.insert(position, before.len() as int),
        ),
{
    let new_after = after.insert(position, item);
    let new_from = from.insert(position, before.len() as int);
    assert(new_after.len() == new_from.len());
    assert forall|i: int, j: int|
        0 <= i < j < new_after.len() implies #[trigger] T::rank_leq(new_after[i], new_after[j]) by {
        let old_i = if i < position { i } else { i - 1 };
        let old_j = if j < position { j } else { j - 1 };
        if i == position {
            T::rank_total(item, after[old_j]);
        } else if j != position {
            assert(from[old_i] != from[old_j]);
        }
    }
    assert forall|i: int, j: int|
        #![trigger new_from[i], new_from[j]]
        0 <= i < j < new_from.len() implies new_from[i] != new_from[j] && (T::rank_leq(
        new_after[j],
        new_after[i],
    ) ==> new_from[i] < new_from[j]) by {
        let old_i = if i < position { i } else { i - 1 };
        let old_j = if j < position { j } else { j - 1 };
        if i == position {
            assert(from[old_j] < before.len());
        } else if j == position {
            assert(from[old_i] < before.len());
        } else {
            assert(from[old_i] != from[old_j]);
        }
    }
    assert forall|i: int| #![trigger new_from[i]] 0 <= i < new_from.len() implies {
        &&& 0 <= new_from[i] < before.len() + 1
        &&& new_after[i] == before.push(item)[new_from[i]]
    } by {
        let old_i = if i < position { i } else { i - 1 };
        if i != position {
            assert(0 <= from[old_i] < before.len());
        }
    }
}

/// Sorts `items`; items that tie keep their order.
pub fn stable_sort<T: Ranked>(items: &mut Vec<T>)
    ensures
        stable_order::<T>(views(old(items)@), views(final(items)@)),
{
    let ghost given = items@;
    let ghost mut from: Seq<int> = Seq::empty();
    let mut sorted: usize = 0;
    while sorted < items.len()
        invariant
            sorted <= items.len(),
            items@.len() == given.len(),
            forall|i: int| sorted <= i < given.len() ==> items@[i] == given[i],
            stable_order_from::<T>(
                views(given).take(sorted as int),
                views(items@).take(sorted as int),
                from,
                ),
        decreases items.len() - sorted,
    {
        let ghost start = items@;
        let ghost prefix = views(items@).take(sorted as int);
        let item = items.remove(sorted);
        let mut position: usize = sorted;
        while position > 0 && !items[position - 1].ranks_before(&item)
            invariant
                position <= sorted < start.len(),
                items@ == start.remove(sorted as int),
                item == start[sorted as int],
                prefix == views(start).take(sorted as int),
                forall|i: int|
                    position <= i < sorted ==> !T::rank_leq(#[trigger] prefix[i], item@),
            decreases position,
        {
            position = position - 1;
            assert(items@[position as int]@ == prefix[position as int]);
        }
        proof {
            if position > 0 {
                assert(items@[position - 1]@ == prefix[position - 1]);
            }
            assert forall|i: int| 0 <= i < position implies T::rank_leq(
                #[trigger] prefix[i],
                item@,
            ) by {
                if i < position - 1 {
                    assert(from[i] != from[position - 1]);
                    T::rank_transitive(prefix[i], prefix[position - 1], item@);
                }
            }
            lemma_insert::<T>(
                views(given).take(sorted as int),
                prefix,
                from,
                item@,
                position as int,
            );
        }
        items.insert(position, item);
        proof {
            assert(views(given).take(sorted as int + 1) =~= views(given).take(sorted as int).push(
                item@,
            ));
            assert(views(items@).take(sorted as int + 1) =~= prefix.insert(position as int, item@));
            from = from.insert(position as int, sorted as int);
        }
        sorted = sorted + 1;
    }
    proof {
        assert(views(given).take(sorted as int) =~= views(given));
        assert(views(items@).take(sorted as int) =~= views(items@));
        assert(stable_order_from::<T>(views(given), views(items@), from));
    }
}

/// A list of as many different numbers below `n` as there are holds each.
pub proof fn lemma_all_taken(from: Seq<int>, n: int, missing: int)
    requires
        from.len() == n,
        forall|i: int| 0 <= i < n ==> 0 <= #[trigger] from[i] < n,
        forall|i: int, j: int| 0 <= i < j < n ==> from[i] != from[j],
        0 <= missing < n,
    ensures
        from.contains(missing),
    decreases n,
{
    if !from.contains(missing) {
        if n == 1 {
            assert(from[0] == missing);
        } else {
            // Take out the last entry, and close the gap that it leaves.
            let last = from.last();
            let rest = from.drop_last().map_values(|x: int| if x > last { x - 1 } else { x });
            let still = if missing > last { missing - 1 } else { missing };
            assert(missing != last) by {
                assert(from[n - 1] == last);
            }
            assert forall|i: int| 0 <= i < n - 1 implies 0 <= #[trigger] rest[i] < n - 1 by {
                assert(from[i] != from[n - 1]);
                assert(0 <= from[i] < n);
            }
            assert forall|i: int, j: int| 0 <= i < j < n - 1 implies rest[i] != rest[j] by {
                assert(from[i] != from[j]);
                assert(from[i] != from[n - 1]);
                assert(from[j] != from[n - 1]);
            }
            lemma_all_taken(rest, n - 1, still);
            let i = rest.index_of(still);
            assert(from[i] != from[n - 1]);
            assert(from[i] == missing);
        }
    }
}

/// A stable sort keeps every item.
pub proof fn lemma_every_item_is_kept<T: Ranked>(
    before: Seq<T::V>,
    after: Seq<T::V>,
    position: int,
) -> (new_position: int)
    requires
        stable_order::<T>(before, after),
        0 <= position < before.len(),
    ensures
        0 <= new_position < after.len(),
        after[new_position] == before[position],
{
    let from = choose|from: Seq<int>| stable_order_from::<T>(before, after, from);
    lemma_all_taken(from, before.len() as int, position);
    from.index_of(position)
}

/// A stable sort holds the items that were sorted, and no others.
pub proof fn lemma_same_items<T: Ranked>(before: Seq<T::V>, after: Seq<T::V>)
    requires
        stable_order::<T>(before, after),
    ensures
        forall|item: T::V| #[trigger] after.contains(item) <==> before.contains(item),
{
    let from = choose|from: Seq<int>| stable_order_from::<T>(before, after, from);
    assert forall|item: T::V| #[trigger] after.contains(item) <==> before.contains(item) by {
        if after.contains(item) {
            let i = after.index_of(item);
            assert(before[from[i]] == item);
        }
        if before.contains(item) {
            let i = lemma_every_item_is_kept::<T>(before, after, before.index_of(item));
            assert(after[i] == item);
        }
    }
}

/// Every list has a stable sort.
pub proof fn lemma_stable_order_exists<T: Ranked>(before: Seq<T::V>) -> (after: Seq<T::V>)
    ensures
        stable_order::<T>(before, after),
    decreases before.len(),
{
    if before.len() == 0 {
        assert(stable_order_from::<T>(before, Seq::empty(), Seq::empty()));
        Seq::empty()
    } else {
        let item = before.last();
        let earlier = lemma_stable_order_exists::<T>(before.drop_last());
        let from = choose|from: Seq<int>|
            stable_order_from::<T>(before.drop_last(), earlier, from);
        let follows = |other: T::V| !T::rank_leq(other, item);
        let position = seqs::first_index(earlier, follows);
        seqs::lemma_first_index(earlier, follows);
        assert forall|i: int| 0 <= i < position implies T::rank_leq(#[trigger] earlier[i], item) by {
            assert(!follows(earlier[i]));
        }
        assert forall|i: int| position <= i < earlier.len() implies !T::rank_leq(
            #[trigger] earlier[i],
            item,
        ) by {
            assert(follows(earlier[position]));
            if i > position && T::rank_leq(earlier[i], item) {
                assert(T::rank_leq(earlier[position], earlier[i]));
                T::rank_transitive(earlier[position], earlier[i], item);
            }
        }
        lemma_insert::<T>(before.drop_last(), earlier, from, item, position);
        assert(before.drop_last().push(item) =~= before);
        earlier.insert(position, item)
    }
}

/// Items stand in a strict order.
pub open spec fn strictly_ordered<V>(items: Seq<V>, precedes: spec_fn(V, V) -> bool) -> bool {
    forall|i: int, j: int|
        0 <= i < j < items.len() ==> #[trigger] precedes(items[i], items[j])
}

/// Two lists of the same items in the same strict order are one.
pub proof fn lemma_strict_order_is_unique<V>(
    first: Seq<V>,
    second: Seq<V>,
    precedes: spec_fn(V, V) -> bool,
)
    requires
        strictly_ordered(first, precedes),
        strictly_ordered(second, precedes),
        forall|a: V, b: V| #[trigger] precedes(a, b) ==> !precedes(b, a),
        forall|item: V| #[trigger] first.contains(item) <==> second.contains(item),
    ensures
        first == second,
    decreases first.len(),
{
    if first.len() == 0 {
        if second.len() > 0 {
            assert(second.contains(second[0]));
            assert(first.contains(second[0]));
        }
        assert(first =~= second);
    } else {
        assert(first.contains(first[0]));
        assert(second.len() > 0);
        assert(second.contains(second[0]));
        assert(first.contains(second[0]));
        let i = first.index_of(second[0]);
        let j = second.index_of(first[0]);
        assert(first[0] == second[0]) by {
            if i > 0 {
                assert(precedes(first[0], first[i]));
            }
            if j > 0 {
                assert(precedes(second[0], second[j]));
            }
        }
        let (rest, others) = (first.drop_first(), second.drop_first());
        assert forall|a: int, b: int| 0 <= a < b < rest.len() implies #[trigger] precedes(
            rest[a],
            rest[b],
        ) by {
            assert(precedes(first[a + 1], first[b + 1]));
        }
        assert forall|a: int, b: int| 0 <= a < b < others.len() implies #[trigger] precedes(
            others[a],
            others[b],
        ) by {
            assert(precedes(second[a + 1], second[b + 1]));
        }
        assert forall|item: V| #[trigger] rest.contains(item) <==> others.contains(item) by {
            if rest.contains(item) {
                let k = rest.index_of(item);
                assert(first[k + 1] == item);
                assert(precedes(first[0], first[k + 1]));
                assert(first.contains(item));
                let l = second.index_of(item);
                assert(l > 0);
                assert(others[l - 1] == item);
            }
            if others.contains(item) {
                let k = others.index_of(item);
                assert(second[k + 1] == item);
                assert(precedes(second[0], second[k + 1]));
                assert(second.contains(item));
                assert(first.contains(item));
                let l = first.index_of(item);
                assert(l > 0);
                assert(rest[l - 1] == item);
            }
        }
        lemma_strict_order_is_unique(rest, others, precedes);
        assert(first =~= seq![first[0]] + rest);
        assert(second =~= seq![second[0]] + others);
    }
}

/// The stable sort of a list is the only one.
pub proof fn law_stable_order_is_unique<T: Ranked>(
    before: Seq<T::V>,
    first: Seq<T::V>,
    second: Seq<T::V>,
)
    requires
        stable_order::<T>(before, first),
        stable_order::<T>(before, second),
    ensures
        first == second,
{
    let from_first = choose|from: Seq<int>| stable_order_from::<T>(before, first, from);
    let from_second = choose|from: Seq<int>| stable_order_from::<T>(before, second, from);
    lemma_same_places::<T>(before, first, from_first, second, from_second, before.len() as int);
    assert forall|i: int| 0 <= i < first.len() implies first[i] == second[i] by {
        assert(from_first[i] == from_second[i]);
    }
    assert(first =~= second);
}

proof fn lemma_same_places<T: Ranked>(
    before: Seq<T::V>,
    first: Seq<T::V>,
    from_first: Seq<int>,
    second: Seq<T::V>,
    from_second: Seq<int>,
    upto: int,
)
    requires
        stable_order_from::<T>(before, first, from_first),
        stable_order_from::<T>(before, second, from_second),
        0 <= upto <= before.len(),
    ensures
        forall|i: int| 0 <= i < upto ==> #[trigger] from_first[i] == from_second[i],
    decreases upto,
{
    if upto > 0 {
        lemma_same_places::<T>(before, first, from_first, second, from_second, upto - 1);
        let i = upto - 1;
        let p = from_first[i];
        let q = from_second[i];
        if p != q {
            lemma_all_taken(from_second, before.len() as int, p);
            lemma_all_taken(from_first, before.len() as int, q);
            let j = from_second.index_of(p);
            let k = from_first.index_of(q);
            assert(j > i) by {
                if j < i {
                    assert(from_first[j] == from_second[j]);
                    assert(from_first[j] != from_first[i]);
                }
            }
            assert(k > i) by {
                if k < i {
                    assert(from_first[k] == from_second[k]);
                    assert(from_second[k] != from_second[i]);
                }
            }
            assert(T::rank_leq(first[i], first[k]));
            assert(T::rank_leq(second[i], second[j]));
            assert(first[i] == before[p] && first[k] == before[q]);
            assert(second[i] == before[q] && second[j] == before[p]);
            assert(p < q);
            assert(q < p);
        }
    }
}

} // verus!
