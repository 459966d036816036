//! Searching and thinning out lists.

use vstd::prelude::*;

verus! {

/// Where the first item with a property stands; the length of the list when
/// there is none.
pub open spec fn first_index<T>(items: Seq<T>, wanted: spec_fn(T) -> bool) -> int
    decreases items.len(),
{
    if items.len() == 0 || wanted(items[0]) {
        0
    } else {
        1 + first_index(items.drop_first(), wanted)
    }
}

/// The first item with a property, if there is one.
pub open spec fn first_where<T>(items: Seq<T>, wanted: spec_fn(T) -> bool) -> Option<T> {
    let index = first_index(items, wanted);
    if index < items.len() {
        Some(items[index])
    } else {
        None
    }
}

/// What [`first_index`] finds has the property, and nothing before it does.
pub proof fn lemma_first_index<T>(items: Seq<T>, wanted: spec_fn(T) -> bool)
    ensures
        0 <= first_index(items, wanted) <= items.len(),
        first_index(items, wanted) < items.len() ==> wanted(items[first_index(items, wanted)]),
        forall|i: int| 0 <= i < first_index(items, wanted) ==> !wanted(#[trigger] items[i]),
    decreases items.len(),
{
    if items.len() > 0 && !wanted(items[0]) {
        let rest = items.drop_first();
        lemma_first_index(rest, wanted);
        assert forall|i: int| 0 <= i < first_index(items, wanted) implies !wanted(
            #[trigger] items[i],
        ) by {
            if i > 0 {
                assert(items[i] == rest[i - 1]);
            }
        }
    }
}

/// The place up to which nothing has the property, and which has it or is the
/// end of the list, is what [`first_index`] finds.
pub proof fn lemma_is_first_index<T>(items: Seq<T>, wanted: spec_fn(T) -> bool, index: int)
    requires
        0 <= index <= items.len(),
        forall|i: int| 0 <= i < index ==> !wanted(#[trigger] items[i]),
        index < items.len() ==> wanted(items[index]),
    ensures
        first_index(items, wanted) == index,
{
    lemma_first_index(items, wanted);
    let found = first_index(items, wanted);
    if found < index {
        assert(!wanted(items[found]));
    } else if index < found {
        assert(!wanted(items[index]));
    }
}

/// Finds the first item that passes a test for a property.
pub(crate) fn find_first<T>(
    items: &[T],
    test: impl Fn(&T) -> bool,
    Ghost(wanted): Ghost<spec_fn(T) -> bool>,
) -> (place: Option<usize>)
    requires
        forall|item: &T| #[trigger] test.requires((item,)),
        forall|item: &T, passes: bool| #[trigger]
            test.ensures((item,), passes) ==> passes == wanted(*item),
    ensures
        match place {
            Some(index) => index < items@.len() && index == first_index(items@, wanted),
            None => first_index(items@, wanted) == items@.len(),
        },
{
    let mut index: usize = 0;
    while index < items.len()
        invariant
            index <= items@.len(),
            forall|item: &T| #[trigger] test.requires((item,)),
            forall|item: &T, passes: bool| #[trigger]
                test.ensures((item,), passes) ==> passes == wanted(*item),
            forall|i: int| 0 <= i < index ==> !wanted(#[trigger] items@[i]),
        decreases items.len() - index,
    {
        if test(&items[index]) {
            proof {
                lemma_is_first_index(items@, wanted, index as int);
            }
            return Some(index);
        }
        index = index + 1;
    }
    proof {
        lemma_is_first_index(items@, wanted, index as int);
    }
    None
}

/// Where the last item with a property stands; `-1` when there is none.
pub open spec fn last_index<T>(items: Seq<T>, wanted: spec_fn(T) -> bool) -> int
    decreases items.len(),
{
    if items.len() == 0 {
        -1
    } else if wanted(items.last()) {
        items.len() - 1
    } else {
        last_index(items.drop_last(), wanted)
    }
}

/// What [`last_index`] finds lies in the list.
pub proof fn lemma_last_index<T>(items: Seq<T>, wanted: spec_fn(T) -> bool)
    ensures
        -1 <= last_index(items, wanted) < items.len(),
    decreases items.len(),
{
    if items.len() > 0 && !wanted(items.last()) {
        lemma_last_index(items.drop_last(), wanted);
    }
}

/// Finds the last item that passes a test for a property.
pub(crate) fn find_last<T>(
    items: &[T],
    test: impl Fn(&T) -> bool,
    Ghost(wanted): Ghost<spec_fn(T) -> bool>,
) -> (place: Option<usize>)
    requires
        forall|item: &T| #[trigger] test.requires((item,)),
        forall|item: &T, passes: bool| #[trigger]
            test.ensures((item,), passes) ==> passes == wanted(*item),
    ensures
        match place {
            Some(index) => index < items@.len() && index == last_index(items@, wanted),
            None => last_index(items@, wanted) < 0,
        },
{
    let mut end: usize = items.len();
    assert(items@.take(end as int) =~= items@);
    while end > 0
        invariant
            end <= items@.len(),
            forall|item: &T| #[trigger] test.requires((item,)),
            forall|item: &T, passes: bool| #[trigger]
                test.ensures((item,), passes) ==> passes == wanted(*item),
            last_index(items@, wanted) == last_index(items@.take(end as int), wanted),
        decreases end,
    {
        assert(items@.take(end as int).drop_last() =~= items@.take(end as int - 1));
        assert(items@.take(end as int).last() == items@[end as int - 1]);
        if test(&items[end - 1]) {
            return Some(end - 1);
        }
        end = end - 1;
    }
    None
}

/// `result` lists `item(c)` for exactly those `c` below `count` that are wanted,
/// in their order: `from[k]` is where `result[k]` comes from.
pub open spec fn lists_from<T>(
    result: Seq<T>,
    count: nat,
    wanted: spec_fn(int) -> bool,
    item: spec_fn(int) -> T,
    from: Seq<int>,
) -> bool {
    &&& from.len() == result.len()
    &&& forall|k: int|
        #![trigger from[k]]
        0 <= k < from.len() ==> 0 <= from[k] < count && wanted(from[k]) && result[k] == item(
            from[k],
        )
    &&& forall|k: int, l: int|
        #![trigger from[k], from[l]]
        0 <= k < l < from.len() ==> from[k] < from[l]
    &&& forall|c: int| 0 <= c < count && #[trigger] wanted(c) ==> from.contains(c)
}

/// `result` lists `item(c)` for exactly those `c` below `count` that are wanted,
/// in their order.
pub open spec fn lists<T>(
    result: Seq<T>,
    count: nat,
    wanted: spec_fn(int) -> bool,
    item: spec_fn(int) -> T,
) -> bool {
    exists|from: Seq<int>| #[trigger] lists_from(result, count, wanted, item, from)
}

/// Nothing is listed of nothing.
pub proof fn lemma_lists_nothing<T>(wanted: spec_fn(int) -> bool, item: spec_fn(int) -> T)
    ensures
        lists(Seq::<T>::empty(), 0, wanted, item),
{
    assert(lists_from(Seq::<T>::empty(), 0, wanted, item, Seq::<int>::empty()));
}

/// One more place adds its item to the end of the list iff it is wanted.
pub proof fn lemma_lists_one_more<T>(
    earlier: Seq<T>,
    count: nat,
    wanted: spec_fn(int) -> bool,
    item: spec_fn(int) -> T,
)
    requires
        lists(earlier, count, wanted, item),
    ensures
        wanted(count as int) ==> lists(
            earlier.push(item(count as int)),
            count + 1,
            wanted,
            item,
        ),
        !wanted(count as int) ==> lists(earlier, count + 1, wanted, item),
{
    let from = choose|from: Seq<int>| #[trigger] lists_from(earlier, count, wanted, item, from);
    if wanted(count as int) {
        let more = from.push(count as int);
        assert forall|c: int| 0 <= c < count + 1 && #[trigger] wanted(c) implies more.contains(
            c,
        ) by {
            if c < count {
                assert(more[from.index_of(c)] == c);
            } else {
                assert(more[from.len() as int] == c);
            }
        }
        assert(lists_from(
            earlier.push(item(count as int)),
            count + 1,
            wanted,
            item,
            more,
        ));
    } else {
        assert(lists_from(earlier, count + 1, wanted, item, from));
    }
}

/// A list is the same list under properties and items that agree.
pub proof fn lemma_lists_alike<T>(
    result: Seq<T>,
    count: nat,
    wanted: spec_fn(int) -> bool,
    item: spec_fn(int) -> T,
    other_wanted: spec_fn(int) -> bool,
    other_item: spec_fn(int) -> T,
)
    requires
        lists(result, count, wanted, item),
        forall|c: int| 0 <= c < count ==> wanted(c) == #[trigger] other_wanted(c),
        forall|c: int| 0 <= c < count && wanted(c) ==> item(c) == #[trigger] other_item(c),
    ensures
        lists(result, count, other_wanted, other_item),
{
    let from = choose|from: Seq<int>| #[trigger] lists_from(result, count, wanted, item, from);
    assert forall|k: int| #![trigger from[k]] 0 <= k < from.len() implies 0 <= from[k] < count
        && other_wanted(from[k]) && result[k] == other_item(from[k]) by {
        let c = from[k];
        assert(wanted(c) == other_wanted(c));
        assert(item(c) == other_item(c));
    }
    assert forall|c: int| 0 <= c < count && #[trigger] other_wanted(c) implies from.contains(
        c,
    ) by {
        assert(wanted(c));
    }
    assert(lists_from(result, count, other_wanted, other_item, from));
}

/// The items whose flag is set, in their order.
pub open spec fn kept<T>(items: Seq<T>, flags: Seq<bool>) -> Seq<T>
    decreases items.len(),
{
    if items.len() == 0 {
        Seq::empty()
    } else {
        let earlier = kept(items.drop_last(), flags.drop_last());
        if flags.last() {
            earlier.push(items.last())
        } else {
            earlier
        }
    }
}

/// The number of flags that are set.
pub open spec fn set_flags(flags: Seq<bool>) -> nat
    decreases flags.len(),
{
    if flags.len() == 0 {
        0
    } else {
        set_flags(flags.drop_last()) + if flags.last() { 1nat } else { 0nat }
    }
}

/// An item is kept if its flag is set, and as many are kept as flags are set.
pub proof fn lemma_kept<T>(items: Seq<T>, flags: Seq<bool>)
    requires
        flags.len() == items.len(),
    ensures
        forall|i: int|
            0 <= i < items.len() && flags[i] ==> kept(items, flags).contains(#[trigger] items[i]),
        forall|k: int|
            0 <= k < kept(items, flags).len() ==> items.contains(#[trigger] kept(items, flags)[k]),
        kept(items, flags).len() == set_flags(flags),
        kept(items, flags).len() <= items.len(),
    decreases items.len(),
{
    if items.len() > 0 {
        let rest = items.drop_last();
        let rest_flags = flags.drop_last();
        let earlier = kept(rest, rest_flags);
        lemma_kept(rest, rest_flags);
        assert forall|i: int| 0 <= i < items.len() && flags[i] implies kept(items, flags).contains(
            #[trigger] items[i],
        ) by {
            if i < rest.len() {
                assert(rest_flags[i] && rest[i] == items[i]);
                let at = earlier.index_of(rest[i]);
                assert(kept(items, flags)[at] == items[i]);
            } else {
                assert(kept(items, flags)[earlier.len() as int] == items[i]);
            }
        }
        assert forall|k: int| 0 <= k < kept(items, flags).len() implies items.contains(
            #[trigger] kept(items, flags)[k],
        ) by {
            if k < earlier.len() {
                assert(rest.contains(earlier[k]));
                let i = rest.index_of(earlier[k]);
                assert(items[i] == kept(items, flags)[k]);
            } else {
                assert(items[items.len() - 1] == kept(items, flags)[k]);
            }
        }
    }
}

/// Where an item that was kept came from: a place whose flag is set.
pub proof fn lemma_kept_from<T>(items: Seq<T>, flags: Seq<bool>, k: int) -> (i: int)
    requires
        flags.len() == items.len(),
        0 <= k < kept(items, flags).len(),
    ensures
        0 <= i < items.len(),
        flags[i],
        items[i] == kept(items, flags)[k],
    decreases items.len(),
{
    let rest = items.drop_last();
    if k < kept(rest, flags.drop_last()).len() {
        lemma_kept_from(rest, flags.drop_last(), k)
    } else {
        items.len() - 1
    }
}

/// Keeps the items whose flag is set, in their order.
pub fn keep_flagged<T>(items: &mut Vec<T>, flags: &Vec<bool>)
    requires
        flags@.len() == old(items)@.len(),
    ensures
        final(items)@ == kept(old(items)@, flags@),
{
    let ghost given = items@;
    let mut rest: Vec<T> = Vec::new();
    let mut index: usize = 0;
    std::mem::swap(items, &mut rest);
    while index < flags.len()
        invariant
            index <= flags@.len(),
            flags@.len() == given.len(),
            rest@ == given.skip(index as int),
            items@ == kept(given.take(index as int), flags@.take(index as int)),
        decreases flags.len() - index,
    {
        let item = rest.remove(0);
        proof {
            assert(rest@ =~= given.skip(index as int + 1));
            assert(given.take(index as int + 1).drop_last() =~= given.take(index as int));
            assert(flags@.take(index as int + 1).drop_last() =~= flags@.take(index as int));
        }
        if flags[index] {
            items.push(item);
        }
        index = index + 1;
    }
    proof {
        assert(given.take(index as int) =~= given);
        assert(flags@.take(index as int) =~= flags@);
    }
}

/// What is kept of a list are the items whose flag is set, in their order.
pub proof fn law_exactly_the_flagged_items_are_kept<T>(items: Seq<T>, flags: Seq<bool>)
    requires
        flags.len() == items.len(),
    ensures
        lists(kept(items, flags), items.len(), |i: int| flags[i], |i: int| items[i]),
{
    lemma_kept_upto(items, flags, items.len());
    assert(items.take(items.len() as int) =~= items);
    assert(flags.take(flags.len() as int) =~= flags);
}

proof fn lemma_kept_upto<T>(items: Seq<T>, flags: Seq<bool>, upto: nat)
    requires
        flags.len() == items.len(),
        upto <= items.len(),
    ensures
        lists(
            kept(items.take(upto as int), flags.take(upto as int)),
            upto,
            |i: int| flags[i],
            |i: int| items[i],
        ),
    decreases upto,
{
    let wanted = |i: int| flags[i];
    let item = |i: int| items[i];
    if upto == 0 {
        assert(items.take(0) =~= Seq::empty());
        lemma_lists_nothing(wanted, item);
    } else {
        let fewer = (upto - 1) as nat;
        lemma_kept_upto(items, flags, fewer);
        assert(items.take(upto as int).drop_last() =~= items.take(fewer as int));
        assert(flags.take(upto as int).drop_last() =~= flags.take(fewer as int));
        assert(items.take(upto as int).last() == items[fewer as int]);
        assert(flags.take(upto as int).last() == flags[fewer as int]);
        lemma_lists_one_more(
            kept(items.take(fewer as int), flags.take(fewer as int)),
            fewer,
            wanted,
            item,
        );
    }
}

} // verus!
