//! The colours of a chart's slices.

use vstd::prelude::*;

use crate::seqs;

verus! {

/// How many slices have a colour of their own.
pub open spec fn coloured_slices(muted: Seq<bool>) -> nat
    decreases muted.len(),
{
    if muted.len() == 0 {
        0
    } else {
        coloured_slices(muted.drop_last()) + if muted.last() {
            0nat
        } else {
            1nat
        }
    }
}

/// The colours of a chart: how many the wheel is divided into, and which of
/// them each slice has.
#[derive(Debug)]
pub struct SliceColours {
    pub count: usize,
    pub slots: Vec<Option<usize>>,
}

/// Divides the colour wheel among the slices that are not muted, in their
/// order; a chart of muted slices alone has one colour that none of them uses.
pub fn slice_colours(muted: &Vec<bool>) -> (colours: SliceColours)
    ensures
        colours.count == if coloured_slices(muted@) == 0 {
            1
        } else {
            coloured_slices(muted@)
        },
        colours.slots@.len() == muted@.len(),
        forall|i: int|
            0 <= i < muted@.len() ==> #[trigger] colours.slots@[i] == if muted@[i] {
                None
            } else {
                Some(coloured_slices(muted@.take(i)) as usize)
            },
{
    let mut slots: Vec<Option<usize>> = Vec::new();
    let mut next: usize = 0;
    let mut index: usize = 0;
    assert(muted@.take(0) =~= Seq::empty());
    while index < muted.len()
        invariant
            index <= muted@.len(),
            next <= index,
            next == coloured_slices(muted@.take(index as int)),
            slots@.len() == index,
            forall|i: int|
                0 <= i < index ==> #[trigger] slots@[i] == if muted@[i] {
                    None
                } else {
                    Some(coloured_slices(muted@.take(i)) as usize)
                },
        decreases muted.len() - index,
    {
        proof {
            let upto = muted@.take(index as int + 1);
            assert(upto.drop_last() =~= muted@.take(index as int));
        }
        if muted[index] {
            slots.push(None);
        } else {
            slots.push(Some(next));
            next = next + 1;
        }
        index = index + 1;
    }
    assert(muted@.take(index as int) =~= muted@);
    let count: usize = if next == 0 {
        1
    } else {
        next
    };
    SliceColours { count, slots }
}

proof fn lemma_coloured_slices_grow(muted: Seq<bool>, from: int, upto: int)
    requires
        0 <= from < upto <= muted.len(),
        !muted[from],
    ensures
        coloured_slices(muted.take(from)) < coloured_slices(muted.take(upto)),
    decreases upto,
{
    assert(muted.take(upto).drop_last() =~= muted.take(upto - 1));
    if from < upto - 1 {
        lemma_coloured_slices_grow(muted, from, upto - 1);
    }
}

/// Every colour is one of the wheel's, and no two slices share one.
pub proof fn law_slices_differ_in_colour(muted: Seq<bool>, i: int, j: int)
    requires
        0 <= i < j < muted.len(),
        !muted[i],
        !muted[j],
    ensures
        coloured_slices(muted.take(i)) < coloured_slices(muted.take(j)) < coloured_slices(muted),
{
    lemma_coloured_slices_grow(muted, i, j);
    lemma_coloured_slices_grow(muted, j, muted.len() as int);
    assert(muted.take(muted.len() as int) =~= muted);
}

/// A slice has the colour of its place among those that have one: as many come
/// before it on the wheel as slices before it are not muted.
pub proof fn law_colours_are_dealt_out_in_order(muted: Seq<bool>, upto: nat) -> (coloured: Seq<int>)
    requires
        upto <= muted.len(),
    ensures
        seqs::lists(coloured, upto, |i: int| !muted[i], |i: int| i),
        coloured_slices(muted.take(upto as int)) == coloured.len(),
    decreases upto,
{
    let wanted = |i: int| !muted[i];
    let item = |i: int| i;
    if upto == 0 {
        assert(muted.take(0) =~= Seq::empty());
        seqs::lemma_lists_nothing(wanted, item);
        Seq::empty()
    } else {
        let fewer = (upto - 1) as nat;
        let coloured = law_colours_are_dealt_out_in_order(muted, fewer);
        assert(muted.take(upto as int).drop_last() =~= muted.take(fewer as int));
        assert(muted.take(upto as int).last() == muted[fewer as int]);
        seqs::lemma_lists_one_more(coloured, fewer, wanted, item);
        if wanted(fewer as int) {
            coloured.push(fewer as int)
        } else {
            coloured
        }
    }
}

} // verus!
