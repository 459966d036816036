//! Dragging rows of a playlist to another place in it.

use vstd::prelude::*;

use crate::library::{contains_track, PlaylistEntry, TrackId};
use crate::seqs;

verus! {

/// On which side of a row the dragged rows are dropped.
#[derive(Clone, Copy, Debug, PartialEq, Eq, Structural)]
pub enum RowDropPosition {
    Above,
    Below,
}

/// Rows that are dropped on a row of the same table.
#[derive(Debug)]
pub struct RowReorderDrop {
    pub dragged_track_ids: Vec<TrackId>,
    pub target_track_id: TrackId,
    pub position: RowDropPosition,
}

/// Whether the track of an entry is among the dragged ones.
pub open spec fn is_dragged(entry: PlaylistEntry, dragged: Seq<TrackId>) -> bool {
    dragged.contains(entry.track_id)
}

/// How many of these entries are dragged.
pub open spec fn dragged_among(entries: Seq<PlaylistEntry>, dragged: Seq<TrackId>) -> nat
    decreases entries.len(),
{
    if entries.len() == 0 {
        0
    } else {
        dragged_among(entries.drop_last(), dragged) + if is_dragged(entries.last(), dragged) {
            1nat
        } else {
            0nat
        }
    }
}

/// The entries that stay when the dragged ones are taken out.
pub open spec fn staying(entries: Seq<PlaylistEntry>, dragged: Seq<TrackId>) -> Seq<PlaylistEntry>
    decreases entries.len(),
{
    if entries.len() == 0 {
        Seq::empty()
    } else {
        let earlier = staying(entries.drop_last(), dragged);
        if is_dragged(entries.last(), dragged) {
            earlier
        } else {
            earlier.push(entries.last())
        }
    }
}

/// Where the target row stands.
pub open spec fn target_index(entries: Seq<PlaylistEntry>, target: TrackId) -> int {
    seqs::first_index(entries, |entry: PlaylistEntry| entry.track_id == target)
}

/// Whether a drop moves anything: its target is in the playlist, and something
/// other than the target is dragged.
pub open spec fn moves_something(
    entries: Seq<PlaylistEntry>,
    dragged: Seq<TrackId>,
    target: TrackId,
) -> bool {
    &&& target_index(entries, target) < entries.len()
    &&& exists|i: int| 0 <= i < dragged.len() && #[trigger] dragged[i] != target
}

/// The place at which the dragged rows are put back once they are taken out.
pub open spec fn insertion_index(
    entries: Seq<PlaylistEntry>,
    dragged: Seq<TrackId>,
    target: TrackId,
    position: RowDropPosition,
) -> int {
    let index = target_index(entries, target);
    let after_removal = index - dragged_among(entries.take(index), dragged);
    match position {
        RowDropPosition::Above => after_removal,
        RowDropPosition::Below => after_removal + 1,
    }
}

proof fn lemma_dragged_bound(entries: Seq<PlaylistEntry>, dragged: Seq<TrackId>)
    ensures
        dragged_among(entries, dragged) <= entries.len(),
    decreases entries.len(),
{
    if entries.len() > 0 {
        lemma_dragged_bound(entries.drop_last(), dragged);
    }
}

/// The place at which the dragged rows are put back once they are taken out.
/// There is none when the target row is not in the playlist, or when nothing
/// but the target row itself is dragged.
pub fn compute_playlist_reorder_position(entries: &[PlaylistEntry], drop: &RowReorderDrop) -> (place:
    Option<u32>)
    ensures
        ({
            let dragged = drop.dragged_track_ids@;
            let place_wanted = insertion_index(
                entries@,
                dragged,
                drop.target_track_id,
                drop.position,
            );
            match place {
                Some(place) => moves_something(entries@, dragged, drop.target_track_id) && place
                    == place_wanted,
                None => !moves_something(entries@, dragged, drop.target_track_id) || place_wanted
                    > u32::MAX,
            }
        }),
{
    let ghost dragged = drop.dragged_track_ids@;
    let ghost wanted = |entry: PlaylistEntry| entry.track_id == drop.target_track_id;
    let mut index: usize = 0;
    let mut before: usize = 0;
    assert(entries@.take(0) =~= Seq::empty());
    while index < entries.len() && entries[index].track_id != drop.target_track_id
        invariant
            index <= entries.len(),
            dragged == drop.dragged_track_ids@,
            wanted == (|entry: PlaylistEntry| entry.track_id == drop.target_track_id),
            forall|i: int| 0 <= i < index ==> !wanted(#[trigger] entries@[i]),
            before == dragged_among(entries@.take(index as int), dragged),
            before <= index,
        decreases entries.len() - index,
    {
        assert(entries@.take(index as int + 1).drop_last() =~= entries@.take(index as int));
        if contains_track(&drop.dragged_track_ids, entries[index].track_id) {
            before = before + 1;
        }
        index = index + 1;
    }
    proof {
        seqs::lemma_is_first_index(entries@, wanted, index as int);
    }
    if index == entries.len() {
        return None;
    }
    let mut other: bool = false;
    let mut at: usize = 0;
    while at < drop.dragged_track_ids.len()
        invariant
            at <= drop.dragged_track_ids.len(),
            dragged == drop.dragged_track_ids@,
            other == exists|i: int| 0 <= i < at && #[trigger] dragged[i] != drop.target_track_id,
        decreases drop.dragged_track_ids.len() - at,
    {
        if drop.dragged_track_ids[at] != drop.target_track_id {
            assert(dragged[at as int] != drop.target_track_id);
            other = true;
        }
        at = at + 1;
    }
    if !other {
        return None;
    }
    let after_removal: usize = index - before;
    let place: usize = match drop.position {
        RowDropPosition::Above => after_removal,
        RowDropPosition::Below => after_removal + 1,
    };
    if place as u64 <= u32::MAX as u64 {
        Some(place as u32)
    } else {
        None
    }
}

proof fn lemma_staying_len(entries: Seq<PlaylistEntry>, dragged: Seq<TrackId>)
    ensures
        staying(entries, dragged).len() == entries.len() - dragged_among(entries, dragged),
    decreases entries.len(),
{
    if entries.len() > 0 {
        lemma_staying_len(entries.drop_last(), dragged);
    }
}

proof fn lemma_staying_prefix(entries: Seq<PlaylistEntry>, dragged: Seq<TrackId>, upto: int)
    requires
        0 <= upto <= entries.len(),
    ensures
        staying(entries.take(upto), dragged).len() <= staying(entries, dragged).len(),
        forall|i: int|
            0 <= i < staying(entries.take(upto), dragged).len() ==> #[trigger] staying(
                entries,
                dragged,
            )[i] == staying(entries.take(upto), dragged)[i],
    decreases entries.len(),
{
    if upto == entries.len() {
        assert(entries.take(upto) =~= entries);
    } else {
        assert(entries.drop_last().take(upto) =~= entries.take(upto));
        lemma_staying_prefix(entries.drop_last(), dragged, upto);
    }
}

/// Dragged rows land right beside the target row: once they are taken out, the
/// target row stands at the computed place when they are dropped above it, and
/// right before that place when they are dropped below it.
pub proof fn law_dragged_rows_land_beside_the_target(
    entries: Seq<PlaylistEntry>,
    dragged: Seq<TrackId>,
    target: TrackId,
)
    requires
        moves_something(entries, dragged, target),
        !dragged.contains(target),
    ensures
        ({
            let rest = staying(entries, dragged);
            let above = insertion_index(entries, dragged, target, RowDropPosition::Above);
            let below = insertion_index(entries, dragged, target, RowDropPosition::Below);
            &&& below == above + 1
            &&& 0 <= above < rest.len()
            &&& rest[above] == entries[target_index(entries, target)]
        }),
{
    let wanted = |entry: PlaylistEntry| entry.track_id == target;
    seqs::lemma_first_index(entries, wanted);
    let index = target_index(entries, target);
    assert(wanted(entries[index]));
    lemma_staying_len(entries.take(index), dragged);
    lemma_dragged_bound(entries.take(index), dragged);
    let upto = entries.take(index + 1);
    assert(upto.drop_last() =~= entries.take(index));
    assert(upto.last() == entries[index]);
    lemma_staying_prefix(entries, dragged, index + 1);
    let above = index - dragged_among(entries.take(index), dragged);
    assert(staying(upto, dragged)[above] == entries[index]);
}

/// The entries that are not dragged, in their order.
proof fn lemma_staying_listed(entries: Seq<PlaylistEntry>, dragged: Seq<TrackId>, upto: nat)
    requires
        upto <= entries.len(),
    ensures
        seqs::lists(
            staying(entries.take(upto as int), dragged),
            upto,
            |i: int| !dragged.contains(entries[i].track_id),
            |i: int| entries[i],
        ),
    decreases upto,
{
    let wanted = |i: int| !dragged.contains(entries[i].track_id);
    let item = |i: int| entries[i];
    if upto == 0 {
        assert(entries.take(0) =~= Seq::empty());
        seqs::lemma_lists_nothing(wanted, item);
    } else {
        let fewer = (upto - 1) as nat;
        lemma_staying_listed(entries, dragged, fewer);
        assert(entries.take(upto as int).drop_last() =~= entries.take(fewer as int));
        assert(entries.take(upto as int).last() == entries[fewer as int]);
        seqs::lemma_lists_one_more(
            staying(entries.take(fewer as int), dragged),
            fewer,
            wanted,
            item,
        );
    }
}

/// Once the dragged rows are taken out, what is left in front of the computed
/// place is what stood before the target row and was not dragged, and with it
/// the target row where the drop is below it: `rest` are the entries that are
/// not dragged, and `front` those of them that stood before the target.
pub proof fn law_the_place_counts_what_is_left_before_the_target(
    entries: Seq<PlaylistEntry>,
    dragged: Seq<TrackId>,
    target: TrackId,
    at: int,
) -> (parts: (Seq<PlaylistEntry>, Seq<PlaylistEntry>))
    requires
        0 <= at < entries.len(),
        entries[at].track_id == target,
        forall|i: int| 0 <= i < at ==> (#[trigger] entries[i]).track_id != target,
    ensures
        ({
            let (rest, front) = parts;
            let above = insertion_index(entries, dragged, target, RowDropPosition::Above);
            let below = insertion_index(entries, dragged, target, RowDropPosition::Below);
            &&& seqs::lists(
                rest,
                entries.len(),
                |i: int| !dragged.contains(entries[i].track_id),
                |i: int| entries[i],
            )
            &&& seqs::lists(
                front,
                at as nat,
                |i: int| !dragged.contains(entries[i].track_id),
                |i: int| entries[i],
            )
            &&& above == front.len()
            &&& below == front.len() + 1
            &&& front.len() <= rest.len()
            &&& front == rest.take(above)
            &&& !dragged.contains(target) ==> above < rest.len() && rest[above] == entries[at]
        }),
{
    let wanted = |entry: PlaylistEntry| entry.track_id == target;
    seqs::lemma_is_first_index(entries, wanted, at);
    let rest = staying(entries, dragged);
    let front = staying(entries.take(at), dragged);
    lemma_staying_listed(entries, dragged, entries.len());
    assert(entries.take(entries.len() as int) =~= entries);
    lemma_staying_listed(entries, dragged, at as nat);
    lemma_staying_len(entries.take(at), dragged);
    lemma_staying_prefix(entries, dragged, at);
    assert(front =~= rest.take(front.len() as int));
    if !dragged.contains(target) {
        let upto = entries.take(at + 1);
        assert(upto.drop_last() =~= entries.take(at));
        assert(upto.last() == entries[at]);
        lemma_staying_prefix(entries, dragged, at + 1);
        assert(staying(upto, dragged)[front.len() as int] == entries[at]);
    }
    (rest, front)
}

/// A drop moves something iff its target is in the playlist and another row than
/// the target is dragged.
pub proof fn law_a_drop_moves_something_unless_it_drops_a_row_on_itself(
    entries: Seq<PlaylistEntry>,
    dragged: Seq<TrackId>,
    target: TrackId,
)
    ensures
        moves_something(entries, dragged, target) <==> (exists|e: int|
            0 <= e < entries.len() && (#[trigger] entries[e]).track_id == target) && (exists|
            other: TrackId,
        | #[trigger]
            dragged.contains(other) && other != target),
{
    let wanted = |entry: PlaylistEntry| entry.track_id == target;
    seqs::lemma_first_index(entries, wanted);
    let at = target_index(entries, target);
    if at < entries.len() {
        assert(wanted(entries[at]));
        assert(entries[at].track_id == target);
    } else if exists|e: int| 0 <= e < entries.len() && (#[trigger] entries[e]).track_id == target {
        let e = choose|e: int| 0 <= e < entries.len() && (#[trigger] entries[e]).track_id == target;
        assert(!wanted(entries[e]));
    }
    if exists|i: int| 0 <= i < dragged.len() && #[trigger] dragged[i] != target {
        let i = choose|i: int| 0 <= i < dragged.len() && #[trigger] dragged[i] != target;
        assert(dragged.contains(dragged[i]));
    }
    if exists|other: TrackId| #[trigger] dragged.contains(other) && other != target {
        let other = choose|other: TrackId| #[trigger] dragged.contains(other) && other != target;
        assert(dragged[dragged.index_of(other)] != target);
    }
}

} // verus!
