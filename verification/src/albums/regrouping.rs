//! What becomes of the albums when the library is listed in another order, or
//! when one of its tracks changes.

use vstd::prelude::*;

use crate::albums::model;
use crate::albums::model::{AlbumTrackViewModel, AlbumViewModel};
use crate::library::{Track, TrackId};
use crate::seqs;
use crate::sorting;
use crate::text;
use crate::text::Order;

verus! {

/// No two tracks have the same identifier.
pub open spec fn ids_differ(tracks: Seq<Track>) -> bool {
    forall|i: int, j: int|
        #![trigger tracks[i], tracks[j]]
        0 <= i < j < tracks.len() ==> tracks[i].id != tracks[j].id
}

/// No two rows have the same identifier.
pub open spec fn row_ids_differ(rows: Seq<model::AlbumTrackView>) -> bool {
    forall|i: int, j: int|
        #![trigger rows[i], rows[j]]
        0 <= i < j < rows.len() ==> rows[i].id != rows[j].id
}

/// The albums have the same keys, and list the same rows, place by place.
pub open spec fn same_keys_and_rows(first: Seq<AlbumViewModel>, second: Seq<AlbumViewModel>) -> bool {
    &&& first.len() == second.len()
    &&& forall|i: int|
        #![trigger first[i]]
        #![trigger second[i]]
        0 <= i < first.len() ==> first[i].key@ == second[i].key@ && first[i]@.tracks
            == second[i]@.tracks
}

/// A row stands before another, and not the other way round.
spec fn row_precedes(left: model::AlbumTrackView, right: model::AlbumTrackView) -> bool {
    model::track_order(left, right) != Order::After && model::track_order(right, left)
        == Order::After
}

/// Of rows with different identifiers, one stands strictly before the other.
proof fn lemma_different_ids_never_tie(left: model::AlbumTrackView, right: model::AlbumTrackView)
    requires
        left.id != right.id,
        model::track_order(left, right) != Order::After,
    ensures
        row_precedes(left, right),
{
    let (x, y) = (model::normalized(left.title), model::normalized(right.title));
    text::lemma_text_order_swap(x, y);
    text::lemma_text_order_swap(y, x);
    text::lemma_text_order_same(x, y);
    text::lemma_text_order_same(y, x);
}

/// Rows of different identifiers have but one order, in whatever order they
/// come.
proof fn lemma_rows_have_one_order(
    first: Seq<model::AlbumTrackView>,
    first_sorted: Seq<model::AlbumTrackView>,
    second: Seq<model::AlbumTrackView>,
    second_sorted: Seq<model::AlbumTrackView>,
)
    requires
        sorting::stable_order::<AlbumTrackViewModel>(first, first_sorted),
        sorting::stable_order::<AlbumTrackViewModel>(second, second_sorted),
        row_ids_differ(first),
        row_ids_differ(second),
        forall|row: model::AlbumTrackView| #[trigger] first.contains(row) <==> second.contains(row),
    ensures
        first_sorted == second_sorted,
{
    let precedes = |left: model::AlbumTrackView, right: model::AlbumTrackView|
        row_precedes(left, right);
    lemma_strict(first, first_sorted);
    lemma_strict(second, second_sorted);
    sorting::lemma_same_items::<AlbumTrackViewModel>(first, first_sorted);
    sorting::lemma_same_items::<AlbumTrackViewModel>(second, second_sorted);
    assert forall|i: int, j: int| 0 <= i < j < first_sorted.len() implies #[trigger] precedes(
        first_sorted[i],
        first_sorted[j],
    ) by {
        assert(row_precedes(first_sorted[i], first_sorted[j]));
    }
    assert forall|i: int, j: int| 0 <= i < j < second_sorted.len() implies #[trigger] precedes(
        second_sorted[i],
        second_sorted[j],
    ) by {
        assert(row_precedes(second_sorted[i], second_sorted[j]));
    }
    assert forall|row: model::AlbumTrackView| #[trigger] first_sorted.contains(row)
        <==> second_sorted.contains(row) by {
        assert(first.contains(row) <==> second.contains(row));
    }
    sorting::lemma_strict_order_is_unique(first_sorted, second_sorted, precedes);
}

/// Sorted rows of different identifiers stand in a strict order, and their
/// identifiers still differ.
proof fn lemma_strict(rows: Seq<model::AlbumTrackView>, sorted: Seq<model::AlbumTrackView>)
    requires
        sorting::stable_order::<AlbumTrackViewModel>(rows, sorted),
        row_ids_differ(rows),
    ensures
        forall|i: int, j: int|
            0 <= i < j < sorted.len() ==> #[trigger] row_precedes(sorted[i], sorted[j]),
        row_ids_differ(sorted),
{
    let from = choose|from: Seq<int>|
        sorting::stable_order_from::<AlbumTrackViewModel>(rows, sorted, from);
    assert forall|i: int, j: int| 0 <= i < j < sorted.len() implies #[trigger] sorted[i].id
        != #[trigger] sorted[j].id && row_precedes(sorted[i], sorted[j]) by {
        assert(from[i] != from[j]);
        assert(sorted[i] == rows[from[i]] && sorted[j] == rows[from[j]]);
        if from[i] < from[j] {
            assert(rows[from[i]].id != rows[from[j]].id);
        } else {
            assert(rows[from[j]].id != rows[from[i]].id);
        }
        assert(<AlbumTrackViewModel as sorting::Ranked>::rank_leq(sorted[i], sorted[j]));
        lemma_different_ids_never_tie(sorted[i], sorted[j]);
    }
}

/// Where a member of an album stands in the library.
proof fn lemma_member_place(tracks: Seq<Track>, key: (Seq<char>, Seq<char>), m: int) -> (t: int)
    requires
        0 <= m < model::members(tracks, key).len(),
    ensures
        0 <= t < tracks.len(),
        key_matches(tracks, key, t),
        tracks[t] == model::members(tracks, key)[m],
    decreases tracks.len(),
{
    let rest = tracks.drop_last();
    if m < model::members(rest, key).len() {
        lemma_member_place(rest, key, m)
    } else {
        tracks.len() - 1
    }
}

spec fn key_matches(tracks: Seq<Track>, key: (Seq<char>, Seq<char>), t: int) -> bool {
    model::key_of(tracks[t]) == key
}

/// A track with the key of an album is a member of it.
proof fn lemma_place_of_member(tracks: Seq<Track>, key: (Seq<char>, Seq<char>), t: int) -> (m: int)
    requires
        0 <= t < tracks.len(),
        key_matches(tracks, key, t),
    ensures
        0 <= m < model::members(tracks, key).len(),
        model::members(tracks, key)[m] == tracks[t],
    decreases tracks.len(),
{
    let rest = tracks.drop_last();
    if t < rest.len() {
        assert(rest[t] == tracks[t]);
        lemma_place_of_member(rest, key, t)
    } else {
        model::members(rest, key).len() as int
    }
}

/// The members of an album have different identifiers when all tracks do.
proof fn lemma_member_ids_differ(tracks: Seq<Track>, key: (Seq<char>, Seq<char>))
    requires
        ids_differ(tracks),
    ensures
        ids_differ(model::members(tracks, key)),
        row_ids_differ(model::track_rows(model::members(tracks, key))),
    decreases tracks.len(),
{
    if tracks.len() > 0 {
        let rest = tracks.drop_last();
        let earlier = model::members(rest, key);
        let all = model::members(tracks, key);
        assert forall|i: int, j: int|
            #![trigger rest[i], rest[j]]
            0 <= i < j < rest.len() implies rest[i].id != rest[j].id by {
            assert(tracks[i].id != tracks[j].id);
        }
        lemma_member_ids_differ(rest, key);
        assert forall|i: int, j: int|
            #![trigger all[i], all[j]]
            0 <= i < j < all.len() implies all[i].id != all[j].id by {
            if j < earlier.len() {
                assert(earlier[i].id != earlier[j].id);
            } else {
                let t = lemma_member_place(rest, key, i);
                assert(tracks[t] == all[i]);
                assert(tracks[tracks.len() - 1] == all[j]);
            }
        }
    }
    let all = model::members(tracks, key);
    let rows = model::track_rows(all);
    assert forall|i: int, j: int|
        #![trigger rows[i], rows[j]]
        0 <= i < j < rows.len() implies rows[i].id != rows[j].id by {
        assert(all[i].id != all[j].id);
    }
}

/// Tracks that are listed in both libraries alike.
spec fn same_tracks(first: Seq<Track>, second: Seq<Track>) -> bool {
    forall|track: Track| #[trigger] first.contains(track) <==> second.contains(track)
}

/// The rows of an album of one library are those of the other's.
proof fn lemma_rows_of_same_tracks(
    first: Seq<Track>,
    second: Seq<Track>,
    key: (Seq<char>, Seq<char>),
    row: model::AlbumTrackView,
)
    requires
        same_tracks(first, second),
        model::track_rows(model::members(first, key)).contains(row),
    ensures
        model::track_rows(model::members(second, key)).contains(row),
{
    let rows = model::track_rows(model::members(first, key));
    let t = lemma_member_place(first, key, rows.index_of(row));
    assert(first.contains(first[t]));
    assert(second.contains(first[t]));
    let m = lemma_place_of_member(second, key, second.index_of(first[t]));
    assert(model::track_rows(model::members(second, key))[m] == row);
}

/// Whether a key is that of a track.
spec fn key_occurs(tracks: Seq<Track>, key: (Seq<char>, Seq<char>)) -> bool {
    exists|t: int| 0 <= t < tracks.len() && #[trigger] key_matches(tracks, key, t)
}

/// The albums of a library have the keys of its tracks.
proof fn lemma_keys_occur(albums: Seq<AlbumViewModel>, tracks: Seq<Track>)
    requires
        model::albums_group(albums, tracks),
    ensures
        forall|key: (Seq<char>, Seq<char>)| #[trigger]
            model::album_keys(albums).contains(key) <==> key_occurs(tracks, key),
{
    assert forall|key: (Seq<char>, Seq<char>)| #[trigger]
        model::album_keys(albums).contains(key) <==> key_occurs(tracks, key) by {
        if model::album_keys(albums).contains(key) {
            let i = model::album_keys(albums).index_of(key);
            assert(albums[i].shows(model::members(tracks, albums[i].key@)));
            let t = lemma_member_place(tracks, key, 0);
        }
        if key_occurs(tracks, key) {
            let t = choose|t: int| 0 <= t < tracks.len() && #[trigger] key_matches(tracks, key, t);
            assert(model::album_keys(albums).contains(model::key_of(tracks[t])));
        }
    }
}

/// Libraries whose tracks have the same keys have albums with the same keys,
/// place by place.
proof fn lemma_same_keys(
    first: Seq<AlbumViewModel>,
    first_tracks: Seq<Track>,
    second: Seq<AlbumViewModel>,
    second_tracks: Seq<Track>,
)
    requires
        model::albums_group(first, first_tracks),
        model::albums_group(second, second_tracks),
        forall|key: (Seq<char>, Seq<char>)| #[trigger]
            key_occurs(first_tracks, key) <==> key_occurs(second_tracks, key),
    ensures
        first.len() == second.len(),
        forall|i: int|
            #![trigger first[i]]
            #![trigger second[i]]
            0 <= i < first.len() ==> first[i].key@ == second[i].key@,
{
    let precedes = |left: (Seq<char>, Seq<char>), right: (Seq<char>, Seq<char>)|
        model::key_order(left, right) == Order::Before;
    let (one, two) = (model::album_keys(first), model::album_keys(second));
    assert forall|i: int, j: int| 0 <= i < j < one.len() implies #[trigger] precedes(
        one[i],
        one[j],
    ) by {
        assert(model::key_order(first[i].key@, first[j].key@) == Order::Before);
    }
    assert forall|i: int, j: int| 0 <= i < j < two.len() implies #[trigger] precedes(
        two[i],
        two[j],
    ) by {
        assert(model::key_order(second[i].key@, second[j].key@) == Order::Before);
    }
    assert forall|left: (Seq<char>, Seq<char>), right: (Seq<char>, Seq<char>)| #[trigger]
        precedes(left, right) implies !precedes(right, left) by {
        model::lemma_key_order_swap(left, right);
    }
    lemma_keys_occur(first, first_tracks);
    lemma_keys_occur(second, second_tracks);
    assert forall|key: (Seq<char>, Seq<char>)| #[trigger] one.contains(key) <==> two.contains(
        key,
    ) by {
        assert(key_occurs(first_tracks, key) <==> key_occurs(second_tracks, key));
    }
    sorting::lemma_strict_order_is_unique(one, two, precedes);
    assert forall|i: int|
        #![trigger first[i]]
        #![trigger second[i]]
        0 <= i < first.len() implies first[i].key@ == second[i].key@ by {
        assert(one[i] == two[i]);
    }
}

/// The order in which the library lists its tracks does not matter to the keys,
/// rows and covers of its albums.
pub proof fn law_albums_do_not_depend_on_the_order_of_tracks(
    first: Seq<AlbumViewModel>,
    tracks: Seq<Track>,
    second: Seq<AlbumViewModel>,
    reordered: Seq<Track>,
)
    requires
        model::albums_group(first, tracks),
        model::albums_group(second, reordered),
        tracks.to_multiset() == reordered.to_multiset(),
        ids_differ(tracks),
    ensures
        same_keys_and_rows(first, second),
        forall|i: int|
            #![trigger first[i]]
            #![trigger second[i]]
            0 <= i < first.len() ==> first[i]@.representative_track_path
                == second[i]@.representative_track_path,
{
    lemma_reordered(tracks, reordered);
    assert forall|key: (Seq<char>, Seq<char>)| #[trigger]
        key_occurs(tracks, key) <==> key_occurs(reordered, key) by {
        if key_occurs(tracks, key) {
            let t = choose|t: int| 0 <= t < tracks.len() && #[trigger] key_matches(tracks, key, t);
            assert(tracks.contains(tracks[t]));
            let other = reordered.index_of(tracks[t]);
            assert(key_matches(reordered, key, other));
        }
        if key_occurs(reordered, key) {
            let t = choose|t: int|
                0 <= t < reordered.len() && #[trigger] key_matches(reordered, key, t);
            assert(reordered.contains(reordered[t]));
            assert(tracks.contains(reordered[t]));
            let other = tracks.index_of(reordered[t]);
            assert(key_matches(tracks, key, other));
        }
    }
    lemma_same_keys(first, tracks, second, reordered);
    assert forall|i: int|
        #![trigger first[i]]
        #![trigger second[i]]
        0 <= i < first.len() implies first[i]@.tracks == second[i]@.tracks by {
        let key = first[i].key@;
        assert(second[i].key@ == key);
        assert(first[i].shows(model::members(tracks, key)));
        assert(second[i].shows(model::members(reordered, key)));
        lemma_member_ids_differ(tracks, key);
        lemma_member_ids_differ(reordered, key);
        let one = model::track_rows(model::members(tracks, key));
        let two = model::track_rows(model::members(reordered, key));
        assert forall|row: model::AlbumTrackView| #[trigger] one.contains(row) <==> two.contains(
            row,
        ) by {
            if one.contains(row) {
                lemma_rows_of_same_tracks(tracks, reordered, key, row);
            }
            if two.contains(row) {
                lemma_rows_of_same_tracks(reordered, tracks, key, row);
            }
        }
        lemma_rows_have_one_order(
            one,
            sorting::views(first[i].tracks@),
            two,
            sorting::views(second[i].tracks@),
        );
    }
    assert forall|i: int|
        #![trigger first[i]]
        #![trigger second[i]]
        0 <= i < first.len() implies first[i]@.representative_track_path
        == second[i]@.representative_track_path by {
        assert(first[i].shows(model::members(tracks, first[i].key@)));
        assert(second[i].shows(model::members(reordered, second[i].key@)));
        assert(first[i]@.tracks == second[i]@.tracks);
    }
}

/// A library in another order holds the same tracks, with different
/// identifiers.
proof fn lemma_reordered(tracks: Seq<Track>, reordered: Seq<Track>)
    requires
        tracks.to_multiset() == reordered.to_multiset(),
        ids_differ(tracks),
    ensures
        same_tracks(tracks, reordered),
        same_tracks(reordered, tracks),
        ids_differ(reordered),
{
    broadcast use vstd::seq_lib::group_to_multiset_ensures;

    assert forall|track: Track| #[trigger] tracks.contains(track) <==> reordered.contains(
        track,
    ) by {
        assert(tracks.contains(track) <==> tracks.to_multiset().count(track) > 0);
        assert(reordered.contains(track) <==> reordered.to_multiset().count(track) > 0);
    }
    assert(tracks.no_duplicates()) by {
        assert forall|i: int, j: int| 0 <= i < tracks.len() && 0 <= j < tracks.len() && i
            != j implies tracks[i] != tracks[j] by {
            if i < j {
                assert(tracks[i].id != tracks[j].id);
            } else {
                assert(tracks[j].id != tracks[i].id);
            }
        }
    }
    tracks.lemma_multiset_has_no_duplicates();
    reordered.lemma_multiset_has_no_duplicates_conv();
    assert forall|i: int, j: int|
        #![trigger reordered[i], reordered[j]]
        0 <= i < j < reordered.len() implies reordered[i].id != reordered[j].id by {
        assert(reordered.contains(reordered[i]) && reordered.contains(reordered[j]));
        assert(tracks.contains(reordered[i]) && tracks.contains(reordered[j]));
        let a = tracks.index_of(reordered[i]);
        let b = tracks.index_of(reordered[j]);
        assert(reordered[i] != reordered[j]);
        if a < b {
            assert(tracks[a].id != tracks[b].id);
        } else {
            assert(tracks[b].id != tracks[a].id);
        }
    }
}

/// Where the first row with an identifier stands: none before it has it.
proof fn lemma_track_slot(tracks: Seq<AlbumTrackViewModel>, id: TrackId)
    ensures
        0 <= model::track_slot(tracks, id) <= tracks.len(),
        forall|i: int| 0 <= i < model::track_slot(tracks, id) ==> (#[trigger] tracks[i]).id != id,
        model::holds_track(tracks, id) ==> tracks[model::track_slot(tracks, id)].id == id,
{
    seqs::lemma_first_index(tracks, model::is_track(id));
}

/// The only album that holds a track is the one that is found.
proof fn lemma_album_holding(albums: Seq<AlbumViewModel>, id: TrackId, index: int)
    requires
        0 <= index < albums.len(),
        model::holds_track(albums[index].tracks@, id),
        forall|i: int|
            0 <= i < albums.len() && i != index ==> !model::holds_track(
                (#[trigger] albums[i]).tracks@,
                id,
            ),
    ensures
        model::album_holding(albums, id) == index,
{
    seqs::lemma_is_first_index(albums, model::is_holder(id), index);
}

/// The row of a track of an album, found by its identifier, is that of the
/// track.
proof fn lemma_row_by_id(
    albums: Seq<AlbumViewModel>,
    tracks: Seq<Track>,
    i: int,
    r: int,
    t: int,
)
    requires
        model::albums_group(albums, tracks),
        ids_differ(tracks),
        0 <= i < albums.len(),
        0 <= r < albums[i].tracks@.len(),
        0 <= t < tracks.len(),
        albums[i].tracks@[r].id == tracks[t].id,
    ensures
        albums[i].tracks@[r]@ == model::track_row(tracks[t]),
        albums[i].key@ == model::key_of(tracks[t]),
{
    let key = albums[i].key@;
    let mine = model::track_rows(model::members(tracks, key));
    let sorted = sorting::views(albums[i].tracks@);
    assert(albums[i].shows(model::members(tracks, key)));
    sorting::lemma_same_items::<AlbumTrackViewModel>(mine, sorted);
    assert(sorted.contains(sorted[r]));
    let other = lemma_member_place(tracks, key, mine.index_of(sorted[r]));
    assert(model::track_row(tracks[other]) == sorted[r]);
    if other < t {
        assert(tracks[other].id != tracks[t].id);
    } else if t < other {
        assert(tracks[t].id != tracks[other].id);
    }
}

/// The album with the key of a track lists the track's row.
proof fn lemma_row_of_track(albums: Seq<AlbumViewModel>, tracks: Seq<Track>, i: int, t: int) -> (r:
    int)
    requires
        model::albums_group(albums, tracks),
        0 <= i < albums.len(),
        0 <= t < tracks.len(),
        albums[i].key@ == model::key_of(tracks[t]),
    ensures
        0 <= r < albums[i].tracks@.len(),
        albums[i].tracks@[r]@ == model::track_row(tracks[t]),
{
    let key = albums[i].key@;
    assert(albums[i].shows(model::members(tracks, key)));
    let m = lemma_place_of_member(tracks, key, t);
    sorting::lemma_every_item_is_kept::<AlbumTrackViewModel>(
        model::track_rows(model::members(tracks, key)),
        sorting::views(albums[i].tracks@),
        m,
    )
}

/// The rows of an album have different identifiers when all tracks do.
proof fn lemma_shown_ids_differ(albums: Seq<AlbumViewModel>, tracks: Seq<Track>, i: int)
    requires
        model::albums_group(albums, tracks),
        ids_differ(tracks),
        0 <= i < albums.len(),
    ensures
        row_ids_differ(sorting::views(albums[i].tracks@)),
{
    let key = albums[i].key@;
    assert(albums[i].shows(model::members(tracks, key)));
    lemma_member_ids_differ(tracks, key);
    lemma_strict(
        model::track_rows(model::members(tracks, key)),
        sorting::views(albums[i].tracks@),
    );
}

/// A row that the changed library gives an album, and the unchanged one too:
/// that of any track but the changed one.
proof fn lemma_rows_but_one(
    tracks: Seq<Track>,
    changed: Seq<Track>,
    place: int,
    key: (Seq<char>, Seq<char>),
    row: model::AlbumTrackView,
)
    requires
        0 <= place < tracks.len(),
        changed == tracks.update(place, changed[place]),
        model::track_rows(model::members(tracks, key)).contains(row),
        row.id != tracks[place].id,
    ensures
        model::track_rows(model::members(changed, key)).contains(row),
{
    let rows = model::track_rows(model::members(tracks, key));
    let t = lemma_member_place(tracks, key, rows.index_of(row));
    assert(model::track_row(tracks[t]) == row);
    assert(t != place);
    assert(changed[t] == tracks[t]);
    assert(key_matches(changed, key, t));
    let m = lemma_place_of_member(changed, key, t);
    assert(model::track_rows(model::members(changed, key))[m] == row);
}

/// Patching one track in place agrees with grouping the library anew, as long
/// as the track stays in its album, which it does when its album, its artist,
/// its album artist and its place in a compilation stay.
pub proof fn law_patching_agrees_with_regrouping(
    before: Seq<AlbumViewModel>,
    tracks: Seq<Track>,
    place: int,
    changed: Track,
    after: Seq<AlbumViewModel>,
    regrouped: Seq<AlbumViewModel>,
)
    requires
        model::albums_group(before, tracks),
        ids_differ(tracks),
        0 <= place < tracks.len(),
        changed.id == tracks[place].id,
        model::key_of(changed) == model::key_of(tracks[place]),
        model::track_patched(before, after, changed.id, model::track_row(changed)),
        model::albums_group(regrouped, tracks.update(place, changed)),
    ensures
        same_keys_and_rows(after, regrouped),
{
    let now = tracks.update(place, changed);
    let id = changed.id;
    let row = model::track_row(changed);
    assert forall|i: int, j: int|
        #![trigger now[i], now[j]]
        0 <= i < j < now.len() implies now[i].id != now[j].id by {
        assert(tracks[i].id != tracks[j].id);
    }
    assert forall|key: (Seq<char>, Seq<char>)| #[trigger]
        key_occurs(tracks, key) <==> key_occurs(now, key) by {
        if key_occurs(tracks, key) {
            let t = choose|t: int| 0 <= t < tracks.len() && #[trigger] key_matches(tracks, key, t);
            assert(key_matches(now, key, t));
        }
        if key_occurs(now, key) {
            let t = choose|t: int| 0 <= t < now.len() && #[trigger] key_matches(now, key, t);
            assert(key_matches(tracks, key, t));
        }
    }
    lemma_same_keys(before, tracks, regrouped, now);
    let home = model::album_keys(before).index_of(model::key_of(tracks[place]));
    assert(model::album_keys(before).contains(model::key_of(tracks[place])));
    assert(before[home].key@ == model::key_of(tracks[place]));
    assert(model::holds_track(before[home].tracks@, id)) by {
        let r = lemma_row_of_track(before, tracks, home, place);
        lemma_track_slot(before[home].tracks@, id);
        assert(before[home].tracks@[r]@.id == id);
    }
    assert forall|i: int| 0 <= i < before.len() && i != home implies !model::holds_track(
        (#[trigger] before[i]).tracks@,
        id,
    ) by {
        if model::holds_track(before[i].tracks@, id) {
            lemma_track_slot(before[i].tracks@, id);
            let r = model::track_slot(before[i].tracks@, id);
            lemma_row_by_id(before, tracks, i, r, place);
            model::law_album_of_a_track_is_unique(before, tracks, place, i, home);
        }
    }
    lemma_album_holding(before, id, home);
    assert forall|i: int|
        #![trigger after[i]]
        #![trigger regrouped[i]]
        0 <= i < after.len() implies after[i].key@ == regrouped[i].key@ && after[i]@.tracks
        == regrouped[i]@.tracks by {
        assert(before[i].key@ == regrouped[i].key@);
        let key = before[i].key@;
        let old_rows = model::track_rows(model::members(tracks, key));
        let new_rows = model::track_rows(model::members(now, key));
        let shown = sorting::views(before[i].tracks@);
        assert(before[i].shows(model::members(tracks, key)));
        assert(regrouped[i].shows(model::members(now, key)));
        lemma_member_ids_differ(tracks, key);
        lemma_member_ids_differ(now, key);
        if i != home {
            assert(after[i] == before[i]);
            if key == model::key_of(tracks[place]) {
                model::law_album_of_a_track_is_unique(before, tracks, place, i, home);
            }
            lemma_rows_elsewhere(tracks, now, place, key);
            lemma_rows_have_one_order(
                old_rows,
                shown,
                new_rows,
                sorting::views(regrouped[i].tracks@),
            );
        } else {
            let slot = model::track_slot(before[i].tracks@, id);
            let patched = shown.update(slot, row);
            lemma_track_slot(before[i].tracks@, id);
            lemma_row_by_id(before, tracks, i, slot, place);
            lemma_shown_ids_differ(before, tracks, i);
            sorting::lemma_same_items::<AlbumTrackViewModel>(old_rows, shown);
            assert forall|a: int, b: int|
                #![trigger patched[a], patched[b]]
                0 <= a < b < patched.len() implies patched[a].id != patched[b].id by {
                assert(shown[a].id != shown[b].id);
            }
            assert forall|other: model::AlbumTrackView| #[trigger] patched.contains(other)
                <==> new_rows.contains(other) by {
                if patched.contains(other) {
                    let r = patched.index_of(other);
                    if r == slot {
                        let m = lemma_place_of_member(now, key, place);
                        assert(new_rows[m] == other);
                    } else {
                        assert(shown[r] == other);
                        assert(shown.contains(other));
                        if r < slot {
                            assert(shown[r].id != shown[slot].id);
                        } else {
                            assert(shown[slot].id != shown[r].id);
                        }
                        lemma_rows_but_one(tracks, now, place, key, other);
                    }
                }
                if new_rows.contains(other) {
                    if other.id == id {
                        let t = lemma_member_place(now, key, new_rows.index_of(other));
                        assert(model::track_row(now[t]) == other);
                        if t < place {
                            assert(now[t].id != now[place].id);
                        } else if place < t {
                            assert(now[place].id != now[t].id);
                        }
                        assert(patched[slot] == other);
                    } else {
                        assert(tracks =~= now.update(place, tracks[place]));
                        lemma_rows_but_one(now, tracks, place, key, other);
                        assert(shown.contains(other));
                        let r = shown.index_of(other);
                        assert(patched[r] == other);
                    }
                }
            }
            lemma_rows_have_one_order(
                patched,
                sorting::views(after[i].tracks@),
                new_rows,
                sorting::views(regrouped[i].tracks@),
            );
        }
    }
}

/// An album to which the changed track does not belong keeps its rows.
proof fn lemma_rows_elsewhere(
    tracks: Seq<Track>,
    now: Seq<Track>,
    place: int,
    key: (Seq<char>, Seq<char>),
)
    requires
        0 <= place < tracks.len(),
        now == tracks.update(place, now[place]),
        !key_matches(tracks, key, place),
        !key_matches(now, key, place),
    ensures
        model::members(now, key) == model::members(tracks, key),
    decreases tracks.len(),
{
    let (rest, rest_now) = (tracks.drop_last(), now.drop_last());
    if place < rest.len() {
        assert(rest_now =~= rest.update(place, rest_now[place]));
        assert(rest_now[place] == now[place]);
        lemma_rows_elsewhere(rest, rest_now, place, key);
    } else {
        assert(rest_now =~= rest);
    }
}

/// The tags from which an album draws its title, its artist and its year are the
/// same on both tracks.
pub open spec fn album_tags_alike(left: Track, right: Track) -> bool {
    &&& left.metadata.artist.deep_view() == right.metadata.artist.deep_view()
    &&& left.metadata.album.deep_view() == right.metadata.album.deep_view()
    &&& left.metadata.album_artist.deep_view() == right.metadata.album_artist.deep_view()
    &&& left.metadata.year == right.metadata.year
    &&& left.metadata.compilation == right.metadata.compilation
}

/// The tracks of an album once one of them has changed and stayed.
proof fn lemma_members_changed(
    tracks: Seq<Track>,
    place: int,
    changed: Track,
    key: (Seq<char>, Seq<char>),
)
    requires
        0 <= place < tracks.len(),
        model::key_of(changed) == model::key_of(tracks[place]),
    ensures
        ({
            let before = model::members(tracks, key);
            let after = model::members(tracks.update(place, changed), key);
            &&& after.len() == before.len()
            &&& forall|m: int|
                0 <= m < before.len() ==> (#[trigger] after[m]) == before[m] || after[m] == changed
                    && before[m] == tracks[place]
        }),
    decreases tracks.len(),
{
    let now = tracks.update(place, changed);
    let rest = tracks.drop_last();
    if place < rest.len() {
        lemma_members_changed(rest, place, changed, key);
        assert(now.drop_last() =~= rest.update(place, changed));
    } else {
        assert(now.drop_last() =~= rest);
    }
}

/// Albums of tracks with the same tags say the same.
proof fn lemma_alike_tracks_say_the_same(first: Seq<Track>, second: Seq<Track>)
    requires
        first.len() == second.len(),
        forall|m: int|
            #![trigger first[m]]
            #![trigger second[m]]
            0 <= m < first.len() ==> album_tags_alike(first[m], second[m]),
    ensures
        model::first_album_artist(first) == model::first_album_artist(second),
        model::first_year(first) == model::first_year(second),
        model::artists_of(first) == model::artists_of(second),
        model::any_compilation(first) == model::any_compilation(second),
    decreases first.len(),
{
    if first.len() > 0 {
        let (rest, others) = (first.drop_last(), second.drop_last());
        assert forall|m: int|
            #![trigger rest[m]]
            #![trigger others[m]]
            0 <= m < rest.len() implies album_tags_alike(rest[m], others[m]) by {
            assert(album_tags_alike(first[m], second[m]));
        }
        lemma_alike_tracks_say_the_same(rest, others);
        let last = first.len() - 1;
        assert(album_tags_alike(first[last], second[last]));
    }
    if model::any_compilation(first) {
        let i = choose|i: int|
            0 <= i < first.len() && model::in_compilation(#[trigger] first[i].metadata);
        assert(album_tags_alike(first[i], second[i]));
        assert(model::in_compilation(second[i].metadata));
    }
    if model::any_compilation(second) {
        let i = choose|i: int|
            0 <= i < second.len() && model::in_compilation(#[trigger] second[i].metadata);
        assert(album_tags_alike(first[i], second[i]));
        assert(model::in_compilation(first[i].metadata));
    }
}

/// Tracks with the same album tags belong to the same album.
pub proof fn law_album_tags_decide_the_album(left: Track, right: Track)
    requires
        album_tags_alike(left, right),
    ensures
        model::key_of(left) == model::key_of(right),
{
}

/// Patching a track whose album tags have not changed leaves the albums as
/// grouping the library anew would: the same albums under the same titles,
/// artists and years, with the same rows.
pub proof fn law_patching_is_enough_when_the_album_tags_stay(
    before: Seq<AlbumViewModel>,
    tracks: Seq<Track>,
    place: int,
    changed: Track,
    after: Seq<AlbumViewModel>,
    regrouped: Seq<AlbumViewModel>,
)
    requires
        model::albums_group(before, tracks),
        ids_differ(tracks),
        0 <= place < tracks.len(),
        changed.id == tracks[place].id,
        album_tags_alike(changed, tracks[place]),
        model::track_patched(before, after, changed.id, model::track_row(changed)),
        model::albums_group(regrouped, tracks.update(place, changed)),
    ensures
        same_keys_and_rows(after, regrouped),
        forall|i: int|
            0 <= i < after.len() ==> (#[trigger] after[i]).title@ == regrouped[i].title@
                && after[i].artist@ == regrouped[i].artist@ && after[i].year == regrouped[i].year,
{
    law_album_tags_decide_the_album(changed, tracks[place]);
    law_patching_agrees_with_regrouping(before, tracks, place, changed, after, regrouped);
    let now = tracks.update(place, changed);
    assert(after.len() == before.len());
    assert forall|i: int| 0 <= i < after.len() implies (#[trigger] after[i]).title@
        == regrouped[i].title@ && after[i].artist@ == regrouped[i].artist@ && after[i].year
        == regrouped[i].year by {
        assert(after[i].key@ == before[i].key@ && after[i].title@ == before[i].title@
            && after[i].artist@ == before[i].artist@ && after[i].year == before[i].year);
        let key = before[i].key@;
        let (old_members, new_members) = (model::members(tracks, key), model::members(now, key));
        assert(before[i].shows(old_members));
        assert(regrouped[i].key@ == key);
        assert(regrouped[i].shows(new_members));
        lemma_members_changed(tracks, place, changed, key);
        assert forall|m: int|
            #![trigger old_members[m]]
            #![trigger new_members[m]]
            0 <= m < old_members.len() implies album_tags_alike(old_members[m], new_members[m]) by {
            assert(new_members[m] == old_members[m] || new_members[m] == changed);
        }
        lemma_alike_tracks_say_the_same(old_members, new_members);
        assert(album_tags_alike(old_members[0], new_members[0]));
    }
}

} // verus!
