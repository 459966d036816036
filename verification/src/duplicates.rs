//! The view of duplicate tracks: when it looks for them, and which results it
//! shows.

use vstd::prelude::*;

use crate::generations;
use crate::library;
use crate::library::{find_last_track, Track, TrackId};
use crate::playback;
use crate::seqs;
use crate::text;
use crate::text::push_decimal;

verus! {

/// Whether the view is shown, and which search for duplicates is its latest.
#[derive(Clone, Copy, Debug, PartialEq, Eq, Structural)]
pub struct DuplicatesState {
    pub active: bool,
    pub generation: u64,
}

impl DuplicatesState {
    /// A view that is not shown.
    pub fn new() -> (state: Self)
        ensures
            state == (DuplicatesState { active: false, generation: 0 }),
    {
        DuplicatesState { active: false, generation: 0 }
    }

    /// Shows the view or not. Returns whether it looks for duplicates now: when
    /// it was not shown before. A search that runs while the view is left is
    /// given up.
    pub fn set_active(&mut self, active: bool) -> (scan: bool)
        ensures
            scan == (active && !old(self).active),
            final(self).active == active,
            final(self).generation == if !active && old(self).active {
                generations::next_generation(old(self).generation)
            } else {
                old(self).generation
            },
    {
        let was_active = self.active;
        self.active = active;
        if !active && was_active {
            self.generation = self.generation.wrapping_add(1);
        }
        active && !was_active
    }

    /// What is a duplicate has changed. Returns whether the view looks for
    /// duplicates anew: only while it is shown.
    pub fn refresh_if_active(&self) -> (scan: bool)
        ensures
            scan == self.active,
    {
        self.active
    }

    /// Starts a search, which takes the place of any that runs.
    pub fn begin_scan(&mut self) -> (generation: u64)
        ensures
            generation == generations::next_generation(old(self).generation),
            *final(self) == (DuplicatesState { generation, ..*old(self) }),
    {
        self.generation = self.generation.wrapping_add(1);
        self.generation
    }

    /// Whether the result of a search is shown.
    pub open spec fn shows(self, generation: u64) -> bool {
        self.active && self.generation == generation
    }

    /// Whether the result of a search is shown: it has to be the latest, and
    /// the view has to be shown still.
    pub fn accepts(&self, generation: u64) -> (accepts: bool)
        ensures
            accepts == self.shows(generation),
    {
        self.active && self.generation == generation
    }
}

/// A row of the view. Groups are told apart by bands.
#[derive(Clone, Copy, Debug, PartialEq, Eq, Structural)]
pub struct DuplicateRow {
    /// Where the row's track stands in the library.
    pub place: usize,
    pub band: bool,
}

/// The rows of a group: its tracks that the library holds.
pub open spec fn rows_of_group(group: Seq<TrackId>, tracks: Seq<Track>, band: bool) -> Seq<
    DuplicateRow,
>
    decreases group.len(),
{
    if group.len() == 0 {
        Seq::empty()
    } else {
        let earlier = rows_of_group(group.drop_last(), tracks, band);
        let place = library::last_track_index(tracks, group.last());
        if place >= 0 {
            earlier.push(DuplicateRow { place: place as usize, band })
        } else {
            earlier
        }
    }
}

/// The rows of all groups, in bands that alternate from group to group.
pub open spec fn rows_of_groups(groups: Seq<Seq<TrackId>>, tracks: Seq<Track>) -> Seq<DuplicateRow>
    decreases groups.len(),
{
    if groups.len() == 0 {
        Seq::empty()
    } else {
        rows_of_groups(groups.drop_last(), tracks) + rows_of_group(
            groups.last(),
            tracks,
            (groups.len() - 1) % 2 == 0,
        )
    }
}

/// Groups as values of the specification.
pub open spec fn group_views(groups: Seq<Vec<TrackId>>) -> Seq<Seq<TrackId>> {
    Seq::new(groups.len(), |i: int| groups[i]@)
}

/// The rows of all groups.
pub fn group_rows(groups: &Vec<Vec<TrackId>>, tracks: &Vec<Track>) -> (rows: Vec<DuplicateRow>)
    ensures
        rows@ == rows_of_groups(group_views(groups@), tracks@),
{
    let ghost views = group_views(groups@);
    let mut rows: Vec<DuplicateRow> = Vec::new();
    let mut index: usize = 0;
    assert(views.take(0) =~= Seq::empty());
    while index < groups.len()
        invariant
            index <= groups.len(),
            views == group_views(groups@),
            rows@ == rows_of_groups(views.take(index as int), tracks@),
        decreases groups.len() - index,
    {
        let band = index % 2 == 0;
        let group = &groups[index];
        let ghost before = rows@;
        let mut at: usize = 0;
        assert(group@.take(0) =~= Seq::empty());
        assert(rows@ =~= before + rows_of_group(group@.take(0), tracks@, band));
        while at < group.len()
            invariant
                at <= group.len(),
                rows@ == before + rows_of_group(group@.take(at as int), tracks@, band),
            decreases group.len() - at,
        {
            let ghost now = rows@;
            assert(group@.take(at as int + 1).drop_last() =~= group@.take(at as int));
            if let Some(place) = find_last_track(tracks, group[at]) {
                rows.push(DuplicateRow { place, band });
            }
            assert(rows@ =~= before + rows_of_group(group@.take(at as int + 1), tracks@, band));
            at = at + 1;
        }
        proof {
            assert(group@.take(at as int) =~= group@);
            assert(views.take(index as int + 1).drop_last() =~= views.take(index as int));
            assert(views.take(index as int + 1).last() == group@);
        }
        index = index + 1;
    }
    assert(views.take(index as int) =~= views);
    rows
}

/// What the view says of its result.
pub fn groups_status(groups: usize, rows: usize) -> (status: String)
    ensures
        status@ == text::decimal(groups as nat) + " duplicate group(s), "@ + text::decimal(
            rows as nat,
        ) + " track(s)."@,
{
    let mut status = String::new();
    push_decimal(&mut status, groups as u64);
    status.append(" duplicate group(s), ");
    push_decimal(&mut status, rows as u64);
    status.append(" track(s).");
    assert(status@ =~= text::decimal(groups as nat) + " duplicate group(s), "@ + text::decimal(
        rows as nat,
    ) + " track(s)."@);
    status
}

/// Once another search has begun, or the view was left, a search is not shown,
/// however often that happens, short of as often as there are generations.
pub proof fn law_a_newer_scan_outdates_the_older(
    older: DuplicatesState,
    newer: DuplicatesState,
    steps: nat,
)
    requires
        0 < steps < generations::generation_count(),
        newer.generation == generations::later_generation(older.generation, steps),
    ensures
        !newer.shows(older.generation),
{
    generations::law_generations_differ(older.generation, steps);
}

/// A search that runs while the view is left is not shown, even when the view
/// is shown again before it ends.
pub proof fn law_leaving_gives_up_the_scan(state: DuplicatesState)
    ensures
        ({
            let left = DuplicatesState {
                active: false,
                generation: generations::next_generation(state.generation),
            };
            let back = DuplicatesState { active: true, ..left };
            !left.shows(state.generation) && !back.shows(state.generation)
        }),
{
}

/// The rows of a group are those of its tracks that the library holds, in their
/// order, all in the same band.
proof fn lemma_rows_of_group(group: Seq<TrackId>, tracks: Seq<Track>, band: bool, upto: nat)
    requires
        upto <= group.len(),
        tracks.len() <= usize::MAX,
    ensures
        seqs::lists(
            rows_of_group(group.take(upto as int), tracks, band),
            upto,
            |k: int| exists|i: int| playback::stands_for(tracks, group[k], i),
            |k: int|
                DuplicateRow {
                    place: library::last_track_index(tracks, group[k]) as usize,
                    band,
                },
        ),
    decreases upto,
{
    let wanted = |k: int| exists|i: int| playback::stands_for(tracks, group[k], i);
    let item = |k: int|
        DuplicateRow { place: library::last_track_index(tracks, group[k]) as usize, band };
    if upto == 0 {
        assert(group.take(0) =~= Seq::empty());
        seqs::lemma_lists_nothing(wanted, item);
    } else {
        let fewer = (upto - 1) as nat;
        lemma_rows_of_group(group, tracks, band, fewer);
        assert(group.take(upto as int).drop_last() =~= group.take(fewer as int));
        assert(group.take(upto as int).last() == group[fewer as int]);
        playback::lemma_last_track_index(tracks, group[fewer as int]);
        seqs::lemma_lists_one_more(
            rows_of_group(group.take(fewer as int), tracks, band),
            fewer,
            wanted,
            item,
        );
        let place = library::last_track_index(tracks, group[fewer as int]);
        if place >= 0 {
            assert(playback::stands_for(tracks, group[fewer as int], place));
            assert(wanted(fewer as int));
        } else {
            assert(!wanted(fewer as int));
        }
    }
}

/// One more group adds its rows behind those of the groups before it, in the
/// other band than the group before it: a row for exactly those of its tracks
/// that the library holds, in their order.
pub proof fn law_groups_follow_each_other_in_alternating_bands(
    groups: Seq<Seq<TrackId>>,
    group: Seq<TrackId>,
    tracks: Seq<Track>,
) -> (added: Seq<DuplicateRow>)
    requires
        tracks.len() <= usize::MAX,
    ensures
        rows_of_groups(groups.push(group), tracks) == rows_of_groups(groups, tracks) + added,
        rows_of_groups(Seq::empty(), tracks).len() == 0,
        forall|k: int| 0 <= k < added.len() ==> (#[trigger] added[k]).band == (groups.len() % 2 == 0),
        forall|k: int|
            0 <= k < added.len() ==> playback::stands_for(
                tracks,
                tracks[(#[trigger] added[k]).place as int].id,
                added[k].place as int,
            ),
        seqs::lists(
            Seq::new(added.len(), |k: int| tracks[added[k].place as int].id),
            group.len(),
            |k: int| exists|i: int| playback::stands_for(tracks, group[k], i),
            |k: int| group[k],
        ),
{
    let more = groups.push(group);
    assert(more.drop_last() =~= groups);
    let band = groups.len() % 2 == 0;
    let added = rows_of_group(group, tracks, band);
    lemma_rows_of_group(group, tracks, band, group.len());
    assert(group.take(group.len() as int) =~= group);
    let wanted = |k: int| exists|i: int| playback::stands_for(tracks, group[k], i);
    let item = |k: int|
        DuplicateRow { place: library::last_track_index(tracks, group[k]) as usize, band };
    let from = choose|from: Seq<int>| #[trigger]
        seqs::lists_from(added, group.len(), wanted, item, from);
    let ids = Seq::new(added.len(), |k: int| tracks[added[k].place as int].id);
    assert forall|k: int| #![trigger from[k]] #![trigger added[k]] 0 <= k < added.len() implies
        added[k].band == band && ids[k] == group[from[k]] && playback::stands_for(
        tracks,
        tracks[added[k].place as int].id,
        added[k].place as int,
    ) by {
        let g = from[k];
        assert(wanted(g));
        playback::lemma_last_track_index(tracks, group[g]);
        assert(added[k] == item(g));
    }
    assert(seqs::lists_from(ids, group.len(), wanted, |k: int| group[k], from));
    added
}

} // verus!
