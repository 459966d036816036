//! The state of the album view, and what it does on each event.

use vstd::prelude::*;

use crate::generations;
use crate::albums::grid;
use crate::albums::grid::{album_row_count, columns_for_width, row_position_for_album};
use crate::albums::model;
use crate::albums::model::{album_track, find_holder, find_track, group_albums, replace_track_in_album, AlbumKey,
    AlbumTrackViewModel, AlbumViewModel};
use crate::albums::tile;
use crate::library::{Track, TrackId};
use crate::playback::{PlaybackQueueRequest, PlaybackQueueSource};
use crate::playback;
use crate::seqs;
use crate::sorting;

verus! {

/// A scroll to an album that waits until the view can be scrolled.
#[derive(Debug)]
pub struct PendingAlbumScroll {
    pub album_key: AlbumKey,
    pub visibility_requested: bool,
}

/// Why a row is shown anew.
#[derive(Debug)]
pub enum AlbumRowRefresh {
    /// Its selection or its albums changed.
    Normal,
    /// The tracks of this album changed.
    Detail(AlbumKey),
    /// The cover of this album changed.
    Artwork(AlbumKey),
}

impl AlbumRowRefresh {
    /// Whether the open panel of this album is built anew.
    pub fn refreshes_detail_for(&self, album_key: &AlbumKey) -> (refreshes: bool)
        ensures
            refreshes == match self {
                AlbumRowRefresh::Normal => false,
                AlbumRowRefresh::Detail(key) | AlbumRowRefresh::Artwork(key) => key@ == album_key@,
            },
    {
        match self {
            AlbumRowRefresh::Normal => false,
            AlbumRowRefresh::Detail(key) | AlbumRowRefresh::Artwork(key) => key.same_as(album_key),
        }
    }

    /// Whether the cover of this album is read anew.
    pub fn refreshes_artwork_for(&self, album_key: &AlbumKey) -> (refreshes: bool)
        ensures
            refreshes == match self {
                AlbumRowRefresh::Artwork(key) => key@ == album_key@,
                _ => false,
            },
    {
        match self {
            AlbumRowRefresh::Artwork(key) => key.same_as(album_key),
            _ => false,
        }
    }
}

/// What the open panel of a row was built from.
#[derive(Debug)]
pub struct AlbumDetailKey {
    pub album_key: AlbumKey,
    pub selected_column: usize,
    pub columns: usize,
    pub playing_track_id: Option<TrackId>,
}

fn same_playing(left: Option<TrackId>, right: Option<TrackId>) -> (same: bool)
    ensures
        same == (left == right),
{
    match (left, right) {
        (Some(left), Some(right)) => left == right,
        (None, None) => true,
        _ => false,
    }
}

impl AlbumDetailKey {
    /// Both panels show the same.
    pub open spec fn shows_same(&self, other: &AlbumDetailKey) -> bool {
        &&& self.album_key@ == other.album_key@
        &&& self.selected_column == other.selected_column
        &&& self.columns == other.columns
        &&& self.playing_track_id == other.playing_track_id
    }

    /// Whether both panels show the same.
    pub fn same_as(&self, other: &AlbumDetailKey) -> (same: bool)
        ensures
            same == self.shows_same(other),
    {
        self.album_key.same_as(&other.album_key) && self.selected_column == other.selected_column
            && self.columns == other.columns && same_playing(
            self.playing_track_id,
            other.playing_track_id,
        )
    }
}

/// Whether the open panel of a row has to be built: when it is to be refreshed,
/// or when the row has none that shows the same.
pub fn detail_needs_rebuild(
    current: &Option<AlbumDetailKey>,
    wanted: &AlbumDetailKey,
    refresh: &AlbumRowRefresh,
) -> (rebuild: bool)
    ensures
        rebuild == ({
            ||| match refresh {
                AlbumRowRefresh::Normal => false,
                AlbumRowRefresh::Detail(key) | AlbumRowRefresh::Artwork(key) => key@
                    == wanted.album_key@,
            }
            ||| match current {
                Some(current) => !current.shows_same(wanted),
                None => true,
            }
        }),
{
    if refresh.refreshes_detail_for(&wanted.album_key) {
        return true;
    }
    match current {
        Some(current) => !current.same_as(wanted),
        None => true,
    }
}

/// What the album view shows and what it waits for.
pub struct AlbumsState {
    /// All albums of the last grouping. Empty until the view is activated.
    pub all_albums: Vec<AlbumViewModel>,
    /// The albums that pass the search.
    pub albums: Vec<AlbumViewModel>,
    pub search_text: String,
    pub selected_album: Option<AlbumKey>,
    pub pending_scroll_album: Option<PendingAlbumScroll>,
    pub visible_columns: usize,
    pub last_width: i32,
    pub detail_generation: u64,
    pub activated: bool,
    pub playing_track_id: Option<TrackId>,
}

/// The identifiers of the tracks of an album whose files are there.
pub open spec fn playable_ids(tracks: Seq<AlbumTrackViewModel>) -> Seq<TrackId>
    decreases tracks.len(),
{
    if tracks.len() == 0 {
        Seq::empty()
    } else {
        let earlier = playable_ids(tracks.drop_last());
        if tracks.last().is_missing {
            earlier
        } else {
            earlier.push(tracks.last().id)
        }
    }
}

/// What playing an album starts: its first track whose file is there, with all
/// such tracks of the album as the queue.
pub open spec fn album_request(album: AlbumViewModel) -> Option<(TrackId, playback::QueueView)> {
    let ids = playable_ids(album.tracks@);
    if ids.len() == 0 {
        None
    } else {
        Some(
            (
                ids[0],
                playback::QueueView::Explicit {
                    source: PlaybackQueueSource::Album,
                    ordered_track_ids: ids,
                },
            ),
        )
    }
}

/// What playing an album starts.
pub fn play_album(album: &AlbumViewModel) -> (request: Option<(TrackId, PlaybackQueueRequest)>)
    ensures
        playback::request_view(request) == album_request(*album),
{
    let mut ids: Vec<TrackId> = Vec::new();
    let mut index: usize = 0;
    assert(album.tracks@.take(0) =~= Seq::empty());
    while index < album.tracks.len()
        invariant
            index <= album.tracks.len(),
            ids@ == playable_ids(album.tracks@.take(index as int)),
        decreases album.tracks.len() - index,
    {
        assert(album.tracks@.take(index as int + 1).drop_last() =~= album.tracks@.take(
            index as int,
        ));
        if !album.tracks[index].is_missing {
            ids.push(album.tracks[index].id);
        }
        index = index + 1;
    }
    assert(album.tracks@.take(index as int) =~= album.tracks@);
    if ids.len() == 0 {
        None
    } else {
        Some(
            (
                ids[0],
                PlaybackQueueRequest::Explicit {
                    source: PlaybackQueueSource::Album,
                    ordered_track_ids: ids,
                },
            ),
        )
    }
}

/// What the view does about a scroll that waits.
#[derive(Clone, Copy, Debug, PartialEq, Eq, Structural)]
pub enum ScrollStep {
    /// Nothing now.
    Wait,
    /// It scrolls until this row is realized.
    ScrollTo(usize),
    /// It aligns this row with the top.
    Align(usize),
}

/// The contents of some albums.
pub open spec fn album_views(albums: Seq<AlbumViewModel>) -> Seq<model::AlbumView> {
    crate::sorting::views(albums)
}

impl AlbumsState {
    /// A view that has not been activated.
    pub fn new() -> (state: Self)
        ensures
            state.all_albums@.len() == 0,
            state.albums@.len() == 0,
            state.search_text@.len() == 0,
            state.selected_album is None,
            state.pending_scroll_album is None,
            state.visible_columns == 1,
            state.last_width == 0,
            state.detail_generation == 0,
            !state.activated,
            state.playing_track_id is None,
    {
        AlbumsState {
            all_albums: Vec::new(),
            albums: Vec::new(),
            search_text: String::new(),
            selected_album: None,
            pending_scroll_album: None,
            visible_columns: 1,
            last_width: 0,
            detail_generation: 0,
            activated: false,
            playing_track_id: None,
        }
    }

    /// Activates the view. Returns whether this is the first time, and the view
    /// has to be set up and filled.
    pub fn activate(&mut self) -> (first: bool)
        ensures
            first == !old(self).activated,
            *final(self) == (AlbumsState { activated: true, ..*old(self) }),
    {
        let first = !self.activated;
        self.activated = true;
        first
    }

    /// Groups the library anew for a view of this width. The search has to be
    /// applied next.
    pub fn regroup(&mut self, tracks: &[Track], width: i32)
        ensures
            model::albums_group(final(self).all_albums@, tracks@),
            final(self).visible_columns >= 1,
            final(self).visible_columns == 1 || grid::width_of_columns(
                final(self).visible_columns as int,
            ) <= width,
            width < grid::width_of_columns(final(self).visible_columns + 1),
            *final(self) == (AlbumsState {
                all_albums: final(self).all_albums,
                visible_columns: final(self).visible_columns,
                ..*old(self)
            }),
    {
        self.all_albums = group_albums(tracks);
        self.visible_columns = columns_for_width(width);
    }

    /// `after` is the view once it shows the albums that pass the search.
    pub open spec fn searches(&self, hits: Seq<bool>, after: AlbumsState) -> bool {
        &&& album_views(after.albums@) == seqs::kept(album_views(self.all_albums@), hits)
        &&& after.selected_album is None
        &&& after.pending_scroll_album is None
        &&& after == (AlbumsState {
            albums: after.albums,
            selected_album: None,
            pending_scroll_album: None,
            ..*self
        })
    }

    /// Shows the albums that pass the search; `hits[i]` tells whether the album
    /// at place `i` does. The selection and a scroll that waits are dropped.
    pub fn apply_search(&mut self, hits: &Vec<bool>)
        requires
            hits@.len() == old(self).all_albums@.len(),
        ensures
            old(self).searches(hits@, *final(self)),
    {
        let ghost all = album_views(self.all_albums@);
        let mut albums: Vec<AlbumViewModel> = Vec::new();
        let mut index: usize = 0;
        assert(album_views(albums@) =~= seqs::kept(all.take(0), hits@.take(0)));
        while index < self.all_albums.len()
            invariant
                index <= self.all_albums@.len(),
                hits@.len() == self.all_albums@.len(),
                all == album_views(self.all_albums@),
                *self == *old(self),
                album_views(albums@) == seqs::kept(
                    all.take(index as int),
                    hits@.take(index as int),
                ),
            decreases self.all_albums.len() - index,
        {
            proof {
                assert(all.take(index as int + 1).drop_last() =~= all.take(index as int));
                assert(hits@.take(index as int + 1).drop_last() =~= hits@.take(index as int));
            }
            if hits[index] {
                let ghost before = albums@;
                albums.push(self.all_albums[index].clone());
                assert(album_views(albums@) =~= album_views(before).push(all[index as int]));
            }
            index = index + 1;
        }
        proof {
            assert(all.take(index as int) =~= all);
            assert(hits@.take(index as int) =~= hits@);
        }
        self.albums = albums;
        self.selected_album = None;
        self.pending_scroll_album = None;
    }

    /// Takes in another search text. Returns whether the search has to be
    /// applied: not when the text is the same, nor while the view is dormant.
    pub fn set_search_text(&mut self, search_text: String) -> (apply: bool)
        ensures
            apply == (old(self).search_text@ != search_text@ && old(self).activated),
            final(self).search_text@ == search_text@,
            *final(self) == (AlbumsState { search_text: final(self).search_text, ..*old(self) }),
    {
        if self.search_text == search_text {
            return false;
        }
        self.search_text = search_text;
        self.activated
    }

    /// The row in which an album stands.
    pub open spec fn row_of(&self, key: (Seq<char>, Seq<char>)) -> Option<int> {
        grid::row_of_album(self.albums@, key, self.visible_columns)
    }

    /// `after` is the view once a track was patched in place, and `refresh` the
    /// row to show anew with the album whose tracks changed.
    pub open spec fn updates(
        &self,
        track_id: TrackId,
        track: Option<&Track>,
        refresh: Option<(usize, AlbumKey)>,
        after: AlbumsState,
    ) -> bool {
        let patched = self.activated && track is Some && row_differs(
            self.all_albums@,
            track_id,
            model::track_row(*track->0),
        );
        if !patched {
            refresh is None && after == *self
        } else {
            let index = model::album_holding(self.all_albums@, track_id);
            let row = model::track_row(*track->0);
            let key = self.all_albums@[index].key@;
            &&& model::track_replaced(
                self.all_albums@[index],
                after.all_albums@[index],
                model::track_slot(self.all_albums@[index].tracks@, track_id),
                row,
            )
            &&& after.all_albums@.len() == self.all_albums@.len()
            &&& forall|i: int|
                0 <= i < self.all_albums@.len() && i != index ==> #[trigger] after.all_albums@[i]
                    == self.all_albums@[i]
            &&& model::track_patched(self.albums@, after.albums@, track_id, row)
            &&& match refresh {
                Some((row, album)) => album@ == key && after.row_of(key) == Some(row as int)
                    && model::album_holding(self.albums@, track_id) < self.albums@.len(),
                None => model::album_holding(self.albums@, track_id) == self.albums@.len()
                    || after.row_of(key) is None,
            }
            &&& after == (AlbumsState {
                all_albums: after.all_albums,
                albums: after.albums,
                ..*self
            })
        }
    }

    /// Patches one track in place. Returns the row to show anew and the album
    /// whose tracks changed: none while the view is dormant, when the track is
    /// gone, when it looks as it did, or when no album on display holds it.
    pub fn update_track(&mut self, track_id: TrackId, track: Option<&Track>) -> (refresh: Option<
        (usize, AlbumKey),
    >)
        ensures
            old(self).updates(track_id, track, refresh, *final(self)),
    {
        if !self.activated {
            return None;
        }
        match track {
            None => None,
            Some(track) => {
                let row = album_track(track);
                if !shown_otherwise(&self.all_albums, track_id, &row) {
                    return None;
                }
                let affected = replace_track_in_album(&mut self.all_albums, track_id, &row);
                match affected {
                    None => None,
                    Some(key) => {
                        let shown = replace_track_in_album(&mut self.albums, track_id, &row);
                        if shown.is_none() {
                            return None;
                        }
                        match row_position_for_album(&self.albums, &key, self.visible_columns) {
                            Some(position) => Some((position, key)),
                            None => None,
                        }
                    },
                }
            },
        }
    }

    /// The row to show anew, and the album whose cover is read anew, when the
    /// cover of a track has changed.
    pub fn refresh_track_artwork(&self, track_id: TrackId) -> (refresh: Option<(usize, AlbumKey)>)
        ensures
            ({
                let index = model::album_holding(self.albums@, track_id);
                match refresh {
                    Some((row, album)) => {
                        &&& self.activated
                        &&& 0 <= index < self.albums@.len()
                        &&& album@ == self.albums@[index].key@
                        &&& self.row_of(album@) == Some(row as int)
                    },
                    None => !self.activated || index == self.albums@.len(),
                }
            }),
    {
        if !self.activated {
            return None;
        }
        match find_holder(&self.albums, track_id) {
            None => None,
            Some(index) => {
                let key = self.albums[index].key.clone();
                proof {
                    self.lemma_row_of_shown_album(index as int);
                }
                match row_position_for_album(&self.albums, &key, self.visible_columns) {
                    Some(row) => Some((row, key)),
                    None => None,
                }
            },
        }
    }

    /// An album on display stands in a row.
    proof fn lemma_row_of_shown_album(&self, index: int)
        requires
            0 <= index < self.albums@.len(),
        ensures
            self.row_of(self.albums@[index].key@) is Some,
    {
        grid::lemma_album_found(self.albums@, self.albums@[index].key@, index);
    }

    /// What playing starts when nothing is loaded: the album that leads the
    /// grid.
    pub fn first_album_play_request(&self) -> (request: Option<(TrackId, PlaybackQueueRequest)>)
        ensures
            playback::request_view(request) == if self.albums@.len() == 0 {
                None
            } else {
                album_request(self.albums@[0])
            },
    {
        if self.albums.len() == 0 {
            None
        } else {
            play_album(&self.albums[0])
        }
    }

    /// The row of the selected album.
    pub open spec fn selected_row(&self) -> Option<int> {
        match self.selected_album {
            Some(key) => self.row_of(key@),
            None => None,
        }
    }

    /// The row of the selected album.
    pub fn find_selected_row(&self) -> (row: Option<usize>)
        ensures
            match row {
                Some(row) => self.selected_row() == Some(row as int),
                None => self.selected_row() is None,
            },
    {
        match &self.selected_album {
            Some(key) => row_position_for_album(&self.albums, key, self.visible_columns),
            None => None,
        }
    }

    /// `after` is the view once another track plays, and `row` the row to show
    /// anew.
    pub open spec fn plays(
        &self,
        playing_track_id: Option<TrackId>,
        row: Option<usize>,
        after: AlbumsState,
    ) -> bool {
        &&& after == (AlbumsState { playing_track_id, ..*self })
        &&& match row {
            Some(row) => self.playing_track_id != playing_track_id && self.activated
                && self.selected_row() == Some(row as int),
            None => self.playing_track_id == playing_track_id || !self.activated
                || self.selected_row() is None,
        }
    }

    /// Another track plays. Returns the row to show anew: that of the selected
    /// album, whose panel marks the track.
    pub fn set_playing_track_id(&mut self, playing_track_id: Option<TrackId>) -> (row: Option<usize>)
        ensures
            old(self).plays(playing_track_id, row, *final(self)),
    {
        if same_playing(self.playing_track_id, playing_track_id) {
            return None;
        }
        self.playing_track_id = playing_track_id;
        if self.activated {
            self.find_selected_row()
        } else {
            None
        }
    }

    /// The rows to show anew when an album is selected: the one that holds the
    /// album that was selected before, and the one that holds the album, unless
    /// it is the same. An album that is selected already changes none.
    pub open spec fn rows_of_selection(&self, key: (Seq<char>, Seq<char>)) -> (
        Option<usize>,
        Option<usize>,
    ) {
        let again = tile::key_id(self.selected_album) == Some(key);
        let previous = self.selected_row();
        let current = self.row_of(key);
        (
            if again || previous is None {
                None
            } else {
                Some(previous->0 as usize)
            },
            if again || current is None || current == previous {
                None
            } else {
                Some(current->0 as usize)
            },
        )
    }

    /// Selects an album. Returns the rows to show anew: the one that holds the
    /// album that was selected before, and the one that holds the album, unless
    /// it is the same.
    pub fn select_album(&mut self, album_key: &AlbumKey) -> (rows: (Option<usize>, Option<usize>))
        ensures
            tile::key_id(final(self).selected_album) == Some(album_key@),
            *final(self) == (AlbumsState {
                selected_album: final(self).selected_album,
                ..*old(self)
            }),
            rows == old(self).rows_of_selection(album_key@),
    {
        if let Some(previous) = &self.selected_album {
            if previous.same_as(album_key) {
                return (None, None);
            }
        }
        let previous_row = self.find_selected_row();
        self.selected_album = Some(album_key.clone());
        let selected_row = row_position_for_album(&self.albums, album_key, self.visible_columns);
        match (previous_row, selected_row) {
            (Some(previous), Some(selected)) => {
                if previous == selected {
                    (Some(previous), None)
                } else {
                    (Some(previous), Some(selected))
                }
            },
            (previous, selected) => (previous, selected),
        }
    }

    /// Asks for a scroll to an album.
    pub fn request_scroll_to_album(&mut self, album_key: &AlbumKey)
        ensures
            final(self).pending_scroll_album matches Some(pending) && pending.album_key@
                == album_key@ && !pending.visibility_requested,
            *final(self) == (AlbumsState {
                pending_scroll_album: final(self).pending_scroll_album,
                ..*old(self)
            }),
    {
        self.pending_scroll_album = Some(
            PendingAlbumScroll { album_key: album_key.clone(), visibility_requested: false },
        );
    }

    /// `after` is the view once the album that holds a track is revealed, and
    /// `rows` are the rows to show anew.
    pub open spec fn reveals(
        &self,
        track_id: TrackId,
        rows: Option<(Option<usize>, Option<usize>)>,
        after: AlbumsState,
    ) -> bool {
        let index = model::album_holding(self.albums@, track_id);
        if index == self.albums@.len() {
            rows is None && after == *self
        } else {
            let key = self.albums@[index].key@;
            &&& rows == Some(self.rows_of_selection(key))
            &&& tile::key_id(after.selected_album) == Some(key)
            &&& after.pending_scroll_album matches Some(pending) && pending.album_key@ == key
                && !pending.visibility_requested
            &&& after == (AlbumsState {
                selected_album: after.selected_album,
                pending_scroll_album: after.pending_scroll_album,
                ..*self
            })
        }
    }

    /// Selects the album that holds a track and asks for a scroll to it.
    /// Returns the rows to show anew, or `None`, and changes nothing, when no
    /// album on display holds the track.
    pub fn reveal_album_for_track(&mut self, track_id: TrackId) -> (rows: Option<
        (Option<usize>, Option<usize>),
    >)
        ensures
            old(self).reveals(track_id, rows, *final(self)),
    {
        match find_holder(&self.albums, track_id) {
            None => None,
            Some(index) => {
                let key = self.albums[index].key.clone();
                let rows = self.select_album(&key);
                self.request_scroll_to_album(&key);
                Some(rows)
            },
        }
    }

    /// `step` is the next step of the scroll that waits, and `after` the view
    /// from then on.
    pub open spec fn scrolls(
        &self,
        width: i32,
        rows: usize,
        realized: Seq<usize>,
        step: ScrollStep,
        after: AlbumsState,
    ) -> bool {
        let ready = width > 0 && rows > 0 && self.pending_scroll_album is Some;
        let pending = self.pending_scroll_album->0;
        let row = self.row_of(pending.album_key@);
        if !ready {
            step == ScrollStep::Wait && after == *self
        } else if row is None {
            step == ScrollStep::Wait && after == (AlbumsState {
                pending_scroll_album: None,
                ..*self
            })
        } else if !pending.visibility_requested {
            step == ScrollStep::ScrollTo(row->0 as usize) && after == (AlbumsState {
                pending_scroll_album: Some(
                    PendingAlbumScroll { visibility_requested: true, ..pending },
                ),
                ..*self
            })
        } else {
            &&& step == if realized.contains(row->0 as usize) {
                ScrollStep::Align(row->0 as usize)
            } else {
                ScrollStep::Wait
            }
            &&& after == *self
        }
    }

    /// Takes a step of the scroll that waits. The view has to have a width and
    /// rows; it first scrolls until the row of the album is realized, and then
    /// aligns it. A scroll to an album that is not on display is dropped.
    pub fn scroll_step(&mut self, width: i32, rows: usize, realized: &Vec<usize>) -> (step: ScrollStep)
        ensures
            old(self).scrolls(width, rows, realized@, step, *final(self)),
    {
        if width <= 0 || rows == 0 {
            return ScrollStep::Wait;
        }
        let (row, requested) = match &self.pending_scroll_album {
            None => return ScrollStep::Wait,
            Some(pending) => (
                row_position_for_album(&self.albums, &pending.album_key, self.visible_columns),
                pending.visibility_requested,
            ),
        };
        match row {
            None => {
                self.pending_scroll_album = None;
                ScrollStep::Wait
            },
            Some(row) => {
                if !requested {
                    if let Some(pending) = &mut self.pending_scroll_album {
                        pending.visibility_requested = true;
                    }
                    ScrollStep::ScrollTo(row)
                } else if contains_row(realized, row) {
                    ScrollStep::Align(row)
                } else {
                    ScrollStep::Wait
                }
            },
        }
    }

    /// The row of the album was aligned, or not yet. Returns whether a scroll
    /// still waits.
    pub fn scroll_aligned(&mut self, aligned: bool) -> (waiting: bool)
        ensures
            *final(self) == (AlbumsState {
                pending_scroll_album: if aligned {
                    None
                } else {
                    old(self).pending_scroll_album
                },
                ..*old(self)
            }),
            waiting == (final(self).pending_scroll_album is Some),
    {
        if aligned {
            self.pending_scroll_album = None;
        }
        self.pending_scroll_album.is_some()
    }

    /// `after` is the view once it has got another width, and `rebuild` tells
    /// whether its rows have to be rebuilt.
    pub open spec fn widens(&self, width: i32, rebuild: bool, after: AlbumsState) -> bool {
        let news = width > 0 && self.last_width != width;
        &&& after.last_width == if width > 0 {
            width
        } else {
            self.last_width
        }
        &&& news ==> {
            &&& after.visible_columns >= 1
            &&& after.visible_columns == 1 || grid::width_of_columns(after.visible_columns as int)
                <= width
            &&& width < grid::width_of_columns(after.visible_columns + 1)
        }
        &&& !news ==> after.visible_columns == self.visible_columns
        &&& rebuild == (after.visible_columns != self.visible_columns)
        &&& after == (AlbumsState {
            last_width: after.last_width,
            visible_columns: after.visible_columns,
            ..*self
        })
    }

    /// The view has got another width. Returns whether its rows have to be
    /// rebuilt: only when it has another number of columns.
    pub fn width_changed(&mut self, width: i32) -> (rebuild: bool)
        ensures
            old(self).widens(width, rebuild, *final(self)),
    {
        if width <= 0 || self.last_width == width {
            return false;
        }
        self.last_width = width;
        let columns: usize = columns_for_width(width);
        let rebuild = self.visible_columns != columns;
        self.visible_columns = columns;
        rebuild
    }

    /// The number of rows to which the grid is rebuilt; a dormant view is not.
    pub fn rebuild_rows(&self) -> (rows: Option<usize>)
        ensures
            match rows {
                Some(rows) => self.activated && rows == grid::row_count(
                    self.albums@.len(),
                    self.visible_columns,
                ),
                None => !self.activated,
            },
    {
        if self.activated {
            Some(album_row_count(self.albums.len(), self.visible_columns))
        } else {
            None
        }
    }

    /// Starts another panel. Its cover is asked for under the generation that
    /// is returned, and an earlier panel's cover no longer appears.
    pub fn begin_detail(&mut self) -> (generation: u64)
        ensures
            generation == generations::next_generation(old(self).detail_generation),
            *final(self) == (AlbumsState { detail_generation: generation, ..*old(self) }),
    {
        self.detail_generation = self.detail_generation.wrapping_add(1);
        self.detail_generation
    }

    /// Whether a cover that was asked for under this generation belongs to the
    /// panel that is open.
    pub open spec fn takes_detail(&self, generation: u64) -> bool {
        self.detail_generation == generation
    }

    /// Whether a cover that was asked for under this generation belongs to the
    /// panel that is open.
    pub fn accepts_detail(&self, generation: u64) -> (accepts: bool)
        ensures
            accepts == self.takes_detail(generation),
    {
        self.detail_generation == generation
    }
}

/// A cover that was asked for by a panel does not appear in a later one,
/// however many follow, short of as many as there are generations.
pub proof fn law_another_panel_outdates_covers(asked: AlbumsState, now: AlbumsState, panels: nat)
    requires
        0 < panels < generations::generation_count(),
        now.detail_generation == generations::later_generation(asked.detail_generation, panels),
    ensures
        !now.takes_detail(asked.detail_generation),
{
    generations::law_generations_differ(asked.detail_generation, panels);
}

/// An album holds the track, and shows it otherwise than this row does.
pub open spec fn row_differs(
    albums: Seq<AlbumViewModel>,
    track_id: TrackId,
    row: model::AlbumTrackView,
) -> bool {
    let index = model::album_holding(albums, track_id);
    let slot = model::track_slot(albums[index].tracks@, track_id);
    index < albums.len() && !model::rows_alike(albums[index].tracks@[slot]@, row)
}

fn shown_otherwise(albums: &Vec<AlbumViewModel>, track_id: TrackId, row: &AlbumTrackViewModel) -> (
differs: bool)
    ensures
        differs == row_differs(albums@, track_id, row@),
{
    match find_holder(albums, track_id) {
        None => false,
        Some(index) => match find_track(&albums[index].tracks, track_id) {
            None => false,
            Some(slot) => !albums[index].tracks[slot].same_as(row),
        },
    }
}

fn contains_row(rows: &Vec<usize>, row: usize) -> (contains: bool)
    ensures
        contains == rows@.contains(row),
{
    let mut index: usize = 0;
    while index < rows.len()
        invariant
            index <= rows.len(),
            forall|i: int| 0 <= i < index ==> rows@[i] != row,
        decreases rows.len() - index,
    {
        if rows[index] == row {
            assert(rows@[index as int] == row);
            return true;
        }
        index = index + 1;
    }
    false
}

/// Playing an album queues exactly those of its tracks whose files are there, in
/// album order, and starts with the first of them; an album of missing files
/// starts nothing.
pub proof fn law_an_album_plays_what_is_there_of_it(album: AlbumViewModel)
    ensures
        match album_request(album) {
            Some((first, queue)) => {
                &&& queue matches playback::QueueView::Explicit { source, ordered_track_ids }
                &&& source == PlaybackQueueSource::Album
                &&& ordered_track_ids.len() > 0
                &&& first == ordered_track_ids[0]
                &&& seqs::lists(
                    ordered_track_ids,
                    album.tracks@.len(),
                    |r: int| !album.tracks@[r].is_missing,
                    |r: int| album.tracks@[r].id,
                )
            },
            None => forall|r: int|
                0 <= r < album.tracks@.len() ==> (#[trigger] album.tracks@[r]).is_missing,
        },
{
    let tracks = album.tracks@;
    lemma_playable_upto(tracks, tracks.len());
    assert(tracks.take(tracks.len() as int) =~= tracks);
    let ids = playable_ids(tracks);
    if ids.len() == 0 {
        let wanted = |r: int| !tracks[r].is_missing;
        let item = |r: int| tracks[r].id;
        let from = choose|from: Seq<int>| #[trigger]
            seqs::lists_from(ids, tracks.len(), wanted, item, from);
        assert forall|r: int| 0 <= r < tracks.len() implies (#[trigger] tracks[r]).is_missing by {
            if wanted(r) {
                assert(from.contains(r));
            }
        }
    }
}

proof fn lemma_playable_upto(tracks: Seq<AlbumTrackViewModel>, upto: nat)
    requires
        upto <= tracks.len(),
    ensures
        seqs::lists(
            playable_ids(tracks.take(upto as int)),
            upto,
            |r: int| !tracks[r].is_missing,
            |r: int| tracks[r].id,
        ),
    decreases upto,
{
    let wanted = |r: int| !tracks[r].is_missing;
    let item = |r: int| tracks[r].id;
    if upto == 0 {
        assert(tracks.take(0) =~= Seq::empty());
        seqs::lemma_lists_nothing(wanted, item);
    } else {
        let fewer = (upto - 1) as nat;
        lemma_playable_upto(tracks, fewer);
        assert(tracks.take(upto as int).drop_last() =~= tracks.take(fewer as int));
        assert(tracks.take(upto as int).last() == tracks[fewer as int]);
        seqs::lemma_lists_one_more(playable_ids(tracks.take(fewer as int)), fewer, wanted, item);
    }
}

/// Selecting another album shows anew the row that loses the selection and the
/// row that gains it, each once; selecting the selected album shows none anew.
pub proof fn law_a_selection_shows_the_rows_it_changes(
    state: AlbumsState,
    key: (Seq<char>, Seq<char>),
)
    ensures
        ({
            let (left, gained) = state.rows_of_selection(key);
            let again = state.selected_album is Some && (state.selected_album->0)@ == key;
            let old_row = match state.selected_album {
                Some(selected) => grid::row_of_album(
                    state.albums@,
                    selected@,
                    state.visible_columns,
                ),
                None => None,
            };
            let new_row = grid::row_of_album(state.albums@, key, state.visible_columns);
            &&& again ==> left is None && gained is None
            &&& !again ==> (left is Some <==> old_row is Some)
            &&& !again && old_row is Some ==> left->0 == old_row->0 as usize
            &&& !again ==> (gained is Some <==> new_row is Some && new_row != old_row)
            &&& gained is Some ==> gained->0 == new_row->0 as usize
        }),
{
}

/// A panel shows the same as another iff it is that of the same album, at the
/// same column of as many, with the same track marked as playing.
pub proof fn law_a_panel_is_kept_only_while_it_shows_the_same(
    left: AlbumDetailKey,
    right: AlbumDetailKey,
)
    ensures
        left.shows_same(&right) <==> left.album_key.artist@ == right.album_key.artist@
            && left.album_key.title@ == right.album_key.title@ && left.selected_column
            == right.selected_column && left.columns == right.columns && left.playing_track_id
            == right.playing_track_id,
{
}

/// A scroll to an album on display first makes its row visible, once, and then
/// aligns it as soon as the row is realized; meanwhile it goes on waiting for
/// the same album.
pub proof fn law_a_scroll_makes_its_row_visible_and_then_aligns_it(
    before: AlbumsState,
    between: AlbumsState,
    after: AlbumsState,
    width: i32,
    rows: usize,
    realized: Seq<usize>,
    first: ScrollStep,
    second: ScrollStep,
    row: int,
)
    requires
        width > 0,
        rows > 0,
        before.pending_scroll_album is Some,
        !before.pending_scroll_album->0.visibility_requested,
        before.row_of(before.pending_scroll_album->0.album_key@) == Some(row),
        before.scrolls(width, rows, realized, first, between),
        between.scrolls(width, rows, realized, second, after),
    ensures
        first == ScrollStep::ScrollTo(row as usize),
        realized.contains(row as usize) ==> second == ScrollStep::Align(row as usize),
        !realized.contains(row as usize) ==> second == ScrollStep::Wait,
        after.pending_scroll_album is Some,
        after.pending_scroll_album->0.album_key@ == before.pending_scroll_album->0.album_key@,
        after.albums == before.albums && after.selected_album == before.selected_album,
{
}

/// A scroll waits for as long as the view has neither width nor rows, and is
/// given up once the album turns out not to be on display.
pub proof fn law_a_scroll_waits_for_the_view(
    before: AlbumsState,
    after: AlbumsState,
    width: i32,
    rows: usize,
    realized: Seq<usize>,
    step: ScrollStep,
)
    requires
        before.pending_scroll_album is Some,
        before.scrolls(width, rows, realized, step, after),
    ensures
        width <= 0 || rows == 0 ==> step == ScrollStep::Wait && after == before,
        after.pending_scroll_album is None <==> width > 0 && rows > 0 && before.row_of(
            before.pending_scroll_album->0.album_key@,
        ) is None,
        step == ScrollStep::Wait || after.pending_scroll_album is Some,
{
}

/// The album that lists a track is revealed: it is selected, and the next step
/// of the view scrolls to the row it stands in. A track that no album on
/// display lists changes nothing.
pub proof fn law_a_revealed_album_is_scrolled_to(
    before: AlbumsState,
    between: AlbumsState,
    after: AlbumsState,
    track_id: TrackId,
    changed: Option<(Option<usize>, Option<usize>)>,
    width: i32,
    rows: usize,
    realized: Seq<usize>,
    step: ScrollStep,
    album: int,
    slot: int,
)
    requires
        before.reveals(track_id, changed, between),
        between.scrolls(width, rows, realized, step, after),
        width > 0,
        rows > 0,
        0 <= album < before.albums@.len(),
        0 <= slot < before.albums@[album].tracks@.len(),
        before.albums@[album].tracks@[slot].id == track_id,
        forall|at: int|
            0 <= at < slot ==> (#[trigger] before.albums@[album].tracks@[at]).id != track_id,
        forall|other: int, at: int|
            0 <= other < album && 0 <= at < before.albums@[other].tracks@.len() ==> (
            #[trigger] before.albums@[other].tracks@[at]).id != track_id,
    ensures
        between.selected_album is Some,
        between.selected_album->0@ == before.albums@[album].key@,
        before.row_of(before.albums@[album].key@) matches Some(row) ==> step
            == ScrollStep::ScrollTo(row as usize),
        between.albums == before.albums && between.visible_columns == before.visible_columns,
{
    model::law_the_first_album_that_lists_a_track_holds_it(before.albums@, track_id, album, slot);
}

/// Once a track was patched, the album that lists it shows the track as it is
/// now, at place `place`, and still has as many tracks and the same name; the
/// other albums are as they were. While the view is dormant nothing changes.
pub proof fn law_a_patched_track_is_shown_as_it_is(
    before: AlbumsState,
    after: AlbumsState,
    track: Track,
    refresh: Option<(usize, AlbumKey)>,
    album: int,
    slot: int,
) -> (place: int)
    requires
        before.updates(track.id, Some(&track), refresh, after),
        0 <= album < before.all_albums@.len(),
        0 <= slot < before.all_albums@[album].tracks@.len(),
        before.all_albums@[album].tracks@[slot].id == track.id,
        forall|at: int|
            0 <= at < slot ==> (#[trigger] before.all_albums@[album].tracks@[at]).id != track.id,
        forall|other: int, at: int|
            0 <= other < album && 0 <= at < before.all_albums@[other].tracks@.len() ==> (
            #[trigger] before.all_albums@[other].tracks@[at]).id != track.id,
    ensures
        !before.activated ==> after == before && refresh is None,
        before.activated ==> 0 <= place < after.all_albums@[album].tracks@.len()
            && model::rows_alike(
            after.all_albums@[album].tracks@[place]@,
            model::track_row(track),
        ),
        after.all_albums@[album].tracks@.len() == before.all_albums@[album].tracks@.len(),
        after.all_albums@[album].key@ == before.all_albums@[album].key@,
        forall|other: int|
            0 <= other < before.all_albums@.len() && other != album
                ==> #[trigger] after.all_albums@[other] == before.all_albums@[other],
        refresh matches Some((row, key)) ==> key@ == before.all_albums@[album].key@,
{
    model::law_the_first_album_that_lists_a_track_holds_it(
        before.all_albums@,
        track.id,
        album,
        slot,
    );
    let rows = sorting::views(before.all_albums@[album].tracks@);
    let row = model::track_row(track);
    if !before.activated || model::rows_alike(rows[slot], row) {
        slot
    } else {
        let patched = rows.update(slot, row);
        let shown = sorting::views(after.all_albums@[album].tracks@);
        let from = choose|from: Seq<int>|
            sorting::stable_order_from::<AlbumTrackViewModel>(patched, shown, from);
        sorting::lemma_all_taken(from, patched.len() as int, slot);
        let place = from.index_of(slot);
        assert(from[place] == slot);
        assert(shown[place] == row);
        place
    }
}

/// A search shows exactly the albums that pass it, in the order of all albums;
/// it looks at all of them each time, so that a second search undoes the first.
pub proof fn law_a_search_shows_what_passes_it(
    before: AlbumsState,
    between: AlbumsState,
    after: AlbumsState,
    earlier_hits: Seq<bool>,
    hits: Seq<bool>,
)
    requires
        hits.len() == before.all_albums@.len(),
        earlier_hits.len() == before.all_albums@.len(),
        before.searches(earlier_hits, between),
        between.searches(hits, after),
    ensures
        seqs::lists(
            album_views(after.albums@),
            before.all_albums@.len(),
            |i: int| hits[i],
            |i: int| before.all_albums@[i]@,
        ),
        after.all_albums == before.all_albums,
        after.selected_album is None && after.pending_scroll_album is None,
{
    let all = album_views(before.all_albums@);
    seqs::law_exactly_the_flagged_items_are_kept(all, hits);
    let wanted = |i: int| hits[i];
    let item = |i: int| all[i];
    let album = |i: int| before.all_albums@[i]@;
    seqs::lemma_lists_alike(
        album_views(after.albums@),
        all.len(),
        wanted,
        item,
        wanted,
        album,
    );
}

/// A track that plays marks the open panel once: told again that it plays, the
/// view shows nothing anew. While the view is dormant it only keeps in mind what
/// plays.
pub proof fn law_a_playing_track_is_marked_once(
    before: AlbumsState,
    between: AlbumsState,
    after: AlbumsState,
    playing: Option<TrackId>,
    first: Option<usize>,
    second: Option<usize>,
)
    requires
        before.plays(playing, first, between),
        between.plays(playing, second, after),
    ensures
        second is None,
        !before.activated ==> first is None,
        before.activated && before.playing_track_id != playing && before.selected_row() is Some
            ==> first is Some && first->0 == before.selected_row()->0,
        after.playing_track_id == playing && after.albums == before.albums && after.selected_album
            == before.selected_album,
{
}

/// A view that is told its width again rebuilds nothing; one that has another
/// width has as many columns as fit beside each other with the space between
/// them, and one at least. Without a width it stays as it is.
pub proof fn law_a_view_has_as_many_columns_as_fit(
    before: AlbumsState,
    between: AlbumsState,
    after: AlbumsState,
    width: i32,
    first: bool,
    second: bool,
)
    requires
        before.widens(width, first, between),
        between.widens(width, second, after),
    ensures
        !second && after == between,
        width <= 0 ==> between == before && !first,
        width > 0 && before.last_width != width ==> {
            let columns = between.visible_columns as int;
            let (margin, space) = (grid::ALBUM_GRID_MARGIN, grid::ALBUM_GRID_COLUMN_SPACING);
            let tile = grid::ALBUM_TILE_MIN_WIDTH;
            &&& columns >= 1
            &&& columns > 1 ==> margin + columns * tile + (columns - 1) * space + margin <= width
            &&& margin + (columns + 1) * tile + columns * space + margin > width
        },
        first <==> between.visible_columns != before.visible_columns,
{
}

} // verus!
