//! The playlist view: its rows and header, when it is rebuilt, and the menu of
//! playlists to which tracks can be added.

use vstd::prelude::*;

use crate::library;
use crate::library::{find_playlist, Library, Playlist, PlaylistEntry, PlaylistFolder,
    PlaylistFolderId, PlaylistId, PlaylistItem, SidebarSelection, SmartPlaylist, SmartPlaylistId,
    Track, TrackId};
use crate::pages::Page;
use crate::playback;
use crate::playback::play_order;
use crate::seqs;
use crate::sorting;
use crate::sorting::{stable_sort, Ranked};
use crate::text;
use crate::text::{join, order_texts, to_lowercase, Order};

verus! {

// ---------------------------------------------------------------------------
// Rows
// ---------------------------------------------------------------------------

/// A row of the playlist table.
#[derive(Clone, Copy, Debug, PartialEq, Eq, Structural)]
pub struct PlaylistRow {
    /// Where the row's track stands in the library.
    pub place: usize,
    pub track_id: TrackId,
    pub duration_seconds: u64,
    /// The row's position in its playlist; the rows of smart playlists and of
    /// the library have none.
    pub playlist_position: Option<u32>,
}

/// The row of the track at one place of the library.
pub open spec fn row_at(tracks: Seq<Track>, place: int, position: Option<u32>) -> PlaylistRow {
    PlaylistRow {
        place: place as usize,
        track_id: tracks[place].id,
        duration_seconds: match tracks[place].metadata.duration {
            Some(duration) => duration.seconds,
            None => 0,
        },
        playlist_position: position,
    }
}

fn make_row(tracks: &Vec<Track>, place: usize, position: Option<u32>) -> (row: PlaylistRow)
    requires
        place < tracks@.len(),
    ensures
        row == row_at(tracks@, place as int, position),
{
    PlaylistRow {
        place,
        track_id: tracks[place].id,
        duration_seconds: match tracks[place].metadata.duration {
            Some(duration) => duration.seconds,
            None => 0,
        },
        playlist_position: position,
    }
}

/// The rows of the tracks at these places that pass the search.
pub open spec fn rows_at(
    places: Seq<int>,
    tracks: Seq<Track>,
    everything: bool,
    hits: Seq<bool>,
) -> Seq<PlaylistRow>
    decreases places.len(),
{
    if places.len() == 0 {
        Seq::empty()
    } else {
        let earlier = rows_at(places.drop_last(), tracks, everything, hits);
        if everything || hits[places.last()] {
            earlier.push(row_at(tracks, places.last(), None))
        } else {
            earlier
        }
    }
}

/// The rows of a playlist's entries that the library knows and that pass the
/// search, each with its position.
pub open spec fn rows_of_entries(
    entries: Seq<PlaylistEntry>,
    tracks: Seq<Track>,
    everything: bool,
    hits: Seq<bool>,
) -> Seq<PlaylistRow>
    decreases entries.len(),
{
    if entries.len() == 0 {
        Seq::empty()
    } else {
        let earlier = rows_of_entries(entries.drop_last(), tracks, everything, hits);
        let place = library::last_track_index(tracks, entries.last().track_id);
        if place >= 0 && (everything || hits[place]) {
            earlier.push(row_at(tracks, place, Some(entries.last().position)))
        } else {
            earlier
        }
    }
}

/// The rows that the playlist table shows for a selection. `everything` tells
/// that there is no search, `hits[i]` whether the track at place `i` matches
/// it, and `smart` lists the places of the tracks that match the selected smart
/// playlist.
pub open spec fn rows_for(
    library: Library,
    selection: Option<SidebarSelection>,
    everything: bool,
    hits: Seq<bool>,
    smart: Seq<int>,
) -> Seq<PlaylistRow> {
    match selection {
        Some(SidebarSelection::Music) => rows_at(
            playback::all_places(library.tracks@.len()),
            library.tracks@,
            everything,
            hits,
        ),
        Some(SidebarSelection::Item(PlaylistItem::Playlist(id))) => {
            match seqs::first_where(
                library.playlists@,
                |playlist: Playlist| playlist.id == id,
            ) {
                Some(playlist) => rows_of_entries(
                    playback::in_play_order(playlist.entries@),
                    library.tracks@,
                    everything,
                    hits,
                ),
                None => Seq::empty(),
            }
        },
        Some(SidebarSelection::Item(PlaylistItem::SmartPlaylist(_))) => rows_at(
            smart,
            library.tracks@,
            everything,
            hits,
        ),
        _ => Seq::empty(),
    }
}

/// The rows of the library's tracks that pass the search.
pub fn library_rows(tracks: &Vec<Track>, everything: bool, hits: &Vec<bool>) -> (rows: Vec<
    PlaylistRow,
>)
    requires
        hits@.len() == tracks@.len(),
    ensures
        rows@ == rows_at(playback::all_places(tracks@.len()), tracks@, everything, hits@),
{
    let ghost places = playback::all_places(tracks@.len());
    let mut rows: Vec<PlaylistRow> = Vec::new();
    let mut place: usize = 0;
    assert(places.take(0) =~= Seq::empty());
    while place < tracks.len()
        invariant
            place <= tracks.len(),
            hits@.len() == tracks@.len(),
            places == playback::all_places(tracks@.len()),
            rows@ == rows_at(places.take(place as int), tracks@, everything, hits@),
        decreases tracks.len() - place,
    {
        proof {
            assert(places.take(place as int + 1).drop_last() =~= places.take(place as int));
            assert(places.take(place as int + 1).last() == place);
        }
        if everything || hits[place] {
            rows.push(make_row(tracks, place, None));
        }
        place = place + 1;
    }
    assert(places.take(place as int) =~= places);
    rows
}

fn candidate_rows(
    candidates: &Vec<usize>,
    tracks: &Vec<Track>,
    everything: bool,
    hits: &Vec<bool>,
) -> (rows: Vec<PlaylistRow>)
    requires
        hits@.len() == tracks@.len(),
        playback::in_range(playback::places(candidates@), tracks@.len()),
    ensures
        rows@ == rows_at(playback::places(candidates@), tracks@, everything, hits@),
{
    let ghost places = playback::places(candidates@);
    let mut rows: Vec<PlaylistRow> = Vec::new();
    let mut at: usize = 0;
    assert(places.take(0) =~= Seq::empty());
    while at < candidates.len()
        invariant
            at <= candidates.len(),
            hits@.len() == tracks@.len(),
            places == playback::places(candidates@),
            playback::in_range(places, tracks@.len()),
            rows@ == rows_at(places.take(at as int), tracks@, everything, hits@),
        decreases candidates.len() - at,
    {
        let place: usize = candidates[at];
        proof {
            assert(places[at as int] == place);
            assert(places.take(at as int + 1).drop_last() =~= places.take(at as int));
            assert(places.take(at as int + 1).last() == place);
        }
        if everything || hits[place] {
            rows.push(make_row(tracks, place, None));
        }
        at = at + 1;
    }
    assert(places.take(at as int) =~= places);
    rows
}

fn entry_rows(
    entries: &Vec<PlaylistEntry>,
    tracks: &Vec<Track>,
    everything: bool,
    hits: &Vec<bool>,
) -> (rows: Vec<PlaylistRow>)
    requires
        hits@.len() == tracks@.len(),
    ensures
        rows@ == rows_of_entries(entries@, tracks@, everything, hits@),
{
    let mut rows: Vec<PlaylistRow> = Vec::new();
    let mut at: usize = 0;
    assert(entries@.take(0) =~= Seq::empty());
    while at < entries.len()
        invariant
            at <= entries.len(),
            hits@.len() == tracks@.len(),
            rows@ == rows_of_entries(entries@.take(at as int), tracks@, everything, hits@),
        decreases entries.len() - at,
    {
        proof {
            assert(entries@.take(at as int + 1).drop_last() =~= entries@.take(at as int));
            assert(entries@.take(at as int + 1).last() == entries@[at as int]);
        }
        if let Some(place) = library::find_last_track(tracks, entries[at].track_id) {
            if everything || hits[place] {
                rows.push(make_row(tracks, place, Some(entries[at].position)));
            }
        }
        at = at + 1;
    }
    assert(entries@.take(at as int) =~= entries@);
    rows
}

/// The rows that the playlist table shows for a selection.
pub fn playlist_table_rows_for(
    library: &Library,
    selection: Option<SidebarSelection>,
    everything: bool,
    hits: &Vec<bool>,
    smart: &Vec<usize>,
) -> (rows: Vec<PlaylistRow>)
    requires
        hits@.len() == library.tracks@.len(),
        playback::in_range(playback::places(smart@), library.tracks@.len()),
    ensures
        rows@ == rows_for(*library, selection, everything, hits@, playback::places(smart@)),
{
    match selection {
        Some(SidebarSelection::Music) => library_rows(&library.tracks, everything, hits),
        Some(SidebarSelection::Item(PlaylistItem::Playlist(id))) => {
            match find_playlist(&library.playlists, id) {
                Some(index) => {
                    let entries = play_order(&library.playlists[index].entries);
                    entry_rows(&entries, &library.tracks, everything, hits)
                },
                None => Vec::new(),
            }
        },
        Some(SidebarSelection::Item(PlaylistItem::SmartPlaylist(_))) => candidate_rows(
            smart,
            &library.tracks,
            everything,
            hits,
        ),
        _ => Vec::new(),
    }
}

// ---------------------------------------------------------------------------
// Header
// ---------------------------------------------------------------------------

/// What the header above the playlist table shows.
#[derive(Debug)]
pub struct PlaylistsHeaderState {
    pub title: String,
    pub track_count: usize,
    pub duration_seconds: u64,
}

/// The contents of a [`PlaylistsHeaderState`].
#[verifier::ext_equal]
pub struct HeaderView {
    pub title: Seq<char>,
    pub track_count: nat,
    pub duration_seconds: nat,
}

impl View for PlaylistsHeaderState {
    type V = HeaderView;

    open spec fn view(&self) -> HeaderView {
        HeaderView {
            title: self.title@,
            track_count: self.track_count as nat,
            duration_seconds: self.duration_seconds as nat,
        }
    }
}

/// How long the tracks of some rows play together.
pub open spec fn total_seconds(rows: Seq<PlaylistRow>) -> nat
    decreases rows.len(),
{
    if rows.len() == 0 {
        0
    } else {
        total_seconds(rows.drop_last()) + rows.last().duration_seconds as nat
    }
}

proof fn lemma_total_seconds_grows(rows: Seq<PlaylistRow>, upto: int)
    requires
        0 <= upto <= rows.len(),
    ensures
        total_seconds(rows.take(upto)) <= total_seconds(rows),
    decreases rows.len(),
{
    if upto == rows.len() {
        assert(rows.take(upto) =~= rows);
    } else {
        assert(rows.drop_last().take(upto) =~= rows.take(upto));
        lemma_total_seconds_grows(rows.drop_last(), upto);
    }
}

/// The title of a selection: the name of the playlist or smart playlist that is
/// selected. Nothing else has a header of its own.
pub open spec fn selection_title(library: Library, selection: Option<SidebarSelection>) -> Option<
    Seq<char>,
> {
    match selection {
        Some(SidebarSelection::Item(PlaylistItem::Playlist(id))) => {
            match seqs::first_where(
                library.playlists@,
                |playlist: Playlist| playlist.id == id,
            ) {
                Some(playlist) => Some(playlist.name@),
                None => None,
            }
        },
        Some(SidebarSelection::Item(PlaylistItem::SmartPlaylist(id))) => {
            match seqs::first_where(
                library.smart_playlists@,
                |playlist: SmartPlaylist| playlist.id == id,
            ) {
                Some(playlist) => Some(playlist.name@),
                None => None,
            }
        },
        _ => None,
    }
}

/// The header for a selection and the rows below it.
pub open spec fn header_for(
    library: Library,
    selection: Option<SidebarSelection>,
    rows: Seq<PlaylistRow>,
) -> Option<HeaderView> {
    match selection_title(library, selection) {
        Some(title) => Some(
            HeaderView { title, track_count: rows.len(), duration_seconds: total_seconds(rows) },
        ),
        None => None,
    }
}

/// A header as a value of the specification.
pub open spec fn header_view(header: Option<PlaylistsHeaderState>) -> Option<HeaderView> {
    match header {
        Some(header) => Some(header@),
        None => None,
    }
}

/// Finds the smart playlist with this identifier.
pub fn find_smart_playlist(playlists: &Vec<SmartPlaylist>, id: SmartPlaylistId) -> (index: Option<
    usize,
>)
    ensures
        match index {
            Some(index) => index < playlists.len() && index == seqs::first_index(
                playlists@,
                |playlist: SmartPlaylist| playlist.id == id,
            ),
            None => seqs::first_index(
                playlists@,
                |playlist: SmartPlaylist| playlist.id == id,
            ) == playlists.len(),
        },
{
    let test = |playlist: &SmartPlaylist| -> (same: bool)
        ensures
            same == (playlist.id == id),
    {
        playlist.id == id
    };
    seqs::find_first(playlists.as_slice(), test, Ghost(|playlist: SmartPlaylist| playlist.id == id))
}

/// The header for a selection and the rows below it.
pub fn playlists_header_state_for(
    library: &Library,
    selection: Option<SidebarSelection>,
    rows: &Vec<PlaylistRow>,
) -> (header: Option<PlaylistsHeaderState>)
    requires
        selection_title(*library, selection) is Some ==> total_seconds(rows@) <= u64::MAX,
    ensures
        header_view(header) == header_for(*library, selection, rows@),
{
    let title = match selection {
        Some(SidebarSelection::Item(PlaylistItem::Playlist(id))) => {
            match find_playlist(&library.playlists, id) {
                Some(index) => library.playlists[index].name.clone(),
                None => return None,
            }
        },
        Some(SidebarSelection::Item(PlaylistItem::SmartPlaylist(id))) => {
            match find_smart_playlist(&library.smart_playlists, id) {
                Some(index) => library.smart_playlists[index].name.clone(),
                None => return None,
            }
        },
        _ => return None,
    };
    let mut duration_seconds: u64 = 0;
    let mut index: usize = 0;
    assert(rows@.take(0) =~= Seq::empty());
    while index < rows.len()
        invariant
            index <= rows.len(),
            total_seconds(rows@) <= u64::MAX,
            duration_seconds == total_seconds(rows@.take(index as int)),
        decreases rows.len() - index,
    {
        proof {
            assert(rows@.take(index as int + 1).drop_last() =~= rows@.take(index as int));
            lemma_total_seconds_grows(rows@, index as int + 1);
        }
        duration_seconds = duration_seconds + rows[index].duration_seconds;
        index = index + 1;
    }
    assert(rows@.take(index as int) =~= rows@);
    Some(PlaylistsHeaderState { title, track_count: rows.len(), duration_seconds })
}

/// The playlist view for a selection: its header and its rows. The header sums
/// up the very rows that are drawn below it.
pub fn rebuild_playlists_view(
    library: &Library,
    selection: Option<SidebarSelection>,
    everything: bool,
    hits: &Vec<bool>,
    smart: &Vec<usize>,
) -> (view: (Option<PlaylistsHeaderState>, Vec<PlaylistRow>))
    requires
        hits@.len() == library.tracks@.len(),
        playback::in_range(playback::places(smart@), library.tracks@.len()),
        selection_title(*library, selection) is Some ==> total_seconds(
            rows_for(*library, selection, everything, hits@, playback::places(smart@)),
        ) <= u64::MAX,
    ensures
        view.1@ == rows_for(*library, selection, everything, hits@, playback::places(smart@)),
        header_view(view.0) == header_for(*library, selection, view.1@),
{
    let rows = playlist_table_rows_for(library, selection, everything, hits, smart);
    let header = playlists_header_state_for(library, selection, &rows);
    (header, rows)
}

// ---------------------------------------------------------------------------
// When the view is rebuilt
// ---------------------------------------------------------------------------

/// Whether the playlist view lags behind what it should show. While another
/// page is visible it is not rebuilt, only marked; showing it pays the rebuild
/// once.
#[derive(Clone, Copy, Debug, PartialEq, Eq, Structural)]
pub struct PlaylistsRefresh {
    pub dirty: bool,
}

impl PlaylistsRefresh {
    /// A page becomes visible: the new state, and whether the view has to be
    /// rebuilt.
    pub open spec fn after_page_shown(self, page: Option<Page>) -> (PlaylistsRefresh, bool) {
        if page == Some(Page::Playlists) {
            (PlaylistsRefresh { dirty: false }, self.dirty)
        } else {
            (self, false)
        }
    }

    /// What the view shows has changed: the new state, and whether the view has
    /// to be rebuilt. While it is not visible it is only marked.
    pub open spec fn after_change(self, page: Option<Page>) -> (PlaylistsRefresh, bool) {
        let visible = page == Some(Page::Playlists);
        (PlaylistsRefresh { dirty: !visible }, visible)
    }

    /// The selection leads to a page: the new state, and whether that means
    /// going to the playlist view, which is marked so that showing it rebuilds
    /// it.
    pub open spec fn after_selection(self, target: Page, visible: Option<Page>) -> (
        PlaylistsRefresh,
        bool,
    ) {
        let switching = target == Page::Playlists && visible != Some(Page::Playlists);
        (PlaylistsRefresh { dirty: self.dirty || switching }, switching)
    }

    /// The page of a selection is visible now: the new state, whether the view
    /// has to be rebuilt, and whether it counts as refreshed. One that was
    /// rebuilt when it was shown is not rebuilt again.
    pub open spec fn after_selection_shown(self, switching: bool, page: Option<Page>) -> (
        PlaylistsRefresh,
        bool,
        bool,
    ) {
        if switching && !self.dirty {
            (self, false, true)
        } else {
            let (state, rebuild) = self.after_change(page);
            (state, rebuild, rebuild)
        }
    }

    /// A page becomes visible. Returns whether the view has to be rebuilt.
    pub fn page_shown(&mut self, page: Option<Page>) -> (rebuild: bool)
        ensures
            (*final(self), rebuild) == old(self).after_page_shown(page),
    {
        match page {
            Some(Page::Playlists) => {
                let rebuild = self.dirty;
                self.dirty = false;
                rebuild
            },
            _ => false,
        }
    }

    /// What the view shows has changed. Returns whether the view has to be
    /// rebuilt.
    pub fn refresh_if_visible(&mut self, page: Option<Page>) -> (rebuild: bool)
        ensures
            (*final(self), rebuild) == old(self).after_change(page),
    {
        let rebuild = match page {
            Some(Page::Playlists) => true,
            _ => false,
        };
        self.dirty = !rebuild;
        rebuild
    }

    /// The set of rows may have changed. Returns whether a rebuild has to be
    /// scheduled; a burst of changes schedules one.
    pub fn schedule_structural_refresh(&mut self, page: Option<Page>) -> (schedule: bool)
        ensures
            schedule == (page == Some(Page::Playlists) && !old(self).dirty),
            final(self).dirty,
    {
        let was_dirty = self.dirty;
        self.dirty = true;
        match page {
            Some(Page::Playlists) => !was_dirty,
            _ => false,
        }
    }

    /// The selection leads to a page. Returns whether that means going to the
    /// playlist view.
    pub fn selection_leads_to(&mut self, target: Page, visible: Option<Page>) -> (switching: bool)
        ensures
            (*final(self), switching) == old(self).after_selection(target, visible),
    {
        let shown = match visible {
            Some(Page::Playlists) => true,
            _ => false,
        };
        let switching = match target {
            Page::Playlists => !shown,
            _ => false,
        };
        if switching {
            self.dirty = true;
        }
        switching
    }

    /// The page of a selection is visible now. Returns whether the view has to
    /// be rebuilt, and whether it counts as refreshed.
    pub fn selection_shown(&mut self, switching: bool, page: Option<Page>) -> (result: (bool, bool))
        ensures
            (*final(self), result.0, result.1) == old(self).after_selection_shown(switching, page),
    {
        if switching && !self.dirty {
            (false, true)
        } else {
            let rebuild = self.refresh_if_visible(page);
            (rebuild, rebuild)
        }
    }
}

/// Going to the playlist view rebuilds it exactly once, when it is shown, and
/// it does not lag behind afterwards.
pub proof fn law_switching_rebuilds_once(state: PlaylistsRefresh, visible: Option<Page>)
    requires
        visible != Some(Page::Playlists),
    ensures
        ({
            let (marked, switching) = state.after_selection(Page::Playlists, visible);
            let (shown, rebuilt) = marked.after_page_shown(Some(Page::Playlists));
            let (settled, again, refreshed) = shown.after_selection_shown(
                switching,
                Some(Page::Playlists),
            );
            rebuilt && !again && refreshed && !settled.dirty
        }),
{
}

/// A change that comes while another page is visible is not lost: the next time
/// the view is shown it is rebuilt.
pub proof fn law_hidden_change_is_caught_up(state: PlaylistsRefresh, visible: Option<Page>)
    requires
        visible != Some(Page::Playlists),
    ensures
        state.after_change(visible).0.after_page_shown(Some(Page::Playlists)).1,
{
}

// ---------------------------------------------------------------------------
// Adding tracks to a playlist
// ---------------------------------------------------------------------------

/// Where the last folder with this identifier stands; `-1` when there is none.
pub open spec fn last_folder_index(folders: Seq<PlaylistFolder>, id: PlaylistFolderId) -> int {
    seqs::last_index(folders, |folder: PlaylistFolder| folder.id == id)
}

fn find_last_folder(folders: &Vec<PlaylistFolder>, id: PlaylistFolderId) -> (index: Option<usize>)
    ensures
        match index {
            Some(index) => index == last_folder_index(folders@, id) && index < folders.len(),
            None => last_folder_index(folders@, id) < 0,
        },
{
    let test = |folder: &PlaylistFolder| -> (same: bool)
        ensures
            same == (folder.id == id),
    {
        folder.id == id
    };
    seqs::find_last(folders.as_slice(), test, Ghost(|folder: PlaylistFolder| folder.id == id))
}

/// Whether the chain of folders above `id` ends within so many steps: at the
/// root, or at a folder that is not known.
pub open spec fn chain_ends(
    folders: Seq<PlaylistFolder>,
    id: Option<PlaylistFolderId>,
    steps: nat,
) -> bool
    decreases steps,
{
    match id {
        None => true,
        Some(id) => {
            let index = last_folder_index(folders, id);
            if index < 0 {
                true
            } else if steps == 0 {
                false
            } else {
                chain_ends(folders, folders[index].parent_folder_id, (steps - 1) as nat)
            }
        },
    }
}

/// Decides whether the chain of folders above `id` ends within so many steps.
pub fn chain_ends_within(
    folders: &Vec<PlaylistFolder>,
    id: Option<PlaylistFolderId>,
    steps: usize,
) -> (ends: bool)
    ensures
        ends == chain_ends(folders@, id, steps as nat),
{
    let mut current = id;
    let mut left: usize = steps;
    loop
        invariant
            chain_ends(folders@, id, steps as nat) == chain_ends(folders@, current, left as nat),
        decreases left,
    {
        match current {
            None => return true,
            Some(folder_id) => {
                match find_last_folder(folders, folder_id) {
                    None => return true,
                    Some(index) => {
                        if left == 0 {
                            return false;
                        }
                        current = folders[index].parent_folder_id;
                        left = left - 1;
                    },
                }
            },
        }
    }
}

/// The names of the folders above `id`, the outermost first.
pub open spec fn folder_names(
    folders: Seq<PlaylistFolder>,
    id: Option<PlaylistFolderId>,
    steps: nat,
) -> Seq<Seq<char>>
    decreases steps,
{
    match id {
        None => Seq::empty(),
        Some(id) => {
            let index = last_folder_index(folders, id);
            if index < 0 || steps == 0 {
                Seq::empty()
            } else {
                folder_names(
                    folders,
                    folders[index].parent_folder_id,
                    (steps - 1) as nat,
                ).push(folders[index].name@)
            }
        },
    }
}

/// Where the chain ends, it does not matter how many more steps are granted.
pub proof fn lemma_folder_names_stable(
    folders: Seq<PlaylistFolder>,
    id: Option<PlaylistFolderId>,
    steps: nat,
    more: nat,
)
    requires
        chain_ends(folders, id, steps),
        steps <= more,
    ensures
        chain_ends(folders, id, more),
        folder_names(folders, id, steps) == folder_names(folders, id, more),
    decreases steps,
{
    if let Some(folder_id) = id {
        let index = last_folder_index(folders, folder_id);
        if index >= 0 {
            lemma_folder_names_stable(
                folders,
                folders[index].parent_folder_id,
                (steps - 1) as nat,
                (more - 1) as nat,
            );
        }
    }
}

/// The places of the folders above `id`, the innermost first.
spec fn chain_places(
    folders: Seq<PlaylistFolder>,
    id: Option<PlaylistFolderId>,
    steps: nat,
) -> Seq<int>
    decreases steps,
{
    match id {
        None => Seq::empty(),
        Some(id) => {
            let index = last_folder_index(folders, id);
            if index < 0 || steps == 0 {
                Seq::empty()
            } else {
                seq![index] + chain_places(
                    folders,
                    folders[index].parent_folder_id,
                    (steps - 1) as nat,
                )
            }
        },
    }
}

proof fn lemma_folder_index_range(folders: Seq<PlaylistFolder>, id: PlaylistFolderId)
    ensures
        -1 <= last_folder_index(folders, id) < folders.len(),
{
    seqs::lemma_last_index(folders, |folder: PlaylistFolder| folder.id == id);
}

/// A chain that ends visits as many folders from each of them on as are left.
proof fn lemma_chain_places(
    folders: Seq<PlaylistFolder>,
    id: Option<PlaylistFolderId>,
    steps: nat,
    k: int,
)
    requires
        chain_ends(folders, id, steps),
        0 <= k < chain_places(folders, id, steps).len(),
    ensures
        ({
            let places = chain_places(folders, id, steps);
            &&& places.len() <= steps
            &&& 0 <= places[k] < folders.len()
            &&& chain_ends(folders, folders[places[k]].parent_folder_id, (steps - 1 - k) as nat)
            &&& chain_places(
                folders,
                folders[places[k]].parent_folder_id,
                (steps - 1 - k) as nat,
            ).len() == places.len() - 1 - k
        }),
    decreases steps,
{
    let folder_id = id->0;
    lemma_folder_index_range(folders, folder_id);
    let index = last_folder_index(folders, folder_id);
    let parent = folders[index].parent_folder_id;
    let rest = chain_places(folders, parent, (steps - 1) as nat);
    if rest.len() > 0 {
        lemma_chain_places(folders, parent, (steps - 1) as nat, 0);
    }
    if k > 0 {
        lemma_chain_places(folders, parent, (steps - 1) as nat, k - 1);
        assert(chain_places(folders, id, steps)[k] == rest[k - 1]);
    }
}

/// Steps beyond the end of a chain visit nothing more.
proof fn lemma_chain_places_stable(
    folders: Seq<PlaylistFolder>,
    id: Option<PlaylistFolderId>,
    steps: nat,
    more: nat,
)
    requires
        chain_ends(folders, id, steps),
        steps <= more,
    ensures
        chain_places(folders, id, steps) == chain_places(folders, id, more),
    decreases steps,
{
    if let Some(folder_id) = id {
        let index = last_folder_index(folders, folder_id);
        if index >= 0 {
            lemma_chain_places_stable(
                folders,
                folders[index].parent_folder_id,
                (steps - 1) as nat,
                (more - 1) as nat,
            );
        }
    }
}

/// A chain ends after as many steps as it visits folders.
proof fn lemma_chain_ends_at_its_length(
    folders: Seq<PlaylistFolder>,
    id: Option<PlaylistFolderId>,
    steps: nat,
)
    requires
        chain_ends(folders, id, steps),
    ensures
        chain_ends(folders, id, chain_places(folders, id, steps).len()),
    decreases steps,
{
    if let Some(folder_id) = id {
        let index = last_folder_index(folders, folder_id);
        if index >= 0 {
            lemma_chain_ends_at_its_length(
                folders,
                folders[index].parent_folder_id,
                (steps - 1) as nat,
            );
        }
    }
}

/// Different numbers below `bound` are no more than `bound`.
proof fn lemma_distinct_below(numbers: Seq<int>, bound: nat)
    requires
        forall|i: int| 0 <= i < numbers.len() ==> 0 <= #[trigger] numbers[i] < bound,
        forall|i: int, j: int| 0 <= i < j < numbers.len() ==> numbers[i] != numbers[j],
    ensures
        numbers.len() <= bound,
    decreases bound,
{
    if numbers.len() > 0 {
        if bound == 0 {
            assert(0 <= numbers[0] < bound);
        } else {
            let last = numbers.last();
            let rest = Seq::new(
                (numbers.len() - 1) as nat,
                |i: int| if numbers[i] > last { numbers[i] - 1 } else { numbers[i] },
            );
            assert forall|i: int| 0 <= i < rest.len() implies 0 <= #[trigger] rest[i] < bound - 1 by {
                assert(numbers[i] != numbers[numbers.len() - 1]);
                assert(0 <= numbers[i] < bound);
                assert(0 <= numbers[numbers.len() - 1] < bound);
            }
            assert forall|i: int, j: int| 0 <= i < j < rest.len() implies rest[i] != rest[j] by {
                assert(numbers[i] != numbers[j]);
                assert(numbers[i] != numbers[numbers.len() - 1]);
                assert(numbers[j] != numbers[numbers.len() - 1]);
            }
            lemma_distinct_below(rest, (bound - 1) as nat);
        }
    }
}

/// A chain of folders that ends at all ends within as many steps as there are
/// folders: it cannot visit one twice.
pub proof fn law_chain_is_no_longer_than_the_folders(
    folders: Seq<PlaylistFolder>,
    id: Option<PlaylistFolderId>,
    steps: nat,
)
    requires
        chain_ends(folders, id, steps),
    ensures
        chain_ends(folders, id, folders.len()),
{
    let places = chain_places(folders, id, steps);
    assert forall|i: int| 0 <= i < places.len() implies 0 <= #[trigger] places[i] < folders.len() by {
        lemma_chain_places(folders, id, steps, i);
    }
    assert forall|i: int, j: int| 0 <= i < j < places.len() implies places[i] != places[j] by {
        lemma_chain_places(folders, id, steps, i);
        lemma_chain_places(folders, id, steps, j);
        if places[i] == places[j] {
            lemma_chain_places_stable(
                folders,
                folders[places[j]].parent_folder_id,
                (steps - 1 - j) as nat,
                (steps - 1 - i) as nat,
            );
        }
    }
    lemma_distinct_below(places, folders.len());
    lemma_chain_ends_at_its_length(folders, id, steps);
    lemma_folder_names_stable(folders, id, places.len(), folders.len());
}

/// The path under which a playlist is offered: the folders that hold it, and
/// its name.
pub open spec fn display_path(
    playlist: Playlist,
    folders: Seq<PlaylistFolder>,
    steps: nat,
) -> Seq<char> {
    text::joined(
        folder_names(folders, playlist.parent_folder_id, steps).push(playlist.name@),
        " / "@,
    )
}

/// The path under which a playlist is offered.
pub fn playlist_display_path(playlist: &Playlist, folders: &Vec<PlaylistFolder>) -> (path: String)
    requires
        chain_ends(folders@, playlist.parent_folder_id, folders@.len()),
    ensures
        path@ == display_path(*playlist, folders@, folders@.len()),
{
    let mut segments: Vec<String> = Vec::new();
    let mut current = playlist.parent_folder_id;
    let ghost mut left: nat = folders@.len();
    let ghost all = folder_names(folders@, playlist.parent_folder_id, folders@.len());
    assert(segments.deep_view() =~= Seq::empty());
    assert(all =~= folder_names(folders@, current, left) + segments.deep_view());
    loop
        invariant_except_break
            chain_ends(folders@, current, left),
            all == folder_names(folders@, current, left) + segments.deep_view(),
        ensures
            all == segments.deep_view(),
        decreases left,
    {
        match current {
            None => {
                assert(segments.deep_view() =~= all);
                break;
            },
            Some(folder_id) => {
                match find_last_folder(folders, folder_id) {
                    None => {
                        assert(segments.deep_view() =~= all);
                        break;
                    },
                    Some(index) => {
                        let ghost before = segments.deep_view();
                        segments.insert(0, folders[index].name.clone());
                        current = folders[index].parent_folder_id;
                        proof {
                            assert(segments.deep_view() =~= before.insert(
                                0,
                                folders@[index as int].name@,
                            ));
                            left = (left - 1) as nat;
                            assert(all =~= folder_names(folders@, current, left)
                                + segments.deep_view());
                        }
                    },
                }
            },
        }
    }
    segments.push(playlist.name.clone());
    assert(segments.deep_view() =~= all.push(playlist.name@));
    join(segments.as_slice(), " / ")
}

/// A playlist to which tracks can be added.
#[derive(Debug)]
pub struct AddToPlaylistEntry {
    pub playlist_id: PlaylistId,
    pub display_path: String,
}

impl View for AddToPlaylistEntry {
    type V = (PlaylistId, Seq<char>);

    open spec fn view(&self) -> (PlaylistId, Seq<char>) {
        (self.playlist_id, self.display_path@)
    }
}

impl Ranked for AddToPlaylistEntry {
    open spec fn rank_leq(left: (PlaylistId, Seq<char>), right: (PlaylistId, Seq<char>)) -> bool {
        text::text_order(text::lowercase(left.1), text::lowercase(right.1)) != Order::After
    }

    proof fn rank_total(left: (PlaylistId, Seq<char>), right: (PlaylistId, Seq<char>)) {
        text::lemma_text_order_swap(text::lowercase(right.1), text::lowercase(left.1));
    }

    proof fn rank_transitive(
        a: (PlaylistId, Seq<char>),
        b: (PlaylistId, Seq<char>),
        c: (PlaylistId, Seq<char>),
    ) {
        text::lemma_text_order_chain(
            text::lowercase(a.1),
            text::lowercase(b.1),
            text::lowercase(c.1),
        );
    }

    fn ranks_before(&self, other: &Self) -> (before: bool) {
        let left = to_lowercase(self.display_path.as_str());
        let right = to_lowercase(other.display_path.as_str());
        match order_texts(left.as_str(), right.as_str()) {
            Order::After => false,
            _ => true,
        }
    }
}

/// The playlists with their paths, in the library's order.
pub open spec fn path_entries(
    playlists: Seq<Playlist>,
    folders: Seq<PlaylistFolder>,
) -> Seq<(PlaylistId, Seq<char>)> {
    Seq::new(
        playlists.len(),
        |i: int| (playlists[i].id, display_path(playlists[i], folders, folders.len())),
    )
}

/// Whether the chain of folders above each playlist ends.
pub open spec fn chains_end(playlists: Seq<Playlist>, folders: Seq<PlaylistFolder>) -> bool {
    forall|i: int|
        0 <= i < playlists.len() ==> chain_ends(
            folders,
            (#[trigger] playlists[i]).parent_folder_id,
            folders.len(),
        )
}

/// The playlists to which tracks can be added, by path, upper and lower case
/// alike.
pub fn add_to_playlist_entries(library: &Library) -> (entries: Vec<AddToPlaylistEntry>)
    requires
        chains_end(library.playlists@, library.folders@),
    ensures
        sorting::stable_order::<AddToPlaylistEntry>(
            path_entries(library.playlists@, library.folders@),
            sorting::views(entries@),
        ),
{
    let mut entries: Vec<AddToPlaylistEntry> = Vec::new();
    let mut index: usize = 0;
    while index < library.playlists.len()
        invariant
            index <= library.playlists.len(),
            chains_end(library.playlists@, library.folders@),
            entries@.len() == index,
            forall|i: int|
                0 <= i < index ==> (#[trigger] entries@[i])@ == path_entries(
                    library.playlists@,
                    library.folders@,
                )[i],
        decreases library.playlists.len() - index,
    {
        let playlist = &library.playlists[index];
        let display_path = playlist_display_path(playlist, &library.folders);
        entries.push(AddToPlaylistEntry { playlist_id: playlist.id, display_path });
        index = index + 1;
    }
    assert(sorting::views(entries@) =~= path_entries(library.playlists@, library.folders@));
    stable_sort(&mut entries);
    entries
}

// ---------------------------------------------------------------------------
// Laws of the rows
// ---------------------------------------------------------------------------

/// The row of a track: where it stands, who it is and how long it plays.
pub open spec fn tells_of(row: PlaylistRow, tracks: Seq<Track>, place: int) -> bool {
    &&& row.place == place
    &&& row.track_id == tracks[place].id
    &&& row.duration_seconds == match tracks[place].metadata.duration {
        Some(duration) => duration.seconds,
        None => 0,
    }
}

/// The rows of the places that pass the search, in their order.
proof fn lemma_rows_at(
    places: Seq<int>,
    tracks: Seq<Track>,
    everything: bool,
    hits: Seq<bool>,
    upto: nat,
)
    requires
        upto <= places.len(),
    ensures
        seqs::lists(
            rows_at(places.take(upto as int), tracks, everything, hits),
            upto,
            |c: int| everything || hits[places[c]],
            |c: int| row_at(tracks, places[c], None),
        ),
    decreases upto,
{
    let wanted = |c: int| everything || hits[places[c]];
    let item = |c: int| row_at(tracks, places[c], None);
    if upto == 0 {
        assert(places.take(0) =~= Seq::empty());
        seqs::lemma_lists_nothing(wanted, item);
    } else {
        let fewer = (upto - 1) as nat;
        lemma_rows_at(places, tracks, everything, hits, fewer);
        assert(places.take(upto as int).drop_last() =~= places.take(fewer as int));
        assert(places.take(upto as int).last() == places[fewer as int]);
        seqs::lemma_lists_one_more(
            rows_at(places.take(fewer as int), tracks, everything, hits),
            fewer,
            wanted,
            item,
        );
    }
}

/// The rows of the entries that the library holds and the search leaves, in
/// their order.
proof fn lemma_rows_of_entries(
    entries: Seq<PlaylistEntry>,
    tracks: Seq<Track>,
    everything: bool,
    hits: Seq<bool>,
    upto: nat,
)
    requires
        upto <= entries.len(),
    ensures
        seqs::lists(
            rows_of_entries(entries.take(upto as int), tracks, everything, hits),
            upto,
            |e: int| exists|i: int| #[trigger]
                playback::stands_for(tracks, entries[e].track_id, i) && (everything || hits[i]),
            |e: int|
                row_at(
                    tracks,
                    library::last_track_index(tracks, entries[e].track_id),
                    Some(entries[e].position),
                ),
        ),
    decreases upto,
{
    let wanted = |e: int| exists|i: int| #[trigger]
        playback::stands_for(tracks, entries[e].track_id, i) && (everything || hits[i]);
    let item = |e: int|
        row_at(
            tracks,
            library::last_track_index(tracks, entries[e].track_id),
            Some(entries[e].position),
        );
    if upto == 0 {
        assert(entries.take(0) =~= Seq::empty());
        seqs::lemma_lists_nothing(wanted, item);
    } else {
        let fewer = (upto - 1) as nat;
        lemma_rows_of_entries(entries, tracks, everything, hits, fewer);
        assert(entries.take(upto as int).drop_last() =~= entries.take(fewer as int));
        assert(entries.take(upto as int).last() == entries[fewer as int]);
        let id = entries[fewer as int].track_id;
        let place = library::last_track_index(tracks, id);
        playback::lemma_last_track_index(tracks, id);
        seqs::lemma_lists_one_more(
            rows_of_entries(entries.take(fewer as int), tracks, everything, hits),
            fewer,
            wanted,
            item,
        );
        if place >= 0 {
            assert(playback::stands_for(tracks, id, place));
            assert(wanted(fewer as int) == (everything || hits[place]));
        } else {
            assert(!wanted(fewer as int));
        }
    }
}

/// The table shows a row for exactly those tracks of the library that the
/// search leaves, in the order of the library.
pub proof fn law_the_library_table_shows_what_the_search_leaves(
    library: Library,
    everything: bool,
    hits: Seq<bool>,
    smart: Seq<int>,
)
    requires
        library.tracks@.len() <= usize::MAX,
    ensures
        ({
            let rows = rows_for(library, Some(SidebarSelection::Music), everything, hits, smart);
            &&& seqs::lists(
                Seq::new(rows.len(), |k: int| rows[k].place as int),
                library.tracks@.len(),
                |i: int| everything || hits[i],
                |i: int| i,
            )
            &&& forall|k: int|
                0 <= k < rows.len() ==> tells_of(
                    #[trigger] rows[k],
                    library.tracks@,
                    rows[k].place as int,
                ) && rows[k].playlist_position is None
        }),
{
    let all = playback::all_places(library.tracks@.len());
    lemma_table_of_places(library.tracks@, everything, hits, all);
    let rows = rows_at(all, library.tracks@, everything, hits);
    seqs::lemma_lists_alike(
        Seq::new(rows.len(), |k: int| rows[k].place as int),
        all.len(),
        |c: int| everything || hits[all[c]],
        |c: int| all[c],
        |i: int| everything || hits[i],
        |i: int| i,
    );
}

/// The rows of some places of the library: exactly those that pass the search,
/// in their order.
proof fn lemma_table_of_places(
    tracks: Seq<Track>,
    everything: bool,
    hits: Seq<bool>,
    places: Seq<int>,
)
    requires
        tracks.len() <= usize::MAX,
        playback::in_range(places, tracks.len()),
    ensures
        ({
            let rows = rows_at(places, tracks, everything, hits);
            &&& seqs::lists(
                Seq::new(rows.len(), |k: int| rows[k].place as int),
                places.len(),
                |c: int| everything || hits[places[c]],
                |c: int| places[c],
            )
            &&& forall|k: int|
                0 <= k < rows.len() ==> tells_of(#[trigger] rows[k], tracks, rows[k].place as int)
                    && rows[k].playlist_position is None
        }),
{
    lemma_rows_at(places, tracks, everything, hits, places.len());
    assert(places.take(places.len() as int) =~= places);
    let rows = rows_at(places, tracks, everything, hits);
    let shown = Seq::new(rows.len(), |k: int| rows[k].place as int);
    let wanted = |c: int| everything || hits[places[c]];
    let item = |c: int| row_at(tracks, places[c], None);
    let from = choose|from: Seq<int>| #[trigger]
        seqs::lists_from(rows, places.len(), wanted, item, from);
    assert forall|k: int| 0 <= k < rows.len() implies tells_of(
        #[trigger] rows[k],
        tracks,
        rows[k].place as int,
    ) && rows[k].playlist_position is None && shown[k] == places[from[k]] by {
        assert(0 <= from[k] < places.len());
        assert(0 <= places[from[k]] < tracks.len());
    }
    assert forall|k: int| #![trigger from[k]] 0 <= k < from.len() implies shown[k]
        == places[from[k]] by {
        assert(rows[k] == rows[k]);
    }
    assert(seqs::lists_from(shown, places.len(), wanted, |c: int| places[c], from));
}

/// The table of a smart playlist shows a row for exactly those of its tracks
/// that the search leaves, in their order.
pub proof fn law_a_smart_playlist_shows_what_the_search_leaves(
    library: Library,
    id: SmartPlaylistId,
    everything: bool,
    hits: Seq<bool>,
    smart: Seq<int>,
)
    requires
        library.tracks@.len() <= usize::MAX,
        playback::in_range(smart, library.tracks@.len()),
    ensures
        ({
            let rows = rows_for(
                library,
                Some(SidebarSelection::Item(PlaylistItem::SmartPlaylist(id))),
                everything,
                hits,
                smart,
            );
            &&& seqs::lists(
                Seq::new(rows.len(), |k: int| rows[k].place as int),
                smart.len(),
                |c: int| everything || hits[smart[c]],
                |c: int| smart[c],
            )
            &&& forall|k: int|
                0 <= k < rows.len() ==> tells_of(
                    #[trigger] rows[k],
                    library.tracks@,
                    rows[k].place as int,
                ) && rows[k].playlist_position is None
        }),
{
    lemma_table_of_places(library.tracks@, everything, hits, smart);
}

/// The table of a playlist shows a row for exactly those of its entries, in
/// play order, whose tracks the library holds and the search leaves; each row
/// tells of the entry's track and keeps the entry's position.
pub proof fn law_a_playlist_shows_what_the_search_leaves(
    library: Library,
    id: PlaylistId,
    at: int,
    everything: bool,
    hits: Seq<bool>,
    smart: Seq<int>,
)
    requires
        library.tracks@.len() <= usize::MAX,
        0 <= at < library.playlists@.len(),
        library.playlists@[at].id == id,
        forall|i: int| 0 <= i < at ==> (#[trigger] library.playlists@[i]).id != id,
    ensures
        ({
            let tracks = library.tracks@;
            let entries = playback::in_play_order(library.playlists@[at].entries@);
            let rows = rows_for(
                library,
                Some(SidebarSelection::Item(PlaylistItem::Playlist(id))),
                everything,
                hits,
                smart,
            );
            &&& seqs::lists(
                Seq::new(rows.len(), |k: int| (rows[k].track_id, rows[k].playlist_position)),
                entries.len(),
                |e: int| exists|i: int| #[trigger]
                    playback::stands_for(tracks, entries[e].track_id, i) && (everything
                        || hits[i]),
                |e: int| (entries[e].track_id, Some(entries[e].position)),
            )
            &&& forall|k: int|
                0 <= k < rows.len() ==> playback::stands_for(
                    tracks,
                    (#[trigger] rows[k]).track_id,
                    rows[k].place as int,
                ) && tells_of(rows[k], tracks, rows[k].place as int)
        }),
{
    let tracks = library.tracks@;
    let wanted_playlist = |playlist: Playlist| playlist.id == id;
    seqs::lemma_is_first_index(library.playlists@, wanted_playlist, at);
    let entries = playback::in_play_order(library.playlists@[at].entries@);
    lemma_rows_of_entries(entries, tracks, everything, hits, entries.len());
    assert(entries.take(entries.len() as int) =~= entries);
    let rows = rows_of_entries(entries, tracks, everything, hits);
    let shown = Seq::new(rows.len(), |k: int| (rows[k].track_id, rows[k].playlist_position));
    let wanted = |e: int| exists|i: int| #[trigger]
        playback::stands_for(tracks, entries[e].track_id, i) && (everything || hits[i]);
    let item = |e: int|
        row_at(
            tracks,
            library::last_track_index(tracks, entries[e].track_id),
            Some(entries[e].position),
        );
    let from = choose|from: Seq<int>| #[trigger]
        seqs::lists_from(rows, entries.len(), wanted, item, from);
    assert forall|k: int| #![trigger from[k]] #![trigger rows[k]] 0 <= k < rows.len() implies
        shown[k] == (entries[from[k]].track_id, Some(entries[from[k]].position))
        && playback::stands_for(tracks, rows[k].track_id, rows[k].place as int) && tells_of(
        rows[k],
        tracks,
        rows[k].place as int,
    ) by {
        let e = from[k];
        assert(wanted(e));
        let i = choose|i: int| #[trigger]
            playback::stands_for(tracks, entries[e].track_id, i) && (everything || hits[i]);
        playback::lemma_last_track_index(tracks, entries[e].track_id);
        assert(i == library::last_track_index(tracks, entries[e].track_id));
        assert(rows[k] == item(e));
    }
    assert(seqs::lists_from(
        shown,
        entries.len(),
        wanted,
        |e: int| (entries[e].track_id, Some(entries[e].position)),
        from,
    ));
}

/// What is queued for a playlist or a smart playlist is what its table shows,
/// row by row, under the same search.
pub proof fn law_the_queue_is_what_the_table_shows(
    library: Library,
    selection: Option<SidebarSelection>,
    search_text: Seq<char>,
    hits: Seq<bool>,
    smart: Seq<int>,
)
    requires
        playback::in_range(smart, library.tracks@.len()),
        selection matches Some(SidebarSelection::Item(_)),
        !(selection matches Some(SidebarSelection::Item(PlaylistItem::Folder(_)))),
    ensures
        ({
            let rows = rows_for(library, selection, search_text.len() == 0, hits, smart);
            match playback::selection_queue(library, selection, search_text, hits, smart) {
                playback::QueueView::Explicit { ordered_track_ids, .. } => ordered_track_ids
                    == row_ids(rows),
                playback::QueueView::Library => rows.len() == 0,
            }
        }),
{
    let tracks = library.tracks@;
    let everything = search_text.len() == 0;
    match selection {
        Some(SidebarSelection::Item(PlaylistItem::Playlist(id))) => {
            let wanted = |playlist: Playlist| playlist.id == id;
            if let Some(playlist) = seqs::first_where(library.playlists@, wanted) {
                lemma_entries_queued(
                    playback::in_play_order(playlist.entries@),
                    tracks,
                    search_text,
                    hits,
                );
            }
        },
        _ => {
            lemma_places_queued(smart, tracks, search_text, hits);
        },
    }
}

/// The identifiers of the tracks of some rows.
pub open spec fn row_ids(rows: Seq<PlaylistRow>) -> Seq<TrackId> {
    Seq::new(rows.len(), |k: int| rows[k].track_id)
}

proof fn lemma_places_queued(
    places: Seq<int>,
    tracks: Seq<Track>,
    search_text: Seq<char>,
    hits: Seq<bool>,
)
    ensures
        playback::passing_ids(places, tracks, |i: int| search_text.len() == 0 || hits[i])
            == row_ids(rows_at(places, tracks, search_text.len() == 0, hits)),
    decreases places.len(),
{
    let rows = rows_at(places, tracks, search_text.len() == 0, hits);
    if places.len() > 0 {
        lemma_places_queued(places.drop_last(), tracks, search_text, hits);
        let earlier = rows_at(places.drop_last(), tracks, search_text.len() == 0, hits);
        if search_text.len() == 0 || hits[places.last()] {
            assert(row_ids(rows) =~= row_ids(earlier).push(tracks[places.last()].id));
        }
    } else {
        assert(row_ids(rows) =~= Seq::empty());
    }
}

proof fn lemma_entries_queued(
    entries: Seq<PlaylistEntry>,
    tracks: Seq<Track>,
    search_text: Seq<char>,
    hits: Seq<bool>,
)
    ensures
        playback::passing_ids(
            playback::resolved(entries, tracks),
            tracks,
            |i: int| search_text.len() == 0 || hits[i],
        ) == row_ids(rows_of_entries(entries, tracks, search_text.len() == 0, hits)),
        playback::resolved(entries, tracks).len() == 0 ==> rows_of_entries(
            entries,
            tracks,
            search_text.len() == 0,
            hits,
        ).len() == 0,
    decreases entries.len(),
{
    let rows = rows_of_entries(entries, tracks, search_text.len() == 0, hits);
    if entries.len() > 0 {
        let rest = entries.drop_last();
        lemma_entries_queued(rest, tracks, search_text, hits);
        let earlier = rows_of_entries(rest, tracks, search_text.len() == 0, hits);
        let place = library::last_track_index(tracks, entries.last().track_id);
        let known = playback::resolved(rest, tracks);
        if place >= 0 {
            assert(known.push(place).drop_last() =~= known);
            if search_text.len() == 0 || hits[place] {
                assert(row_ids(rows) =~= row_ids(earlier).push(tracks[place].id));
            }
        }
    } else {
        assert(row_ids(rows) =~= Seq::empty());
        assert(playback::resolved(entries, tracks) =~= Seq::empty());
    }
}

/// Neither a folder nor the albums nor the statistics nor an unknown playlist
/// has rows.
pub proof fn law_only_lists_of_tracks_have_rows(
    library: Library,
    selection: Option<SidebarSelection>,
    everything: bool,
    hits: Seq<bool>,
    smart: Seq<int>,
)
    requires
        match selection {
            Some(SidebarSelection::Music) => false,
            Some(SidebarSelection::Item(PlaylistItem::SmartPlaylist(_))) => false,
            Some(SidebarSelection::Item(PlaylistItem::Playlist(id))) => forall|i: int|
                0 <= i < library.playlists@.len() ==> (#[trigger] library.playlists@[i]).id != id,
            _ => true,
        },
    ensures
        rows_for(library, selection, everything, hits, smart).len() == 0,
        selection_title(library, selection) is None,
{
    if let Some(SidebarSelection::Item(PlaylistItem::Playlist(id))) = selection {
        let wanted = |playlist: Playlist| playlist.id == id;
        seqs::lemma_is_first_index(
            library.playlists@,
            wanted,
            library.playlists@.len() as int,
        );
    }
}

/// The header names the playlist that is selected and counts the rows below it;
/// the playing time of a list is that of its parts together.
pub proof fn law_the_header_sums_up_the_rows_below_it(
    library: Library,
    selection: Option<SidebarSelection>,
    at: int,
    rows: Seq<PlaylistRow>,
    more: Seq<PlaylistRow>,
)
    requires
        match selection {
            Some(SidebarSelection::Item(PlaylistItem::Playlist(id))) => 0 <= at
                < library.playlists@.len() && library.playlists@[at].id == id && forall|i: int|
                0 <= i < at ==> (#[trigger] library.playlists@[i]).id != id,
            Some(SidebarSelection::Item(PlaylistItem::SmartPlaylist(id))) => 0 <= at
                < library.smart_playlists@.len() && library.smart_playlists@[at].id == id
                && forall|i: int|
                0 <= i < at ==> (#[trigger] library.smart_playlists@[i]).id != id,
            _ => false,
        },
    ensures
        ({
            let header = header_for(library, selection, rows);
            &&& header is Some
            &&& header->0.title == match selection {
                Some(SidebarSelection::Item(PlaylistItem::Playlist(_))) =>
                    library.playlists@[at].name@,
                _ => library.smart_playlists@[at].name@,
            }
            &&& header->0.track_count == rows.len()
            &&& rows.len() == 0 ==> header->0.duration_seconds == 0
            &&& rows.len() == 1 ==> header->0.duration_seconds == rows[0].duration_seconds
            &&& header_for(library, selection, rows + more)->0.duration_seconds
                == header->0.duration_seconds + header_for(
                library,
                selection,
                more,
            )->0.duration_seconds
        }),
{
    match selection {
        Some(SidebarSelection::Item(PlaylistItem::Playlist(id))) => {
            let wanted = |playlist: Playlist| playlist.id == id;
            seqs::lemma_is_first_index(library.playlists@, wanted, at);
        },
        Some(SidebarSelection::Item(PlaylistItem::SmartPlaylist(id))) => {
            let wanted = |playlist: SmartPlaylist| playlist.id == id;
            seqs::lemma_is_first_index(library.smart_playlists@, wanted, at);
        },
        _ => {},
    }
    reveal_with_fuel(total_seconds, 2);
    lemma_total_seconds_adds_up(rows, more);
}

proof fn lemma_total_seconds_adds_up(rows: Seq<PlaylistRow>, more: Seq<PlaylistRow>)
    ensures
        total_seconds(rows + more) == total_seconds(rows) + total_seconds(more),
    decreases more.len(),
{
    if more.len() == 0 {
        assert(rows + more =~= rows);
    } else {
        lemma_total_seconds_adds_up(rows, more.drop_last());
        assert((rows + more).drop_last() =~= rows + more.drop_last());
        assert((rows + more).last() == more.last());
    }
}

/// The path of a playlist in a folder is the path of the folder and the name of
/// the playlist behind it; a playlist in no folder is called by its name.
pub proof fn law_a_path_names_the_folders_from_the_outside(
    playlist: Playlist,
    folder: Playlist,
    folders: Seq<PlaylistFolder>,
    steps: nat,
    at: int,
)
    requires
        0 <= at < folders.len(),
        playlist.parent_folder_id == Some(folders[at].id),
        forall|later: int|
            at < later < folders.len() ==> (#[trigger] folders[later]).id != folders[at].id,
        folder.name@ == folders[at].name@,
        folder.parent_folder_id == folders[at].parent_folder_id,
    ensures
        display_path(playlist, folders, steps + 1) == display_path(folder, folders, steps) + " / "@
            + playlist.name@,
{
    let id = folders[at].id;
    lemma_is_last_folder(folders, id, at);
    let names = folder_names(folders, folder.parent_folder_id, steps).push(folder.name@);
    assert(folder_names(folders, playlist.parent_folder_id, steps + 1) == names);
    let all = names.push(playlist.name@);
    assert(all.drop_last() =~= names);
    assert(all.len() > 1);
}

/// A playlist that lies in no folder, or in one that is not known, is called by
/// its name.
pub proof fn law_a_playlist_in_no_folder_is_called_by_its_name(
    playlist: Playlist,
    folders: Seq<PlaylistFolder>,
    steps: nat,
)
    requires
        playlist.parent_folder_id matches Some(id) ==> forall|i: int|
            0 <= i < folders.len() ==> (#[trigger] folders[i]).id != id,
    ensures
        display_path(playlist, folders, steps) == playlist.name@,
{
    if let Some(id) = playlist.parent_folder_id {
        lemma_is_last_folder(folders, id, -1);
    }
    let none = Seq::<Seq<char>>::empty();
    assert(folder_names(folders, playlist.parent_folder_id, steps) =~= none);
    assert(none.push(playlist.name@)[0] == playlist.name@);
}

proof fn lemma_is_last_folder(folders: Seq<PlaylistFolder>, id: PlaylistFolderId, at: int)
    requires
        -1 <= at < folders.len(),
        at >= 0 ==> folders[at].id == id,
        forall|later: int| at < later < folders.len() ==> (#[trigger] folders[later]).id != id,
    ensures
        last_folder_index(folders, id) == at,
    decreases folders.len(),
{
    if folders.len() > 0 && at < folders.len() - 1 {
        let rest = folders.drop_last();
        assert(folders[folders.len() - 1].id != id);
        assert forall|later: int| at < later < rest.len() implies (#[trigger] rest[later]).id
            != id by {
            assert(rest[later] == folders[later]);
        }
        if at >= 0 {
            assert(rest[at] == folders[at]);
        }
        lemma_is_last_folder(rest, id, at);
    }
}

/// A path that comes before another in the alphabet, upper and lower case alike.
pub open spec fn path_comes_first(left: Seq<char>, right: Seq<char>) -> bool {
    text::text_order(text::lowercase(left), text::lowercase(right)) == Order::Before
}

/// Tracks can be added to every playlist, and to each once; the playlists stand
/// by their paths, upper and lower case alike, and those of one path in the
/// order of the library. `from[i]` is where the playlist stands that is offered
/// at place `i`.
pub proof fn law_every_playlist_is_offered_by_its_path(
    playlists: Seq<Playlist>,
    folders: Seq<PlaylistFolder>,
    offered: Seq<(PlaylistId, Seq<char>)>,
) -> (from: Seq<int>)
    requires
        sorting::stable_order::<AddToPlaylistEntry>(path_entries(playlists, folders), offered),
    ensures
        offered.len() == playlists.len() == from.len(),
        forall|p: int| 0 <= p < playlists.len() ==> #[trigger] from.contains(p),
        forall|i: int|
            #![trigger from[i]]
            0 <= i < from.len() ==> 0 <= from[i] < playlists.len() && offered[i] == (
                playlists[from[i]].id,
                display_path(playlists[from[i]], folders, folders.len()),
            ),
        forall|i: int, j: int|
            #![trigger offered[i], offered[j]]
            0 <= i < j < from.len() ==> path_comes_first(offered[i].1, offered[j].1)
                || text::lowercase(offered[i].1) == text::lowercase(offered[j].1) && from[i]
                < from[j],
{
    let before = path_entries(playlists, folders);
    let from = choose|from: Seq<int>|
        sorting::stable_order_from::<AddToPlaylistEntry>(before, offered, from);
    assert forall|p: int| 0 <= p < playlists.len() implies #[trigger] from.contains(p) by {
        sorting::lemma_all_taken(from, playlists.len() as int, p);
    }
    assert forall|i: int, j: int|
        #![trigger offered[i], offered[j]]
        0 <= i < j < from.len() implies path_comes_first(offered[i].1, offered[j].1)
        || text::lowercase(offered[i].1) == text::lowercase(offered[j].1) && from[i] < from[j] by {
        assert(AddToPlaylistEntry::rank_leq(offered[i], offered[j]));
        text::lemma_text_order_same(text::lowercase(offered[i].1), text::lowercase(offered[j].1));
        text::lemma_text_order_same(text::lowercase(offered[j].1), text::lowercase(offered[i].1));
    }
    from
}

/// Only a playlist, smart or not, that the library holds has a header: neither a
/// folder nor anything else that can be selected has one.
pub proof fn law_only_playlists_have_a_header(
    library: Library,
    selection: Option<SidebarSelection>,
    rows: Seq<PlaylistRow>,
)
    requires
        header_for(library, selection, rows) is Some,
    ensures
        match selection {
            Some(SidebarSelection::Item(PlaylistItem::Playlist(id))) => exists|i: int|
                0 <= i < library.playlists@.len() && (#[trigger] library.playlists@[i]).id == id,
            Some(SidebarSelection::Item(PlaylistItem::SmartPlaylist(id))) => exists|i: int|
                0 <= i < library.smart_playlists@.len() && (
                #[trigger] library.smart_playlists@[i]).id == id,
            _ => false,
        },
{
    match selection {
        Some(SidebarSelection::Item(PlaylistItem::Playlist(id))) => {
            let wanted = |playlist: Playlist| playlist.id == id;
            seqs::lemma_first_index(library.playlists@, wanted);
            let at = seqs::first_index(library.playlists@, wanted);
            assert(library.playlists@[at].id == id);
        },
        Some(SidebarSelection::Item(PlaylistItem::SmartPlaylist(id))) => {
            let wanted = |playlist: SmartPlaylist| playlist.id == id;
            seqs::lemma_first_index(library.smart_playlists@, wanted);
            let at = seqs::first_index(library.smart_playlists@, wanted);
            assert(library.smart_playlists@[at].id == id);
        },
        _ => {},
    }
}

} // verus!
