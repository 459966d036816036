//! The main window: what it refreshes when something changes, and what it
//! remembers of itself.

use vstd::prelude::*;

use crate::library;
use crate::library::{find_last_track, PlaylistId, PlaylistItem, SidebarSelection, SmartPlaylistId,
    Track, TrackId};
use crate::pages::Page;
use crate::playback;
use crate::playlists;
use crate::playlists::{library_rows, PlaylistRow};
use crate::text;
use crate::text::trim;

verus! {

// ---------------------------------------------------------------------------
// Pages
// ---------------------------------------------------------------------------

/// What a page that comes into sight asks for.
#[derive(Clone, Copy, Debug, PartialEq, Eq, Structural)]
pub struct PageActivation {
    /// The albums are grouped, unless they were before.
    pub activate_albums: bool,
    /// The duplicates are in sight.
    pub duplicates_active: bool,
    /// The figures are counted anew.
    pub refresh_statistics: bool,
    /// The sidebar drops the mark on a device, a disc or the duplicates.
    pub clear_transient_highlight: bool,
}

/// What a page asks for that comes into sight.
pub fn page_activation(page: Option<Page>) -> (activation: PageActivation)
    ensures
        activation.activate_albums == (page == Some(Page::Albums)),
        activation.duplicates_active == (page == Some(Page::Duplicates)),
        activation.refresh_statistics == (page == Some(Page::Statistics)),
        activation.clear_transient_highlight == !(page == Some(Page::Devices) || page == Some(
            Page::CdImport,
        ) || page == Some(Page::Duplicates)),
{
    let mut activation = PageActivation {
        activate_albums: false,
        duplicates_active: false,
        refresh_statistics: false,
        clear_transient_highlight: true,
    };
    match page {
        Some(Page::Albums) => {
            activation.activate_albums = true;
        },
        Some(Page::Duplicates) => {
            activation.duplicates_active = true;
            activation.clear_transient_highlight = false;
        },
        Some(Page::Statistics) => {
            activation.refresh_statistics = true;
        },
        Some(Page::Devices) | Some(Page::CdImport) => {
            activation.clear_transient_highlight = false;
        },
        _ => {},
    }
    activation
}

/// What the status bar sums up.
#[derive(Clone, Copy, Debug, PartialEq, Eq, Structural)]
pub enum SummarySource {
    /// The tracks that are selected for the device.
    Device,
    /// The table of the playlist.
    PlaylistTable,
    /// The tracks of the library that pass the search.
    Library,
}

/// What the status bar sums up for a page.
pub fn summary_source(page: Option<Page>) -> (source: SummarySource)
    ensures
        source == match page {
            Some(Page::Devices) => SummarySource::Device,
            Some(Page::Playlists) => SummarySource::PlaylistTable,
            _ => SummarySource::Library,
        },
{
    match page {
        Some(Page::Devices) => SummarySource::Device,
        Some(Page::Playlists) => SummarySource::PlaylistTable,
        _ => SummarySource::Library,
    }
}

// ---------------------------------------------------------------------------
// Rows
// ---------------------------------------------------------------------------

/// The rows that imported tracks add to the table of songs; without any there
/// is nothing to refresh at all.
pub fn imported_rows(imported: &Vec<Track>, everything: bool, hits: &Vec<bool>) -> (rows: Option<
    Vec<PlaylistRow>,
>)
    requires
        hits@.len() == imported@.len(),
    ensures
        rows is Some <==> imported@.len() > 0,
        rows matches Some(rows) ==> rows@ == playlists::rows_at(
            playback::all_places(imported@.len()),
            imported@,
            everything,
            hits@,
        ),
{
    if imported.is_empty() {
        None
    } else {
        Some(library_rows(imported, everything, hits))
    }
}

/// Without a search the table of songs has a row for every track, in the order
/// of the library.
pub proof fn law_unsearched_library_shows_every_track(tracks: Seq<Track>, hits: Seq<bool>, upto: nat)
    requires
        upto <= tracks.len(),
    ensures
        playlists::rows_at(playback::all_places(upto), tracks, true, hits) == Seq::new(
            upto,
            |i: int| playlists::row_at(tracks, i, None),
        ),
    decreases upto,
{
    let places = playback::all_places(upto);
    let rows = Seq::new(upto, |i: int| playlists::row_at(tracks, i, None));
    if upto > 0 {
        let fewer = (upto - 1) as nat;
        law_unsearched_library_shows_every_track(tracks, hits, fewer);
        assert(places.drop_last() =~= playback::all_places(fewer));
        assert(rows =~= Seq::new(
            fewer,
            |i: int| playlists::row_at(tracks, i, None),
        ).push(playlists::row_at(tracks, upto - 1, None)));
    } else {
        assert(rows =~= Seq::empty());
    }
}

/// Whether the file of a track is missing.
pub open spec fn missing_of(tracks: Seq<Track>, id: TrackId) -> Option<bool> {
    if library::last_track_index(tracks, id) < 0 {
        None
    } else {
        Some(tracks[library::last_track_index(tracks, id)].location.missing)
    }
}

/// Whether the file of a track is missing; nothing is known of a track that is
/// not in the library.
pub fn availability(tracks: &Vec<Track>, id: TrackId) -> (missing: Option<bool>)
    ensures
        missing == missing_of(tracks@, id),
{
    match find_last_track(tracks, id) {
        Some(index) => Some(tracks[index].location.missing),
        None => None,
    }
}

// ---------------------------------------------------------------------------
// Settings
// ---------------------------------------------------------------------------

/// The search text that a session starts with.
pub fn initial_search_text(stored: &str) -> (initial: String)
    ensures
        initial@ == text::trimmed(stored@),
{
    trim(stored).to_owned()
}

/// What the window remembers of itself.
#[derive(Debug)]
pub struct UiSettings {
    pub search_text: String,
    pub sidebar_selection: SidebarSelection,
    pub sidebar_collapsed: bool,
    pub sidebar_width: Option<u32>,
    pub library_section_collapsed: bool,
    pub playlists_section_collapsed: bool,
    pub sidebar_show_duplicates: bool,
    pub sidebar_show_statistics: bool,
}

/// What the widgets say when the window closes.
#[derive(Debug)]
pub struct WidgetState {
    pub search_text: String,
    /// The selection beneath a device, a disc or the duplicates.
    pub persisted_selection: Option<SidebarSelection>,
    pub sidebar_collapsed: bool,
    pub sidebar_width: u32,
    pub library_section_collapsed: bool,
    pub playlists_section_collapsed: bool,
}

/// The selection that is remembered.
pub open spec fn remembered(selection: Option<SidebarSelection>) -> SidebarSelection {
    match selection {
        Some(selection) => selection,
        None => SidebarSelection::Music,
    }
}

/// What the window remembers when it closes.
pub open spec fn settings_of(widgets: WidgetState, current: UiSettings) -> UiSettings {
    UiSettings {
        search_text: widgets.search_text,
        sidebar_selection: remembered(widgets.persisted_selection),
        sidebar_collapsed: widgets.sidebar_collapsed,
        sidebar_width: Some(widgets.sidebar_width),
        library_section_collapsed: widgets.library_section_collapsed,
        playlists_section_collapsed: widgets.playlists_section_collapsed,
        sidebar_show_duplicates: current.sidebar_show_duplicates,
        sidebar_show_statistics: current.sidebar_show_statistics,
    }
}

/// What the window remembers when it closes. The rows that the sidebar may show
/// are chosen in the preferences, so they stay as they are.
pub fn ui_settings_from_widgets(widgets: WidgetState, current: &UiSettings) -> (settings: UiSettings)
    ensures
        settings == settings_of(widgets, *current),
{
    let sidebar_selection = match widgets.persisted_selection {
        Some(selection) => selection,
        None => SidebarSelection::Music,
    };
    UiSettings {
        search_text: widgets.search_text,
        sidebar_selection,
        sidebar_collapsed: widgets.sidebar_collapsed,
        sidebar_width: Some(widgets.sidebar_width),
        library_section_collapsed: widgets.library_section_collapsed,
        playlists_section_collapsed: widgets.playlists_section_collapsed,
        sidebar_show_duplicates: current.sidebar_show_duplicates,
        sidebar_show_statistics: current.sidebar_show_statistics,
    }
}

/// What is analysed in the background.
#[derive(Clone, Copy, Debug, PartialEq, Eq, Structural)]
pub struct AnalysisSettings {
    pub bpm: bool,
    pub key: bool,
    pub audio: bool,
}

/// What can be analysed.
#[derive(Clone, Copy, Debug, PartialEq, Eq, Structural)]
pub enum AnalysisCapability {
    Bpm,
    Key,
    Audio,
}

/// Whether something is analysed in the background.
pub fn analysis_capability_enabled(settings: AnalysisSettings, capability: AnalysisCapability) -> (
    enabled: bool)
    ensures
        enabled == match capability {
            AnalysisCapability::Bpm => settings.bpm,
            AnalysisCapability::Key => settings.key,
            AnalysisCapability::Audio => settings.audio,
        },
{
    match capability {
        AnalysisCapability::Bpm => settings.bpm,
        AnalysisCapability::Key => settings.key,
        AnalysisCapability::Audio => settings.audio,
    }
}

// ---------------------------------------------------------------------------
// Column layouts
// ---------------------------------------------------------------------------

/// What a layout of columns is stored for.
#[derive(Clone, Copy, Debug, PartialEq, Eq, Structural)]
pub enum LayoutScope {
    Default,
    Playlist(PlaylistId),
    SmartPlaylist(SmartPlaylistId),
}

/// The scope of a selection's own layout: only a playlist has one.
pub open spec fn own_scope(selection: Option<SidebarSelection>) -> Option<LayoutScope> {
    match selection {
        Some(SidebarSelection::Item(PlaylistItem::Playlist(id))) => Some(LayoutScope::Playlist(id)),
        Some(SidebarSelection::Item(PlaylistItem::SmartPlaylist(id))) => Some(
            LayoutScope::SmartPlaylist(id),
        ),
        _ => None,
    }
}

/// The scope under which a change of the playlist table's columns is stored;
/// it is stored for playlists only.
pub fn layout_scope(selection: Option<SidebarSelection>) -> (scope: Option<LayoutScope>)
    ensures
        scope == own_scope(selection),
{
    match selection {
        Some(SidebarSelection::Item(PlaylistItem::Playlist(id))) => Some(LayoutScope::Playlist(id)),
        Some(SidebarSelection::Item(PlaylistItem::SmartPlaylist(id))) => Some(
            LayoutScope::SmartPlaylist(id),
        ),
        _ => None,
    }
}

/// A layout that was loaded for a selection.
#[derive(Debug)]
pub struct ColumnLayout<C, S> {
    pub columns: C,
    pub sort: Option<S>,
}

/// The layout for a selection: its own where it has one, else the default. A
/// regular playlist has no stored order.
pub open spec fn layout_of<C, S>(
    selection: Option<SidebarSelection>,
    own: Option<ColumnLayout<C, S>>,
    default: Option<ColumnLayout<C, S>>,
) -> Option<ColumnLayout<C, S>> {
    let loaded = if own_scope(selection) is Some && own is Some {
        own
    } else {
        default
    };
    match loaded {
        Some(loaded) => Some(
            ColumnLayout {
                columns: loaded.columns,
                sort: if own_scope(selection) is Some && own_scope(selection)->0 is Playlist {
                    None
                } else {
                    loaded.sort
                },
            },
        ),
        None => None,
    }
}

/// The layout for a selection: its own where it has one, else the default. A
/// regular playlist always lands on its play order, so a stored order is
/// dropped there.
pub fn layout_for_selection<C, S>(
    selection: Option<SidebarSelection>,
    own: Option<ColumnLayout<C, S>>,
    default: Option<ColumnLayout<C, S>>,
) -> (layout: Option<ColumnLayout<C, S>>)
    ensures
        layout == layout_of(selection, own, default),
{
    let scope = layout_scope(selection);
    let loaded = match (scope, own) {
        (Some(_), Some(own)) => Some(own),
        _ => default,
    };
    match loaded {
        Some(mut layout) => {
            if let Some(LayoutScope::Playlist(_)) = scope {
                layout.sort = None;
            }
            Some(layout)
        },
        None => None,
    }
}

/// A playlist, smart or not, has a layout of its own under its own identifier;
/// nothing else has one.
pub proof fn law_only_playlists_have_a_layout_of_their_own(selection: Option<SidebarSelection>)
    ensures
        own_scope(selection) matches Some(scope) ==> match scope {
            LayoutScope::Playlist(id) => selection == Some(
                SidebarSelection::Item(PlaylistItem::Playlist(id)),
            ),
            LayoutScope::SmartPlaylist(id) => selection == Some(
                SidebarSelection::Item(PlaylistItem::SmartPlaylist(id)),
            ),
            LayoutScope::Default => false,
        },
        (selection matches Some(SidebarSelection::Item(PlaylistItem::Playlist(_))))
            ==> own_scope(selection) is Some,
        (selection matches Some(SidebarSelection::Item(PlaylistItem::SmartPlaylist(_))))
            ==> own_scope(selection) is Some,
{
}

/// A playlist lands on its play order whatever order is stored; a smart playlist
/// keeps the order that is stored with its columns; and what has no layout of
/// its own has the default.
pub proof fn law_a_playlist_lands_on_its_play_order<C, S>(
    selection: Option<SidebarSelection>,
    own: Option<ColumnLayout<C, S>>,
    default: Option<ColumnLayout<C, S>>,
)
    ensures
        ({
            let layout = layout_of(selection, own, default);
            let regular = selection matches Some(SidebarSelection::Item(PlaylistItem::Playlist(_)));
            let smart = selection matches Some(
                SidebarSelection::Item(PlaylistItem::SmartPlaylist(_)),
            );
            &&& regular && layout is Some ==> layout->0.sort is None
            &&& smart && own is Some ==> layout == own
            &&& regular && own is Some ==> layout is Some && layout->0.columns == own->0.columns
            &&& regular && own is None && default is Some ==> layout is Some && layout->0.columns
                == default->0.columns
            &&& !regular && (!smart || own is None) ==> layout == default
            &&& layout is None ==> default is None
        }),
{
}

/// A session remembers the selection beneath, and the songs where there is none.
pub proof fn law_the_selection_beneath_is_remembered(selection: Option<SidebarSelection>)
    ensures
        selection matches Some(selected) ==> remembered(selection) == selected,
        selection is None ==> remembered(selection) == SidebarSelection::Music,
{
}

/// Whether a file is missing is known of every track that the library holds,
/// from the track that its identifier stands for, and of no other.
pub proof fn law_a_file_is_missing_if_its_track_says_so(tracks: Seq<Track>, id: TrackId, at: int)
    ensures
        playback::stands_for(tracks, id, at) ==> missing_of(tracks, id) == Some(
            tracks[at].location.missing,
        ),
        missing_of(tracks, id) is None <==> !exists|i: int|
            0 <= i < tracks.len() && (#[trigger] tracks[i]).id == id,
{
    playback::lemma_last_track_index(tracks, id);
    let last = library::last_track_index(tracks, id);
    if playback::stands_for(tracks, id, at) && last != at {
        assert(tracks[at].id == id);
        assert(tracks[last].id == id);
    }
    if last >= 0 {
        assert(tracks[last].id == id);
    }
}

/// What the window remembers comes from its widgets, each part from its own; the
/// rows that the sidebar may show stay as they were.
pub proof fn law_the_window_remembers_its_widgets(widgets: WidgetState, current: UiSettings)
    ensures
        ({
            let settings = settings_of(widgets, current);
            &&& settings.search_text@ == widgets.search_text@
            &&& widgets.persisted_selection matches Some(selected) ==> settings.sidebar_selection
                == selected
            &&& widgets.persisted_selection is None ==> settings.sidebar_selection
                == SidebarSelection::Music
            &&& settings.sidebar_collapsed == widgets.sidebar_collapsed
            &&& settings.sidebar_width == Some(widgets.sidebar_width)
            &&& settings.library_section_collapsed == widgets.library_section_collapsed
            &&& settings.playlists_section_collapsed == widgets.playlists_section_collapsed
            &&& settings.sidebar_show_duplicates == current.sidebar_show_duplicates
            &&& settings.sidebar_show_statistics == current.sidebar_show_statistics
        }),
{
}

} // verus!
