//! Which tracks are queued, and which one starts, when playback is asked for
//! in one of the views.

use vstd::prelude::*;

use crate::library::{find_last_track, find_playlist, Library, Playlist, PlaylistEntry, PlaylistId,
    PlaylistItem, SidebarSelection, SmartPlaylistId, Track, TrackId};
use crate::library;
use crate::pages::Page;
use crate::seqs;
use crate::sorting;
use crate::sorting::{stable_sort, Ranked};
use crate::text;
use crate::text::trim;

verus! {

/// What a queue was made from.
#[derive(Clone, Copy, Debug, PartialEq, Eq, Structural)]
pub enum PlaybackQueueSource {
    Album,
    Playlist(PlaylistId),
    Selection,
    SearchResults,
}

/// The queue to play from.
#[derive(Debug, PartialEq, Eq)]
pub enum PlaybackQueueRequest {
    /// All playable tracks of the library, in its order.
    Library,
    /// These tracks, in this order.
    Explicit { source: PlaybackQueueSource, ordered_track_ids: Vec<TrackId> },
}

/// The contents of a [`PlaybackQueueRequest`].
#[verifier::ext_equal]
pub enum QueueView {
    Library,
    Explicit { source: PlaybackQueueSource, ordered_track_ids: Seq<TrackId> },
}

impl View for PlaybackQueueRequest {
    type V = QueueView;

    open spec fn view(&self) -> QueueView {
        match self {
            PlaybackQueueRequest::Library => QueueView::Library,
            PlaybackQueueRequest::Explicit { source, ordered_track_ids } => QueueView::Explicit {
                source: *source,
                ordered_track_ids: ordered_track_ids@,
            },
        }
    }
}

/// Whether playback stands still with nothing loaded, or holds a track.
#[derive(Clone, Copy, Debug, PartialEq, Eq, Structural)]
pub enum PlaybackState {
    Stopped,
    Playing,
    Paused,
}

/// Entries of a playlist are ordered by their position.
impl View for PlaylistEntry {
    type V = PlaylistEntry;

    open spec fn view(&self) -> PlaylistEntry {
        *self
    }
}

impl Ranked for PlaylistEntry {
    open spec fn rank_leq(left: PlaylistEntry, right: PlaylistEntry) -> bool {
        left.position <= right.position
    }

    proof fn rank_total(left: PlaylistEntry, right: PlaylistEntry) {
    }

    proof fn rank_transitive(a: PlaylistEntry, b: PlaylistEntry, c: PlaylistEntry) {
    }

    fn ranks_before(&self, other: &Self) -> (before: bool) {
        self.position <= other.position
    }
}

/// The entries of a playlist in the order in which it plays: by position, and
/// in their given order where positions tie.
pub open spec fn in_play_order(entries: Seq<PlaylistEntry>) -> Seq<PlaylistEntry> {
    choose|sorted: Seq<PlaylistEntry>| sorting::stable_order::<PlaylistEntry>(entries, sorted)
}

/// The entries of a playlist in the order in which it plays are the stable sort
/// of its entries.
pub proof fn lemma_in_play_order(entries: Seq<PlaylistEntry>)
    ensures
        sorting::stable_order::<PlaylistEntry>(entries, in_play_order(entries)),
{
    let sorted = sorting::lemma_stable_order_exists::<PlaylistEntry>(entries);
}

/// The entries of a playlist in the order in which it plays.
pub fn play_order(entries: &Vec<PlaylistEntry>) -> (sorted: Vec<PlaylistEntry>)
    ensures
        sorted@ == in_play_order(entries@),
{
    let mut sorted: Vec<PlaylistEntry> = Vec::new();
    let mut index: usize = 0;
    while index < entries.len()
        invariant
            index <= entries.len(),
            sorted@ == entries@.take(index as int),
        decreases entries.len() - index,
    {
        sorted.push(entries[index]);
        assert(sorted@ =~= entries@.take(index as int + 1));
        index = index + 1;
    }
    stable_sort(&mut sorted);
    proof {
        assert(sorting::views(entries@.take(index as int)) =~= entries@);
        assert(sorting::views(sorted@) =~= sorted@);
        lemma_in_play_order(entries@);
        sorting::law_stable_order_is_unique::<PlaylistEntry>(
            entries@,
            sorted@,
            in_play_order(entries@),
        );
    }
    sorted
}

/// The tracks of some entries, as places in the library: an entry whose track
/// the library does not hold is passed over.
pub open spec fn resolved(entries: Seq<PlaylistEntry>, tracks: Seq<Track>) -> Seq<int>
    decreases entries.len(),
{
    if entries.len() == 0 {
        Seq::empty()
    } else {
        let earlier = resolved(entries.drop_last(), tracks);
        let index = library::last_track_index(tracks, entries.last().track_id);
        if index >= 0 {
            earlier.push(index)
        } else {
            earlier
        }
    }
}

/// The places in the library as numbers of the specification.
pub open spec fn places(indices: Seq<usize>) -> Seq<int> {
    Seq::new(indices.len(), |i: int| indices[i] as int)
}

/// Whether every place lies in the library.
pub open spec fn in_range(indices: Seq<int>, len: nat) -> bool {
    forall|i: int| 0 <= i < indices.len() ==> 0 <= #[trigger] indices[i] < len
}

/// The tracks of some entries, as places in the library.
pub fn resolve_entries(entries: &Vec<PlaylistEntry>, tracks: &Vec<Track>) -> (indices: Vec<usize>)
    ensures
        places(indices@) == resolved(entries@, tracks@),
        in_range(places(indices@), tracks@.len()),
{
    let mut indices: Vec<usize> = Vec::new();
    let mut at: usize = 0;
    assert(places(indices@) =~= resolved(entries@.take(0), tracks@));
    while at < entries.len()
        invariant
            at <= entries.len(),
            places(indices@) == resolved(entries@.take(at as int), tracks@),
            in_range(places(indices@), tracks@.len()),
        decreases entries.len() - at,
    {
        let ghost before = indices@;
        proof {
            assert(entries@.take(at as int + 1).drop_last() =~= entries@.take(at as int));
            assert(entries@.take(at as int + 1).last() == entries@[at as int]);
        }
        if let Some(index) = find_last_track(tracks, entries[at].track_id) {
            indices.push(index);
            assert(places(indices@) =~= places(before).push(index as int));
        }
        at = at + 1;
    }
    assert(entries@.take(at as int) =~= entries@);
    indices
}

/// The identifiers of the tracks at these places that pass the search.
pub open spec fn passing_ids(
    indices: Seq<int>,
    tracks: Seq<Track>,
    passes: spec_fn(int) -> bool,
) -> Seq<TrackId>
    decreases indices.len(),
{
    if indices.len() == 0 {
        Seq::empty()
    } else {
        let earlier = passing_ids(indices.drop_last(), tracks, passes);
        if passes(indices.last()) {
            earlier.push(tracks[indices.last()].id)
        } else {
            earlier
        }
    }
}

/// All places of a library of this length.
pub open spec fn all_places(len: nat) -> Seq<int> {
    Seq::new(len, |i: int| i)
}

/// The queue of the library: all of it, or what passes the search. `hits[i]`
/// tells whether the track at place `i` matches the search text.
pub open spec fn library_queue(
    tracks: Seq<Track>,
    search_text: Seq<char>,
    hits: Seq<bool>,
) -> QueueView {
    if text::trimmed(search_text).len() == 0 {
        QueueView::Library
    } else {
        QueueView::Explicit {
            source: PlaybackQueueSource::SearchResults,
            ordered_track_ids: passing_ids(all_places(tracks.len()), tracks, |i: int| hits[i]),
        }
    }
}

/// The queue of the library.
pub fn queue_request_for_library(
    tracks: &Vec<Track>,
    search_text: &str,
    hits: &Vec<bool>,
) -> (queue: PlaybackQueueRequest)
    requires
        hits@.len() == tracks@.len(),
    ensures
        queue@ == library_queue(tracks@, search_text@, hits@),
{
    if trim(search_text).is_empty() {
        return PlaybackQueueRequest::Library;
    }
    let ghost passes = |i: int| hits@[i];
    let mut ordered_track_ids: Vec<TrackId> = Vec::new();
    let mut index: usize = 0;
    assert(all_places(tracks@.len()).take(0) =~= Seq::empty());
    while index < tracks.len()
        invariant
            index <= tracks.len(),
            hits@.len() == tracks@.len(),
            passes == (|i: int| hits@[i]),
            ordered_track_ids@ == passing_ids(
                all_places(tracks@.len()).take(index as int),
                tracks@,
                passes,
            ),
        decreases tracks.len() - index,
    {
        proof {
            let places = all_places(tracks@.len());
            assert(places.take(index as int + 1).drop_last() =~= places.take(index as int));
            assert(places.take(index as int + 1).last() == index);
        }
        if hits[index] {
            ordered_track_ids.push(tracks[index].id);
        }
        index = index + 1;
    }
    proof {
        let places = all_places(tracks@.len());
        assert(places.take(index as int) =~= places);
    }
    PlaybackQueueRequest::Explicit { source: PlaybackQueueSource::SearchResults, ordered_track_ids }
}

/// A queue of the tracks at these places. An empty list of candidates falls
/// back to the library; otherwise the queue holds what passes the search, if
/// there is one.
pub open spec fn candidate_queue(
    candidates: Seq<int>,
    source: PlaybackQueueSource,
    tracks: Seq<Track>,
    search_text: Seq<char>,
    hits: Seq<bool>,
) -> QueueView {
    if candidates.len() == 0 {
        QueueView::Library
    } else {
        QueueView::Explicit {
            source,
            ordered_track_ids: passing_ids(
                candidates,
                tracks,
                |i: int| search_text.len() == 0 || hits[i],
            ),
        }
    }
}

/// The queue of a selection of the sidebar. `hits[i]` tells whether the track
/// at place `i` matches the search text, and `smart` lists the places of the
/// tracks that match the selected smart playlist.
pub open spec fn selection_queue(
    library: Library,
    selection: Option<SidebarSelection>,
    search_text: Seq<char>,
    hits: Seq<bool>,
    smart: Seq<int>,
) -> QueueView {
    match selection {
        Some(SidebarSelection::Item(PlaylistItem::Playlist(id))) => {
            match seqs::first_where(
                library.playlists@,
                |playlist: Playlist| playlist.id == id,
            ) {
                None => QueueView::Library,
                Some(playlist) => candidate_queue(
                    resolved(in_play_order(playlist.entries@), library.tracks@),
                    PlaybackQueueSource::Playlist(id),
                    library.tracks@,
                    search_text,
                    hits,
                ),
            }
        },
        Some(SidebarSelection::Item(PlaylistItem::SmartPlaylist(_))) => candidate_queue(
            smart,
            PlaybackQueueSource::Selection,
            library.tracks@,
            search_text,
            hits,
        ),
        _ => library_queue(library.tracks@, search_text, hits),
    }
}

fn queue_of_candidates(
    candidates: &Vec<usize>,
    source: PlaybackQueueSource,
    tracks: &Vec<Track>,
    search_text: &str,
    hits: &Vec<bool>,
) -> (queue: PlaybackQueueRequest)
    requires
        hits@.len() == tracks@.len(),
        in_range(places(candidates@), tracks@.len()),
    ensures
        queue@ == candidate_queue(places(candidates@), source, tracks@, search_text@, hits@),
{
    if candidates.len() == 0 {
        return PlaybackQueueRequest::Library;
    }
    let ghost passes = |i: int| search_text@.len() == 0 || hits@[i];
    let everything = search_text.is_empty();
    let mut ordered_track_ids: Vec<TrackId> = Vec::new();
    let mut at: usize = 0;
    assert(places(candidates@).take(0) =~= Seq::empty());
    while at < candidates.len()
        invariant
            at <= candidates.len(),
            hits@.len() == tracks@.len(),
            in_range(places(candidates@), tracks@.len()),
            everything == (search_text@.len() == 0),
            passes == (|i: int| search_text@.len() == 0 || hits@[i]),
            ordered_track_ids@ == passing_ids(
                places(candidates@).take(at as int),
                tracks@,
                passes,
            ),
        decreases candidates.len() - at,
    {
        let index: usize = candidates[at];
        proof {
            let all = places(candidates@);
            assert(all[at as int] == index);
            assert(all.take(at as int + 1).drop_last() =~= all.take(at as int));
            assert(all.take(at as int + 1).last() == index);
        }
        if everything || hits[index] {
            ordered_track_ids.push(tracks[index].id);
        }
        at = at + 1;
    }
    assert(places(candidates@).take(at as int) =~= places(candidates@));
    PlaybackQueueRequest::Explicit { source, ordered_track_ids }
}

/// The queue of a selection of the sidebar.
pub fn queue_request_for_playlist_selection(
    library: &Library,
    selection: Option<SidebarSelection>,
    search_text: &str,
    hits: &Vec<bool>,
    smart: &Vec<usize>,
) -> (queue: PlaybackQueueRequest)
    requires
        hits@.len() == library.tracks@.len(),
        in_range(places(smart@), library.tracks@.len()),
    ensures
        queue@ == selection_queue(*library, selection, search_text@, hits@, places(smart@)),
{
    match selection {
        Some(SidebarSelection::Item(PlaylistItem::Playlist(id))) => {
            match find_playlist(&library.playlists, id) {
                None => PlaybackQueueRequest::Library,
                Some(index) => {
                    let entries = play_order(&library.playlists[index].entries);
                    let candidates = resolve_entries(&entries, &library.tracks);
                    queue_of_candidates(
                        &candidates,
                        PlaybackQueueSource::Playlist(id),
                        &library.tracks,
                        search_text,
                        hits,
                    )
                },
            }
        },
        Some(SidebarSelection::Item(PlaylistItem::SmartPlaylist(_))) => queue_of_candidates(
            smart,
            PlaybackQueueSource::Selection,
            &library.tracks,
            search_text,
            hits,
        ),
        _ => queue_request_for_library(&library.tracks, search_text, hits),
    }
}

/// Whether the library holds a track with this identifier whose file is there.
pub open spec fn is_playable(tracks: Seq<Track>, id: TrackId) -> bool {
    let index = library::last_track_index(tracks, id);
    index >= 0 && !tracks[index].location.missing
}

/// The track with which a queue starts: the first of it whose file is there.
pub open spec fn first_playable(tracks: Seq<Track>, queue: QueueView) -> Option<TrackId> {
    match queue {
        QueueView::Library => match seqs::first_where(
            tracks,
            |track: Track| !track.location.missing,
        ) {
            Some(track) => Some(track.id),
            None => None,
        },
        QueueView::Explicit { ordered_track_ids, .. } => seqs::first_where(
            ordered_track_ids,
            |id: TrackId| is_playable(tracks, id),
        ),
    }
}

/// The track with which a queue starts.
pub fn first_playable_track_for_queue(tracks: &Vec<Track>, queue: &PlaybackQueueRequest) -> (first:
    Option<TrackId>)
    ensures
        first == first_playable(tracks@, queue@),
{
    match queue {
        PlaybackQueueRequest::Library => {
            let test = |track: &Track| -> (present: bool)
                ensures
                    present == !track.location.missing,
            {
                !track.location.is_missing()
            };
            let ghost present = |track: Track| !track.location.missing;
            match seqs::find_first(tracks.as_slice(), test, Ghost(present)) {
                Some(index) => Some(tracks[index].id),
                None => None,
            }
        },
        PlaybackQueueRequest::Explicit { ordered_track_ids, .. } => {
            let test = |id: &TrackId| -> (playable: bool)
                ensures
                    playable == is_playable(tracks@, *id),
            {
                match find_last_track(tracks, *id) {
                    Some(at) => !tracks[at].location.is_missing(),
                    None => false,
                }
            };
            let ghost playable = |id: TrackId| is_playable(tracks@, id);
            match seqs::find_first(ordered_track_ids.as_slice(), test, Ghost(playable)) {
                Some(index) => Some(ordered_track_ids[index]),
                None => None,
            }
        },
    }
}

/// What a press of the play button does.
#[derive(Debug)]
pub enum PlayPress {
    /// A track is loaded: toggle between playing and pausing it.
    Toggle,
    /// Nothing is loaded: start with this track and this queue.
    Start(TrackId, PlaybackQueueRequest),
    /// Nothing is loaded, and the visible view has nothing to start with.
    Nothing,
}

/// The request that pressing play makes in a view: the first playable track of
/// the view's queue, and that queue.
pub open spec fn view_request(
    library: Library,
    page: Option<Page>,
    first_album: Option<(TrackId, QueueView)>,
    selection: Option<SidebarSelection>,
    search_text: Seq<char>,
    hits: Seq<bool>,
    smart: Seq<int>,
) -> Option<(TrackId, QueueView)> {
    match page {
        Some(Page::Albums) => first_album,
        Some(Page::Playlists) => {
            let queue = selection_queue(library, selection, search_text, hits, smart);
            match first_playable(library.tracks@, queue) {
                Some(id) => Some((id, queue)),
                None => None,
            }
        },
        _ => {
            let queue = library_queue(library.tracks@, search_text, hits);
            match first_playable(library.tracks@, queue) {
                Some(id) => Some((id, queue)),
                None => None,
            }
        },
    }
}

/// A request as a value of the specification.
pub open spec fn request_view(request: Option<(TrackId, PlaybackQueueRequest)>) -> Option<
    (TrackId, QueueView),
> {
    match request {
        Some((id, queue)) => Some((id, queue@)),
        None => None,
    }
}

/// What playing would start right now, from the view that is visible.
/// `first_album` is what the album view would start.
pub fn play_request_for_visible_view(
    library: &Library,
    page: Option<Page>,
    first_album: Option<(TrackId, PlaybackQueueRequest)>,
    selection: Option<SidebarSelection>,
    search_text: &str,
    hits: &Vec<bool>,
    smart: &Vec<usize>,
) -> (request: Option<(TrackId, PlaybackQueueRequest)>)
    requires
        hits@.len() == library.tracks@.len(),
        in_range(places(smart@), library.tracks@.len()),
    ensures
        request_view(request) == view_request(
            *library,
            page,
            request_view(first_album),
            selection,
            search_text@,
            hits@,
            places(smart@),
        ),
{
    match page {
        Some(Page::Albums) => first_album,
        Some(Page::Playlists) => {
            let queue = queue_request_for_playlist_selection(
                library,
                selection,
                search_text,
                hits,
                smart,
            );
            match first_playable_track_for_queue(&library.tracks, &queue) {
                Some(id) => Some((id, queue)),
                None => None,
            }
        },
        _ => {
            let queue = queue_request_for_library(&library.tracks, search_text, hits);
            match first_playable_track_for_queue(&library.tracks, &queue) {
                Some(id) => Some((id, queue)),
                None => None,
            }
        },
    }
}

/// What a press of the play button does.
pub open spec fn press_of(
    state: PlaybackState,
    request: Option<(TrackId, PlaybackQueueRequest)>,
) -> PlayPress {
    if state != PlaybackState::Stopped {
        PlayPress::Toggle
    } else {
        match request {
            Some((id, queue)) => PlayPress::Start(id, queue),
            None => PlayPress::Nothing,
        }
    }
}

/// What a press of the play button does, where `request` is what the visible
/// view would start.
pub fn toggle_or_start(
    state: PlaybackState,
    request: Option<(TrackId, PlaybackQueueRequest)>,
) -> (press: PlayPress)
    ensures
        press == press_of(state, request),
{
    match state {
        PlaybackState::Stopped => match request {
            Some((id, queue)) => PlayPress::Start(id, queue),
            None => PlayPress::Nothing,
        },
        _ => PlayPress::Toggle,
    }
}

/// The queue to which playback widens when the search is cleared.
pub open spec fn widened(
    library: Library,
    page: Option<Page>,
    selection: Option<SidebarSelection>,
    hits: Seq<bool>,
    smart: Seq<int>,
) -> Option<QueueView> {
    if page == Some(Page::Albums) {
        None
    } else if page == Some(Page::Playlists) {
        Some(selection_queue(library, selection, Seq::empty(), hits, smart))
    } else {
        Some(QueueView::Library)
    }
}

/// The queue to which playback widens when the search is cleared. The album
/// view has none: an album is never narrowed by a search.
pub fn repopulate_request_for_visible_view(
    library: &Library,
    page: Option<Page>,
    selection: Option<SidebarSelection>,
    hits: &Vec<bool>,
    smart: &Vec<usize>,
) -> (request: Option<PlaybackQueueRequest>)
    requires
        hits@.len() == library.tracks@.len(),
        in_range(places(smart@), library.tracks@.len()),
    ensures
        match request {
            Some(queue) => widened(*library, page, selection, hits@, places(smart@)) == Some(queue@),
            None => widened(*library, page, selection, hits@, places(smart@)) is None,
        },
{
    proof {
        reveal_strlit("");
        assert(""@ =~= Seq::<char>::empty());
    }
    match page {
        Some(Page::Albums) => None,
        Some(Page::Playlists) => Some(
            queue_request_for_playlist_selection(library, selection, "", hits, smart),
        ),
        _ => Some(queue_request_for_library(&library.tracks, "", hits)),
    }
}

/// Whether the play button can act on something: a track that is loaded, or a
/// library to start from.
pub fn update_play_pause_sensitivity(state: PlaybackState, tracks: &Vec<Track>) -> (sensitive: bool)
    ensures
        sensitive == (state != PlaybackState::Stopped || tracks@.len() > 0),
{
    let has_current_track = match state {
        PlaybackState::Stopped => false,
        _ => true,
    };
    has_current_track || !tracks.is_empty()
}

/// The orders in which a queue is played.
#[derive(Clone, Copy, Debug, PartialEq, Eq, Structural)]
pub enum ShuffleMode {
    Off,
    Pure,
    Smart,
}

/// The mode that a header's play or shuffle button sets: a header's shuffle is
/// always purely random, whatever the transport is set to.
pub fn header_shuffle_mode(shuffle: bool) -> (mode: ShuffleMode)
    ensures
        mode == if shuffle { ShuffleMode::Pure } else { ShuffleMode::Off },
{
    if shuffle {
        ShuffleMode::Pure
    } else {
        ShuffleMode::Off
    }
}

/// Playback starts with a track of the queue, and one whose file is there.
pub proof fn law_queue_starts_with_a_playable_track(tracks: Seq<Track>, queue: QueueView)
    requires
        first_playable(tracks, queue) is Some,
    ensures
        ({
            let first = first_playable(tracks, queue)->0;
            match queue {
                QueueView::Library => exists|i: int|
                    0 <= i < tracks.len() && (#[trigger] tracks[i]).id == first
                        && !tracks[i].location.missing,
                QueueView::Explicit { ordered_track_ids, .. } => ordered_track_ids.contains(first)
                    && is_playable(tracks, first),
            }
        }),
{
    match queue {
        QueueView::Library => {
            let present = |track: Track| !track.location.missing;
            seqs::lemma_first_index(tracks, present);
            assert(present(tracks[seqs::first_index(tracks, present)]));
        },
        QueueView::Explicit { ordered_track_ids, .. } => {
            let playable = |id: TrackId| is_playable(tracks, id);
            seqs::lemma_first_index(ordered_track_ids, playable);
            assert(playable(ordered_track_ids[seqs::first_index(ordered_track_ids, playable)]));
        },
    }
}

/// Every track that is queued stands at one of the places that were given and
/// passes the search.
pub proof fn law_queue_holds_only_passing_candidates(
    indices: Seq<int>,
    tracks: Seq<Track>,
    passes: spec_fn(int) -> bool,
    k: int,
)
    requires
        0 <= k < passing_ids(indices, tracks, passes).len(),
    ensures
        exists|i: int|
            0 <= i < indices.len() && passes(#[trigger] indices[i]) && passing_ids(
                indices,
                tracks,
                passes,
            )[k] == tracks[indices[i]].id,
    decreases indices.len(),
{
    if indices.len() > 0 {
        let rest = indices.drop_last();
        let earlier = passing_ids(rest, tracks, passes);
        if k < earlier.len() {
            law_queue_holds_only_passing_candidates(rest, tracks, passes, k);
            let i = choose|i: int|
                0 <= i < rest.len() && passes(#[trigger] rest[i]) && earlier[k]
                    == tracks[rest[i]].id;
            assert(passes(indices[i]) && earlier[k] == tracks[indices[i]].id);
        } else {
            assert(passes(indices[indices.len() - 1]));
        }
    }
}

/// An identifier stands for the track at a place: no later track has it.
pub open spec fn stands_for(tracks: Seq<Track>, id: TrackId, place: int) -> bool {
    &&& 0 <= place < tracks.len()
    &&& tracks[place].id == id
    &&& forall|later: int| place < later < tracks.len() ==> (#[trigger] tracks[later]).id != id
}

/// The place that is found for an identifier is the one for which it stands.
pub proof fn lemma_last_track_index(tracks: Seq<Track>, id: TrackId)
    ensures
        ({
            let place = library::last_track_index(tracks, id);
            &&& place >= 0 ==> stands_for(tracks, id, place)
            &&& place < 0 ==> forall|i: int| 0 <= i < tracks.len() ==> (#[trigger] tracks[i]).id
                != id
            &&& forall|i: int| #[trigger] stands_for(tracks, id, i) ==> i == place
        }),
    decreases tracks.len(),
{
    let wanted = library::has_track_id(id);
    seqs::lemma_last_index(tracks, wanted);
    if tracks.len() > 0 && tracks.last().id != id {
        let rest = tracks.drop_last();
        lemma_last_track_index(rest, id);
        let place = library::last_track_index(rest, id);
        assert(library::last_track_index(tracks, id) == place);
        assert forall|i: int| 0 <= i < tracks.len() && (place < 0 || i > place) implies (
        #[trigger] tracks[i]).id != id by {
            if i < rest.len() {
                assert(rest[i] == tracks[i]);
            }
        }
        assert forall|i: int| #[trigger] stands_for(tracks, id, i) implies i == place by {
            assert(i < rest.len());
            assert(stands_for(rest, id, i)) by {
                assert forall|later: int| i < later < rest.len() implies (#[trigger] rest[later]).id
                    != id by {
                    assert(rest[later] == tracks[later]);
                }
            }
        }
    }
}

/// A playlist plays its entries by their positions, loses none and doubles
/// none; entries at the same position keep their order. `from[i]` is where the
/// entry stood that is played at place `i`.
pub proof fn law_playlists_play_by_position(entries: Seq<PlaylistEntry>) -> (from: Seq<int>)
    ensures
        ({
            let played = in_play_order(entries);
            &&& played.len() == entries.len() == from.len()
            &&& forall|e: int| 0 <= e < entries.len() ==> #[trigger] from.contains(e)
            &&& forall|i: int|
                #![trigger from[i]]
                0 <= i < from.len() ==> 0 <= from[i] < entries.len() && played[i]
                    == entries[from[i]]
            &&& forall|i: int, j: int|
                #![trigger from[i], from[j]]
                0 <= i < j < from.len() ==> {
                    ||| entries[from[i]].position < entries[from[j]].position
                    ||| entries[from[i]].position == entries[from[j]].position && from[i] < from[j]
                }
        }),
{
    lemma_in_play_order(entries);
    let played = in_play_order(entries);
    let from = choose|from: Seq<int>|
        sorting::stable_order_from::<PlaylistEntry>(entries, played, from);
    assert forall|e: int| 0 <= e < entries.len() implies #[trigger] from.contains(e) by {
        sorting::lemma_all_taken(from, entries.len() as int, e);
    }
    assert forall|i: int, j: int|
        #![trigger from[i], from[j]]
        0 <= i < j < from.len() implies {
        ||| entries[from[i]].position < entries[from[j]].position
        ||| entries[from[i]].position == entries[from[j]].position && from[i] < from[j]
    } by {
        assert(PlaylistEntry::rank_leq(played[i], played[j]));
    }
    from
}

/// What passes the search of some places, in their order.
proof fn lemma_passing_ids(
    indices: Seq<int>,
    tracks: Seq<Track>,
    passes: spec_fn(int) -> bool,
    upto: nat,
)
    requires
        upto <= indices.len(),
    ensures
        seqs::lists(
            passing_ids(indices.take(upto as int), tracks, passes),
            upto,
            |c: int| passes(indices[c]),
            |c: int| tracks[indices[c]].id,
        ),
    decreases upto,
{
    let wanted = |c: int| passes(indices[c]);
    let item = |c: int| tracks[indices[c]].id;
    if upto == 0 {
        assert(indices.take(0) =~= Seq::empty());
        seqs::lemma_lists_nothing(wanted, item);
    } else {
        let fewer = (upto - 1) as nat;
        lemma_passing_ids(indices, tracks, passes, fewer);
        assert(indices.take(upto as int).drop_last() =~= indices.take(fewer as int));
        assert(indices.take(upto as int).last() == indices[fewer as int]);
        seqs::lemma_lists_one_more(
            passing_ids(indices.take(fewer as int), tracks, passes),
            fewer,
            wanted,
            item,
        );
    }
}

/// What passes the search of the tracks of some entries, in their order.
proof fn lemma_passing_entries(
    entries: Seq<PlaylistEntry>,
    tracks: Seq<Track>,
    passes: spec_fn(int) -> bool,
    upto: nat,
)
    requires
        upto <= entries.len(),
    ensures
        seqs::lists(
            passing_ids(resolved(entries.take(upto as int), tracks), tracks, passes),
            upto,
            |e: int| exists|i: int| #[trigger]
                stands_for(tracks, entries[e].track_id, i) && passes(i),
            |e: int| entries[e].track_id,
        ),
        resolved(entries.take(upto as int), tracks).len() == 0 ==> forall|e: int, i: int|
            0 <= e < upto ==> !(#[trigger] stands_for(tracks, entries[e].track_id, i)),
    decreases upto,
{
    let wanted = |e: int| exists|i: int| #[trigger]
        stands_for(tracks, entries[e].track_id, i) && passes(i);
    let item = |e: int| entries[e].track_id;
    if upto == 0 {
        assert(entries.take(0) =~= Seq::empty());
        assert(resolved(entries.take(0), tracks) =~= Seq::empty());
        seqs::lemma_lists_nothing(wanted, item);
    } else {
        let fewer = (upto - 1) as nat;
        lemma_passing_entries(entries, tracks, passes, fewer);
        assert(entries.take(upto as int).drop_last() =~= entries.take(fewer as int));
        assert(entries.take(upto as int).last() == entries[fewer as int]);
        let id = entries[fewer as int].track_id;
        let place = library::last_track_index(tracks, id);
        lemma_last_track_index(tracks, id);
        let earlier = resolved(entries.take(fewer as int), tracks);
        seqs::lemma_lists_one_more(passing_ids(earlier, tracks, passes), fewer, wanted, item);
        if place >= 0 {
            assert(stands_for(tracks, id, place));
            assert(earlier.push(place).drop_last() =~= earlier);
            assert(earlier.push(place).last() == place);
            assert(wanted(fewer as int) == passes(place));
        } else {
            assert forall|i: int| !(#[trigger] stands_for(tracks, id, i)) by {}
            assert(!wanted(fewer as int));
        }
    }
}

/// The queue of a playlist holds exactly those of its entries, in play order,
/// whose tracks the library holds and the search leaves. Without any entry that
/// the library holds, the library is played.
pub proof fn law_a_playlist_plays_what_the_search_leaves(
    library: Library,
    id: PlaylistId,
    at: int,
    search_text: Seq<char>,
    hits: Seq<bool>,
    smart: Seq<int>,
)
    requires
        0 <= at < library.playlists@.len(),
        library.playlists@[at].id == id,
        forall|i: int| 0 <= i < at ==> (#[trigger] library.playlists@[i]).id != id,
    ensures
        ({
            let entries = in_play_order(library.playlists@[at].entries@);
            let tracks = library.tracks@;
            match selection_queue(
                library,
                Some(SidebarSelection::Item(PlaylistItem::Playlist(id))),
                search_text,
                hits,
                smart,
            ) {
                QueueView::Explicit { source, ordered_track_ids } => {
                    &&& source == PlaybackQueueSource::Playlist(id)
                    &&& seqs::lists(
                        ordered_track_ids,
                        entries.len(),
                        |e: int| exists|i: int| #[trigger]
                            stands_for(tracks, entries[e].track_id, i) && (search_text.len() == 0
                                || hits[i]),
                        |e: int| entries[e].track_id,
                    )
                },
                QueueView::Library => forall|e: int, i: int|
                    0 <= e < entries.len() ==> !(#[trigger] stands_for(
                        tracks,
                        entries[e].track_id,
                        i,
                    )),
            }
        }),
{
    let wanted = |playlist: Playlist| playlist.id == id;
    seqs::lemma_is_first_index(library.playlists@, wanted, at);
    let entries = in_play_order(library.playlists@[at].entries@);
    let passes = |i: int| search_text.len() == 0 || hits[i];
    lemma_passing_entries(entries, library.tracks@, passes, entries.len());
    assert(entries.take(entries.len() as int) =~= entries);
    let listed = |e: int| exists|i: int| #[trigger]
        stands_for(library.tracks@, entries[e].track_id, i) && passes(i);
    let stated = |e: int| exists|i: int| #[trigger]
        stands_for(library.tracks@, entries[e].track_id, i) && (search_text.len() == 0 || hits[i]);
    assert forall|e: int| #[trigger] listed(e) == stated(e) by {
        if listed(e) {
            let i = choose|i: int| #[trigger]
                stands_for(library.tracks@, entries[e].track_id, i) && passes(i);
            assert(stands_for(library.tracks@, entries[e].track_id, i));
        }
        if stated(e) {
            let i = choose|i: int| #[trigger]
                stands_for(library.tracks@, entries[e].track_id, i) && (search_text.len() == 0
                    || hits[i]);
            assert(stands_for(library.tracks@, entries[e].track_id, i) && passes(i));
        }
    }
    assert(listed =~= stated);
}

/// The queue of a smart playlist holds exactly those of its tracks that the
/// search leaves, in their order. Without any, the library is played.
pub proof fn law_a_smart_playlist_plays_what_the_search_leaves(
    library: Library,
    id: SmartPlaylistId,
    search_text: Seq<char>,
    hits: Seq<bool>,
    smart: Seq<int>,
)
    ensures
        ({
            let tracks = library.tracks@;
            match selection_queue(
                library,
                Some(SidebarSelection::Item(PlaylistItem::SmartPlaylist(id))),
                search_text,
                hits,
                smart,
            ) {
                QueueView::Explicit { source, ordered_track_ids } => {
                    &&& source == PlaybackQueueSource::Selection
                    &&& seqs::lists(
                        ordered_track_ids,
                        smart.len(),
                        |c: int| search_text.len() == 0 || hits[smart[c]],
                        |c: int| tracks[smart[c]].id,
                    )
                },
                QueueView::Library => smart.len() == 0,
            }
        }),
{
    let passes = |i: int| search_text.len() == 0 || hits[i];
    lemma_passing_ids(smart, library.tracks@, passes, smart.len());
    assert(smart.take(smart.len() as int) =~= smart);
    assert((|c: int| passes(smart[c])) =~= (|c: int| search_text.len() == 0 || hits[smart[c]]));
}

/// The queue of the library, and of a selection that is no playlist, holds
/// exactly the tracks that the search leaves, in the order of the library. It is
/// the library itself iff the search is blank.
pub proof fn law_the_library_plays_what_the_search_leaves(
    library: Library,
    selection: Option<SidebarSelection>,
    search_text: Seq<char>,
    hits: Seq<bool>,
    smart: Seq<int>,
)
    requires
        !(selection matches Some(SidebarSelection::Item(PlaylistItem::Playlist(_)))),
        !(selection matches Some(SidebarSelection::Item(PlaylistItem::SmartPlaylist(_)))),
    ensures
        ({
            let tracks = library.tracks@;
            let queue = library_queue(tracks, search_text, hits);
            &&& selection_queue(library, selection, search_text, hits, smart) == queue
            &&& queue is Library <==> forall|i: int|
                0 <= i < search_text.len() ==> text::white_space(#[trigger] search_text[i])
            &&& queue matches QueueView::Explicit { source, ordered_track_ids } ==> {
                &&& source == PlaybackQueueSource::SearchResults
                &&& seqs::lists(
                    ordered_track_ids,
                    tracks.len(),
                    |i: int| hits[i],
                    |i: int| tracks[i].id,
                )
            }
        }),
{
    let tracks = library.tracks@;
    let all = all_places(tracks.len());
    let passes = |i: int| hits[i];
    text::law_trimming_leaves_a_text_unless_it_is_blank(search_text);
    lemma_passing_ids(all, tracks, passes, tracks.len());
    assert(all.take(tracks.len() as int) =~= all);
    seqs::lemma_lists_alike(
        passing_ids(all, tracks, passes),
        tracks.len(),
        |c: int| passes(all[c]),
        |c: int| tracks[all[c]].id,
        |i: int| hits[i],
        |i: int| tracks[i].id,
    );
}

/// The library starts with its first track whose file is there, and does not
/// start iff there is none.
pub proof fn law_the_library_starts_with_the_first_file_that_is_there(tracks: Seq<Track>)
    ensures
        match first_playable(tracks, QueueView::Library) {
            Some(first) => exists|k: int|
                0 <= k < tracks.len() && (#[trigger] tracks[k]).id == first
                    && !tracks[k].location.missing && (forall|l: int|
                    0 <= l < k ==> (#[trigger] tracks[l]).location.missing),
            None => forall|l: int|
                0 <= l < tracks.len() ==> (#[trigger] tracks[l]).location.missing,
        },
{
    let present = |track: Track| !track.location.missing;
    seqs::lemma_first_index(tracks, present);
    let k = seqs::first_index(tracks, present);
    assert forall|l: int| 0 <= l < k implies (#[trigger] tracks[l]).location.missing by {
        assert(!present(tracks[l]));
    }
    if k < tracks.len() {
        assert(present(tracks[k]));
        assert(tracks[k].id == first_playable(tracks, QueueView::Library)->0);
    }
}

/// A list of tracks starts with the first whose file is there, and does not
/// start iff there is none.
pub proof fn law_a_list_starts_with_the_first_file_that_is_there(
    tracks: Seq<Track>,
    source: PlaybackQueueSource,
    ids: Seq<TrackId>,
)
    ensures
        match first_playable(
            tracks,
            QueueView::Explicit { source, ordered_track_ids: ids },
        ) {
            Some(first) => exists|k: int|
                0 <= k < ids.len() && #[trigger] ids[k] == first && file_is_there(tracks, first)
                    && (forall|l: int| 0 <= l < k ==> !file_is_there(tracks, #[trigger] ids[l])),
            None => forall|l: int|
                0 <= l < ids.len() ==> !file_is_there(tracks, #[trigger] ids[l]),
        },
{
    let playable = |id: TrackId| is_playable(tracks, id);
    seqs::lemma_first_index(ids, playable);
    let k = seqs::first_index(ids, playable);
    assert forall|l: int| 0 <= l < k implies !file_is_there(tracks, #[trigger] ids[l]) by {
        lemma_last_track_index(tracks, ids[l]);
        assert(!playable(ids[l]));
    }
    if k < ids.len() {
        lemma_last_track_index(tracks, ids[k]);
        assert(playable(ids[k]));
        assert(stands_for(tracks, ids[k], library::last_track_index(tracks, ids[k])));
    }
}

/// An identifier stands for a track whose file is there.
pub open spec fn file_is_there(tracks: Seq<Track>, id: TrackId) -> bool {
    exists|i: int| #[trigger] stands_for(tracks, id, i) && !tracks[i].location.missing
}

/// Pressing play starts what is visible: what the albums would start on their
/// page; on the page of playlists the queue of the selection, and elsewhere the
/// queue of the library, each narrowed by the search and started with the first
/// of its files that is there. Nothing is started that is not queued.
pub proof fn law_play_starts_what_is_visible(
    library: Library,
    page: Option<Page>,
    first_album: Option<(TrackId, QueueView)>,
    selection: Option<SidebarSelection>,
    search_text: Seq<char>,
    hits: Seq<bool>,
    smart: Seq<int>,
)
    ensures
        ({
            let request = view_request(
                library,
                page,
                first_album,
                selection,
                search_text,
                hits,
                smart,
            );
            let narrowed = if page == Some(Page::Playlists) {
                selection_queue(library, selection, search_text, hits, smart)
            } else {
                library_queue(library.tracks@, search_text, hits)
            };
            let first = first_playable(library.tracks@, narrowed);
            &&& page == Some(Page::Albums) ==> request == first_album
            &&& page != Some(Page::Albums) ==> {
                &&& request is Some <==> first is Some
                &&& request is Some ==> (request->0).1 == narrowed && (request->0).0 == first->0
                &&& request is Some && narrowed is Explicit
                    ==> narrowed->ordered_track_ids.contains((request->0).0)
            }
        }),
{
    let narrowed = if page == Some(Page::Playlists) {
        selection_queue(library, selection, search_text, hits, smart)
    } else {
        library_queue(library.tracks@, search_text, hits)
    };
    if first_playable(library.tracks@, narrowed) is Some {
        law_queue_starts_with_a_playable_track(library.tracks@, narrowed);
    }
}

/// The queue to which playback widens is narrowed by no search: whatever passed
/// the last one, it is the same. The album view alone has none.
pub proof fn law_a_widened_queue_forgets_the_search(
    library: Library,
    page: Option<Page>,
    selection: Option<SidebarSelection>,
    hits: Seq<bool>,
    other_hits: Seq<bool>,
    smart: Seq<int>,
)
    requires
        hits.len() == library.tracks@.len(),
        other_hits.len() == library.tracks@.len(),
        in_range(smart, library.tracks@.len()),
    ensures
        widened(library, page, selection, hits, smart) == widened(
            library,
            page,
            selection,
            other_hits,
            smart,
        ),
        widened(library, page, selection, hits, smart) is None <==> page == Some(Page::Albums),
        page != Some(Page::Albums) && page != Some(Page::Playlists) ==> widened(
            library,
            page,
            selection,
            hits,
            smart,
        ) == Some(QueueView::Library),
{
    let nothing = Seq::<char>::empty();
    let all = |i: int| nothing.len() == 0 || hits[i];
    let others = |i: int| nothing.len() == 0 || other_hits[i];
    assert(all =~= others);
    text::law_trimming_leaves_a_text_unless_it_is_blank(nothing);
}

/// While something plays or is paused, a press goes on or pauses, whatever is
/// visible; only once playback has stopped does it start what is visible.
pub proof fn law_a_press_starts_something_only_when_stopped(
    state: PlaybackState,
    request: Option<(TrackId, PlaybackQueueRequest)>,
    other: Option<(TrackId, PlaybackQueueRequest)>,
)
    ensures
        press_of(state, request) is Toggle <==> state != PlaybackState::Stopped,
        press_of(state, request) is Toggle ==> press_of(state, other) is Toggle,
        state == PlaybackState::Stopped ==> (press_of(state, request) is Nothing <==> request
            is None),
        press_of(state, request) matches PlayPress::Start(id, queue) ==> request == Some(
            (id, queue),
        ),
{
}

} // verus!
