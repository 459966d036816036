//! The panel of the track that is played: its cover, what a click on the cover
//! does, its lyrics and its controls.

use std::path::PathBuf;

use vstd::prelude::*;

use crate::generations;
use crate::artwork::source::ArtworkSource;
use crate::library;
use crate::library::{Playtime, Track, TrackId};
use crate::paths;
use crate::paths::same_path;
use crate::playback::ShuffleMode;
use crate::seqs;
use crate::text;
use crate::text::{join, trim};

verus! {

// ---------------------------------------------------------------------------
// The cover
// ---------------------------------------------------------------------------

/// What is shown in the place of the cover.
#[derive(Clone, Copy, Debug, PartialEq, Eq, Structural)]
pub enum ArtworkPage {
    Present,
    Missing,
    Fetching,
}

impl ArtworkPage {
    /// Whether a click does something.
    pub fn is_clickable(self) -> (clickable: bool)
        ensures
            clickable == !(self is Fetching),
    {
        match self {
            ArtworkPage::Fetching => false,
            _ => true,
        }
    }

    /// What a click does, in words.
    pub fn tooltip(self) -> (tooltip: Option<&'static str>)
        ensures
            match self {
                ArtworkPage::Present => tooltip is Some && tooltip->0@ == "Zoom artwork"@,
                ArtworkPage::Missing => tooltip is Some && tooltip->0@ == "Fetch artwork"@,
                ArtworkPage::Fetching => tooltip is None,
            },
    {
        match self {
            ArtworkPage::Present => Some("Zoom artwork"),
            ArtworkPage::Missing => Some("Fetch artwork"),
            ArtworkPage::Fetching => None,
        }
    }
}

/// What is known of the cover of a source.
#[derive(Clone, Copy, Debug, PartialEq, Eq, Structural)]
pub enum CoverAtHand {
    /// Nothing was decoded yet.
    Unknown,
    /// It was decoded, and there is none.
    Absent,
    /// It was decoded.
    Decoded,
}

/// What a change of the track asks for.
#[derive(Clone, Copy, Debug, PartialEq, Eq, Structural)]
pub enum ArtworkStep {
    /// The cover stays.
    Keep,
    /// There is no source: show none.
    Clear,
    /// Show the cover that is at hand, and have its large form decoded.
    ShowDecoded,
    /// Show none until it is decoded, and have both forms decoded.
    Load { generation: u64 },
}

/// What a click on the cover asks for.
#[derive(Clone, Copy, Debug, PartialEq, Eq, Structural)]
pub enum ClickStep {
    Nothing,
    OpenOverlay,
    Fetch(TrackId),
}

/// The file of a source.
pub open spec fn source_path(source: Option<&ArtworkSource>) -> Option<PathBuf> {
    match source {
        Some(source) => match *source {
            ArtworkSource::EmbeddedTrack { file_path, .. } => Some(file_path),
        },
        None => None,
    }
}

/// What is shown for a track: that its cover is fetched, or the cover, or that
/// it has none.
pub open spec fn page_for(
    track_id: Option<TrackId>,
    fetching: Option<TrackId>,
    has_cover: bool,
) -> ArtworkPage {
    if track_id is Some && track_id == fetching {
        ArtworkPage::Fetching
    } else if has_cover {
        ArtworkPage::Present
    } else {
        ArtworkPage::Missing
    }
}

/// The file of a source.
pub fn absolute_path_of(source: &ArtworkSource) -> (path: PathBuf)
    ensures
        paths::bytes_view(Some(path)) == paths::bytes_view(source_path(Some(source))),
{
    match source {
        ArtworkSource::EmbeddedTrack { file_path, .. } => file_path.clone(),
    }
}

fn same_optional_path(left: &Option<PathBuf>, right: &Option<PathBuf>) -> (same: bool)
    ensures
        same == (paths::components(*left) == paths::components(*right)),
{
    match (left, right) {
        (Some(left), Some(right)) => same_path(left, right),
        (None, None) => true,
        _ => false,
    }
}

/// What the panel knows of the cover.
pub struct NowPlayingArtwork {
    /// The file whose cover is shown.
    pub path: Option<PathBuf>,
    /// The file whose cover was asked for ahead of time.
    pub prefetched: Option<PathBuf>,
    /// Counts the tracks that were shown, so that a cover which was decoded for
    /// an earlier one is told apart.
    pub generation: u64,
    /// The track whose cover is fetched.
    pub fetching: Option<TrackId>,
    /// The notification that says so.
    pub notification: Option<u64>,
    pub page: ArtworkPage,
}

impl NowPlayingArtwork {
    /// A panel without a track.
    pub fn new() -> (state: Self)
        ensures
            state == (NowPlayingArtwork {
                path: None,
                prefetched: None,
                generation: 0,
                fetching: None,
                notification: None,
                page: ArtworkPage::Missing,
            }),
    {
        NowPlayingArtwork {
            path: None,
            prefetched: None,
            generation: 0,
            fetching: None,
            notification: None,
            page: ArtworkPage::Missing,
        }
    }

    /// Chooses what is shown for a track.
    pub fn apply_artwork_state(&mut self, track_id: Option<TrackId>, has_cover: bool)
        ensures
            *final(self) == (NowPlayingArtwork {
                page: page_for(track_id, old(self).fetching, has_cover),
                ..*old(self)
            }),
    {
        let is_fetching = match (track_id, self.fetching) {
            (Some(track_id), Some(fetching)) => track_id == fetching,
            _ => false,
        };
        self.page = if is_fetching {
            ArtworkPage::Fetching
        } else if has_cover {
            ArtworkPage::Present
        } else {
            ArtworkPage::Missing
        };
    }

    /// Whether a source has another file than the cover that is shown.
    pub open spec fn moves_to(&self, source: Option<&ArtworkSource>) -> bool {
        paths::components(self.path) != paths::components(source_path(source))
    }

    /// The panel `after` has taken in which track is played, where its cover
    /// comes from, and what is known of that cover; `step` follows from it.
    pub open spec fn takes_in(
        self,
        after: NowPlayingArtwork,
        track_id: Option<TrackId>,
        source: Option<&ArtworkSource>,
        at_hand: CoverAtHand,
        step: ArtworkStep,
    ) -> bool {
        &&& after.page == page_for(
            track_id,
            self.fetching,
            source is Some && at_hand is Decoded,
        )
        &&& after.fetching == self.fetching
        &&& after.notification == self.notification
        &&& after.prefetched == self.prefetched
        &&& if self.moves_to(source) {
            &&& paths::bytes_view(after.path) == paths::bytes_view(source_path(source))
            &&& after.generation == generations::next_generation(self.generation)
        } else {
            &&& after.path == self.path
            &&& after.generation == self.generation
        }
        &&& step == if !self.moves_to(source) {
            ArtworkStep::Keep
        } else if source is None {
            ArtworkStep::Clear
        } else if at_hand is Unknown {
            ArtworkStep::Load { generation: after.generation }
        } else {
            ArtworkStep::ShowDecoded
        }
    }

    /// Takes in which track is played, where its cover comes from, and what is
    /// known of that cover. The panel is refreshed time and again while a track
    /// plays; only another file counts as another cover.
    pub fn sync_artwork(
        &mut self,
        track_id: Option<TrackId>,
        source: Option<&ArtworkSource>,
        at_hand: CoverAtHand,
    ) -> (step: ArtworkStep)
        ensures
            old(self).takes_in(*final(self), track_id, source, at_hand, step),
    {
        let has_cover = match (source, at_hand) {
            (Some(_), CoverAtHand::Decoded) => true,
            _ => false,
        };
        let new_path = match source {
            Some(source) => Some(absolute_path_of(source)),
            None => None,
        };
        self.apply_artwork_state(track_id, has_cover);
        if same_optional_path(&self.path, &new_path) {
            return ArtworkStep::Keep;
        }
        self.path = new_path;
        self.generation = self.generation.wrapping_add(1);
        if source.is_none() {
            return ArtworkStep::Clear;
        }
        match at_hand {
            CoverAtHand::Unknown => ArtworkStep::Load { generation: self.generation },
            _ => ArtworkStep::ShowDecoded,
        }
    }

    /// Whether a cover that was asked for in a generation is shown.
    pub open spec fn takes(&self, generation: u64) -> bool {
        self.generation == generation
    }

    /// A cover was decoded that was asked for in a generation. Returns whether
    /// it is shown: not when another track has been taken in since.
    pub fn deliver(&mut self, generation: u64, track_id: Option<TrackId>, has_cover: bool) -> (
        accepted: bool)
        ensures
            accepted == old(self).takes(generation),
            *final(self) == if accepted {
                NowPlayingArtwork {
                    page: page_for(track_id, old(self).fetching, has_cover),
                    ..*old(self)
                }
            } else {
                *old(self)
            },
    {
        if self.generation != generation {
            return false;
        }
        self.apply_artwork_state(track_id, has_cover);
        true
    }

    /// What a click on the cover leads to. A cover is zoomed; where there is
    /// none, it is fetched, unless one is fetched already, for whatever track.
    pub open spec fn click(&self, current: Option<TrackId>) -> ClickStep {
        match self.page {
            ArtworkPage::Present => ClickStep::OpenOverlay,
            ArtworkPage::Fetching => ClickStep::Nothing,
            ArtworkPage::Missing => match current {
                Some(track_id) if self.fetching is None => ClickStep::Fetch(track_id),
                _ => ClickStep::Nothing,
            },
        }
    }

    /// A click on the cover.
    pub fn handle_artwork_click(&self, current: Option<TrackId>) -> (step: ClickStep)
        ensures
            step == self.click(current),
    {
        match self.page {
            ArtworkPage::Present => ClickStep::OpenOverlay,
            ArtworkPage::Fetching => ClickStep::Nothing,
            ArtworkPage::Missing => match current {
                Some(track_id) => if self.fetching.is_none() {
                    ClickStep::Fetch(track_id)
                } else {
                    ClickStep::Nothing
                },
                None => ClickStep::Nothing,
            },
        }
    }

    /// The cover of a track is fetched now, and a notification says so.
    pub fn fetch_started(&mut self, track_id: TrackId, notification: u64)
        ensures
            *final(self) == (NowPlayingArtwork {
                fetching: Some(track_id),
                notification: Some(notification),
                page: ArtworkPage::Fetching,
                ..*old(self)
            }),
    {
        self.fetching = Some(track_id);
        self.page = ArtworkPage::Fetching;
        self.notification = Some(notification);
    }

    /// The panel once the cover of a track was fetched, or could not be.
    pub open spec fn after_fetch(
        self,
        track_id: TrackId,
        current: Option<TrackId>,
    ) -> NowPlayingArtwork {
        NowPlayingArtwork {
            fetching: if self.fetching == Some(track_id) {
                None
            } else {
                self.fetching
            },
            notification: None,
            path: if current == Some(track_id) {
                None
            } else {
                self.path
            },
            ..self
        }
    }

    /// The cover of a track was fetched, or could not be. The notification is
    /// handed out, to be taken down; for the track that is played, the next
    /// refresh looks at its cover anew.
    pub fn notify_artwork_fetch_complete(&mut self, track_id: TrackId, current: Option<TrackId>) -> (
        notification: Option<u64>)
        ensures
            notification == old(self).notification,
            *final(self) == old(self).after_fetch(track_id, current),
    {
        if let Some(fetching) = self.fetching {
            if fetching == track_id {
                self.fetching = None;
            }
        }
        let notification = self.notification;
        self.notification = None;
        if let Some(current) = current {
            if current == track_id {
                self.path = None;
            }
        }
        notification
    }

    /// `request` tells whether the cover of the next track has to be decoded,
    /// and `after` is what is known from then on.
    pub open spec fn prefetches(
        &self,
        source: &ArtworkSource,
        at_hand: bool,
        request: bool,
        after: NowPlayingArtwork,
    ) -> bool {
        let known = paths::components(self.prefetched) == paths::components(
            source_path(Some(source)),
        );
        &&& request == (!known && !at_hand)
        &&& if known {
            after.prefetched == self.prefetched
        } else {
            paths::bytes_view(after.prefetched) == paths::bytes_view(source_path(Some(source)))
        }
        &&& after == (NowPlayingArtwork { prefetched: after.prefetched, ..*self })
    }

    /// The cover of the next track is asked for ahead of time. Returns whether
    /// it has to be decoded: once for each file, and not when it is at hand.
    pub fn prefetch(&mut self, source: &ArtworkSource, at_hand: bool) -> (request: bool)
        ensures
            old(self).prefetches(source, at_hand, request, *final(self)),
    {
        let path = Some(absolute_path_of(source));
        if same_optional_path(&self.prefetched, &path) {
            return false;
        }
        self.prefetched = path;
        !at_hand
    }
}

/// Where the track that is played next stands.
pub fn next_track_index(tracks: &[Track], next: Option<TrackId>) -> (place: Option<usize>)
    ensures
        match place {
            Some(index) => next is Some && index < tracks@.len() && index == seqs::first_index(
                tracks@,
                library::has_track_id(next->0),
            ),
            None => next matches Some(id) ==> seqs::first_index(tracks@, library::has_track_id(id))
                == tracks@.len(),
        },
{
    let id = match next {
        Some(id) => id,
        None => {
            return None;
        },
    };
    let test = |track: &Track| -> (same: bool)
        ensures
            same == (track.id == id),
    {
        track.id == id
    };
    seqs::find_first(tracks, test, Ghost(library::has_track_id(id)))
}

/// A cover that was asked for before another track was taken in is not shown,
/// however many tracks follow, short of as many as there are generations.
pub proof fn law_another_track_outdates_covers(
    asked: NowPlayingArtwork,
    now: NowPlayingArtwork,
    tracks: nat,
)
    requires
        0 < tracks < generations::generation_count(),
        now.generation == generations::later_generation(asked.generation, tracks),
    ensures
        !now.takes(asked.generation),
{
    generations::law_generations_differ(asked.generation, tracks);
}

/// While a cover is fetched, clicks fetch no other: the track of that fetch
/// shows that it is under way, and any other track has its clicks ignored.
pub proof fn law_one_fetch_at_a_time(
    state: NowPlayingArtwork,
    track_id: Option<TrackId>,
    has_cover: bool,
    current: Option<TrackId>,
)
    requires
        state.fetching is Some,
    ensures
        !((NowPlayingArtwork { page: page_for(track_id, state.fetching, has_cover), ..state }).click(
            current,
        ) is Fetch),
{
}

/// The result of a fetch for the track that is played makes the next refresh
/// look at its cover anew.
pub proof fn law_fetched_cover_is_looked_at_again(
    state: NowPlayingArtwork,
    source: &ArtworkSource,
)
    requires
        state.path is None,
    ensures
        state.moves_to(Some(source)),
{
}

// ---------------------------------------------------------------------------
// The lyrics
// ---------------------------------------------------------------------------

/// A line of lyrics, and when it is sung.
#[derive(Debug)]
pub struct SyncedLine {
    pub start_millis: u64,
    pub text: String,
}

/// Lyrics with times.
#[derive(Debug)]
pub struct SyncedLyrics {
    pub lines: Vec<SyncedLine>,
}

/// The texts of some lines.
pub open spec fn line_texts(lines: Seq<SyncedLine>) -> Seq<Seq<char>> {
    Seq::new(lines.len(), |i: int| lines[i].text@)
}

/// Lyrics as plain text: their lines, one below the other.
pub fn synced_lyrics_text(lyrics: &SyncedLyrics) -> (text: String)
    ensures
        text@ == text::joined(line_texts(lyrics.lines@), "\n"@),
{
    let mut lines: Vec<String> = Vec::new();
    let mut index: usize = 0;
    while index < lyrics.lines.len()
        invariant
            index <= lyrics.lines@.len(),
            lines.deep_view() == line_texts(lyrics.lines@).take(index as int),
        decreases lyrics.lines.len() - index,
    {
        let ghost earlier = lines.deep_view();
        lines.push(lyrics.lines[index].text.clone());
        assert(lines.deep_view() =~= earlier.push(lyrics.lines@[index as int].text@));
        assert(lines.deep_view() =~= line_texts(lyrics.lines@).take(index as int + 1));
        index = index + 1;
    }
    assert(lines.deep_view() =~= line_texts(lyrics.lines@));
    join(lines.as_slice(), "\n")
}

/// A text, unless it is blank.
pub open spec fn readable(text: Seq<char>) -> bool {
    text::trimmed(text).len() > 0
}

/// The lyrics that are shown: those with times, and where these are missing or
/// blank the plain ones, unless they are blank too.
pub open spec fn lyrics_of(
    synced: Option<Seq<Seq<char>>>,
    plain: Option<Seq<char>>,
) -> Option<Seq<char>> {
    match synced {
        Some(lines) if readable(text::joined(lines, "\n"@)) => Some(text::joined(lines, "\n"@)),
        _ => match plain {
            Some(plain) if readable(plain) => Some(plain),
            _ => None,
        },
    }
}

/// The lyrics that are shown for a track.
pub fn overlay_lyrics(synced: Option<&SyncedLyrics>, plain: &Option<String>) -> (lyrics: Option<
    String,
>)
    ensures
        lyrics.deep_view() == lyrics_of(
            match synced {
                Some(synced) => Some(line_texts(synced.lines@)),
                None => None,
            },
            plain.deep_view(),
        ),
{
    if let Some(synced) = synced {
        let text = synced_lyrics_text(synced);
        if !trim(text.as_str()).is_empty() {
            return Some(text);
        }
    }
    match plain {
        Some(plain) => {
            if trim(plain.as_str()).is_empty() {
                None
            } else {
                Some(plain.clone())
            }
        },
        None => None,
    }
}

/// What the overlay shows first.
#[derive(Clone, Copy, Debug, PartialEq, Eq, Structural)]
pub enum OverlayFace {
    Artwork,
    Lyrics,
}

/// Whether the overlay opens: over a window, for a track, and with something on
/// the face that it shows first.
pub fn overlay_opens(
    face: OverlayFace,
    has_window: bool,
    has_track: bool,
    has_lyrics: bool,
    has_cover: bool,
) -> (opens: bool)
    ensures
        opens == (has_window && has_track && match face {
            OverlayFace::Artwork => has_cover,
            OverlayFace::Lyrics => has_lyrics,
        }),
{
    let filled = match face {
        OverlayFace::Artwork => has_cover,
        OverlayFace::Lyrics => has_lyrics,
    };
    has_window && has_track && filled
}

// ---------------------------------------------------------------------------
// The panel
// ---------------------------------------------------------------------------

/// The width of the title's line.
pub const MARQUEE_VIEWPORT_WIDTH: i32 = 400;

/// The width of the title's line beside the chip for the lyrics.
pub const MARQUEE_TITLE_CHIP_WIDTH: i32 = 240;

/// How the title's line is laid out.
#[derive(Clone, Copy, Debug, PartialEq, Eq, Structural)]
pub struct TitleLine {
    pub lyrics_chip: bool,
    pub max_width: i32,
    /// A title that is too long is cut off; otherwise it scrolls.
    pub truncates: bool,
}

/// The layout of the title's line.
pub open spec fn line_of(has_lyrics: bool) -> TitleLine {
    if has_lyrics {
        TitleLine { lyrics_chip: true, max_width: MARQUEE_TITLE_CHIP_WIDTH, truncates: true }
    } else {
        TitleLine { lyrics_chip: false, max_width: MARQUEE_VIEWPORT_WIDTH, truncates: false }
    }
}

/// Lays the title's line out: with lyrics it makes room for their chip, and
/// holds still.
pub fn title_line(has_lyrics: bool) -> (line: TitleLine)
    ensures
        line == line_of(has_lyrics),
{
    if has_lyrics {
        TitleLine { lyrics_chip: true, max_width: MARQUEE_TITLE_CHIP_WIDTH, truncates: true }
    } else {
        TitleLine { lyrics_chip: false, max_width: MARQUEE_VIEWPORT_WIDTH, truncates: false }
    }
}

/// What the panel shows.
#[derive(Clone, Copy, Debug, PartialEq, Eq, Structural)]
pub enum PanelContent {
    Empty,
    Loaded { duration: Playtime, position: Playtime, line: TitleLine },
}

/// A time, or none at all.
pub open spec fn time_or_zero(time: Option<Playtime>) -> Playtime {
    match time {
        Some(time) => time,
        None => Playtime { seconds: 0, nanos: 0 },
    }
}

fn or_zero(time: Option<Playtime>) -> (shown: Playtime)
    ensures
        shown == time_or_zero(time),
{
    match time {
        Some(time) => time,
        None => Playtime { seconds: 0, nanos: 0 },
    }
}

/// What the panel shows of a track and of how far it was played.
pub open spec fn content_of(
    track: Option<&Track>,
    position: Option<Playtime>,
    has_lyrics: bool,
) -> PanelContent {
    match track {
        None => PanelContent::Empty,
        Some(track) => PanelContent::Loaded {
            duration: time_or_zero(track.metadata.duration),
            position: time_or_zero(position),
            line: line_of(has_lyrics),
        },
    }
}

/// What the panel shows of a track and of how far it was played.
pub fn panel_content(track: Option<&Track>, position: Option<Playtime>, has_lyrics: bool) -> (
    content: PanelContent)
    ensures
        content == content_of(track, position, has_lyrics),
{
    match track {
        None => PanelContent::Empty,
        Some(track) => PanelContent::Loaded {
            duration: or_zero(track.metadata.duration),
            position: or_zero(position),
            line: title_line(has_lyrics),
        },
    }
}

/// How the button for shuffled playback looks: in the accent colour or not, and
/// shining or not.
pub fn shuffle_icon(mode: ShuffleMode) -> (look: (bool, bool))
    ensures
        look == match mode {
            ShuffleMode::Off => (false, false),
            ShuffleMode::Pure => (true, false),
            ShuffleMode::Smart => (true, true),
        },
{
    match mode {
        ShuffleMode::Off => (false, false),
        ShuffleMode::Pure => (true, false),
        ShuffleMode::Smart => (true, true),
    }
}

/// The style rule that gives the cover's place the colour of the cover.
pub fn artwork_dominant_color_css(background: &str) -> (css: String)
    ensures
        css@ == ".now-playing-artwork-dominant { background-color: "@ + background@ + "; }"@,
{
    let mut css = ".now-playing-artwork-dominant { background-color: ".to_owned();
    css.append(background);
    css.append("; }");
    css
}

/// What is shown for a track: that its cover is fetched iff it is this track
/// whose cover is fetched, and else whether it has a cover.
pub proof fn law_the_page_tells_of_the_track(
    track_id: Option<TrackId>,
    fetching: Option<TrackId>,
    has_cover: bool,
)
    ensures
        page_for(track_id, fetching, has_cover) == ArtworkPage::Fetching <==> (track_id is Some
            && fetching is Some && track_id->0 == fetching->0),
        page_for(track_id, fetching, has_cover) == ArtworkPage::Present ==> has_cover,
        page_for(track_id, fetching, has_cover) == ArtworkPage::Missing ==> !has_cover,
{
}

/// A click zooms the cover that is shown; where there is none it fetches that of
/// the track that plays, unless one is fetched already; and while a cover is
/// fetched it does nothing.
pub proof fn law_a_click_zooms_or_fetches(state: NowPlayingArtwork, current: Option<TrackId>)
    ensures
        state.click(current) == ClickStep::OpenOverlay <==> state.page == ArtworkPage::Present,
        state.click(current) matches ClickStep::Fetch(id) ==> current == Some(id) && state.page
            == ArtworkPage::Missing && state.fetching is None,
        state.page == ArtworkPage::Missing && state.fetching is None && current is Some
            ==> state.click(current) == ClickStep::Fetch(current->0),
        state.page == ArtworkPage::Fetching ==> state.click(current) == ClickStep::Nothing,
{
}

/// Refreshing the panel for the same file keeps its cover and the generation, as
/// often as it happens; another file has its cover loaded under a new generation
/// where it is not known yet, and outdates what was asked for before.
pub proof fn law_only_another_file_brings_another_cover(
    before: NowPlayingArtwork,
    after: NowPlayingArtwork,
    later: NowPlayingArtwork,
    track_id: Option<TrackId>,
    source: Option<&ArtworkSource>,
    at_hand: CoverAtHand,
    then_at_hand: CoverAtHand,
    step: ArtworkStep,
    next: ArtworkStep,
)
    requires
        before.takes_in(after, track_id, source, at_hand, step),
        after.takes_in(later, track_id, source, then_at_hand, next),
    ensures
        next == ArtworkStep::Keep,
        later.generation == after.generation,
        paths::components(after.path) == paths::components(source_path(source)),
        paths::components(before.path) == paths::components(source_path(source)) ==> step
            == ArtworkStep::Keep && after.takes(before.generation),
        paths::components(before.path) != paths::components(source_path(source)) ==> {
            &&& !after.takes(before.generation)
            &&& step != ArtworkStep::Keep
            &&& step == ArtworkStep::Clear <==> source is None
            &&& source is Some && at_hand == CoverAtHand::Unknown ==> step == (ArtworkStep::Load {
                generation: after.generation,
            })
            &&& source is Some && at_hand != CoverAtHand::Unknown ==> step
                == ArtworkStep::ShowDecoded
        },
        after.page == ArtworkPage::Present <==> source is Some && at_hand == CoverAtHand::Decoded
            && !(track_id is Some && before.fetching == track_id),
        after.fetching == before.fetching,
{
    if before.moves_to(source) {
        lemma_same_bytes_same_components(after.path, source_path(source));
    }
}

proof fn lemma_same_bytes_same_components(left: Option<PathBuf>, right: Option<PathBuf>)
    requires
        paths::bytes_view(left) == paths::bytes_view(right),
    ensures
        paths::components(left) == paths::components(right),
{
}

/// A fetch that has ended is no longer under way, and its notification is taken
/// down; a fetch for another track goes on. Only for the track that plays is the
/// cover looked at anew.
pub proof fn law_a_fetch_that_ended_is_over(
    state: NowPlayingArtwork,
    track_id: TrackId,
    current: Option<TrackId>,
)
    ensures
        ({
            let after = state.after_fetch(track_id, current);
            &&& after.fetching != Some(track_id)
            &&& state.fetching != Some(track_id) ==> after.fetching == state.fetching
            &&& after.notification is None
            &&& current == Some(track_id) ==> after.path is None
            &&& current != Some(track_id) ==> after.path == state.path
            &&& after.generation == state.generation && after.page == state.page
                && after.prefetched == state.prefetched
        }),
{
}

/// Lyrics with times come before plain ones; either is shown only where it is
/// not blank, and as it stands.
pub proof fn law_lyrics_with_times_come_first(
    synced: Option<Seq<Seq<char>>>,
    plain: Option<Seq<char>>,
)
    ensures
        ({
            let timed = match synced {
                Some(lines) => Some(text::joined(lines, "\n"@)),
                None => None,
            };
            &&& !text::blank(timed) ==> lyrics_of(synced, plain) == timed
            &&& text::blank(timed) && !text::blank(plain) ==> lyrics_of(synced, plain) == plain
            &&& text::blank(timed) && text::blank(plain) ==> lyrics_of(synced, plain) is None
        }),
{
    if let Some(lines) = synced {
        text::law_trimming_leaves_a_text_unless_it_is_blank(text::joined(lines, "\n"@));
    }
    if let Some(plain) = plain {
        text::law_trimming_leaves_a_text_unless_it_is_blank(plain);
    }
}

/// The panel is empty iff nothing plays; else it shows how long the track is and
/// how far it was played, which are zero where they are not known, and narrows
/// the title where there are lyrics.
pub proof fn law_the_panel_shows_how_far_the_track_was_played(
    track: Option<&Track>,
    position: Option<Playtime>,
    has_lyrics: bool,
)
    ensures
        content_of(track, position, has_lyrics) is Empty <==> track is None,
        content_of(track, position, has_lyrics) matches PanelContent::Loaded {
            duration,
            position: shown,
            line,
        } ==> {
            &&& track->0.metadata.duration matches Some(known) ==> duration == known
            &&& track->0.metadata.duration is None ==> duration.seconds == 0 && duration.nanos == 0
            &&& position matches Some(known) ==> shown == known
            &&& position is None ==> shown.seconds == 0 && shown.nanos == 0
            &&& line.lyrics_chip == has_lyrics && line.truncates == has_lyrics
            &&& has_lyrics ==> line.max_width < line_of(false).max_width
        },
{
}

/// The cover of the next track is decoded ahead of time once for each file, and
/// not where it is at hand; what is shown stays as it is.
pub proof fn law_a_cover_is_prefetched_once(
    before: NowPlayingArtwork,
    between: NowPlayingArtwork,
    after: NowPlayingArtwork,
    source: &ArtworkSource,
    at_hand: bool,
    at_hand_again: bool,
    first: bool,
    second: bool,
)
    requires
        before.prefetches(source, at_hand, first, between),
        between.prefetches(source, at_hand_again, second, after),
    ensures
        at_hand ==> !first,
        !second,
        before.prefetched is None && !at_hand ==> first,
        after.page == before.page && after.generation == before.generation,
{
}

} // verus!
