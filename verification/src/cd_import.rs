//! The page from which an audio CD is imported: which release it shows, which
//! tracks are ticked, and what is imported.

use std::collections::BTreeMap;

use vstd::prelude::*;

use crate::seqs;
use crate::text;
use crate::text::{format_minutes, join, push_signed, push_two_digits, trim};

verus! {

/// A track of a disc.
#[derive(Clone, Copy, Debug, PartialEq, Eq, Structural)]
pub struct TocTrack {
    pub number: u32,
    pub duration_seconds: u64,
}

/// What is on a disc.
#[derive(Clone, Debug)]
pub struct TocSnapshot {
    pub device_path: String,
    pub disc_id: String,
    /// By what the disc is known again, as the reader of the disc names it.
    pub identity: String,
    pub tracks: Vec<TocTrack>,
}

/// A track of a release.
#[derive(Debug)]
pub struct DiscTrack {
    pub title: Option<String>,
    pub artist_credit: Option<String>,
}

/// A release that a disc may be.
#[derive(Debug)]
pub struct DiscRelease {
    pub release_mbid: String,
    pub title: Option<String>,
    pub artist_credit: Option<String>,
    pub year: Option<i32>,
    pub country: Option<String>,
    pub label: Option<String>,
    pub is_compilation: bool,
    pub tracks: Vec<DiscTrack>,
}

/// What the user has typed for a track.
#[derive(Debug)]
pub struct CdTrackOverride {
    pub title: Option<String>,
    pub artist: Option<String>,
}

/// What of a track the user edits.
#[derive(Clone, Copy, Debug, PartialEq, Eq, Structural)]
pub enum OverrideField {
    Title,
    Artist,
}

// ---------------------------------------------------------------------------
// Choosing a release
// ---------------------------------------------------------------------------

/// A text unless it is absent or blank. It is not trimmed.
pub open spec fn unless_blank(value: Option<Seq<char>>) -> Option<Seq<char>> {
    match value {
        Some(text) if text::trimmed(text).len() > 0 => Some(text),
        _ => None,
    }
}

/// A text unless it is absent or blank.
pub fn non_blank(value: &Option<String>) -> (text: Option<&str>)
    ensures
        text is Some <==> unless_blank(value.deep_view()) is Some,
        text matches Some(text) ==> unless_blank(value.deep_view()) == Some(text@),
{
    match value {
        Some(text) => {
            if trim(text.as_str()).is_empty() {
                None
            } else {
                Some(text.as_str())
            }
        },
        None => None,
    }
}

/// How reasonable a release is to choose; larger is better. No compilation is
/// better than one; then the release of which more is known; then the earlier
/// one, with an unknown year last.
pub open spec fn rank_of(release: DiscRelease) -> (int, int, int) {
    (
        if release.is_compilation { 0 } else { 1 },
        (if release.year is Some { 1int } else { 0 }) + (if unless_blank(
            release.label.deep_view(),
        ) is Some { 1int } else { 0 }) + (if unless_blank(
            release.country.deep_view(),
        ) is Some { 1int } else { 0 }),
        match release.year {
            Some(year) => u32::MAX - (if year > 0 { year as int } else { 0 }),
            None => 0,
        },
    )
}

/// Whether one rank is better than another.
pub open spec fn rank_better(left: (int, int, int), right: (int, int, int)) -> bool {
    left.0 > right.0 || left.0 == right.0 && (left.1 > right.1 || left.1 == right.1 && left.2
        > right.2)
}

/// How reasonable a release is to choose.
pub fn release_rank(release: &DiscRelease) -> (rank: (u8, u8, u32))
    ensures
        (rank.0 as int, rank.1 as int, rank.2 as int) == rank_of(*release),
{
    let not_compilation: u8 = if release.is_compilation { 0 } else { 1 };
    let mut completeness: u8 = 0;
    if release.year.is_some() {
        completeness = completeness + 1;
    }
    if non_blank(&release.label).is_some() {
        completeness = completeness + 1;
    }
    if non_blank(&release.country).is_some() {
        completeness = completeness + 1;
    }
    let earliest: u32 = match release.year {
        Some(year) => {
            let year: u32 = if year > 0 { year as u32 } else { 0 };
            u32::MAX - year
        },
        None => 0,
    };
    (not_compilation, completeness, earliest)
}

/// `best` is the first of the most reasonable releases.
pub open spec fn is_most_reasonable(releases: Seq<DiscRelease>, best: int) -> bool {
    &&& 0 <= best < releases.len()
    &&& forall|i: int|
        0 <= i < releases.len() ==> !rank_better(
            rank_of(#[trigger] releases[i]),
            rank_of(releases[best]),
        )
    &&& forall|i: int|
        0 <= i < best ==> rank_better(rank_of(releases[best]), rank_of(#[trigger] releases[i]))
}

/// The first of the most reasonable releases, if there is any.
pub fn most_reasonable_release_index(releases: &[DiscRelease]) -> (best: Option<usize>)
    ensures
        match best {
            Some(best) => is_most_reasonable(releases@, best as int),
            None => releases@.len() == 0,
        },
{
    if releases.len() == 0 {
        return None;
    }
    let mut best: usize = 0;
    let mut best_rank = release_rank(&releases[0]);
    let mut index: usize = 1;
    while index < releases.len()
        invariant
            best < index <= releases@.len(),
            (best_rank.0 as int, best_rank.1 as int, best_rank.2 as int) == rank_of(
                releases@[best as int],
            ),
            forall|i: int|
                0 <= i < index ==> !rank_better(
                    rank_of(#[trigger] releases@[i]),
                    rank_of(releases@[best as int]),
                ),
            forall|i: int|
                0 <= i < best ==> rank_better(
                    rank_of(releases@[best as int]),
                    rank_of(#[trigger] releases@[i]),
                ),
        decreases releases.len() - index,
    {
        let rank = release_rank(&releases[index]);
        if rank.0 > best_rank.0 || (rank.0 == best_rank.0 && (rank.1 > best_rank.1 || (rank.1
            == best_rank.1 && rank.2 > best_rank.2))) {
            best = index;
            best_rank = rank;
        }
        index = index + 1;
    }
    Some(best)
}

/// The only release that could be chosen: two that are each the first of the
/// most reasonable are one.
pub proof fn law_most_reasonable_is_unique(releases: Seq<DiscRelease>, a: int, b: int)
    requires
        is_most_reasonable(releases, a),
        is_most_reasonable(releases, b),
    ensures
        a == b,
{
    if a < b {
        assert(rank_better(rank_of(releases[b]), rank_of(releases[a])));
    } else if b < a {
        assert(rank_better(rank_of(releases[a]), rank_of(releases[b])));
    }
}

// ---------------------------------------------------------------------------
// Texts
// ---------------------------------------------------------------------------

/// The title of a release, or a stand-in.
pub open spec fn release_title(release: Option<DiscRelease>) -> Seq<char> {
    match release {
        Some(release) => match unless_blank(release.title.deep_view()) {
            Some(title) => title,
            None => "Audio CD"@,
        },
        None => "Audio CD"@,
    }
}

/// A release among the candidates: its title, and its year where it is known.
pub fn release_selector_label(release: &DiscRelease) -> (label: String)
    ensures
        label@ == match release.year {
            Some(year) => release_title(Some(*release)) + " ("@ + text::signed_decimal(
                year as int,
            ) + ")"@,
            None => release_title(Some(*release)),
        },
{
    let mut label = match non_blank(&release.title) {
        Some(title) => title.to_owned(),
        None => "Audio CD".to_owned(),
    };
    if let Some(year) = release.year {
        label.append(" (");
        push_signed(&mut label, year as i64);
        label.append(")");
    }
    label
}

/// A text as a list of one, or no text.
pub open spec fn listed(value: Option<Seq<char>>) -> Seq<Seq<char>> {
    match value {
        Some(text) => seq![text],
        None => Seq::empty(),
    }
}

/// What is known of a release: its year, its label and its country.
pub open spec fn detail_parts(release: DiscRelease) -> Seq<Seq<char>> {
    listed(
        match release.year {
            Some(year) => Some(text::signed_decimal(year as int)),
            None => None,
        },
    ) + listed(unless_blank(release.label.deep_view())) + listed(
        unless_blank(release.country.deep_view()),
    )
}

/// What is known of a release.
pub fn release_details(release: &DiscRelease) -> (details: String)
    ensures
        details@ == text::joined(detail_parts(*release), " · "@),
{
    let mut parts: Vec<String> = Vec::new();
    let ghost year_part = listed(
        match release.year {
            Some(year) => Some(text::signed_decimal(year as int)),
            None => None,
        },
    );
    let ghost label_part = listed(unless_blank(release.label.deep_view()));
    assert(parts.deep_view() =~= Seq::empty());
    if let Some(year) = release.year {
        let mut text = String::new();
        push_signed(&mut text, year as i64);
        assert(text@ =~= text::signed_decimal(year as int));
        parts.push(text);
    }
    assert(parts.deep_view() =~= year_part);
    if let Some(label) = non_blank(&release.label) {
        parts.push(label.to_owned());
    }
    assert(parts.deep_view() =~= year_part + label_part);
    if let Some(country) = non_blank(&release.country) {
        parts.push(country.to_owned());
    }
    assert(parts.deep_view() =~= detail_parts(*release));
    join(parts.as_slice(), " · ")
}

/// The second line of the header: the artist, or a stand-in, and what is known
/// of the release.
pub open spec fn subtitle_of(release: Option<DiscRelease>) -> Seq<char> {
    match release {
        None => "Unknown Artist"@,
        Some(release) => {
            let artist = match unless_blank(release.artist_credit.deep_view()) {
                Some(artist) => artist,
                None => "Unknown Artist"@,
            };
            let details = text::joined(detail_parts(release), " · "@);
            if details.len() == 0 {
                artist
            } else {
                artist + " · "@ + details
            }
        },
    }
}

/// A borrowed value as a value of the specification.
pub open spec fn unborrowed<T>(value: Option<&T>) -> Option<T> {
    match value {
        Some(value) => Some(*value),
        None => None,
    }
}

/// The second line of the header.
pub fn subtitle_text(release: Option<&DiscRelease>) -> (subtitle: String)
    ensures
        subtitle@ == subtitle_of(unborrowed(release)),
{
    match release {
        None => "Unknown Artist".to_owned(),
        Some(release) => {
            let mut subtitle = match non_blank(&release.artist_credit) {
                Some(artist) => artist.to_owned(),
                None => "Unknown Artist".to_owned(),
            };
            let details = release_details(release);
            if !details.as_str().is_empty() {
                subtitle.append(" · ");
                subtitle.append(details.as_str());
            }
            subtitle
        },
    }
}

/// Tracks with this number.
pub open spec fn has_number(number: u32) -> spec_fn(TocTrack) -> bool {
    |track: TocTrack| track.number == number
}

/// The track of a release that stands where a track of the disc stands.
pub open spec fn matching_track(
    tracks: Seq<TocTrack>,
    release: Option<DiscRelease>,
    number: u32,
) -> Option<DiscTrack> {
    let index = seqs::first_index(tracks, has_number(number));
    match release {
        Some(release) if index < tracks.len() && index < release.tracks@.len() => Some(
            release.tracks@[index],
        ),
        _ => None,
    }
}

/// The title of a track of the disc: that of the release, or else its number.
pub open spec fn looked_up_title(
    tracks: Seq<TocTrack>,
    release: Option<DiscRelease>,
    number: u32,
) -> Seq<char> {
    let own = match matching_track(tracks, release, number) {
        Some(track) => unless_blank(track.title.deep_view()),
        None => None,
    };
    match own {
        Some(title) => title,
        None => "Track "@ + text::two_digits(number as nat),
    }
}

/// The artist of a track of the disc: that of the track, or else that of the
/// release, or else nothing.
pub open spec fn looked_up_artist(
    tracks: Seq<TocTrack>,
    release: Option<DiscRelease>,
    number: u32,
) -> Seq<char> {
    let own = match matching_track(tracks, release, number) {
        Some(track) => unless_blank(track.artist_credit.deep_view()),
        None => None,
    };
    let shared = match release {
        Some(release) => unless_blank(release.artist_credit.deep_view()),
        None => None,
    };
    match (own, shared) {
        (Some(artist), _) => artist,
        (None, Some(artist)) => artist,
        (None, None) => Seq::empty(),
    }
}

fn find_number(tracks: &Vec<TocTrack>, number: u32) -> (index: Option<usize>)
    ensures
        match index {
            Some(index) => index < tracks@.len() && index == seqs::first_index(
                tracks@,
                has_number(number),
            ),
            None => seqs::first_index(tracks@, has_number(number)) == tracks@.len(),
        },
{
    let test = |track: &TocTrack| -> (same: bool)
        ensures
            same == has_number(number)(*track),
    {
        track.number == number
    };
    seqs::find_first(tracks.as_slice(), test, Ghost(has_number(number)))
}

/// The title and the artist of a track of the disc under a release.
pub fn track_display(
    snapshot: &TocSnapshot,
    release: Option<&DiscRelease>,
    number: u32,
) -> (display: (String, String))
    ensures
        (display.0)@ == looked_up_title(snapshot.tracks@, unborrowed(release), number),
        (display.1)@ == looked_up_artist(snapshot.tracks@, unborrowed(release), number),
{
    let disc_track: Option<&DiscTrack> = match (release, find_number(&snapshot.tracks, number)) {
        (Some(release), Some(index)) => {
            if index < release.tracks.len() {
                Some(&release.tracks[index])
            } else {
                None
            }
        },
        _ => None,
    };
    assert(unborrowed(disc_track) == matching_track(snapshot.tracks@, unborrowed(release), number));
    let own_title = match disc_track {
        Some(track) => non_blank(&track.title),
        None => None,
    };
    let title = match own_title {
        Some(title) => title.to_owned(),
        None => {
            let mut title = "Track ".to_owned();
            push_two_digits(&mut title, number as u64);
            title
        },
    };
    let own_artist = match disc_track {
        Some(track) => non_blank(&track.artist_credit),
        None => None,
    };
    let shared_artist = match release {
        Some(release) => non_blank(&release.artist_credit),
        None => None,
    };
    let artist = match (own_artist, shared_artist) {
        (Some(artist), _) => artist.to_owned(),
        (None, Some(artist)) => artist.to_owned(),
        (None, None) => String::new(),
    };
    (title, artist)
}

/// How long a track plays.
pub fn format_duration(track: &TocTrack) -> (text: String)
    ensures
        text@ == text::minutes_text(track.duration_seconds as nat),
{
    format_minutes(track.duration_seconds)
}

// ---------------------------------------------------------------------------
// The page
// ---------------------------------------------------------------------------

/// A row of the checklist.
#[derive(Clone, Copy, Debug, PartialEq, Eq, Structural)]
pub struct TrackRow {
    pub number: u32,
    pub ticked: bool,
}

/// What the page shows in the place of the cover.
#[derive(Clone, Copy, Debug, PartialEq, Eq, Structural)]
pub enum CoverLayer {
    Placeholder,
    Searching,
    Cover,
}

/// What the page shows.
pub struct PanelState {
    pub snapshot: Option<TocSnapshot>,
    pub releases: Vec<DiscRelease>,
    pub selected_release: Option<usize>,
    pub cover: Option<Vec<u8>>,
    pub rows: Vec<TrackRow>,
    /// What the user has typed, by track number.
    pub overrides: BTreeMap<u32, CdTrackOverride>,
    pub selector_visible: bool,
    pub layer: CoverLayer,
}

/// What is imported.
pub struct CdImportRequest<'a> {
    pub snapshot: &'a TocSnapshot,
    pub selected_tracks: Vec<u32>,
    pub release: Option<&'a DiscRelease>,
    pub cover: &'a Option<Vec<u8>>,
    pub overrides: &'a BTreeMap<u32, CdTrackOverride>,
}

/// The rows of a disc, all of them ticked.
pub open spec fn ticked_rows(tracks: Seq<TocTrack>) -> Seq<TrackRow> {
    Seq::new(tracks.len(), |i: int| TrackRow { number: tracks[i].number, ticked: true })
}

/// The numbers of the rows that are ticked.
pub open spec fn ticked_numbers(rows: Seq<TrackRow>) -> Seq<u32>
    decreases rows.len(),
{
    if rows.len() == 0 {
        Seq::empty()
    } else {
        let earlier = ticked_numbers(rows.drop_last());
        if rows.last().ticked {
            earlier.push(rows.last().number)
        } else {
            earlier
        }
    }
}

/// A row is ticked iff there is a number to import.
proof fn lemma_ticked_numbers(rows: Seq<TrackRow>)
    ensures
        ticked_numbers(rows).len() > 0 <==> exists|i: int|
            0 <= i < rows.len() && (#[trigger] rows[i]).ticked,
    decreases rows.len(),
{
    if rows.len() > 0 {
        let rest = rows.drop_last();
        lemma_ticked_numbers(rest);
        if exists|i: int| 0 <= i < rows.len() && (#[trigger] rows[i]).ticked {
            let i = choose|i: int| 0 <= i < rows.len() && (#[trigger] rows[i]).ticked;
            if i < rest.len() {
                assert(rest[i].ticked);
            }
        }
        if ticked_numbers(rest).len() > 0 {
            let i = choose|i: int| 0 <= i < rest.len() && (#[trigger] rest[i]).ticked;
            assert(rows[i].ticked);
        }
        if rows.last().ticked {
            assert(rows[rows.len() - 1].ticked);
        }
    }
}

impl PanelState {
    /// A selected release is one of the candidates, and nothing but a disc has
    /// candidates.
    pub open spec fn wf(&self) -> bool {
        &&& self.selected_release matches Some(index) ==> index < self.releases@.len()
        &&& self.snapshot is None ==> self.releases@.len() == 0 && self.rows@.len() == 0
    }

    /// The release that is selected.
    pub open spec fn release(&self) -> Option<DiscRelease> {
        match self.selected_release {
            Some(index) => Some(self.releases@[index as int]),
            None => None,
        }
    }

    /// The page shows nothing: no disc, no release, no cover.
    pub open spec fn is_blank(&self) -> bool {
        &&& self.snapshot is None
        &&& self.releases@.len() == 0
        &&& self.selected_release is None
        &&& self.cover is None
        &&& self.rows@.len() == 0
        &&& self.overrides@ == Map::<u32, CdTrackOverride>::empty()
        &&& !self.selector_visible
        &&& self.layer == CoverLayer::Placeholder
    }

    /// A page without a disc.
    pub fn new() -> (state: Self)
        ensures
            state.wf(),
            state.is_blank(),
    {
        PanelState {
            snapshot: None,
            releases: Vec::new(),
            selected_release: None,
            cover: None,
            rows: Vec::new(),
            overrides: BTreeMap::new(),
            selector_visible: false,
            layer: CoverLayer::Placeholder,
        }
    }

    /// The release that is selected.
    pub fn selected_release(&self) -> (release: Option<&DiscRelease>)
        requires
            self.wf(),
        ensures
            unborrowed(release) == self.release(),
    {
        match self.selected_release {
            Some(index) => Some(&self.releases[index]),
            None => None,
        }
    }

    /// Shows a disc: all its tracks are ticked, and nothing is left of another.
    pub fn show_disc(&mut self, snapshot: TocSnapshot)
        requires
            old(self).wf(),
        ensures
            final(self).wf(),
            final(self).snapshot == Some(snapshot),
            final(self).releases@.len() == 0,
            final(self).selected_release is None,
            final(self).cover is None,
            final(self).rows@ == ticked_rows(snapshot.tracks@),
            final(self).overrides@ == Map::<u32, CdTrackOverride>::empty(),
            !final(self).selector_visible,
            final(self).layer == CoverLayer::Placeholder,
    {
        let mut rows: Vec<TrackRow> = Vec::new();
        let mut index: usize = 0;
        while index < snapshot.tracks.len()
            invariant
                index <= snapshot.tracks@.len(),
                rows@ == ticked_rows(snapshot.tracks@).take(index as int),
            decreases snapshot.tracks.len() - index,
        {
            rows.push(TrackRow { number: snapshot.tracks[index].number, ticked: true });
            assert(rows@ =~= ticked_rows(snapshot.tracks@).take(index as int + 1));
            index = index + 1;
        }
        assert(rows@ =~= ticked_rows(snapshot.tracks@));
        self.snapshot = Some(snapshot);
        self.releases = Vec::new();
        self.selected_release = None;
        self.cover = None;
        self.rows = rows;
        self.overrides = BTreeMap::new();
        self.selector_visible = false;
        self.layer = CoverLayer::Placeholder;
    }

    /// A lookup of the disc has begun.
    pub fn mark_lookup_started(&mut self)
        ensures
            *final(self) == (PanelState { layer: CoverLayer::Searching, ..*old(self) }),
    {
        self.layer = CoverLayer::Searching;
    }

    /// The page `after` has taken the candidates of a lookup in.
    pub open spec fn takes_releases(
        self,
        after: PanelState,
        releases: Vec<DiscRelease>,
        fetch_cover: bool,
    ) -> bool {
        if self.snapshot is None {
            !fetch_cover && after == self
        } else {
            &&& after == (PanelState {
                releases,
                selected_release: after.selected_release,
                selector_visible: releases@.len() > 1,
                layer: if fetch_cover {
                    CoverLayer::Searching
                } else {
                    CoverLayer::Placeholder
                },
                ..self
            })
            &&& fetch_cover == (releases@.len() > 0)
            &&& match after.selected_release {
                Some(best) => is_most_reasonable(releases@, best as int),
                None => releases@.len() == 0,
            }
        }
    }

    /// The page with a cover.
    pub open spec fn with_cover(self, cover: Option<Vec<u8>>, decoded: bool) -> PanelState {
        if self.snapshot is None {
            self
        } else {
            PanelState {
                cover,
                layer: if cover is Some && decoded {
                    CoverLayer::Cover
                } else {
                    CoverLayer::Placeholder
                },
                ..self
            }
        }
    }

    /// Takes in the candidates of a lookup. The most reasonable one is
    /// selected, and its cover is searched; with several the user can switch.
    /// Returns whether a cover has to be fetched. Without a disc nothing
    /// happens.
    pub fn apply_releases(&mut self, releases: Vec<DiscRelease>) -> (fetch_cover: bool)
        requires
            old(self).wf(),
        ensures
            final(self).wf(),
            old(self).takes_releases(*final(self), releases, fetch_cover),
    {
        if self.snapshot.is_none() {
            return false;
        }
        let selected = most_reasonable_release_index(releases.as_slice());
        let multiple = releases.len() > 1;
        self.releases = releases;
        self.selected_release = selected;
        self.selector_visible = multiple;
        if selected.is_some() {
            self.layer = CoverLayer::Searching;
            true
        } else {
            self.layer = CoverLayer::Placeholder;
            false
        }
    }

    /// `after` is the page once the user has switched to another candidate, and
    /// `fetch_cover` tells whether a cover has to be fetched.
    pub open spec fn switches(&self, index: usize, fetch_cover: bool, after: PanelState) -> bool {
        &&& after.selected_release == if index < self.releases@.len() {
            Some(index)
        } else {
            self.selected_release
        }
        &&& fetch_cover == (after.selected_release is Some)
        &&& after == (PanelState {
            selected_release: after.selected_release,
            layer: if fetch_cover {
                CoverLayer::Searching
            } else {
                self.layer
            },
            ..*self
        })
    }

    /// The user switches to another candidate. Returns whether a cover has to
    /// be fetched; a place behind the last candidate changes no selection.
    pub fn select_release(&mut self, index: usize) -> (fetch_cover: bool)
        requires
            old(self).wf(),
        ensures
            final(self).wf(),
            old(self).switches(index, fetch_cover, *final(self)),
    {
        if index < self.releases.len() {
            self.selected_release = Some(index);
        }
        if self.selected_release.is_some() {
            self.layer = CoverLayer::Searching;
            true
        } else {
            false
        }
    }

    /// Takes in a cover, and whether it could be decoded. Without a disc
    /// nothing happens.
    pub fn apply_cover(&mut self, cover: Option<Vec<u8>>, decoded: bool)
        requires
            old(self).wf(),
        ensures
            final(self).wf(),
            *final(self) == old(self).with_cover(cover, decoded),
    {
        if self.snapshot.is_none() {
            return;
        }
        self.layer = if cover.is_some() && decoded {
            CoverLayer::Cover
        } else {
            CoverLayer::Placeholder
        };
        self.cover = cover;
    }

    /// The disc is gone.
    pub fn forget_disc(&mut self)
        ensures
            final(self).wf(),
            final(self).is_blank(),
    {
        self.snapshot = None;
        self.releases = Vec::new();
        self.selected_release = None;
        self.cover = None;
        self.rows = Vec::new();
        self.overrides = BTreeMap::new();
        self.selector_visible = false;
        self.layer = CoverLayer::Placeholder;
    }

    /// Ticks a row or not.
    pub fn set_ticked(&mut self, index: usize, ticked: bool)
        requires
            old(self).wf(),
            index < old(self).rows@.len(),
        ensures
            final(self).wf(),
            final(self).rows@ == old(self).rows@.update(
                index as int,
                TrackRow { number: old(self).rows@[index as int].number, ticked },
            ),
            *final(self) == (PanelState { rows: final(self).rows, ..*old(self) }),
    {
        let number: u32 = self.rows[index].number;
        self.rows.set(index, TrackRow { number, ticked });
    }

    /// What is typed for a track.
    pub open spec fn typed(&self, number: u32) -> (Option<Seq<char>>, Option<Seq<char>>) {
        if self.overrides@.contains_key(number) {
            let over = self.overrides@[number];
            (over.title.deep_view(), over.artist.deep_view())
        } else {
            (None, None)
        }
    }

    /// `after` is the page once the user has typed a title or an artist for a
    /// track.
    pub open spec fn types(
        &self,
        number: u32,
        field: OverrideField,
        value: Seq<char>,
        after: PanelState,
    ) -> bool {
        &&& after.typed(number) == match field {
            OverrideField::Title => (Some(value), self.typed(number).1),
            OverrideField::Artist => (self.typed(number).0, Some(value)),
        }
        &&& forall|other: u32|
            other != number ==> #[trigger] after.typed(other) == self.typed(other)
        &&& after == (PanelState { overrides: after.overrides, ..*self })
    }

    /// The user types a title or an artist for a track.
    pub fn set_track_override(&mut self, number: u32, field: OverrideField, value: String)
        requires
            old(self).wf(),
        ensures
            final(self).wf(),
            old(self).types(number, field, value@, *final(self)),
    {
        let (title, artist) = match self.overrides.remove(&number) {
            Some(over) => (over.title, over.artist),
            None => (None, None),
        };
        let over = match field {
            OverrideField::Title => CdTrackOverride { title: Some(value), artist },
            OverrideField::Artist => CdTrackOverride { title, artist: Some(value) },
        };
        self.overrides.insert(number, over);
    }

    /// The title of the page.
    pub fn title(&self) -> (title: String)
        requires
            self.wf(),
        ensures
            title@ == release_title(self.release()),
    {
        match self.selected_release() {
            Some(release) => match non_blank(&release.title) {
                Some(title) => title.to_owned(),
                None => "Audio CD".to_owned(),
            },
            None => "Audio CD".to_owned(),
        }
    }

    /// The second line of the header.
    pub fn subtitle(&self) -> (subtitle: String)
        requires
            self.wf(),
        ensures
            subtitle@ == subtitle_of(self.release()),
    {
        subtitle_text(self.selected_release())
    }

    /// The title and the artist that a row shows: what the user has typed, unless
    /// it is blank, and otherwise what was looked up.
    pub open spec fn displayed(&self, tracks: Seq<TocTrack>, number: u32) -> (
        Seq<char>,
        Seq<char>,
    ) {
        (
            match unless_blank(self.typed(number).0) {
                Some(title) => title,
                None => looked_up_title(tracks, self.release(), number),
            },
            match unless_blank(self.typed(number).1) {
                Some(artist) => artist,
                None => looked_up_artist(tracks, self.release(), number),
            },
        )
    }

    /// What a row shows: what the user has typed, unless it is blank, and
    /// otherwise what was looked up.
    pub fn row_display(&self, snapshot: &TocSnapshot, number: u32) -> (display: (String, String))
        requires
            self.wf(),
        ensures
            ((display.0)@, (display.1)@) == self.displayed(snapshot.tracks@, number),
    {
        let (mut title, mut artist) = track_display(snapshot, self.selected_release(), number);
        if let Some(over) = self.overrides.get(&number) {
            if let Some(typed) = non_blank(&over.title) {
                title = typed.to_owned();
            }
            if let Some(typed) = non_blank(&over.artist) {
                artist = typed.to_owned();
            }
        }
        (title, artist)
    }

    /// The numbers of the tracks that are ticked.
    pub fn selected_track_numbers(&self) -> (numbers: Vec<u32>)
        ensures
            numbers@ == ticked_numbers(self.rows@),
    {
        let mut numbers: Vec<u32> = Vec::new();
        let mut index: usize = 0;
        assert(self.rows@.take(0) =~= Seq::empty());
        while index < self.rows.len()
            invariant
                index <= self.rows@.len(),
                numbers@ == ticked_numbers(self.rows@.take(index as int)),
            decreases self.rows.len() - index,
        {
            assert(self.rows@.take(index as int + 1).drop_last() =~= self.rows@.take(
                index as int,
            ));
            if self.rows[index].ticked {
                numbers.push(self.rows[index].number);
            }
            index = index + 1;
        }
        assert(self.rows@.take(index as int) =~= self.rows@);
        numbers
    }

    /// `request` is what would be imported.
    pub open spec fn asks_for<'a>(&self, request: Option<CdImportRequest<'a>>) -> bool {
        match request {
            Some(request) => {
                &&& self.snapshot == Some(*request.snapshot)
                &&& request.selected_tracks@ == ticked_numbers(self.rows@)
                &&& request.selected_tracks@.len() > 0
                &&& unborrowed(request.release) == self.release()
                &&& *request.cover == self.cover
                &&& *request.overrides == self.overrides
            },
            None => self.snapshot is None || ticked_numbers(self.rows@).len() == 0,
        }
    }

    /// What would be imported: nothing without a disc or a ticked track.
    pub fn current_request(&self) -> (request: Option<CdImportRequest<'_>>)
        requires
            self.wf(),
        ensures
            self.asks_for(request),
    {
        match &self.snapshot {
            None => None,
            Some(snapshot) => {
                let selected_tracks = self.selected_track_numbers();
                if selected_tracks.is_empty() {
                    return None;
                }
                Some(
                    CdImportRequest {
                        snapshot,
                        selected_tracks,
                        release: self.selected_release(),
                        cover: &self.cover,
                        overrides: &self.overrides,
                    },
                )
            },
        }
    }

    /// The page is ready for an import: a disc is shown, and a track is ticked.
    pub open spec fn is_ready(&self) -> bool {
        self.snapshot is Some && ticked_numbers(self.rows@).len() > 0
    }

    /// Whether the page is ready for an import.
    pub fn panel_ready_for_import(&self) -> (ready: bool)
        ensures
            ready == self.is_ready(),
    {
        proof {
            lemma_ticked_numbers(self.rows@);
        }
        if self.snapshot.is_none() {
            return false;
        }
        let mut index: usize = 0;
        while index < self.rows.len()
            invariant
                index <= self.rows@.len(),
                self.snapshot is Some,
                ticked_numbers(self.rows@).len() > 0 <==> exists|i: int|
                    0 <= i < self.rows@.len() && (#[trigger] self.rows@[i]).ticked,
                forall|i: int| 0 <= i < index ==> !(#[trigger] self.rows@[i]).ticked,
            decreases self.rows.len() - index,
        {
            if self.rows[index].ticked {
                return true;
            }
            index = index + 1;
        }
        false
    }

    /// Whether an import may start: the page is ready, the library has a place
    /// for the files, no other task runs, and discs can be read.
    pub fn import_allowed(
        &self,
        has_library_path: bool,
        task_running: bool,
        unavailable: bool,
    ) -> (allowed: bool)
        ensures
            allowed == (self.is_ready() && has_library_path && !task_running && !unavailable),
    {
        self.panel_ready_for_import() && has_library_path && !task_running && !unavailable
    }
}

/// A page from which the disc was taken imports nothing.
pub proof fn law_blank_page_is_not_ready(state: PanelState)
    requires
        state.is_blank(),
    ensures
        !state.is_ready(),
        release_title(state.release()) == "Audio CD"@,
        subtitle_of(state.release()) == "Unknown Artist"@,
{
}

/// A disc with tracks can be imported as soon as it is shown, though nothing is
/// known of it.
pub proof fn law_shown_disc_is_ready(tracks: Seq<TocTrack>)
    requires
        tracks.len() > 0,
    ensures
        ticked_numbers(ticked_rows(tracks)) == Seq::new(
            tracks.len(),
            |i: int| tracks[i].number,
        ),
    decreases tracks.len(),
{
    let rows = ticked_rows(tracks);
    let rest = tracks.drop_last();
    let earlier = ticked_numbers(rows.drop_last());
    assert(rows.drop_last() =~= ticked_rows(rest));
    if rest.len() > 0 {
        law_shown_disc_is_ready(rest);
    } else {
        assert(ticked_rows(rest) =~= Seq::empty());
    }
    assert(earlier =~= Seq::new(rest.len(), |i: int| rest[i].number));
    assert(rows.last() == TrackRow { number: tracks.last().number, ticked: true });
    assert(ticked_numbers(rows) == earlier.push(tracks.last().number));
    assert(ticked_numbers(rows) =~= Seq::new(tracks.len(), |i: int| tracks[i].number));
}

/// `at` is the place of the first track of the disc with this number.
pub open spec fn numbered_at(tracks: Seq<TocTrack>, number: u32, at: int) -> bool {
    &&& 0 <= at < tracks.len()
    &&& tracks[at].number == number
    &&& forall|i: int| 0 <= i < at ==> (#[trigger] tracks[i]).number != number
}

/// What the release says of the track at the place of the disc's track comes
/// first: its title, and its artist, whatever the artist of the release. Only
/// where the track names no artist is that of the release shown, and only where
/// it has no title is it called by its number.
pub proof fn law_a_track_of_the_release_speaks_for_itself(
    tracks: Seq<TocTrack>,
    release: DiscRelease,
    number: u32,
    at: int,
)
    requires
        numbered_at(tracks, number, at),
        at < release.tracks@.len(),
    ensures
        ({
            let own = release.tracks@[at];
            let title = looked_up_title(tracks, Some(release), number);
            let artist = looked_up_artist(tracks, Some(release), number);
            &&& !text::blank(own.title.deep_view()) ==> own.title is Some && title
                == (own.title->0)@
            &&& text::blank(own.title.deep_view()) ==> title == "Track "@ + text::two_digits(
                number as nat,
            )
            &&& !text::blank(own.artist_credit.deep_view()) ==> own.artist_credit is Some
                && artist == (own.artist_credit->0)@
            &&& text::blank(own.artist_credit.deep_view()) && !text::blank(
                release.artist_credit.deep_view(),
            ) ==> release.artist_credit is Some && artist == (release.artist_credit->0)@
            &&& text::blank(own.artist_credit.deep_view()) && text::blank(
                release.artist_credit.deep_view(),
            ) ==> artist.len() == 0
        }),
{
    seqs::lemma_is_first_index(tracks, has_number(number), at);
    let own = release.tracks@[at];
    lemma_unless_blank(own.title.deep_view());
    lemma_unless_blank(own.artist_credit.deep_view());
    lemma_unless_blank(release.artist_credit.deep_view());
}

/// A track that the release does not list is called by its number, and has the
/// artist of the release; without a release it has none.
pub proof fn law_an_unlisted_track_is_called_by_its_number(
    tracks: Seq<TocTrack>,
    release: Option<DiscRelease>,
    number: u32,
)
    requires
        release matches Some(release) ==> forall|at: int| #[trigger]
            numbered_at(tracks, number, at) ==> at >= release.tracks@.len(),
    ensures
        looked_up_title(tracks, release, number) == "Track "@ + text::two_digits(number as nat),
        ({
            let artist = looked_up_artist(tracks, release, number);
            match release {
                Some(release) => if text::blank(release.artist_credit.deep_view()) {
                    artist.len() == 0
                } else {
                    release.artist_credit is Some && artist == (release.artist_credit->0)@
                },
                None => artist.len() == 0,
            }
        }),
{
    let at = seqs::first_index(tracks, has_number(number));
    seqs::lemma_first_index(tracks, has_number(number));
    if at < tracks.len() {
        assert forall|i: int| 0 <= i < at implies (#[trigger] tracks[i]).number != number by {
            assert(!has_number(number)(tracks[i]));
        }
        assert(numbered_at(tracks, number, at));
    }
    if let Some(release) = release {
        lemma_unless_blank(release.artist_credit.deep_view());
    }
}

/// A text that is not blank is taken as it is; a blank one counts as none.
proof fn lemma_unless_blank(value: Option<Seq<char>>)
    ensures
        unless_blank(value) == if text::blank(value) {
            None
        } else {
            value
        },
{
    if let Some(text) = value {
        text::law_trimming_leaves_a_text_unless_it_is_blank(text);
    }
}

/// What the user types for a track is what its row shows, whatever was looked
/// up. Where they have typed nothing, or nothing but white space, the row shows
/// what was looked up.
pub proof fn law_what_is_typed_is_shown(panel: PanelState, tracks: Seq<TocTrack>, number: u32)
    ensures
        ({
            let (title, artist) = panel.displayed(tracks, number);
            let overrides = panel.overrides@;
            let over = overrides[number];
            &&& overrides.contains_key(number) && !text::blank(over.title.deep_view())
                ==> over.title is Some && title == (over.title->0)@
            &&& overrides.contains_key(number) && !text::blank(over.artist.deep_view())
                ==> over.artist is Some && artist == (over.artist->0)@
            &&& !overrides.contains_key(number) || text::blank(over.title.deep_view()) ==> title
                == looked_up_title(tracks, panel.release(), number)
            &&& !overrides.contains_key(number) || text::blank(over.artist.deep_view()) ==> artist
                == looked_up_artist(tracks, panel.release(), number)
        }),
{
    lemma_unless_blank(panel.typed(number).0);
    lemma_unless_blank(panel.typed(number).1);
}

/// The number of a track is imported iff its row is ticked; the numbers keep the
/// order of the rows.
pub proof fn law_exactly_the_ticked_tracks_are_imported(rows: Seq<TrackRow>)
    ensures
        seqs::lists(
            ticked_numbers(rows),
            rows.len(),
            |i: int| rows[i].ticked,
            |i: int| rows[i].number,
        ),
{
    lemma_ticked_upto(rows, rows.len());
    assert(rows.take(rows.len() as int) =~= rows);
}

proof fn lemma_ticked_upto(rows: Seq<TrackRow>, upto: nat)
    requires
        upto <= rows.len(),
    ensures
        seqs::lists(
            ticked_numbers(rows.take(upto as int)),
            upto,
            |i: int| rows[i].ticked,
            |i: int| rows[i].number,
        ),
    decreases upto,
{
    let wanted = |i: int| rows[i].ticked;
    let item = |i: int| rows[i].number;
    if upto == 0 {
        assert(rows.take(0) =~= Seq::empty());
        seqs::lemma_lists_nothing(wanted, item);
    } else {
        let fewer = (upto - 1) as nat;
        lemma_ticked_upto(rows, fewer);
        assert(rows.take(upto as int).drop_last() =~= rows.take(fewer as int));
        assert(rows.take(upto as int).last() == rows[fewer as int]);
        seqs::lemma_lists_one_more(
            ticked_numbers(rows.take(fewer as int)),
            fewer,
            wanted,
            item,
        );
    }
}

/// How much is known of where and when a release came out.
pub open spec fn facts_known(release: DiscRelease) -> int {
    (if release.year is Some { 1int } else { 0 }) + (if text::blank(release.label.deep_view()) {
        0int
    } else {
        1
    }) + (if text::blank(release.country.deep_view()) { 0int } else { 1 })
}

/// The release that is chosen is no compilation where there is one that is none;
/// of those alike in this, none is better known; of those as well known, none is
/// older; and of those as old, none comes before it. A year before the first
/// counts as the year zero, and a known year comes before an unknown one.
pub proof fn law_the_chosen_release_is_the_best(releases: Seq<DiscRelease>, best: int, i: int)
    requires
        is_most_reasonable(releases, best),
        0 <= i < releases.len(),
    ensures
        ({
            let (chosen, other) = (releases[best], releases[i]);
            let year = |release: DiscRelease|
                match release.year {
                    Some(year) => if year > 0 { year as int } else { 0int },
                    None => u32::MAX as int,
                };
            &&& chosen.is_compilation ==> other.is_compilation
            &&& chosen.is_compilation == other.is_compilation ==> {
                &&& facts_known(chosen) >= facts_known(other)
                &&& facts_known(chosen) == facts_known(other) ==> {
                    &&& year(chosen) <= year(other)
                    &&& year(chosen) == year(other) ==> best <= i
                }
            }
        }),
{
    lemma_facts_known(releases[best]);
    lemma_facts_known(releases[i]);
    assert(!rank_better(rank_of(releases[i]), rank_of(releases[best])));
    if i < best {
        assert(rank_better(rank_of(releases[best]), rank_of(releases[i])));
    }
}

proof fn lemma_facts_known(release: DiscRelease)
    ensures
        rank_of(release).1 == facts_known(release),
{
    lemma_unless_blank(release.label.deep_view());
    lemma_unless_blank(release.country.deep_view());
}

/// The header calls a release by its title and by its artist, and says what is
/// known of it: its year, then its label, then its country.
pub proof fn law_the_header_tells_of_the_release(release: DiscRelease)
    ensures
        !text::blank(release.title.deep_view()) ==> release.title is Some && release_title(
            Some(release),
        ) == (release.title->0)@,
        text::blank(release.title.deep_view()) ==> release_title(Some(release)) == "Audio CD"@,
        ({
            let parts = detail_parts(release);
            let (year, label, country) = (
                release.year is Some,
                !text::blank(release.label.deep_view()),
                !text::blank(release.country.deep_view()),
            );
            let before_label: int = if year { 1 } else { 0 };
            let before_country: int = before_label + if label { 1int } else { 0int };
            &&& parts.len() == facts_known(release)
            &&& year ==> parts[0] == text::signed_decimal(release.year->0 as int)
            &&& label ==> parts[before_label] == (release.label->0)@
            &&& country ==> parts[before_country] == (release.country->0)@
        }),
        ({
            let artist = if text::blank(release.artist_credit.deep_view()) {
                "Unknown Artist"@
            } else {
                (release.artist_credit->0)@
            };
            let subtitle = subtitle_of(Some(release));
            &&& artist.len() <= subtitle.len()
            &&& subtitle.take(artist.len() as int) == artist
            &&& facts_known(release) == 0 ==> subtitle == artist
        }),
{
    lemma_unless_blank(release.title.deep_view());
    lemma_unless_blank(release.label.deep_view());
    lemma_unless_blank(release.country.deep_view());
    lemma_unless_blank(release.artist_credit.deep_view());
    let artist = if text::blank(release.artist_credit.deep_view()) {
        "Unknown Artist"@
    } else {
        (release.artist_credit->0)@
    };
    let subtitle = subtitle_of(Some(release));
    assert(subtitle.take(artist.len() as int) =~= artist);
    if facts_known(release) == 0 {
        assert(detail_parts(release) =~= Seq::empty());
    }
}

/// The candidates of a lookup fill the page of a disc, and no other: the best is
/// selected, its cover is fetched, and the user can switch where there are
/// several. What was ticked and typed stays.
pub proof fn law_a_lookup_fills_the_page_of_a_disc(
    before: PanelState,
    after: PanelState,
    releases: Vec<DiscRelease>,
    fetch_cover: bool,
)
    requires
        before.takes_releases(after, releases, fetch_cover),
    ensures
        before.snapshot is None ==> after == before && !fetch_cover,
        before.snapshot is Some ==> {
            &&& after.releases@ == releases@
            &&& after.selected_release is Some <==> releases@.len() > 0
            &&& after.selected_release matches Some(best) ==> is_most_reasonable(
                releases@,
                best as int,
            )
            &&& fetch_cover <==> releases@.len() > 0
            &&& after.selector_visible <==> releases@.len() > 1
            &&& after.layer == CoverLayer::Searching <==> releases@.len() > 0
            &&& after.layer != CoverLayer::Cover
        },
        after.snapshot == before.snapshot,
        after.rows == before.rows,
        after.overrides == before.overrides,
        after.cover == before.cover,
{
}

/// A cover that was found is shown iff it could be decoded, on the page of a
/// disc; all else on the page stays.
pub proof fn law_a_cover_is_shown_where_it_could_be_decoded(
    panel: PanelState,
    cover: Option<Vec<u8>>,
    decoded: bool,
)
    ensures
        panel.snapshot is None ==> panel.with_cover(cover, decoded) == panel,
        panel.snapshot is Some ==> {
            let after = panel.with_cover(cover, decoded);
            &&& after.cover == cover
            &&& after.layer == CoverLayer::Cover <==> cover is Some && decoded
            &&& after.layer == CoverLayer::Placeholder <==> !(cover is Some && decoded)
            &&& after.rows == panel.rows && after.overrides == panel.overrides && after.releases
                == panel.releases && after.selected_release == panel.selected_release
                && after.snapshot == panel.snapshot && after.selector_visible
                == panel.selector_visible
        },
{
}

/// The page is ready for an import iff it shows a disc of which a row is ticked.
pub proof fn law_the_page_is_ready_once_a_row_is_ticked(panel: PanelState)
    ensures
        panel.is_ready() <==> panel.snapshot is Some && exists|i: int|
            0 <= i < panel.rows@.len() && (#[trigger] panel.rows@[i]).ticked,
{
    lemma_ticked_numbers(panel.rows@);
}

/// The candidate to which the user switches is the one that is imported, with
/// the tracks, the cover and the typed texts that were there before; a place
/// behind the last candidate keeps the one that was chosen.
pub proof fn law_the_chosen_candidate_is_imported<'a>(
    before: PanelState,
    after: PanelState,
    index: usize,
    fetch_cover: bool,
    request: Option<CdImportRequest<'a>>,
)
    requires
        before.switches(index, fetch_cover, after),
        after.asks_for(request),
    ensures
        request matches Some(request) ==> {
            &&& index < before.releases@.len() ==> request.release is Some && *request.release->0
                == before.releases@[index as int]
            &&& index >= before.releases@.len() ==> unborrowed(request.release) == before.release()
            &&& request.selected_tracks@.len() > 0
            &&& *request.cover == before.cover
            &&& *request.overrides == before.overrides
            &&& Some(*request.snapshot) == before.snapshot
        },
        request is None ==> before.snapshot is None || forall|i: int|
            0 <= i < before.rows@.len() ==> !(#[trigger] before.rows@[i]).ticked,
        fetch_cover <==> index < before.releases@.len() || before.selected_release is Some,
        fetch_cover ==> after.layer == CoverLayer::Searching,
{
    if request is None && before.snapshot is Some {
        lemma_nothing_ticked(before.rows@);
    }
}

proof fn lemma_nothing_ticked(rows: Seq<TrackRow>)
    requires
        ticked_numbers(rows).len() == 0,
    ensures
        forall|i: int| 0 <= i < rows.len() ==> !(#[trigger] rows[i]).ticked,
    decreases rows.len(),
{
    if rows.len() > 0 {
        let rest = rows.drop_last();
        lemma_nothing_ticked(rest);
        assert forall|i: int| 0 <= i < rows.len() implies !(#[trigger] rows[i]).ticked by {
            if i < rest.len() {
                assert(rows[i] == rest[i]);
            }
        }
    }
}

/// A title that the user types is the title that the row of the track shows from
/// then on, and its artist stays; an artist that they type is the artist that
/// the row shows, and its title stays. The rows of other tracks stay as they
/// are, and so does what is ticked.
pub proof fn law_a_row_shows_what_is_typed_for_it(
    before: PanelState,
    after: PanelState,
    tracks: Seq<TocTrack>,
    number: u32,
    field: OverrideField,
    value: Seq<char>,
    other: u32,
)
    requires
        before.types(number, field, value, after),
        !text::blank(Some(value)),
        other != number,
    ensures
        field is Title ==> after.displayed(tracks, number) == (
            value,
            before.displayed(tracks, number).1,
        ),
        field is Artist ==> after.displayed(tracks, number) == (
            before.displayed(tracks, number).0,
            value,
        ),
        after.displayed(tracks, other) == before.displayed(tracks, other),
        after.rows == before.rows && after.releases == before.releases,
{
    lemma_unless_blank(Some(value));
}

} // verus!
