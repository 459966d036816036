//! Albums as the album view shows them, grouped from the library's tracks.

use std::path::PathBuf;

use vstd::prelude::*;

use crate::library::{Track, TrackId, TrackMetadata};
use crate::paths;
use crate::paths::file_stem_text;
use crate::seqs;
use crate::sorting::{stable_sort, Ranked};
use crate::text;
use crate::text::{join, non_empty_text, order_texts, push_decimal, push_signed, push_two_digits,
    to_lowercase, trim, Order};

verus! {

// ---------------------------------------------------------------------------
// Keys
// ---------------------------------------------------------------------------

/// Stable identity of an album: the normalized grouping artist and title by
/// which its tracks were put together. It outlives the grouping: whenever the
/// same tracks are grouped anew, albums share a key iff they cover the same
/// tracks.
#[derive(Debug, PartialEq, Eq, Hash, PartialOrd, Ord)]
pub struct AlbumKey {
    pub artist: String,
    pub title: String,
}

impl View for AlbumKey {
    type V = (Seq<char>, Seq<char>);

    open spec fn view(&self) -> (Seq<char>, Seq<char>) {
        (self.artist@, self.title@)
    }
}

impl Clone for AlbumKey {
    fn clone(&self) -> (copy: Self)
        ensures
            copy@ == self@,
    {
        AlbumKey { artist: self.artist.clone(), title: self.title.clone() }
    }
}

/// The order of two keys: by artist, then by title.
pub open spec fn key_order(
    left: (Seq<char>, Seq<char>),
    right: (Seq<char>, Seq<char>),
) -> Order {
    match text::text_order(left.0, right.0) {
        Order::Same => text::text_order(left.1, right.1),
        order => order,
    }
}

impl AlbumKey {
    /// Whether both keys name the same album.
    pub fn same_as(&self, other: &AlbumKey) -> (same: bool)
        ensures
            same == (self@ == other@),
    {
        self.artist == other.artist && self.title == other.title
    }

    /// Compares two keys by artist, then by title.
    pub fn order(&self, other: &AlbumKey) -> (order: Order)
        ensures
            order == key_order(self@, other@),
    {
        match order_texts(self.artist.as_str(), other.artist.as_str()) {
            Order::Same => order_texts(self.title.as_str(), other.title.as_str()),
            order => order,
        }
    }
}

/// Keys that stand in the same place are the same key.
proof fn lemma_key_order_same(left: (Seq<char>, Seq<char>), right: (Seq<char>, Seq<char>))
    ensures
        key_order(left, right) == Order::Same <==> left == right,
{
    text::lemma_text_order_same(left.0, right.0);
    text::lemma_text_order_same(left.1, right.1);
}

/// Swapping two keys swaps their order.
pub proof fn lemma_key_order_swap(left: (Seq<char>, Seq<char>), right: (Seq<char>, Seq<char>))
    ensures
        key_order(left, right) == Order::Before <==> key_order(right, left) == Order::After,
{
    text::lemma_text_order_swap(left.0, right.0);
    text::lemma_text_order_swap(right.0, left.0);
    text::lemma_text_order_swap(left.1, right.1);
    text::lemma_text_order_swap(right.1, left.1);
}

/// The order of keys is transitive.
proof fn lemma_key_order_chain(
    a: (Seq<char>, Seq<char>),
    b: (Seq<char>, Seq<char>),
    c: (Seq<char>, Seq<char>),
)
    requires
        key_order(a, b) == Order::Before,
        key_order(b, c) == Order::Before,
    ensures
        key_order(a, c) == Order::Before,
{
    text::lemma_text_order_same(a.0, b.0);
    text::lemma_text_order_same(b.0, c.0);
    text::lemma_text_order_chain(a.0, b.0, c.0);
    if a.0 == b.0 && b.0 == c.0 {
        text::lemma_text_order_same(a.1, b.1);
        text::lemma_text_order_chain(a.1, b.1, c.1);
    }
}

/// The form of a text by which albums and artists are told apart.
pub open spec fn normalized(value: Seq<char>) -> Seq<char> {
    text::lowercase(text::trimmed(value))
}

/// The lower case of the trimmed text.
pub fn normalize_album_key(value: &str) -> (key: String)
    ensures
        key@ == normalized(value@),
{
    to_lowercase(trim(value))
}

// ---------------------------------------------------------------------------
// Tracks of an album
// ---------------------------------------------------------------------------

/// A track as a row of an album.
#[derive(Debug)]
pub struct AlbumTrackViewModel {
    pub id: TrackId,
    pub file_path: PathBuf,
    pub title: String,
    pub disc_number: Option<u32>,
    pub track_number: Option<u32>,
    pub duration_seconds: u64,
    pub is_missing: bool,
}

/// The contents of an [`AlbumTrackViewModel`].
#[verifier::ext_equal]
pub struct AlbumTrackView {
    pub id: TrackId,
    pub file_path: Seq<u8>,
    pub title: Seq<char>,
    pub disc_number: Option<u32>,
    pub track_number: Option<u32>,
    pub duration_seconds: u64,
    pub is_missing: bool,
}

impl View for AlbumTrackViewModel {
    type V = AlbumTrackView;

    open spec fn view(&self) -> AlbumTrackView {
        AlbumTrackView {
            id: self.id,
            file_path: paths::path_bytes(self.file_path),
            title: self.title@,
            disc_number: self.disc_number,
            track_number: self.track_number,
            duration_seconds: self.duration_seconds,
            is_missing: self.is_missing,
        }
    }
}

impl Clone for AlbumTrackViewModel {
    fn clone(&self) -> (copy: Self)
        ensures
            copy@ == self@,
    {
        AlbumTrackViewModel {
            id: self.id,
            file_path: self.file_path.clone(),
            title: self.title.clone(),
            disc_number: self.disc_number,
            track_number: self.track_number,
            duration_seconds: self.duration_seconds,
            is_missing: self.is_missing,
        }
    }
}

/// Two rows that show the same; paths are the same when their components are.
pub open spec fn rows_alike(left: AlbumTrackView, right: AlbumTrackView) -> bool {
    &&& left.id == right.id
    &&& paths::path_components(left.file_path) == paths::path_components(right.file_path)
    &&& left.title == right.title
    &&& left.disc_number == right.disc_number
    &&& left.track_number == right.track_number
    &&& left.duration_seconds == right.duration_seconds
    &&& left.is_missing == right.is_missing
}

fn same_number(left: Option<u32>, right: Option<u32>) -> (same: bool)
    ensures
        same == (left == right),
{
    match (left, right) {
        (Some(left), Some(right)) => left == right,
        (None, None) => true,
        _ => false,
    }
}

impl AlbumTrackViewModel {
    /// Whether both rows show the same.
    pub fn same_as(&self, other: &AlbumTrackViewModel) -> (same: bool)
        ensures
            same == rows_alike(self@, other@),
    {
        self.id == other.id && paths::same_path(&self.file_path, &other.file_path) && self.title
            == other.title && same_number(self.disc_number, other.disc_number) && same_number(
            self.track_number,
            other.track_number,
        ) && self.duration_seconds == other.duration_seconds && self.is_missing == other.is_missing
    }
}

/// The value, or another where there is none.
pub open spec fn or_default<T>(value: Option<T>, default: T) -> T {
    match value {
        Some(inner) => inner,
        None => default,
    }
}

/// How one number stands to another.
pub open spec fn int_order(left: int, right: int) -> Order {
    if left < right {
        Order::Before
    } else if left > right {
        Order::After
    } else {
        Order::Same
    }
}

/// The order of two tracks of an album: by disc, where no disc counts as disc
/// zero; by track number, where none counts as the highest; by normalized
/// title; by identifier.
pub open spec fn track_order(left: AlbumTrackView, right: AlbumTrackView) -> Order {
    let disc = int_order(
        or_default(left.disc_number, 0) as int,
        or_default(right.disc_number, 0) as int,
    );
    let number = int_order(
        or_default(left.track_number, u32::MAX) as int,
        or_default(right.track_number, u32::MAX) as int,
    );
    let title = text::text_order(normalized(left.title), normalized(right.title));
    if disc != Order::Same {
        disc
    } else if number != Order::Same {
        number
    } else if title != Order::Same {
        title
    } else {
        int_order(left.id.value as int, right.id.value as int)
    }
}

/// Compares two tracks of an album.
pub fn compare_album_tracks(left: &AlbumTrackViewModel, right: &AlbumTrackViewModel) -> (order:
    Order)
    ensures
        order == track_order(left@, right@),
{
    let left_disc: u32 = left.disc_number.unwrap_or(0);
    let right_disc: u32 = right.disc_number.unwrap_or(0);
    if left_disc < right_disc {
        return Order::Before;
    }
    if left_disc > right_disc {
        return Order::After;
    }
    let left_number: u32 = left.track_number.unwrap_or(u32::MAX);
    let right_number: u32 = right.track_number.unwrap_or(u32::MAX);
    if left_number < right_number {
        return Order::Before;
    }
    if left_number > right_number {
        return Order::After;
    }
    let left_title = normalize_album_key(left.title.as_str());
    let right_title = normalize_album_key(right.title.as_str());
    match order_texts(left_title.as_str(), right_title.as_str()) {
        Order::Same => {
            if left.id.value < right.id.value {
                Order::Before
            } else if left.id.value > right.id.value {
                Order::After
            } else {
                Order::Same
            }
        },
        order => order,
    }
}

impl Ranked for AlbumTrackViewModel {
    open spec fn rank_leq(left: AlbumTrackView, right: AlbumTrackView) -> bool {
        track_order(left, right) != Order::After
    }

    proof fn rank_total(left: AlbumTrackView, right: AlbumTrackView) {
        text::lemma_text_order_swap(normalized(left.title), normalized(right.title));
        text::lemma_text_order_swap(normalized(right.title), normalized(left.title));
    }

    proof fn rank_transitive(a: AlbumTrackView, b: AlbumTrackView, c: AlbumTrackView) {
        let (x, y, z) = (normalized(a.title), normalized(b.title), normalized(c.title));
        text::lemma_text_order_same(x, y);
        text::lemma_text_order_same(y, z);
        text::lemma_text_order_same(x, z);
        if text::text_order(x, y) != Order::After && text::text_order(y, z) != Order::After {
            text::lemma_text_order_chain(x, y, z);
        }
    }

    fn ranks_before(&self, other: &Self) -> (before: bool) {
        match compare_album_tracks(self, other) {
            Order::After => false,
            _ => true,
        }
    }
}

/// The title under which a track is listed: its tag, or else the stem of its
/// file name, or else nothing.
pub open spec fn title_of(track: Track) -> Seq<char> {
    match text::filled(track.metadata.title.deep_view()) {
        Some(title) => title,
        None => match text::filled(paths::file_stem(paths::path_bytes(track.location.path))) {
            Some(stem) => stem,
            None => Seq::empty(),
        },
    }
}

/// The title under which a track is listed.
pub fn track_title(track: &Track) -> (title: String)
    ensures
        title@ == title_of(*track),
{
    match non_empty_text(&track.metadata.title) {
        Some(title) => title,
        None => {
            match non_empty_text(&file_stem_text(&track.location.path)) {
                Some(stem) => stem,
                None => String::new(),
            }
        },
    }
}

/// A track as a row of its album.
pub open spec fn track_row(track: Track) -> AlbumTrackView {
    AlbumTrackView {
        id: track.id,
        file_path: paths::path_bytes(track.location.path),
        title: title_of(track),
        disc_number: track.metadata.disc_number,
        track_number: track.metadata.track_number,
        duration_seconds: match track.metadata.duration {
            Some(duration) => duration.seconds,
            None => 0,
        },
        is_missing: track.location.missing,
    }
}

/// Tracks as rows of their album.
pub open spec fn track_rows(tracks: Seq<Track>) -> Seq<AlbumTrackView> {
    Seq::new(tracks.len(), |i: int| track_row(tracks[i]))
}

/// Turns a track into a row of its album.
pub fn album_track(track: &Track) -> (row: AlbumTrackViewModel)
    ensures
        row@ == track_row(*track),
{
    AlbumTrackViewModel {
        id: track.id,
        file_path: track.location.path(),
        title: track_title(track),
        disc_number: track.metadata.disc_number,
        track_number: track.metadata.track_number,
        duration_seconds: match track.metadata.duration {
            Some(duration) => duration.seconds,
            None => 0,
        },
        is_missing: track.location.is_missing(),
    }
}

// ---------------------------------------------------------------------------
// Grouping
// ---------------------------------------------------------------------------

/// The artist of a track, or a stand-in.
pub open spec fn artist_of(metadata: TrackMetadata) -> Seq<char> {
    match text::filled(metadata.artist.deep_view()) {
        Some(artist) => artist,
        None => "Unknown Artist"@,
    }
}

/// The artist of a track, or a stand-in.
pub fn track_artist(metadata: &TrackMetadata) -> (artist: String)
    ensures
        artist@ == artist_of(*metadata),
{
    match non_empty_text(&metadata.artist) {
        Some(artist) => artist,
        None => "Unknown Artist".to_owned(),
    }
}

/// The title of a track's album, or a stand-in.
pub open spec fn album_title_of(metadata: TrackMetadata) -> Seq<char> {
    match text::filled(metadata.album.deep_view()) {
        Some(album) => album,
        None => "Unknown Album"@,
    }
}

/// The title of a track's album, or a stand-in.
pub fn album_title(metadata: &TrackMetadata) -> (title: String)
    ensures
        title@ == album_title_of(*metadata),
{
    match non_empty_text(&metadata.album) {
        Some(album) => album,
        None => "Unknown Album".to_owned(),
    }
}

/// What decides the album of a track and the artist that the album shows.
pub struct AlbumGrouping {
    pub key_artist: String,
    pub display_artist: String,
    pub track_artist: String,
    pub has_explicit_album_artist: bool,
    pub is_compilation: bool,
}

/// Whether a track is tagged as part of a compilation.
pub open spec fn in_compilation(metadata: TrackMetadata) -> bool {
    metadata.compilation == Some(true)
}

/// Whether a track names the artist of its album.
pub open spec fn names_album_artist(metadata: TrackMetadata) -> bool {
    text::filled(metadata.album_artist.deep_view()) is Some
}

/// The artist under whom a track's album is filed: the album artist, or else a
/// shared stand-in for compilations, or else the artist of the track.
pub open spec fn grouping_artist(metadata: TrackMetadata) -> Seq<char> {
    match text::filled(metadata.album_artist.deep_view()) {
        Some(artist) => artist,
        None => if in_compilation(metadata) {
            "Various Artists"@
        } else {
            artist_of(metadata)
        },
    }
}

/// Reads what decides the album of a track.
pub fn album_grouping(metadata: &TrackMetadata) -> (grouping: AlbumGrouping)
    ensures
        grouping.key_artist@ == grouping_artist(*metadata),
        grouping.display_artist@ == grouping_artist(*metadata),
        grouping.track_artist@ == artist_of(*metadata),
        grouping.has_explicit_album_artist == names_album_artist(*metadata),
        grouping.is_compilation == in_compilation(*metadata),
{
    let track_artist = track_artist(metadata);
    let is_compilation = metadata.compilation.unwrap_or(false);
    match non_empty_text(&metadata.album_artist) {
        Some(album_artist) => AlbumGrouping {
            key_artist: album_artist.clone(),
            display_artist: album_artist,
            track_artist,
            has_explicit_album_artist: true,
            is_compilation,
        },
        None => {
            if is_compilation {
                AlbumGrouping {
                    key_artist: "Various Artists".to_owned(),
                    display_artist: "Various Artists".to_owned(),
                    track_artist,
                    has_explicit_album_artist: false,
                    is_compilation: true,
                }
            } else {
                AlbumGrouping {
                    key_artist: track_artist.clone(),
                    display_artist: track_artist.clone(),
                    track_artist,
                    has_explicit_album_artist: false,
                    is_compilation: false,
                }
            }
        },
    }
}

/// The key of the album that a track belongs to.
pub open spec fn key_of(track: Track) -> (Seq<char>, Seq<char>) {
    (normalized(grouping_artist(track.metadata)), normalized(album_title_of(track.metadata)))
}

/// The tracks that belong to the album with this key, in their given order.
pub open spec fn members(tracks: Seq<Track>, key: (Seq<char>, Seq<char>)) -> Seq<Track>
    decreases tracks.len(),
{
    if tracks.len() == 0 {
        Seq::empty()
    } else {
        let earlier = members(tracks.drop_last(), key);
        if key_of(tracks.last()) == key {
            earlier.push(tracks.last())
        } else {
            earlier
        }
    }
}

/// The tracks that have this key, in their given order, where `keys[i]` is the
/// key of the track at place `i`.
pub open spec fn members_by(
    tracks: Seq<Track>,
    keys: Seq<(Seq<char>, Seq<char>)>,
    key: (Seq<char>, Seq<char>),
) -> Seq<Track>
    decreases tracks.len(),
{
    if tracks.len() == 0 {
        Seq::empty()
    } else {
        let earlier = members_by(tracks.drop_last(), keys.drop_last(), key);
        if keys.last() == key {
            earlier.push(tracks.last())
        } else {
            earlier
        }
    }
}

/// The keys of the albums that some tracks belong to.
pub open spec fn track_keys(tracks: Seq<Track>) -> Seq<(Seq<char>, Seq<char>)> {
    Seq::new(tracks.len(), |i: int| key_of(tracks[i]))
}

/// With their own keys, tracks belong to their own albums.
proof fn lemma_members_by_own_keys(tracks: Seq<Track>, key: (Seq<char>, Seq<char>))
    ensures
        members_by(tracks, track_keys(tracks), key) == members(tracks, key),
    decreases tracks.len(),
{
    if tracks.len() > 0 {
        lemma_members_by_own_keys(tracks.drop_last(), key);
        assert(track_keys(tracks).drop_last() =~= track_keys(tracks.drop_last()));
    }
}

/// Reads the key of the album that a track belongs to.
pub fn album_key(track: &Track) -> (key: AlbumKey)
    ensures
        key@ == key_of(*track),
{
    let title = album_title(&track.metadata);
    let grouping = album_grouping(&track.metadata);
    AlbumKey {
        artist: normalize_album_key(grouping.key_artist.as_str()),
        title: normalize_album_key(title.as_str()),
    }
}

/// Whether a list of artists already holds this one, up to case and margins.
pub open spec fn lists_artist(artists: Seq<Seq<char>>, artist: Seq<char>) -> bool {
    exists|i: int|
        0 <= i < artists.len() && normalized(#[trigger] artists[i]) == normalized(artist)
}

/// A list of artists with one more at its end, unless it is listed already.
pub open spec fn with_artist(artists: Seq<Seq<char>>, artist: Seq<char>) -> Seq<Seq<char>> {
    if lists_artist(artists, artist) {
        artists
    } else {
        artists.push(artist)
    }
}

/// Adds an artist at the end of the list, unless it is listed already.
pub fn push_unique_artist(artists: &mut Vec<String>, artist: String)
    ensures
        final(artists).deep_view() == with_artist(old(artists).deep_view(), artist@),
{
    let wanted = normalize_album_key(artist.as_str());
    let mut index: usize = 0;
    while index < artists.len()
        invariant
            index <= artists.len(),
            artists@ == old(artists)@,
            wanted@ == normalized(artist@),
            forall|i: int|
                0 <= i < index ==> normalized(#[trigger] artists.deep_view()[i]) != wanted@,
        decreases artists.len() - index,
    {
        let known = normalize_album_key(artists[index].as_str());
        assert(artists.deep_view()[index as int] == artists@[index as int]@);
        if known == wanted {
            return;
        }
        index = index + 1;
    }
    artists.push(artist);
    assert(artists.deep_view() =~= old(artists).deep_view().push(artist@));
}

/// The different artists of some tracks, in the order in which they come.
pub open spec fn artists_of(tracks: Seq<Track>) -> Seq<Seq<char>>
    decreases tracks.len(),
{
    if tracks.len() == 0 {
        Seq::empty()
    } else {
        with_artist(artists_of(tracks.drop_last()), artist_of(tracks.last().metadata))
    }
}

/// The artists one after the other.
pub fn artist_summary(artists: &[String]) -> (summary: String)
    ensures
        summary@ == text::joined(artists.deep_view(), ", "@),
{
    join(artists, ", ")
}

/// The first album artist that some tracks name.
pub open spec fn first_album_artist(tracks: Seq<Track>) -> Option<Seq<char>>
    decreases tracks.len(),
{
    if tracks.len() == 0 {
        None
    } else {
        match first_album_artist(tracks.drop_last()) {
            Some(artist) => Some(artist),
            None => text::filled(tracks.last().metadata.album_artist.deep_view()),
        }
    }
}

/// The first year that some tracks name.
pub open spec fn first_year(tracks: Seq<Track>) -> Option<i32>
    decreases tracks.len(),
{
    if tracks.len() == 0 {
        None
    } else {
        match first_year(tracks.drop_last()) {
            Some(year) => Some(year),
            None => tracks.last().metadata.year,
        }
    }
}

/// Whether one of the tracks is tagged as part of a compilation.
pub open spec fn any_compilation(tracks: Seq<Track>) -> bool {
    exists|i: int| 0 <= i < tracks.len() && in_compilation(#[trigger] tracks[i].metadata)
}

/// The artist that an album shows: the first album artist that a track names;
/// or else, for a compilation, its artists one after the other; or else the
/// artist under whom its first track is filed.
pub open spec fn shown_artist(tracks: Seq<Track>) -> Seq<char> {
    match first_album_artist(tracks) {
        Some(artist) => artist,
        None => if any_compilation(tracks) {
            text::joined(artists_of(tracks), ", "@)
        } else {
            grouping_artist(tracks[0].metadata)
        },
    }
}

/// The tracks of an album while they are being collected.
pub struct AlbumBucket {
    pub key: AlbumKey,
    pub title: String,
    pub artist: String,
    pub has_explicit_album_artist: bool,
    pub is_compilation: bool,
    pub track_artists: Vec<String>,
    pub year: Option<i32>,
    pub tracks: Vec<AlbumTrackViewModel>,
}

impl AlbumBucket {
    /// The bucket holds what these tracks of one album add up to.
    pub open spec fn collects(&self, tracks: Seq<Track>) -> bool {
        &&& tracks.len() > 0
        &&& self.title@ == album_title_of(tracks[0].metadata)
        &&& self.has_explicit_album_artist == (first_album_artist(tracks) is Some)
        &&& self.artist@ == match first_album_artist(tracks) {
            Some(artist) => artist,
            None => grouping_artist(tracks[0].metadata),
        }
        &&& self.is_compilation == any_compilation(tracks)
        &&& self.track_artists.deep_view() == artists_of(tracks)
        &&& self.year == first_year(tracks)
        &&& crate::sorting::views(self.tracks@) == track_rows(tracks)
    }

    /// An album's first track opens its bucket.
    fn open(track: &Track, key: AlbumKey, title: String, grouping: AlbumGrouping) -> (bucket: Self)
        requires
            title@ == album_title_of(track.metadata),
            grouping.display_artist@ == grouping_artist(track.metadata),
            grouping.track_artist@ == artist_of(track.metadata),
            grouping.has_explicit_album_artist == names_album_artist(track.metadata),
            grouping.is_compilation == in_compilation(track.metadata),
        ensures
            bucket.key == key,
            bucket.collects(seq![*track]),
    {
        let mut track_artists: Vec<String> = Vec::new();
        assert(track_artists.deep_view() =~= Seq::empty());
        push_unique_artist(&mut track_artists, grouping.track_artist);
        let mut tracks: Vec<AlbumTrackViewModel> = Vec::new();
        tracks.push(album_track(track));
        proof {
            let one = seq![*track];
            assert(one.drop_last() =~= Seq::empty());
            assert(one[0] == *track);
            assert(artists_of(one) == with_artist(Seq::empty(), artist_of(track.metadata))) by {
                reveal_with_fuel(artists_of, 2);
            }
            reveal_with_fuel(first_album_artist, 2);
            reveal_with_fuel(first_year, 2);
            assert(any_compilation(one) == in_compilation(one[0].metadata));
            assert(crate::sorting::views(tracks@) =~= track_rows(one));
        }
        AlbumBucket {
            key,
            title,
            artist: grouping.display_artist,
            has_explicit_album_artist: grouping.has_explicit_album_artist,
            is_compilation: grouping.is_compilation,
            track_artists,
            year: track.metadata.year,
            tracks,
        }
    }

    /// One more track of the album goes into its bucket.
    fn take_in(&mut self, track: &Track, grouping: AlbumGrouping, Ghost(earlier): Ghost<Seq<Track>>)
        requires
            old(self).collects(earlier),
            grouping.display_artist@ == grouping_artist(track.metadata),
            grouping.track_artist@ == artist_of(track.metadata),
            grouping.has_explicit_album_artist == names_album_artist(track.metadata),
            grouping.is_compilation == in_compilation(track.metadata),
        ensures
            final(self).key == old(self).key,
            final(self).collects(earlier.push(*track)),
    {
        if grouping.has_explicit_album_artist && !self.has_explicit_album_artist {
            self.artist = grouping.display_artist;
            self.has_explicit_album_artist = true;
        }
        if grouping.is_compilation {
            self.is_compilation = true;
        }
        push_unique_artist(&mut self.track_artists, grouping.track_artist);
        if self.year.is_none() {
            self.year = track.metadata.year;
        }
        self.tracks.push(album_track(track));
        proof {
            let now = earlier.push(*track);
            assert(now.drop_last() =~= earlier);
            assert(now[0] == earlier[0]);
            if any_compilation(earlier) {
                let i = choose|i: int|
                    0 <= i < earlier.len() && in_compilation(#[trigger] earlier[i].metadata);
                assert(in_compilation(now[i].metadata));
            }
            if in_compilation(track.metadata) {
                assert(in_compilation(now[earlier.len() as int].metadata));
            }
            if any_compilation(now) {
                let i = choose|i: int|
                    0 <= i < now.len() && in_compilation(#[trigger] now[i].metadata);
                if i < earlier.len() {
                    assert(in_compilation(earlier[i].metadata));
                }
            }
            assert(crate::sorting::views(self.tracks@) =~= crate::sorting::views(
                old(self).tracks@,
            ).push(track_row(*track)));
            assert(track_rows(now) =~= track_rows(earlier).push(track_row(*track)));
        }
    }
}

// ---------------------------------------------------------------------------
// Albums
// ---------------------------------------------------------------------------

/// An album with its tracks.
#[derive(Debug)]
pub struct AlbumViewModel {
    pub key: AlbumKey,
    pub title: String,
    pub artist: String,
    pub year: Option<i32>,
    pub tracks: Vec<AlbumTrackViewModel>,
    /// The audio file from which the album's cover is read.
    pub representative_track_path: Option<PathBuf>,
}

/// The contents of an [`AlbumViewModel`].
#[verifier::ext_equal]
pub struct AlbumView {
    pub key: (Seq<char>, Seq<char>),
    pub title: Seq<char>,
    pub artist: Seq<char>,
    pub year: Option<i32>,
    pub tracks: Seq<AlbumTrackView>,
    pub representative_track_path: Option<Seq<u8>>,
}

impl View for AlbumViewModel {
    type V = AlbumView;

    open spec fn view(&self) -> AlbumView {
        AlbumView {
            key: self.key@,
            title: self.title@,
            artist: self.artist@,
            year: self.year,
            tracks: crate::sorting::views(self.tracks@),
            representative_track_path: paths::bytes_view(self.representative_track_path),
        }
    }
}

impl Clone for AlbumViewModel {
    fn clone(&self) -> (copy: Self)
        ensures
            copy@ == self@,
    {
        let mut tracks: Vec<AlbumTrackViewModel> = Vec::new();
        let mut index: usize = 0;
        while index < self.tracks.len()
            invariant
                index <= self.tracks.len(),
                tracks@.len() == index,
                forall|i: int| 0 <= i < index ==> (#[trigger] tracks@[i])@ == self.tracks@[i]@,
            decreases self.tracks.len() - index,
        {
            tracks.push(self.tracks[index].clone());
            index = index + 1;
        }
        assert(crate::sorting::views(tracks@) =~= crate::sorting::views(self.tracks@));
        AlbumViewModel {
            key: self.key.clone(),
            title: self.title.clone(),
            artist: self.artist.clone(),
            year: self.year,
            tracks,
            representative_track_path: match &self.representative_track_path {
                Some(path) => Some(path.clone()),
                None => None,
            },
        }
    }
}

/// The path of the first track that is not missing.
pub open spec fn first_present_path(tracks: Seq<AlbumTrackView>) -> Option<Seq<u8>>
    decreases tracks.len(),
{
    if tracks.len() == 0 {
        None
    } else if !tracks[0].is_missing {
        Some(tracks[0].file_path)
    } else {
        first_present_path(tracks.drop_first())
    }
}

/// The path whose cover stands for an album: that of its first track that is
/// not missing, or else that of its first track.
pub open spec fn representative_path(tracks: Seq<AlbumTrackView>) -> Option<Seq<u8>> {
    match first_present_path(tracks) {
        Some(path) => Some(path),
        None => if tracks.len() > 0 {
            Some(tracks[0].file_path)
        } else {
            None
        },
    }
}

fn representative_track_path(tracks: &Vec<AlbumTrackViewModel>) -> (path: Option<PathBuf>)
    ensures
        paths::bytes_view(path) == representative_path(crate::sorting::views(tracks@)),
{
    let ghost rows = crate::sorting::views(tracks@);
    let mut index: usize = 0;
    assert(rows.skip(0) =~= rows);
    while index < tracks.len()
        invariant
            index <= tracks.len(),
            rows == crate::sorting::views(tracks@),
            first_present_path(rows) == first_present_path(rows.skip(index as int)),
        decreases tracks.len() - index,
    {
        proof {
            assert(rows.skip(index as int).drop_first() =~= rows.skip(index as int + 1));
            assert(rows.skip(index as int)[0] == tracks@[index as int]@);
        }
        if !tracks[index].is_missing {
            return Some(tracks[index].file_path.clone());
        }
        index = index + 1;
    }
    if tracks.len() > 0 {
        Some(tracks[0].file_path.clone())
    } else {
        None
    }
}

impl AlbumViewModel {
    /// The album shows these tracks of the library: its title is that of the
    /// first of them, its artist and year are drawn from all of them, and it
    /// lists them in album order.
    pub open spec fn shows(&self, tracks: Seq<Track>) -> bool {
        &&& tracks.len() > 0
        &&& self.title@ == album_title_of(tracks[0].metadata)
        &&& self.artist@ == shown_artist(tracks)
        &&& self.year == first_year(tracks)
        &&& crate::sorting::stable_order::<AlbumTrackViewModel>(
            track_rows(tracks),
            crate::sorting::views(self.tracks@),
        )
        &&& paths::bytes_view(self.representative_track_path) == representative_path(
            crate::sorting::views(self.tracks@),
        )
    }
}

/// The artist that the album of this bucket shows.
fn album_display_artist(bucket: &AlbumBucket, Ghost(tracks): Ghost<Seq<Track>>) -> (artist: String)
    requires
        bucket.collects(tracks),
    ensures
        artist@ == shown_artist(tracks),
{
    proof {
        lemma_artists_listed(tracks);
        assert(bucket.track_artists@.len() == bucket.track_artists.deep_view().len());
    }
    if bucket.is_compilation && !bucket.has_explicit_album_artist
        && !bucket.track_artists.is_empty() {
        return artist_summary(bucket.track_artists.as_slice());
    }
    bucket.artist.clone()
}

/// Tracks have artists.
proof fn lemma_artists_listed(tracks: Seq<Track>)
    requires
        tracks.len() > 0,
    ensures
        artists_of(tracks).len() > 0,
    decreases tracks.len(),
{
    let earlier = artists_of(tracks.drop_last());
    if lists_artist(earlier, artist_of(tracks.last().metadata)) {
        let i = choose|i: int|
            0 <= i < earlier.len() && normalized(#[trigger] earlier[i]) == normalized(
                artist_of(tracks.last().metadata),
            );
        assert(0 <= i < earlier.len());
    }
}

/// Turns a full bucket into an album.
fn finish_album(bucket: AlbumBucket, Ghost(tracks): Ghost<Seq<Track>>) -> (album: AlbumViewModel)
    requires
        bucket.collects(tracks),
    ensures
        album.key == bucket.key,
        album.shows(tracks),
{
    let artist = album_display_artist(&bucket, Ghost(tracks));
    let mut rows = bucket.tracks;
    stable_sort(&mut rows);
    let representative_track_path = representative_track_path(&rows);
    AlbumViewModel {
        key: bucket.key,
        title: bucket.title,
        artist,
        year: bucket.year,
        tracks: rows,
        representative_track_path,
    }
}

/// The keys of the buckets stand in strictly rising order, every bucket holds
/// the tracks with its key, and every track has a bucket.
spec fn buckets_collect(
    buckets: Seq<AlbumBucket>,
    tracks: Seq<Track>,
    keys: Seq<(Seq<char>, Seq<char>)>,
) -> bool {
    &&& keys.len() == tracks.len()
    &&& forall|i: int, j: int|
        0 <= i < j < buckets.len() ==> #[trigger] key_order(buckets[i].key@, buckets[j].key@)
            == Order::Before
    &&& forall|i: int|
        0 <= i < buckets.len() ==> (#[trigger] buckets[i]).collects(
            members_by(tracks, keys, buckets[i].key@),
        )
    &&& forall|t: int|
        0 <= t < keys.len() ==> bucket_keys(buckets).contains(#[trigger] keys[t])
}

spec fn bucket_keys(buckets: Seq<AlbumBucket>) -> Seq<(Seq<char>, Seq<char>)> {
    Seq::new(buckets.len(), |i: int| buckets[i].key@)
}

/// Where the bucket with `key` stands, or where it would have to be put.
fn bucket_position(buckets: &Vec<AlbumBucket>, key: &AlbumKey) -> (position: usize)
    requires
        forall|i: int, j: int|
            0 <= i < j < buckets.len() ==> #[trigger] key_order(
                buckets[i].key@,
                buckets[j].key@,
            ) == Order::Before,
    ensures
        position <= buckets.len(),
        forall|i: int|
            0 <= i < position ==> key_order((#[trigger] buckets[i]).key@, key@) == Order::Before,
        forall|i: int|
            position <= i < buckets.len() ==> key_order((#[trigger] buckets[i]).key@, key@)
                != Order::Before,
{
    let mut low: usize = 0;
    let mut high: usize = buckets.len();
    while low < high
        invariant
            low <= high <= buckets.len(),
            forall|i: int, j: int|
                0 <= i < j < buckets.len() ==> #[trigger] key_order(
                    buckets[i].key@,
                    buckets[j].key@,
                ) == Order::Before,
            forall|i: int|
                0 <= i < low ==> key_order((#[trigger] buckets[i]).key@, key@) == Order::Before,
            forall|i: int|
                high <= i < buckets.len() ==> key_order((#[trigger] buckets[i]).key@, key@)
                    != Order::Before,
        decreases high - low,
    {
        let middle: usize = low + (high - low) / 2;
        match buckets[middle].key.order(key) {
            Order::Before => {
                proof {
                    assert forall|i: int| 0 <= i < middle + 1 implies key_order(
                        (#[trigger] buckets[i]).key@,
                        key@,
                    ) == Order::Before by {
                        if i < middle {
                            assert(key_order(buckets[i].key@, buckets[middle as int].key@)
                                == Order::Before);
                            lemma_key_order_chain(
                                buckets[i].key@,
                                buckets[middle as int].key@,
                                key@,
                            );
                        }
                    }
                }
                low = middle + 1;
            },
            _ => {
                proof {
                    assert forall|i: int| middle <= i < buckets.len() implies key_order(
                        (#[trigger] buckets[i]).key@,
                        key@,
                    ) != Order::Before by {
                        if i > middle && key_order(buckets[i].key@, key@) == Order::Before {
                            assert(key_order(buckets[middle as int].key@, buckets[i].key@)
                                == Order::Before);
                            lemma_key_order_chain(
                                buckets[middle as int].key@,
                                buckets[i].key@,
                                key@,
                            );
                        }
                    }
                }
                high = middle;
            },
        }
    }
    low
}

/// Puts one more track into the bucket of its album.
fn collect_track(
    buckets: &mut Vec<AlbumBucket>,
    track: &Track,
    key: &AlbumKey,
    Ghost(earlier): Ghost<Seq<Track>>,
    Ghost(earlier_keys): Ghost<Seq<(Seq<char>, Seq<char>)>>,
)
    requires
        buckets_collect(old(buckets)@, earlier, earlier_keys),
    ensures
        buckets_collect(final(buckets)@, earlier.push(*track), earlier_keys.push(key@)),
{
    let ghost now = earlier.push(*track);
    let ghost now_keys = earlier_keys.push(key@);
    let ghost before = buckets@;
    let title = album_title(&track.metadata);
    let grouping = album_grouping(&track.metadata);
    let position = bucket_position(buckets, key);
    proof {
        assert(now.drop_last() =~= earlier);
        assert(now.last() == *track);
        assert(now_keys.drop_last() =~= earlier_keys);
        assert(now_keys.last() == key@);
        assert forall|i: int| 0 <= i < before.len() implies #[trigger] before[i].collects(
            members_by(earlier, earlier_keys, before[i].key@),
        ) by {}
    }
    if position < buckets.len() && buckets[position].key.same_as(key) {
        let ghost mine = members_by(earlier, earlier_keys, key@);
        buckets[position].take_in(track, grouping, Ghost(mine));
        proof {
            let after = buckets@;
            assert(after[position as int].key == before[position as int].key);
            assert forall|i: int| 0 <= i < after.len() implies #[trigger] after[i].key
                == before[i].key by {}
            assert forall|i: int, j: int| 0 <= i < j < after.len() implies #[trigger] key_order(
                after[i].key@,
                after[j].key@,
            ) == Order::Before by {
                assert(key_order(before[i].key@, before[j].key@) == Order::Before);
            }
            assert forall|i: int| 0 <= i < after.len() implies (#[trigger] after[i]).collects(
                members_by(now, now_keys, after[i].key@),
            ) by {
                if i != position {
                    if before[i].key@ == key@ {
                        lemma_key_order_same(key@, key@);
                        if i < position {
                            assert(key_order(before[i].key@, before[position as int].key@)
                                == Order::Before);
                        } else {
                            assert(key_order(before[position as int].key@, before[i].key@)
                                == Order::Before);
                        }
                    }
                    assert(after[i] == before[i]);
                    assert(before[i].collects(members_by(earlier, earlier_keys, before[i].key@)));
                }
            }
            assert(bucket_keys(after) =~= bucket_keys(before));
            assert forall|t: int| 0 <= t < now_keys.len() implies bucket_keys(after).contains(
                #[trigger] now_keys[t],
            ) by {
                if t < earlier_keys.len() {
                    assert(now_keys[t] == earlier_keys[t]);
                } else {
                    assert(bucket_keys(after)[position as int] == now_keys[t]);
                }
            }
        }
    } else {
        let ghost new_key = key@;
        proof {
            assert forall|i: int| 0 <= i < before.len() implies #[trigger] before[i].key@
                != new_key by {
                lemma_key_order_same(before[i].key@, new_key);
                if before[i].key@ == new_key && i > position {
                    assert(key_order(before[position as int].key@, before[i].key@)
                        == Order::Before);
                    assert(key_order(before[position as int].key@, new_key) == Order::Before);
                }
            }
            lemma_no_members(bucket_keys(before), earlier, earlier_keys, new_key);
        }
        let bucket = AlbumBucket::open(track, key.clone(), title, grouping);
        let ghost opened = bucket;
        buckets.insert(position, bucket);
        proof {
            let after = buckets@;
            assert(after =~= before.insert(position as int, opened));
            assert(members_by(now, now_keys, new_key) =~= seq![*track]);
            assert forall|i: int, j: int| 0 <= i < j < after.len() implies #[trigger] key_order(
                after[i].key@,
                after[j].key@,
            ) == Order::Before by {
                let old_i = if i < position { i } else { i - 1 };
                let old_j = if j < position { j } else { j - 1 };
                if i == position {
                    assert(key_order(before[old_j].key@, new_key) != Order::Before);
                    lemma_key_order_same(before[old_j].key@, new_key);
                    assert(before[old_j].key@ != new_key);
                    lemma_key_order_swap(new_key, before[old_j].key@);
                } else if j == position {
                    assert(key_order(before[old_i].key@, new_key) == Order::Before);
                } else {
                    assert(key_order(before[old_i].key@, before[old_j].key@) == Order::Before);
                }
            }
            assert forall|i: int| 0 <= i < after.len() implies (#[trigger] after[i]).collects(
                members_by(now, now_keys, after[i].key@),
            ) by {
                if i != position {
                    let old_i = if i < position { i } else { i - 1 };
                    assert(after[i] == before[old_i]);
                    assert(before[old_i].key@ != new_key);
                    assert(before[old_i].collects(members_by(earlier, earlier_keys, before[old_i].key@)));
                }
            }
            assert(bucket_keys(after) =~= bucket_keys(before).insert(position as int, new_key));
            assert forall|t: int| 0 <= t < now_keys.len() implies bucket_keys(after).contains(
                #[trigger] now_keys[t],
            ) by {
                if t < earlier_keys.len() {
                    assert(now_keys[t] == earlier_keys[t]);
                    let old_i = bucket_keys(before).index_of(now_keys[t]);
                    let i = if old_i < position { old_i } else { old_i + 1 };
                    assert(bucket_keys(after)[i] == now_keys[t]);
                } else {
                    assert(bucket_keys(after)[position as int] == now_keys[t]);
                }
            }
        }
    }
}

/// Where the keys of all tracks are listed, none has a key that is not.
proof fn lemma_no_members(
    listed: Seq<(Seq<char>, Seq<char>)>,
    tracks: Seq<Track>,
    keys: Seq<(Seq<char>, Seq<char>)>,
    key: (Seq<char>, Seq<char>),
)
    requires
        keys.len() == tracks.len(),
        forall|t: int| 0 <= t < keys.len() ==> listed.contains(#[trigger] keys[t]),
        !listed.contains(key),
    ensures
        members_by(tracks, keys, key) == Seq::<Track>::empty(),
    decreases tracks.len(),
{
    if tracks.len() > 0 {
        let rest = keys.drop_last();
        assert forall|t: int| 0 <= t < rest.len() implies listed.contains(#[trigger] rest[t]) by {
            assert(rest[t] == keys[t]);
        }
        lemma_no_members(listed, tracks.drop_last(), rest, key);
        assert(keys.last() == keys[keys.len() - 1]);
    }
}

/// The keys of some albums.
pub open spec fn album_keys(albums: Seq<AlbumViewModel>) -> Seq<(Seq<char>, Seq<char>)> {
    Seq::new(albums.len(), |i: int| albums[i].key@)
}

/// The albums of a library: sorted by key, one for each key that a track has,
/// and each with exactly the tracks that have its key.
pub open spec fn albums_group(albums: Seq<AlbumViewModel>, tracks: Seq<Track>) -> bool {
    &&& forall|i: int, j: int|
        0 <= i < j < albums.len() ==> #[trigger] key_order(albums[i].key@, albums[j].key@)
            == Order::Before
    &&& forall|i: int|
        0 <= i < albums.len() ==> (#[trigger] albums[i]).shows(members(tracks, albums[i].key@))
    &&& forall|t: int|
        0 <= t < tracks.len() ==> album_keys(albums).contains(key_of(#[trigger] tracks[t]))
}

/// The albums of some tracks with given keys, where `keys[i]` is the key of the
/// track at place `i`: sorted by key, one for each key, and each with exactly
/// the tracks that have its key.
pub open spec fn albums_group_by(
    albums: Seq<AlbumViewModel>,
    tracks: Seq<Track>,
    keys: Seq<(Seq<char>, Seq<char>)>,
) -> bool {
    &&& forall|i: int, j: int|
        0 <= i < j < albums.len() ==> #[trigger] key_order(albums[i].key@, albums[j].key@)
            == Order::Before
    &&& forall|i: int|
        0 <= i < albums.len() ==> (#[trigger] albums[i]).shows(
            members_by(tracks, keys, albums[i].key@),
        )
    &&& forall|t: int| 0 <= t < keys.len() ==> album_keys(albums).contains(#[trigger] keys[t])
}

/// Groups tracks into albums by keys that are given: `keys[i]` is the key of
/// the track at place `i`.
pub fn group_by_keys(tracks: &[Track], keys: &Vec<AlbumKey>) -> (albums: Vec<AlbumViewModel>)
    requires
        keys@.len() == tracks@.len(),
    ensures
        albums_group_by(albums@, tracks@, crate::sorting::views(keys@)),
{
    let ghost all_keys = crate::sorting::views(keys@);
    let mut buckets: Vec<AlbumBucket> = Vec::new();
    let mut index: usize = 0;
    assert(tracks@.take(0) =~= Seq::empty());
    assert(all_keys.take(0) =~= Seq::empty());
    while index < tracks.len()
        invariant
            index <= tracks.len(),
            keys@.len() == tracks@.len(),
            all_keys == crate::sorting::views(keys@),
            buckets_collect(
                buckets@,
                tracks@.take(index as int),
                all_keys.take(index as int),
            ),
        decreases tracks.len() - index,
    {
        collect_track(
            &mut buckets,
            &tracks[index],
            &keys[index],
            Ghost(tracks@.take(index as int)),
            Ghost(all_keys.take(index as int)),
        );
        proof {
            assert(tracks@.take(index as int + 1) =~= tracks@.take(index as int).push(
                tracks@[index as int],
            ));
            assert(all_keys.take(index as int + 1) =~= all_keys.take(index as int).push(
                keys@[index as int]@,
            ));
        }
        index = index + 1;
    }
    assert(tracks@.take(index as int) =~= tracks@);
    assert(all_keys.take(index as int) =~= all_keys);
    let ghost collected = buckets@;
    let mut albums: Vec<AlbumViewModel> = Vec::new();
    while buckets.len() > 0
        invariant
            buckets_collect(collected, tracks@, all_keys),
            albums@.len() + buckets@.len() == collected.len(),
            buckets@ == collected.skip(albums@.len() as int),
            forall|i: int|
                0 <= i < albums@.len() ==> (#[trigger] albums@[i]).key == collected[i].key
                    && albums@[i].shows(members_by(tracks@, all_keys, collected[i].key@)),
        decreases buckets.len(),
    {
        let ghost done = albums@.len() as int;
        assert(buckets@[0] == collected[done]);
        let bucket = buckets.remove(0);
        albums.push(finish_album(bucket, Ghost(members_by(tracks@, all_keys, bucket.key@))));
        assert(buckets@ =~= collected.skip(done + 1));
    }
    proof {
        assert forall|i: int, j: int| 0 <= i < j < albums@.len() implies #[trigger] key_order(
            albums@[i].key@,
            albums@[j].key@,
        ) == Order::Before by {
            assert(albums@[i].key == collected[i].key);
            assert(albums@[j].key == collected[j].key);
            assert(key_order(collected[i].key@, collected[j].key@) == Order::Before);
        }
        assert(album_keys(albums@) =~= bucket_keys(collected));
        assert forall|i: int| 0 <= i < albums@.len() implies (#[trigger] albums@[i]).shows(
            members_by(tracks@, all_keys, albums@[i].key@),
        ) by {
            assert(albums@[i].key == collected[i].key);
        }
    }
    albums
}

/// Groups the tracks of the library into albums.
pub fn group_albums(tracks: &[Track]) -> (albums: Vec<AlbumViewModel>)
    ensures
        albums_group(albums@, tracks@),
{
    let mut keys: Vec<AlbumKey> = Vec::new();
    let mut index: usize = 0;
    while index < tracks.len()
        invariant
            index <= tracks.len(),
            keys@.len() == index,
            forall|i: int| 0 <= i < index ==> (#[trigger] keys@[i])@ == key_of(tracks@[i]),
        decreases tracks.len() - index,
    {
        keys.push(album_key(&tracks[index]));
        index = index + 1;
    }
    let albums = group_by_keys(tracks, &keys);
    proof {
        let own = track_keys(tracks@);
        assert(crate::sorting::views(keys@) =~= own);
        assert forall|i: int| 0 <= i < albums@.len() implies (#[trigger] albums@[i]).shows(
            members(tracks@, albums@[i].key@),
        ) by {
            lemma_members_by_own_keys(tracks@, albums@[i].key@);
        }
        assert forall|t: int| 0 <= t < tracks@.len() implies album_keys(albums@).contains(
            key_of(#[trigger] tracks@[t]),
        ) by {
            assert(own[t] == key_of(tracks@[t]));
        }
    }
    albums
}

// ---------------------------------------------------------------------------
// Updates in place
// ---------------------------------------------------------------------------

/// The property of being a track with this identifier.
pub open spec fn is_track(id: TrackId) -> spec_fn(AlbumTrackViewModel) -> bool {
    |track: AlbumTrackViewModel| track.id == id
}

/// Where the first track with this identifier stands; the length of the list
/// when there is none.
pub open spec fn track_slot(tracks: Seq<AlbumTrackViewModel>, id: TrackId) -> int {
    seqs::first_index(tracks, is_track(id))
}

/// Whether one of the tracks has this identifier.
pub open spec fn holds_track(tracks: Seq<AlbumTrackViewModel>, id: TrackId) -> bool {
    track_slot(tracks, id) < tracks.len()
}

/// The property of holding a track with this identifier.
pub open spec fn is_holder(id: TrackId) -> spec_fn(AlbumViewModel) -> bool {
    |album: AlbumViewModel| holds_track(album.tracks@, id)
}

/// Where the first album with such a track stands; the number of albums when
/// there is none.
pub open spec fn album_holding(albums: Seq<AlbumViewModel>, id: TrackId) -> int {
    seqs::first_index(albums, is_holder(id))
}

/// Finds the slot of a track in its list.
pub fn find_track(tracks: &Vec<AlbumTrackViewModel>, id: TrackId) -> (slot: Option<usize>)
    ensures
        match slot {
            Some(index) => index == track_slot(tracks@, id) && index < tracks.len(),
            None => !holds_track(tracks@, id),
        },
{
    let test = |track: &AlbumTrackViewModel| -> (same: bool)
        ensures
            same == (track.id == id),
    {
        track.id == id
    };
    seqs::find_first(tracks.as_slice(), test, Ghost(is_track(id)))
}

/// Finds the first album that holds a track.
pub fn find_holder(albums: &Vec<AlbumViewModel>, track_id: TrackId) -> (index: Option<usize>)
    ensures
        match index {
            Some(index) => index < albums@.len() && index == album_holding(albums@, track_id)
                && holds_track(albums@[index as int].tracks@, track_id),
            None => album_holding(albums@, track_id) == albums@.len(),
        },
{
    proof {
        seqs::lemma_first_index(albums@, is_holder(track_id));
    }
    let test = |album: &AlbumViewModel| -> (holds: bool)
        ensures
            holds == holds_track(album.tracks@, track_id),
    {
        find_track(&album.tracks, track_id).is_some()
    };
    seqs::find_first(albums.as_slice(), test, Ghost(is_holder(track_id)))
}

/// The album `after` is the album `before` with one of its tracks replaced and
/// its tracks back in order; all else is unchanged.
pub open spec fn track_replaced(
    before: AlbumViewModel,
    after: AlbumViewModel,
    slot: int,
    new_track: AlbumTrackView,
) -> bool {
    &&& after.key == before.key
    &&& after.title == before.title
    &&& after.artist == before.artist
    &&& after.year == before.year
    &&& after.representative_track_path == before.representative_track_path
    &&& crate::sorting::stable_order::<AlbumTrackViewModel>(
        crate::sorting::views(before.tracks@).update(slot, new_track),
        crate::sorting::views(after.tracks@),
    )
}

/// `after` are the albums `before` with a track replaced in the first of them
/// that holds it, if one does.
pub open spec fn track_patched(
    before: Seq<AlbumViewModel>,
    after: Seq<AlbumViewModel>,
    track_id: TrackId,
    row: AlbumTrackView,
) -> bool {
    let index = album_holding(before, track_id);
    if index >= before.len() {
        after == before
    } else {
        &&& after.len() == before.len()
        &&& track_replaced(
            before[index],
            after[index],
            track_slot(before[index].tracks@, track_id),
            row,
        )
        &&& forall|i: int|
            0 <= i < before.len() && i != index ==> #[trigger] after[i] == before[i]
    }
}

/// Replaces a track in the first album that holds it, puts that album's tracks
/// back in order and returns its key, so that exactly its row can be shown
/// anew. Returns `None`, and changes nothing, when no album holds the track.
pub fn replace_track_in_album(
    albums: &mut Vec<AlbumViewModel>,
    track_id: TrackId,
    new_track: &AlbumTrackViewModel,
) -> (key: Option<AlbumKey>)
    ensures
        track_patched(old(albums)@, final(albums)@, track_id, new_track@),
        match key {
            None => album_holding(old(albums)@, track_id) == old(albums)@.len()
                && *final(albums) == *old(albums),
            Some(key) => {
                let index = album_holding(old(albums)@, track_id);
                &&& 0 <= index < old(albums)@.len()
                &&& holds_track(old(albums)@[index].tracks@, track_id)
                &&& key@ == old(albums)@[index].key@
            },
        },
{
    let index = match find_holder(albums, track_id) {
        Some(index) => index,
        None => {
            return None;
        },
    };
    let slot = match find_track(&albums[index].tracks, track_id) {
        Some(slot) => slot,
        None => {
            return None;
        },
    };
    let replacement = new_track.clone();
    let ghost rows = albums@[index as int].tracks@;
    let album = &mut albums[index];
    album.tracks.set(slot, replacement);
    assert(crate::sorting::views(album.tracks@) =~= crate::sorting::views(rows).update(
        slot as int,
        new_track@,
    ));
    stable_sort(&mut album.tracks);
    Some(album.key.clone())
}

// ---------------------------------------------------------------------------
// Texts
// ---------------------------------------------------------------------------

/// The line below an album's title: its artist, and its year where it has one.
pub open spec fn subtitle_of(album: AlbumViewModel) -> Seq<char> {
    match album.year {
        Some(year) => album.artist@ + " ("@ + text::signed_decimal(year as int) + ")"@,
        None => album.artist@,
    }
}

/// The line below an album's title.
pub fn album_subtitle(album: &AlbumViewModel) -> (subtitle: String)
    ensures
        subtitle@ == subtitle_of(*album),
{
    let mut subtitle = album.artist.clone();
    if let Some(year) = album.year {
        subtitle.append(" (");
        push_signed(&mut subtitle, year as i64);
        subtitle.append(")");
    }
    subtitle
}

/// The number beside a track: with its disc when that is not the first.
pub open spec fn number_of(track: AlbumTrackViewModel) -> Seq<char> {
    match (track.disc_number, track.track_number) {
        (Some(disc), Some(number)) if disc > 1 => text::decimal(disc as nat) + "-"@
            + text::decimal(number as nat),
        (_, Some(number)) => text::decimal(number as nat),
        _ => Seq::empty(),
    }
}

/// The number beside a track.
pub fn track_number_text(track: &AlbumTrackViewModel) -> (text: String)
    ensures
        text@ == number_of(*track),
{
    let mut text = String::new();
    if let Some(number) = track.track_number {
        if let Some(disc) = track.disc_number {
            if disc > 1 {
                push_decimal(&mut text, disc as u64);
                text.append("-");
            }
        }
        push_decimal(&mut text, number as u64);
    }
    assert(text@ =~= number_of(*track));
    text
}

/// A duration as minutes and seconds, with hours where there are any.
pub open spec fn clock_text(seconds: nat) -> Seq<char> {
    let hours = seconds / 3600;
    let minutes = seconds % 3600 / 60;
    let rest = text::two_digits(seconds % 60);
    if hours > 0 {
        text::decimal(hours) + ":"@ + text::two_digits(minutes) + ":"@ + rest
    } else {
        text::decimal(minutes) + ":"@ + rest
    }
}

/// A duration as minutes and seconds, with hours where there are any.
pub fn duration_text(duration_seconds: u64) -> (text: String)
    ensures
        text@ == clock_text(duration_seconds as nat),
{
    let hours: u64 = duration_seconds / 3600;
    let minutes: u64 = duration_seconds % 3600 / 60;
    let seconds: u64 = duration_seconds % 60;
    let mut text = String::new();
    if hours > 0 {
        push_decimal(&mut text, hours);
        text.append(":");
        push_two_digits(&mut text, minutes);
    } else {
        push_decimal(&mut text, minutes);
    }
    text.append(":");
    push_two_digits(&mut text, seconds);
    assert(text@ =~= clock_text(duration_seconds as nat));
    text
}

// ---------------------------------------------------------------------------
// Laws
// ---------------------------------------------------------------------------

/// No track belongs to two albums: there is one album with its key.
pub proof fn law_album_of_a_track_is_unique(
    albums: Seq<AlbumViewModel>,
    tracks: Seq<Track>,
    t: int,
    i: int,
    j: int,
)
    requires
        albums_group(albums, tracks),
        0 <= t < tracks.len(),
        0 <= i < albums.len(),
        0 <= j < albums.len(),
        albums[i].key@ == key_of(tracks[t]),
        albums[j].key@ == key_of(tracks[t]),
    ensures
        i == j,
{
    lemma_key_order_same(albums[i].key@, albums[j].key@);
    if i < j {
        assert(key_order(albums[i].key@, albums[j].key@) == Order::Before);
    } else if j < i {
        assert(key_order(albums[j].key@, albums[i].key@) == Order::Before);
    }
}

/// The members of an album have its key.
proof fn lemma_members_have_the_key(tracks: Seq<Track>, key: (Seq<char>, Seq<char>), m: int)
    requires
        0 <= m < members(tracks, key).len(),
    ensures
        key_of(members(tracks, key)[m]) == key,
    decreases tracks.len(),
{
    let earlier = members(tracks.drop_last(), key);
    if m < earlier.len() {
        lemma_members_have_the_key(tracks.drop_last(), key, m);
    }
}

/// Albums of two groupings of the same tracks share a key iff they cover the
/// same tracks, and they are then the same album in every respect.
pub proof fn law_albums_share_a_key_iff_they_cover_the_same_tracks(
    first: Seq<AlbumViewModel>,
    second: Seq<AlbumViewModel>,
    tracks: Seq<Track>,
    i: int,
    j: int,
)
    requires
        albums_group(first, tracks),
        albums_group(second, tracks),
        0 <= i < first.len(),
        0 <= j < second.len(),
    ensures
        first[i].key@ == second[j].key@ <==> members(tracks, first[i].key@) == members(
            tracks,
            second[j].key@,
        ),
        first[i].key@ == second[j].key@ ==> first[i]@ == second[j]@,
{
    let covered = members(tracks, first[i].key@);
    assert(first[i].shows(covered));
    assert(second[j].shows(members(tracks, second[j].key@)));
    if covered == members(tracks, second[j].key@) {
        lemma_members_have_the_key(tracks, first[i].key@, 0);
        lemma_members_have_the_key(tracks, second[j].key@, 0);
        crate::sorting::law_stable_order_is_unique::<AlbumTrackViewModel>(
            track_rows(covered),
            crate::sorting::views(first[i].tracks@),
            crate::sorting::views(second[j].tracks@),
        );
    }
}

/// Every track of the library is shown: the album with its key lists its row.
pub proof fn law_every_track_is_shown(albums: Seq<AlbumViewModel>, tracks: Seq<Track>, t: int)
    requires
        albums_group(albums, tracks),
        0 <= t < tracks.len(),
    ensures
        exists|i: int, r: int|
            #![trigger albums[i].tracks@[r]]
            0 <= i < albums.len() && 0 <= r < albums[i].tracks@.len() && albums[i].key@ == key_of(
                tracks[t],
            ) && albums[i].tracks@[r]@ == track_row(tracks[t]),
{
    let key = key_of(tracks[t]);
    let i = album_keys(albums).index_of(key);
    assert(album_keys(albums).contains(key_of(tracks[t])));
    assert(albums[i].key@ == key);
    let mine = members(tracks, key);
    let m = lemma_member(tracks, t);
    assert(albums[i].shows(members(tracks, albums[i].key@)));
    let rows = track_rows(mine);
    let shown = crate::sorting::views(albums[i].tracks@);
    let r = crate::sorting::lemma_every_item_is_kept::<AlbumTrackViewModel>(rows, shown, m);
    assert(albums[i].tracks@[r]@ == shown[r]);
}

/// A track is a member of its own album.
proof fn lemma_member(tracks: Seq<Track>, t: int) -> (m: int)
    requires
        0 <= t < tracks.len(),
    ensures
        0 <= m < members(tracks, key_of(tracks[t])).len(),
        members(tracks, key_of(tracks[t]))[m] == tracks[t],
    decreases tracks.len(),
{
    let key = key_of(tracks[t]);
    if t == tracks.len() - 1 {
        members(tracks.drop_last(), key).len() as int
    } else {
        assert(tracks.drop_last()[t] == tracks[t]);
        lemma_member(tracks.drop_last(), t)
    }
}

/// The number of rows that some albums list together.
pub open spec fn row_total(albums: Seq<AlbumViewModel>) -> nat
    decreases albums.len(),
{
    if albums.len() == 0 {
        0
    } else {
        row_total(albums.drop_last()) + albums.last().tracks@.len()
    }
}

/// No track is lost or shown twice: the albums list as many rows as the
/// library has tracks.
pub proof fn law_no_track_is_lost_or_doubled(albums: Seq<AlbumViewModel>, tracks: Seq<Track>)
    requires
        albums_group(albums, tracks),
    ensures
        row_total(albums) == tracks.len(),
{
    let keys = album_keys(albums);
    assert forall|i: int, j: int| 0 <= i < j < keys.len() implies keys[i] != keys[j] by {
        assert(key_order(albums[i].key@, albums[j].key@) == Order::Before);
        lemma_key_order_same(albums[i].key@, albums[j].key@);
    }
    lemma_member_total(keys, tracks);
    assert forall|i: int| 0 <= i < albums.len() implies (#[trigger] albums[i]).tracks@.len()
        == members(tracks, keys[i]).len() by {
        assert(albums[i].shows(members(tracks, albums[i].key@)));
    }
    lemma_row_total(albums, tracks);
}

/// The number of tracks that have one of these keys.
spec fn member_total(keys: Seq<(Seq<char>, Seq<char>)>, tracks: Seq<Track>) -> nat
    decreases keys.len(),
{
    if keys.len() == 0 {
        0
    } else {
        member_total(keys.drop_last(), tracks) + members(tracks, keys.last()).len()
    }
}

proof fn lemma_row_total(albums: Seq<AlbumViewModel>, tracks: Seq<Track>)
    requires
        forall|i: int|
            0 <= i < albums.len() ==> (#[trigger] albums[i]).tracks@.len() == members(
                tracks,
                album_keys(albums)[i],
            ).len(),
    ensures
        row_total(albums) == member_total(album_keys(albums), tracks),
    decreases albums.len(),
{
    if albums.len() > 0 {
        let rest = albums.drop_last();
        assert(album_keys(albums).drop_last() =~= album_keys(rest));
        assert forall|i: int| 0 <= i < rest.len() implies (#[trigger] rest[i]).tracks@.len()
            == members(tracks, album_keys(rest)[i]).len() by {
            assert(rest[i] == albums[i]);
        }
        lemma_row_total(rest, tracks);
        assert(albums.last() == albums[albums.len() - 1]);
    }
}

/// One more track with one of the keys adds one; with none of them, nothing.
proof fn lemma_member_total_step(
    keys: Seq<(Seq<char>, Seq<char>)>,
    tracks: Seq<Track>,
)
    requires
        tracks.len() > 0,
        forall|i: int, j: int| 0 <= i < j < keys.len() ==> keys[i] != keys[j],
    ensures
        member_total(keys, tracks) == member_total(keys, tracks.drop_last()) + if keys.contains(
            key_of(tracks.last()),
        ) { 1nat } else { 0nat },
    decreases keys.len(),
{
    if keys.len() > 0 {
        let rest = keys.drop_last();
        let key = key_of(tracks.last());
        lemma_member_total_step(rest, tracks);
        if rest.contains(key) {
            let i = rest.index_of(key);
            assert(keys[i] == key);
            assert(keys[i] != keys[keys.len() - 1]);
        } else if keys.contains(key) {
            let i = keys.index_of(key);
            if i < rest.len() {
                assert(rest[i] == key);
            }
        } else {
            assert(keys[keys.len() - 1] != key);
        }
    }
}

proof fn lemma_member_total(keys: Seq<(Seq<char>, Seq<char>)>, tracks: Seq<Track>)
    requires
        forall|i: int, j: int| 0 <= i < j < keys.len() ==> keys[i] != keys[j],
        forall|t: int| 0 <= t < tracks.len() ==> keys.contains(key_of(#[trigger] tracks[t])),
    ensures
        member_total(keys, tracks) == tracks.len(),
    decreases tracks.len(),
{
    if tracks.len() > 0 {
        lemma_member_total_step(keys, tracks);
        let rest = tracks.drop_last();
        assert forall|t: int| 0 <= t < rest.len() implies keys.contains(
            key_of(#[trigger] rest[t]),
        ) by {
            assert(rest[t] == tracks[t]);
        }
        assert(tracks.last() == tracks[tracks.len() - 1]);
        lemma_member_total(keys, rest);
    } else {
        lemma_member_total_empty(keys, tracks);
    }
}

proof fn lemma_member_total_empty(keys: Seq<(Seq<char>, Seq<char>)>, tracks: Seq<Track>)
    requires
        tracks.len() == 0,
    ensures
        member_total(keys, tracks) == 0,
    decreases keys.len(),
{
    if keys.len() > 0 {
        lemma_member_total_empty(keys.drop_last(), tracks);
    }
}

/// How two rows of an album stand to each other, the first before the second.
pub open spec fn rows_in_album_order(
    first: AlbumTrackViewModel,
    second: AlbumTrackViewModel,
) -> bool {
    let first_disc: int = match first.disc_number {
        Some(disc) => disc as int,
        None => 0,
    };
    let second_disc: int = match second.disc_number {
        Some(disc) => disc as int,
        None => 0,
    };
    let first_number: int = match first.track_number {
        Some(number) => number as int,
        None => u32::MAX as int,
    };
    let second_number: int = match second.track_number {
        Some(number) => number as int,
        None => u32::MAX as int,
    };
    let first_title = text::lowercase(text::trimmed(first.title@));
    let second_title = text::lowercase(text::trimmed(second.title@));
    &&& first_disc <= second_disc
    &&& first_disc == second_disc ==> first_number <= second_number
    &&& first_disc == second_disc && first_number == second_number ==> text::text_order(
        first_title,
        second_title,
    ) != Order::After
    &&& first_disc == second_disc && first_number == second_number && first_title == second_title
        ==> first.id.value <= second.id.value
}

/// An album lists its tracks disc by disc, where no disc counts as disc zero; on
/// a disc by track number, where none counts as the highest; then by title,
/// upper and lower case alike; then by identifier.
pub proof fn law_albums_list_their_tracks_disc_by_disc(
    albums: Seq<AlbumViewModel>,
    tracks: Seq<Track>,
    a: int,
    i: int,
    j: int,
)
    requires
        albums_group(albums, tracks),
        0 <= a < albums.len(),
        0 <= i < j < albums[a].tracks@.len(),
    ensures
        rows_in_album_order(albums[a].tracks@[i], albums[a].tracks@[j]),
{
    assert(albums[a].shows(members(tracks, albums[a].key@)));
    lemma_rows_in_album_order(
        track_rows(members(tracks, albums[a].key@)),
        albums[a].tracks@,
        i,
        j,
    );
}

/// An album whose track was replaced lists its tracks disc by disc, too.
pub proof fn law_patched_albums_list_their_tracks_disc_by_disc(
    before: AlbumViewModel,
    after: AlbumViewModel,
    slot: int,
    new_track: AlbumTrackView,
    i: int,
    j: int,
)
    requires
        track_replaced(before, after, slot, new_track),
        0 <= i < j < after.tracks@.len(),
    ensures
        rows_in_album_order(after.tracks@[i], after.tracks@[j]),
{
    lemma_rows_in_album_order(
        crate::sorting::views(before.tracks@).update(slot, new_track),
        after.tracks@,
        i,
        j,
    );
}

proof fn lemma_rows_in_album_order(
    before: Seq<AlbumTrackView>,
    rows: Seq<AlbumTrackViewModel>,
    i: int,
    j: int,
)
    requires
        crate::sorting::stable_order::<AlbumTrackViewModel>(before, crate::sorting::views(rows)),
        0 <= i < j < rows.len(),
    ensures
        rows_in_album_order(rows[i], rows[j]),
{
    let shown = crate::sorting::views(rows);
    assert(AlbumTrackViewModel::rank_leq(shown[i], shown[j]));
    assert(shown[i] == rows[i]@ && shown[j] == rows[j]@);
    text::lemma_text_order_same(normalized(rows[i].title@), normalized(rows[j].title@));
}

/// The albums stand by artist, and those of an artist by title.
pub proof fn law_albums_stand_by_artist_then_title(
    albums: Seq<AlbumViewModel>,
    tracks: Seq<Track>,
    i: int,
    j: int,
)
    requires
        albums_group(albums, tracks),
        0 <= i < j < albums.len(),
    ensures
        ({
            let (first, second) = (albums[i].key, albums[j].key);
            ||| text::text_order(first.artist@, second.artist@) == Order::Before
            ||| first.artist@ == second.artist@ && text::text_order(first.title@, second.title@)
                == Order::Before
        }),
{
    assert(key_order(albums[i].key@, albums[j].key@) == Order::Before);
    text::lemma_text_order_same(albums[i].key.artist@, albums[j].key.artist@);
}

/// A row tells of its track: its title is the tag of the track, or the stem of
/// its file name where the tag is blank.
pub proof fn law_a_row_tells_of_its_track(track: Track)
    ensures
        ({
            let row = track_row(track);
            let stem = paths::file_stem(paths::path_bytes(track.location.path));
            &&& row.id == track.id
            &&& row.file_path == paths::path_bytes(track.location.path)
            &&& row.disc_number == track.metadata.disc_number
            &&& row.track_number == track.metadata.track_number
            &&& row.is_missing == track.location.missing
            &&& track.metadata.duration matches Some(duration) ==> row.duration_seconds
                == duration.seconds
            &&& track.metadata.duration is None ==> row.duration_seconds == 0
            &&& !text::blank(track.metadata.title.deep_view()) ==> row.title == text::trimmed(
                (track.metadata.title->0)@,
            )
            &&& text::blank(track.metadata.title.deep_view()) && !text::blank(stem) ==> row.title
                == text::trimmed(stem->0)
            &&& text::blank(track.metadata.title.deep_view()) && text::blank(stem)
                ==> row.title.len() == 0
        }),
{
    text::law_a_tag_is_filled_unless_it_is_blank(track.metadata.title.deep_view());
    text::law_a_tag_is_filled_unless_it_is_blank(
        paths::file_stem(paths::path_bytes(track.location.path)),
    );
}

/// What puts tracks into one album. Tracks of albums with different titles are
/// never put together. Tracks that name an album artist go together iff it is
/// the same one, whoever plays on them; so do all tracks of a compilation that
/// name none; and other tracks that name none go together iff their artist is
/// the same. Margins and upper and lower case do not matter.
pub proof fn law_what_puts_tracks_together(a: Track, b: Track)
    requires
        !text::blank(a.metadata.album.deep_view()),
        !text::blank(b.metadata.album.deep_view()),
        !text::blank(a.metadata.artist.deep_view()),
        !text::blank(b.metadata.artist.deep_view()),
    ensures
        ({
            let same = |x: Option<String>, y: Option<String>|
                text::lowercase(text::trimmed((x->0)@)) == text::lowercase(
                    text::trimmed((y->0)@),
                );
            let names = |x: Track| !text::blank(x.metadata.album_artist.deep_view());
            let compiled = |x: Track| x.metadata.compilation == Some(true);
            let together = key_of(a) == key_of(b);
            &&& !same(a.metadata.album, b.metadata.album) ==> !together
            &&& same(a.metadata.album, b.metadata.album) ==> {
                &&& names(a) && names(b) ==> together == same(
                    a.metadata.album_artist,
                    b.metadata.album_artist,
                )
                &&& !names(a) && !names(b) && compiled(a) && compiled(b) ==> together
                &&& !names(a) && !names(b) && !compiled(a) && !compiled(b) ==> together == same(
                    a.metadata.artist,
                    b.metadata.artist,
                )
                &&& names(a) && !names(b) && !compiled(b) ==> together == same(
                    a.metadata.album_artist,
                    b.metadata.artist,
                )
                &&& names(a) && !names(b) && compiled(b) && (a.metadata.album_artist->0)@
                    == "Various Artists"@ ==> together
            }
        }),
{
    lemma_filled(a.metadata.album.deep_view());
    lemma_filled(b.metadata.album.deep_view());
    lemma_filled(a.metadata.artist.deep_view());
    lemma_filled(b.metadata.artist.deep_view());
    lemma_filled(a.metadata.album_artist.deep_view());
    lemma_filled(b.metadata.album_artist.deep_view());
    text::lemma_trimmed_twice("Various Artists"@);
}

/// Tracks without an album, and those without an artist, are put together under
/// a stand-in.
pub proof fn law_blank_tags_have_a_stand_in(a: Track)
    ensures
        text::blank(a.metadata.album.deep_view()) ==> key_of(a).1 == normalized("Unknown Album"@),
        text::blank(a.metadata.artist.deep_view()) && text::blank(
            a.metadata.album_artist.deep_view(),
        ) && a.metadata.compilation != Some(true) ==> key_of(a).0 == normalized(
            "Unknown Artist"@,
        ),
{
    lemma_filled(a.metadata.album.deep_view());
    lemma_filled(a.metadata.artist.deep_view());
    lemma_filled(a.metadata.album_artist.deep_view());
}

proof fn lemma_filled(value: Option<Seq<char>>)
    ensures
        text::filled(value) == if text::blank(value) {
            None
        } else {
            Some(text::trimmed(value->0))
        },
        value matches Some(text) ==> text::trimmed(text::trimmed(text)) == text::trimmed(text),
{
    text::law_a_tag_is_filled_unless_it_is_blank(value);
    if let Some(text) = value {
        text::lemma_trimmed_twice(text);
    }
}

/// The tracks with a key, in the order of the library.
proof fn lemma_members_listed(tracks: Seq<Track>, key: (Seq<char>, Seq<char>), upto: nat)
    requires
        upto <= tracks.len(),
    ensures
        seqs::lists(
            members(tracks.take(upto as int), key),
            upto,
            |t: int| key_of(tracks[t]) == key,
            |t: int| tracks[t],
        ),
    decreases upto,
{
    let wanted = |t: int| key_of(tracks[t]) == key;
    let item = |t: int| tracks[t];
    if upto == 0 {
        assert(tracks.take(0) =~= Seq::empty());
        seqs::lemma_lists_nothing(wanted, item);
    } else {
        let fewer = (upto - 1) as nat;
        lemma_members_listed(tracks, key, fewer);
        assert(tracks.take(upto as int).drop_last() =~= tracks.take(fewer as int));
        assert(tracks.take(upto as int).last() == tracks[fewer as int]);
        seqs::lemma_lists_one_more(members(tracks.take(fewer as int), key), fewer, wanted, item);
    }
}

/// The artist of a track, or a stand-in where its tag is blank.
pub open spec fn credited(track: Track) -> Seq<char> {
    if text::blank(track.metadata.artist.deep_view()) {
        "Unknown Artist"@
    } else {
        text::trimmed((track.metadata.artist->0)@)
    }
}

/// An album covers exactly the tracks of the library that have its key, in the
/// order of the library. It has the album title of the first of them and the
/// first year that one of them names. Its artist is the first album artist that
/// one of them names; where none does, a compilation names each of its artists
/// once, in the order in which they come, and another album the artist of its
/// first track. Its cover is that of the first of its rows whose file is there,
/// or of the first where none is.
pub proof fn law_an_album_is_drawn_from_its_tracks(
    albums: Seq<AlbumViewModel>,
    tracks: Seq<Track>,
    a: int,
) -> (covered: Seq<Track>)
    requires
        albums_group(albums, tracks),
        0 <= a < albums.len(),
    ensures
        covered.len() > 0,
        seqs::lists(
            covered,
            tracks.len(),
            |t: int| key_of(tracks[t]) == albums[a].key@,
            |t: int| tracks[t],
        ),
        text::blank(covered[0].metadata.album.deep_view()) ==> albums[a].title@
            == "Unknown Album"@,
        !text::blank(covered[0].metadata.album.deep_view()) ==> albums[a].title@
            == text::trimmed((covered[0].metadata.album->0)@),
        forall|m: int|
            0 <= m < covered.len() && (#[trigger] covered[m]).metadata.year is Some && (forall|
                l: int,
            |
                0 <= l < m ==> (#[trigger] covered[l]).metadata.year is None) ==> albums[a].year
                == covered[m].metadata.year,
        (forall|m: int| 0 <= m < covered.len() ==> (#[trigger] covered[m]).metadata.year is None)
            ==> albums[a].year is None,
        forall|m: int|
            0 <= m < covered.len() && !text::blank(
                (#[trigger] covered[m]).metadata.album_artist.deep_view(),
            ) && (forall|l: int|
                0 <= l < m ==> text::blank(
                    (#[trigger] covered[l]).metadata.album_artist.deep_view(),
                )) ==> albums[a].artist@ == text::trimmed(
                (covered[m].metadata.album_artist->0)@,
            ),
        (forall|m: int|
            0 <= m < covered.len() ==> text::blank(
                (#[trigger] covered[m]).metadata.album_artist.deep_view(),
            ) && covered[m].metadata.compilation != Some(true)) ==> albums[a].artist@ == credited(
            covered[0],
        ),
        (forall|m: int|
            0 <= m < covered.len() ==> text::blank(
                (#[trigger] covered[m]).metadata.album_artist.deep_view(),
            )) && (exists|m: int|
            0 <= m < covered.len() && (#[trigger] covered[m]).metadata.compilation == Some(true))
            ==> exists|names: Seq<Seq<char>>|
            albums[a].artist@ == #[trigger] text::joined(names, ", "@) && seqs::lists(
                names,
                covered.len(),
                |m: int| !credited_before(covered, m),
                |m: int| credited(covered[m]),
            ),
        albums[a].tracks@.len() == covered.len(),
        forall|r: int|
            0 <= r < albums[a].tracks@.len() && !(#[trigger] albums[a].tracks@[r]).is_missing && (
            forall|l: int| 0 <= l < r ==> (#[trigger] albums[a].tracks@[l]).is_missing)
                ==> paths::bytes_view(albums[a].representative_track_path) == Some(
                paths::path_bytes(albums[a].tracks@[r].file_path),
            ),
        (forall|r: int|
            0 <= r < albums[a].tracks@.len() ==> (#[trigger] albums[a].tracks@[r]).is_missing)
            ==> paths::bytes_view(albums[a].representative_track_path) == Some(
            paths::path_bytes(albums[a].tracks@[0].file_path),
        ),
{
    let album = albums[a];
    let covered = members(tracks, album.key@);
    assert(album.shows(covered));
    lemma_members_listed(tracks, album.key@, tracks.len());
    assert(tracks.take(tracks.len() as int) =~= tracks);
    lemma_filled(covered[0].metadata.album.deep_view());
    assert forall|m: int|
        0 <= m < covered.len() && (#[trigger] covered[m]).metadata.year is Some && (forall|l: int|
            0 <= l < m ==> (#[trigger] covered[l]).metadata.year is None) implies album.year
        == covered[m].metadata.year by {
        lemma_first_year(covered, m);
    }
    if forall|m: int| 0 <= m < covered.len() ==> (#[trigger] covered[m]).metadata.year is None {
        lemma_first_year(covered, covered.len() as int);
    }
    assert forall|m: int|
        0 <= m < covered.len() && !text::blank(
            (#[trigger] covered[m]).metadata.album_artist.deep_view(),
        ) && (forall|l: int|
            0 <= l < m ==> text::blank(
                (#[trigger] covered[l]).metadata.album_artist.deep_view(),
            )) implies album.artist@ == text::trimmed((covered[m].metadata.album_artist->0)@) by {
        lemma_first_album_artist(covered, m);
        lemma_filled(covered[m].metadata.album_artist.deep_view());
    }
    if forall|m: int|
        0 <= m < covered.len() ==> text::blank(
            (#[trigger] covered[m]).metadata.album_artist.deep_view(),
        ) {
        lemma_first_album_artist(covered, covered.len() as int);
        assert(text::blank(covered[0].metadata.album_artist.deep_view()));
        lemma_filled(covered[0].metadata.album_artist.deep_view());
        lemma_filled(covered[0].metadata.artist.deep_view());
        if exists|m: int|
            0 <= m < covered.len() && (#[trigger] covered[m]).metadata.compilation == Some(true) {
            let m = choose|m: int|
                0 <= m < covered.len() && (#[trigger] covered[m]).metadata.compilation == Some(
                    true,
                );
            assert(in_compilation(covered[m].metadata));
            lemma_artists_of(covered, covered.len());
            assert(covered.take(covered.len() as int) =~= covered);
            assert(album.artist@ == text::joined(artists_of(covered), ", "@));
        }
    }
    lemma_representative(album.tracks@, crate::sorting::views(album.tracks@));
    covered
}

/// A track before this one names the same artist, up to case and margins.
pub open spec fn credited_before(tracks: Seq<Track>, m: int) -> bool {
    exists|l: int|
        0 <= l < m && text::lowercase(text::trimmed(credited(#[trigger] tracks[l])))
            == text::lowercase(text::trimmed(credited(tracks[m])))
}

proof fn lemma_first_year(tracks: Seq<Track>, m: int)
    requires
        0 <= m <= tracks.len(),
        m < tracks.len() ==> tracks[m].metadata.year is Some,
        forall|l: int| 0 <= l < m ==> (#[trigger] tracks[l]).metadata.year is None,
    ensures
        first_year(tracks) == if m < tracks.len() {
            tracks[m].metadata.year
        } else {
            None
        },
    decreases tracks.len(),
{
    if tracks.len() > 0 {
        let rest = tracks.drop_last();
        if m < rest.len() {
            assert(rest[m] == tracks[m]);
            assert forall|l: int| 0 <= l < m implies (#[trigger] rest[l]).metadata.year is None by {
                assert(rest[l] == tracks[l]);
            }
            lemma_first_year(rest, m);
        } else {
            assert forall|l: int| 0 <= l < rest.len() implies (
            #[trigger] rest[l]).metadata.year is None by {
                assert(rest[l] == tracks[l]);
            }
            lemma_first_year(rest, rest.len() as int);
            assert(tracks.last() == tracks[tracks.len() - 1]);
        }
    }
}

proof fn lemma_first_album_artist(tracks: Seq<Track>, m: int)
    requires
        0 <= m <= tracks.len(),
        m < tracks.len() ==> !text::blank(tracks[m].metadata.album_artist.deep_view()),
        forall|l: int|
            0 <= l < m ==> text::blank((#[trigger] tracks[l]).metadata.album_artist.deep_view()),
    ensures
        first_album_artist(tracks) == if m < tracks.len() {
            text::filled(tracks[m].metadata.album_artist.deep_view())
        } else {
            None
        },
    decreases tracks.len(),
{
    if tracks.len() > 0 {
        let rest = tracks.drop_last();
        lemma_filled(tracks.last().metadata.album_artist.deep_view());
        assert(tracks.last() == tracks[tracks.len() - 1]);
        if m < rest.len() {
            assert(rest[m] == tracks[m]);
            assert forall|l: int| 0 <= l < m implies text::blank(
                (#[trigger] rest[l]).metadata.album_artist.deep_view(),
            ) by {
                assert(rest[l] == tracks[l]);
            }
            lemma_first_album_artist(rest, m);
            lemma_filled(rest[m].metadata.album_artist.deep_view());
        } else {
            assert forall|l: int| 0 <= l < rest.len() implies text::blank(
                (#[trigger] rest[l]).metadata.album_artist.deep_view(),
            ) by {
                assert(rest[l] == tracks[l]);
            }
            lemma_first_album_artist(rest, rest.len() as int);
        }
    }
}

proof fn lemma_artists_of(tracks: Seq<Track>, upto: nat)
    requires
        upto <= tracks.len(),
    ensures
        seqs::lists(
            artists_of(tracks.take(upto as int)),
            upto,
            |m: int| !credited_before(tracks, m),
            |m: int| credited(tracks[m]),
        ),
        forall|artist: Seq<char>| #[trigger]
            lists_artist(artists_of(tracks.take(upto as int)), artist) <==> exists|l: int|
                0 <= l < upto && normalized(credited(#[trigger] tracks[l])) == normalized(artist),
    decreases upto,
{
    let wanted = |m: int| !credited_before(tracks, m);
    let item = |m: int| credited(tracks[m]);
    if upto == 0 {
        assert(tracks.take(0) =~= Seq::empty());
        seqs::lemma_lists_nothing(wanted, item);
    } else {
        let fewer = (upto - 1) as nat;
        lemma_artists_of(tracks, fewer);
        let earlier = artists_of(tracks.take(fewer as int));
        assert(tracks.take(upto as int).drop_last() =~= tracks.take(fewer as int));
        assert(tracks.take(upto as int).last() == tracks[fewer as int]);
        let artist = credited(tracks[fewer as int]);
        lemma_filled(tracks[fewer as int].metadata.artist.deep_view());
        assert(artist_of(tracks[fewer as int].metadata) == artist);
        seqs::lemma_lists_one_more(earlier, fewer, wanted, item);
        let now = with_artist(earlier, artist);
        assert(artists_of(tracks.take(upto as int)) == now);
        assert(lists_artist(earlier, artist) == credited_before(tracks, fewer as int));
        assert forall|other: Seq<char>| #[trigger] lists_artist(now, other) <==> exists|l: int|
            0 <= l < upto && normalized(credited(#[trigger] tracks[l])) == normalized(other) by {
            if lists_artist(now, other) {
                let i = choose|i: int|
                    0 <= i < now.len() && normalized(#[trigger] now[i]) == normalized(other);
                if i < earlier.len() {
                    assert(earlier[i] == now[i]);
                    assert(lists_artist(earlier, other));
                } else {
                    assert(normalized(credited(tracks[fewer as int])) == normalized(other));
                }
            }
            if exists|l: int|
                0 <= l < upto && normalized(credited(#[trigger] tracks[l])) == normalized(other) {
                let l = choose|l: int|
                    0 <= l < upto && normalized(credited(#[trigger] tracks[l])) == normalized(
                        other,
                    );
                if l < fewer {
                    assert(lists_artist(earlier, other));
                    let i = choose|i: int|
                        0 <= i < earlier.len() && normalized(#[trigger] earlier[i]) == normalized(
                            other,
                        );
                    assert(now[i] == earlier[i]);
                } else if lists_artist(earlier, artist) {
                    let i = choose|i: int|
                        0 <= i < earlier.len() && normalized(#[trigger] earlier[i]) == normalized(
                            artist,
                        );
                    assert(now[i] == earlier[i]);
                } else {
                    assert(now[earlier.len() as int] == artist);
                }
            }
        }
    }
}

proof fn lemma_representative(rows: Seq<AlbumTrackViewModel>, shown: Seq<AlbumTrackView>)
    requires
        shown == crate::sorting::views(rows),
    ensures
        forall|r: int|
            0 <= r < rows.len() && !(#[trigger] rows[r]).is_missing && (forall|l: int|
                0 <= l < r ==> (#[trigger] rows[l]).is_missing) ==> representative_path(shown)
                == Some(paths::path_bytes(rows[r].file_path)),
        rows.len() > 0 && (forall|r: int|
            0 <= r < rows.len() ==> (#[trigger] rows[r]).is_missing) ==> representative_path(shown)
            == Some(paths::path_bytes(rows[0].file_path)),
{
    assert forall|r: int|
        0 <= r < rows.len() && !(#[trigger] rows[r]).is_missing && (forall|l: int|
            0 <= l < r ==> (#[trigger] rows[l]).is_missing) implies representative_path(shown)
        == Some(paths::path_bytes(rows[r].file_path)) by {
        assert forall|l: int| 0 <= l < r implies (#[trigger] shown[l]).is_missing by {
            assert(rows[l].is_missing);
        }
        lemma_first_present(shown, r);
    }
    if rows.len() > 0 && (forall|r: int| 0 <= r < rows.len() ==> (#[trigger] rows[r]).is_missing) {
        assert forall|l: int| 0 <= l < shown.len() implies (#[trigger] shown[l]).is_missing by {
            assert(rows[l].is_missing);
        }
        lemma_first_present(shown, shown.len() as int);
    }
}

proof fn lemma_first_present(rows: Seq<AlbumTrackView>, r: int)
    requires
        0 <= r <= rows.len(),
        r < rows.len() ==> !rows[r].is_missing,
        forall|l: int| 0 <= l < r ==> (#[trigger] rows[l]).is_missing,
    ensures
        first_present_path(rows) == if r < rows.len() {
            Some(rows[r].file_path)
        } else {
            None
        },
    decreases rows.len(),
{
    if r > 0 {
        let rest = rows.drop_first();
        assert(rows[0].is_missing);
        assert forall|l: int| 0 <= l < r - 1 implies (#[trigger] rest[l]).is_missing by {
            assert(rows[l + 1].is_missing);
        }
        lemma_first_present(rest, r - 1);
    }
}

/// Hours, minutes and seconds are written apart, the hours only where there are
/// any.
pub proof fn law_hours_minutes_and_seconds_are_written_apart(
    hours: nat,
    minutes: nat,
    seconds: nat,
)
    requires
        minutes < 60,
        seconds < 60,
    ensures
        hours == 0 ==> clock_text(60 * minutes + seconds) == text::decimal(minutes) + ":"@
            + text::two_digits(seconds),
        hours > 0 ==> clock_text(3600 * hours + 60 * minutes + seconds) == text::decimal(hours)
            + ":"@ + text::two_digits(minutes) + ":"@ + text::two_digits(seconds),
{
}

/// A track on the first disc, or on none, is numbered by its track number alone;
/// on another disc by both; and one without a track number not at all.
pub proof fn law_a_number_names_its_disc_beyond_the_first(track: AlbumTrackViewModel)
    ensures
        track.track_number is None <==> number_of(track).len() == 0,
        track.track_number is Some && (track.disc_number is None || track.disc_number->0 <= 1)
            ==> number_of(track) == text::decimal(track.track_number->0 as nat),
        track.track_number is Some && track.disc_number is Some && track.disc_number->0 >= 2
            ==> number_of(track) == text::decimal(track.disc_number->0 as nat) + "-"@
            + text::decimal(track.track_number->0 as nat),
{
    if let Some(number) = track.track_number {
        text::law_digits_stand_for_their_number(number as nat);
    }
}

/// The line below an album's title starts with its artist, and ends there where
/// the year is not known.
pub proof fn law_the_subtitle_names_the_artist_first(album: AlbumViewModel)
    ensures
        album.year is None ==> subtitle_of(album) == album.artist@,
        album.year is Some ==> subtitle_of(album) == album.artist@ + " ("@ + text::signed_decimal(
            album.year->0 as int,
        ) + ")"@,
{
}

/// Rows that count as alike show the same: the same track from the same place,
/// under the same title and numbers, as long, and as present. Where one of these
/// differs, the rows are not alike.
pub proof fn law_rows_that_are_alike_show_the_same(left: AlbumTrackView, right: AlbumTrackView)
    ensures
        rows_alike(left, left),
        rows_alike(left, right) ==> left == (AlbumTrackView { file_path: left.file_path, ..right })
            && paths::path_components(left.file_path) == paths::path_components(right.file_path),
        rows_alike(left, right) == rows_alike(right, left),
{
}

/// The album that holds a track is the first that lists a row of it.
pub proof fn law_the_first_album_that_lists_a_track_holds_it(
    albums: Seq<AlbumViewModel>,
    id: TrackId,
    at: int,
    slot: int,
)
    requires
        0 <= at < albums.len(),
        0 <= slot < albums[at].tracks@.len(),
        albums[at].tracks@[slot].id == id,
        forall|l: int| 0 <= l < slot ==> (#[trigger] albums[at].tracks@[l]).id != id,
        forall|i: int, l: int|
            0 <= i < at && 0 <= l < albums[i].tracks@.len() ==> (
            #[trigger] albums[i].tracks@[l]).id != id,
    ensures
        album_holding(albums, id) == at,
        track_slot(albums[at].tracks@, id) == slot,
{
    seqs::lemma_is_first_index(albums[at].tracks@, is_track(id), slot);
    assert forall|i: int| 0 <= i < at implies !is_holder(id)(#[trigger] albums[i]) by {
        seqs::lemma_first_index(albums[i].tracks@, is_track(id));
        let found = track_slot(albums[i].tracks@, id);
        if found < albums[i].tracks@.len() {
            assert(is_track(id)(albums[i].tracks@[found]));
            assert(albums[i].tracks@[found].id == id);
        }
    }
    seqs::lemma_is_first_index(albums, is_holder(id), at);
}

} // verus!
