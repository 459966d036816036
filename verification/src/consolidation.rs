//! Consolidating duplicate tracks: which values the survivor keeps, and the
//! table in which they are chosen.

use vstd::prelude::*;

use crate::artwork::cache_row::ArtworkDimensions;
use crate::library::{Track, TrackId, TrackMetadata};
use crate::paths;
use crate::paths::file_extension_text;
use crate::seqs;
use crate::text;
use crate::text::{decimal_text, format_minutes, join, push_decimal, push_signed,
    to_ascii_uppercase, trim};

verus! {

// ---------------------------------------------------------------------------
// Fields
// ---------------------------------------------------------------------------

/// A tag that the survivor takes from one of the duplicates.
#[derive(Clone, Copy, Debug, PartialEq, Eq, Structural)]
pub enum DuplicateMetadataField {
    Title,
    Artist,
    Album,
    AlbumArtist,
    Composer,
    Grouping,
    Genre,
    TrackNumber,
    TrackTotal,
    DiscNumber,
    DiscTotal,
    Year,
    Compilation,
    Bpm,
    Key,
    Comments,
    Lyrics,
}

/// All fields, in the order in which they are listed.
pub open spec fn all_fields() -> Seq<DuplicateMetadataField> {
    seq![
        DuplicateMetadataField::Title,
        DuplicateMetadataField::Artist,
        DuplicateMetadataField::Album,
        DuplicateMetadataField::AlbumArtist,
        DuplicateMetadataField::Composer,
        DuplicateMetadataField::Grouping,
        DuplicateMetadataField::Genre,
        DuplicateMetadataField::TrackNumber,
        DuplicateMetadataField::TrackTotal,
        DuplicateMetadataField::DiscNumber,
        DuplicateMetadataField::DiscTotal,
        DuplicateMetadataField::Year,
        DuplicateMetadataField::Compilation,
        DuplicateMetadataField::Bpm,
        DuplicateMetadataField::Key,
        DuplicateMetadataField::Comments,
        DuplicateMetadataField::Lyrics,
    ]
}

/// All fields, in the order in which they are listed.
pub fn metadata_fields() -> (fields: Vec<DuplicateMetadataField>)
    ensures
        fields@ == all_fields(),
{
    let fields = vec![
        DuplicateMetadataField::Title,
        DuplicateMetadataField::Artist,
        DuplicateMetadataField::Album,
        DuplicateMetadataField::AlbumArtist,
        DuplicateMetadataField::Composer,
        DuplicateMetadataField::Grouping,
        DuplicateMetadataField::Genre,
        DuplicateMetadataField::TrackNumber,
        DuplicateMetadataField::TrackTotal,
        DuplicateMetadataField::DiscNumber,
        DuplicateMetadataField::DiscTotal,
        DuplicateMetadataField::Year,
        DuplicateMetadataField::Compilation,
        DuplicateMetadataField::Bpm,
        DuplicateMetadataField::Key,
        DuplicateMetadataField::Comments,
        DuplicateMetadataField::Lyrics,
    ];
    assert(fields@ =~= all_fields());
    fields
}

/// The name of a field.
pub open spec fn name_of(field: DuplicateMetadataField) -> Seq<char> {
    match field {
        DuplicateMetadataField::Title => "Title"@,
        DuplicateMetadataField::Artist => "Artist"@,
        DuplicateMetadataField::Album => "Album"@,
        DuplicateMetadataField::AlbumArtist => "Album Artist"@,
        DuplicateMetadataField::Composer => "Composer"@,
        DuplicateMetadataField::Grouping => "Grouping"@,
        DuplicateMetadataField::Genre => "Genre"@,
        DuplicateMetadataField::TrackNumber => "Track Number"@,
        DuplicateMetadataField::TrackTotal => "Track Total"@,
        DuplicateMetadataField::DiscNumber => "Disc Number"@,
        DuplicateMetadataField::DiscTotal => "Disc Total"@,
        DuplicateMetadataField::Year => "Year"@,
        DuplicateMetadataField::Compilation => "Compilation"@,
        DuplicateMetadataField::Bpm => "BPM"@,
        DuplicateMetadataField::Key => "Key"@,
        DuplicateMetadataField::Comments => "Comments"@,
        DuplicateMetadataField::Lyrics => "Lyrics"@,
    }
}

/// The name of a field.
pub fn metadata_field_name(field: DuplicateMetadataField) -> (name: &'static str)
    ensures
        name@ == name_of(field),
{
    match field {
        DuplicateMetadataField::Title => "Title",
        DuplicateMetadataField::Artist => "Artist",
        DuplicateMetadataField::Album => "Album",
        DuplicateMetadataField::AlbumArtist => "Album Artist",
        DuplicateMetadataField::Composer => "Composer",
        DuplicateMetadataField::Grouping => "Grouping",
        DuplicateMetadataField::Genre => "Genre",
        DuplicateMetadataField::TrackNumber => "Track Number",
        DuplicateMetadataField::TrackTotal => "Track Total",
        DuplicateMetadataField::DiscNumber => "Disc Number",
        DuplicateMetadataField::DiscTotal => "Disc Total",
        DuplicateMetadataField::Year => "Year",
        DuplicateMetadataField::Compilation => "Compilation",
        DuplicateMetadataField::Bpm => "BPM",
        DuplicateMetadataField::Key => "Key",
        DuplicateMetadataField::Comments => "Comments",
        DuplicateMetadataField::Lyrics => "Lyrics",
    }
}

/// A number as text, where there is one.
pub open spec fn number_text(value: Option<u32>) -> Option<Seq<char>> {
    match value {
        Some(value) => Some(text::decimal(value as nat)),
        None => None,
    }
}

/// The text of a field, blank or not.
pub open spec fn raw_field(metadata: TrackMetadata, field: DuplicateMetadataField) -> Option<
    Seq<char>,
> {
    match field {
        DuplicateMetadataField::Title => metadata.title.deep_view(),
        DuplicateMetadataField::Artist => metadata.artist.deep_view(),
        DuplicateMetadataField::Album => metadata.album.deep_view(),
        DuplicateMetadataField::AlbumArtist => metadata.album_artist.deep_view(),
        DuplicateMetadataField::Composer => metadata.composer.deep_view(),
        DuplicateMetadataField::Grouping => metadata.grouping.deep_view(),
        DuplicateMetadataField::Genre => metadata.genre.deep_view(),
        DuplicateMetadataField::TrackNumber => number_text(metadata.track_number),
        DuplicateMetadataField::TrackTotal => number_text(metadata.track_total),
        DuplicateMetadataField::DiscNumber => number_text(metadata.disc_number),
        DuplicateMetadataField::DiscTotal => number_text(metadata.disc_total),
        DuplicateMetadataField::Year => match metadata.year {
            Some(year) => Some(text::signed_decimal(year as int)),
            None => None,
        },
        DuplicateMetadataField::Compilation => match metadata.compilation {
            Some(true) => Some("Yes"@),
            Some(false) => Some("No"@),
            None => None,
        },
        DuplicateMetadataField::Bpm => metadata.bpm.deep_view(),
        DuplicateMetadataField::Key => metadata.key.deep_view(),
        DuplicateMetadataField::Comments => metadata.comments.deep_view(),
        DuplicateMetadataField::Lyrics => match metadata.lyrics.deep_view() {
            Some(lyrics) if text::trimmed(lyrics).len() > 0 => Some(
                text::decimal(lyrics.len()) + " characters"@,
            ),
            _ => None,
        },
    }
}

/// What is shown of a field: nothing when it is absent or blank. Lyrics are
/// shown by their length.
pub open spec fn shown_field(metadata: TrackMetadata, field: DuplicateMetadataField) -> Option<
    Seq<char>,
> {
    match raw_field(metadata, field) {
        Some(value) if text::trimmed(value).len() > 0 => Some(value),
        _ => None,
    }
}

fn number_field(value: Option<u32>) -> (text: Option<String>)
    ensures
        text.deep_view() == number_text(value),
{
    match value {
        Some(value) => Some(decimal_text(value as u64)),
        None => None,
    }
}

fn copy_field(value: &Option<String>) -> (copy: Option<String>)
    ensures
        copy.deep_view() == value.deep_view(),
{
    match value {
        Some(value) => Some(value.clone()),
        None => None,
    }
}

/// What is shown of a field.
pub fn metadata_field_display(metadata: &TrackMetadata, field: DuplicateMetadataField) -> (value:
    Option<String>)
    ensures
        value.deep_view() == shown_field(*metadata, field),
{
    let value = match field {
        DuplicateMetadataField::Title => copy_field(&metadata.title),
        DuplicateMetadataField::Artist => copy_field(&metadata.artist),
        DuplicateMetadataField::Album => copy_field(&metadata.album),
        DuplicateMetadataField::AlbumArtist => copy_field(&metadata.album_artist),
        DuplicateMetadataField::Composer => copy_field(&metadata.composer),
        DuplicateMetadataField::Grouping => copy_field(&metadata.grouping),
        DuplicateMetadataField::Genre => copy_field(&metadata.genre),
        DuplicateMetadataField::TrackNumber => number_field(metadata.track_number),
        DuplicateMetadataField::TrackTotal => number_field(metadata.track_total),
        DuplicateMetadataField::DiscNumber => number_field(metadata.disc_number),
        DuplicateMetadataField::DiscTotal => number_field(metadata.disc_total),
        DuplicateMetadataField::Year => match metadata.year {
            Some(year) => {
                let mut text = String::new();
                push_signed(&mut text, year as i64);
                assert(text@ =~= text::signed_decimal(year as int));
                Some(text)
            },
            None => None,
        },
        DuplicateMetadataField::Compilation => match metadata.compilation {
            Some(true) => Some("Yes".to_owned()),
            Some(false) => Some("No".to_owned()),
            None => None,
        },
        DuplicateMetadataField::Bpm => copy_field(&metadata.bpm),
        DuplicateMetadataField::Key => copy_field(&metadata.key),
        DuplicateMetadataField::Comments => copy_field(&metadata.comments),
        DuplicateMetadataField::Lyrics => match &metadata.lyrics {
            Some(lyrics) => {
                if trim(lyrics.as_str()).is_empty() {
                    None
                } else {
                    let mut text = decimal_text(lyrics.as_str().unicode_len() as u64);
                    text.append(" characters");
                    Some(text)
                }
            },
            None => None,
        },
    };
    match value {
        Some(value) => {
            if trim(value.as_str()).is_empty() {
                None
            } else {
                Some(value)
            }
        },
        None => None,
    }
}

// ---------------------------------------------------------------------------
// Texts of a track
// ---------------------------------------------------------------------------

/// How long a track plays, in whole seconds.
pub open spec fn seconds_of(track: Track) -> u64 {
    match track.metadata.duration {
        Some(duration) => duration.seconds,
        None => 0,
    }
}

/// How long a track plays.
pub fn format_duration(track: &Track) -> (text: String)
    ensures
        text@ == text::minutes_text(seconds_of(*track) as nat),
{
    let seconds: u64 = match track.metadata.duration {
        Some(duration) => duration.seconds,
        None => 0,
    };
    format_minutes(seconds)
}

/// The format of a file, told by its extension.
pub open spec fn format_of(track: Track) -> Seq<char> {
    match paths::file_extension(paths::path_bytes(track.location.path)) {
        Some(extension) => Seq::new(
            extension.len(),
            |i: int| text::ascii_upper(extension[i]),
        ),
        None => Seq::empty(),
    }
}

/// The format of a file.
pub fn file_format(track: &Track) -> (format: String)
    ensures
        format@ == format_of(*track),
{
    match file_extension_text(&track.location.path) {
        Some(extension) => to_ascii_uppercase(extension.as_str()),
        None => String::new(),
    }
}

/// The parts of the line that describes a file.
pub open spec fn audio_parts(track: Track, size: Seq<char>) -> Seq<Seq<char>> {
    let format = format_of(track);
    let first = if format.len() > 0 {
        seq![format]
    } else {
        Seq::empty()
    };
    let rate = match track.metadata.bitrate_kbps {
        Some(rate) => seq![text::decimal(rate as nat) + " kbps"@],
        None => Seq::empty(),
    };
    first + rate + seq![text::minutes_text(seconds_of(track) as nat), size]
}

/// The line that describes a file: its format and bit rate, where they are
/// known, its duration and its size, which is given as text.
pub fn audio_summary(track: &Track, size: &str) -> (summary: String)
    ensures
        summary@ == text::joined(audio_parts(*track, size@), " · "@),
{
    let mut parts: Vec<String> = Vec::new();
    let format = file_format(track);
    assert(parts.deep_view() =~= Seq::empty());
    if !format.as_str().is_empty() {
        parts.push(format);
    }
    let ghost first = parts.deep_view();
    proof {
        assert(first =~= if format_of(*track).len() > 0 {
            seq![format_of(*track)]
        } else {
            Seq::empty()
        });
    }
    if let Some(rate) = track.metadata.bitrate_kbps {
        let mut text = decimal_text(rate as u64);
        text.append(" kbps");
        parts.push(text);
        assert(parts.deep_view() =~= first + seq![text::decimal(rate as nat) + " kbps"@]);
    }
    let ghost second = parts.deep_view();
    parts.push(format_duration(track));
    parts.push(size.to_owned());
    proof {
        assert(parts.deep_view() =~= second + seq![
            text::minutes_text(seconds_of(*track) as nat),
            size@,
        ]);
        assert(parts.deep_view() =~= audio_parts(*track, size@));
    }
    join(parts.as_slice(), " · ")
}

/// Five stars, of which so many are filled.
pub open spec fn stars_text(filled: int) -> Seq<char> {
    Seq::new(5, |i: int| if i < filled { '★' } else { '☆' })
}

/// A rating as five stars, the filled ones first.
pub fn rating_stars(stars: u8) -> (text: String)
    ensures
        text@ == stars_text(stars as int),
{
    proof {
        reveal_strlit("★");
        reveal_strlit("☆");
    }
    let mut text = String::new();
    let mut index: u8 = 0;
    while index < 5
        invariant
            index <= 5,
            text@ == stars_text(stars as int).take(index as int),
        decreases 5 - index,
    {
        proof {
            reveal_strlit("★");
            reveal_strlit("☆");
        }
        if index < stars {
            text.append("★");
        } else {
            text.append("☆");
        }
        assert(text@ =~= stars_text(stars as int).take(index as int + 1));
        index = index + 1;
    }
    assert(text@ =~= stars_text(stars as int));
    text
}

// ---------------------------------------------------------------------------
// Opening the dialog
// ---------------------------------------------------------------------------

/// Where the first of these identifiers stands.
pub open spec fn id_index(ids: Seq<TrackId>, id: TrackId) -> int {
    seqs::first_index(ids, is_id(id))
}

/// This identifier.
pub open spec fn is_id(id: TrackId) -> spec_fn(TrackId) -> bool {
    |other: TrackId| other == id
}

fn find_id(ids: &Vec<TrackId>, id: TrackId) -> (index: Option<usize>)
    ensures
        match index {
            Some(index) => index < ids@.len() && index == id_index(ids@, id),
            None => id_index(ids@, id) == ids@.len(),
        },
{
    let test = |other: &TrackId| -> (same: bool)
        ensures
            same == (*other == id),
    {
        *other == id
    };
    seqs::find_first(ids.as_slice(), test, Ghost(is_id(id)))
}

/// The titles of those missing tracks that are among the selected ones.
pub open spec fn missing_titles(
    ids: Seq<TrackId>,
    titles: Seq<Seq<char>>,
    missing: Seq<TrackId>,
) -> Seq<Seq<char>>
    decreases missing.len(),
{
    if missing.len() == 0 {
        Seq::empty()
    } else {
        let earlier = missing_titles(ids, titles, missing.drop_last());
        let index = id_index(ids, missing.last());
        if index < ids.len() {
            earlier.push(titles[index])
        } else {
            earlier
        }
    }
}

/// Why the dialog does not open: files that are gone cannot be consolidated.
pub open spec fn missing_message(names: Seq<Seq<char>>) -> Seq<char> {
    if names.len() > 1 {
        text::decimal(names.len())
            + " of the selected files are missing from disk, so these duplicates can't be consolidated. Restore or remove them, then try again."@
    } else {
        let name = if names.len() == 1 {
            names[0]
        } else {
            Seq::empty()
        };
        "\u{201c}"@ + name
            + "\u{201d} is missing from disk, so these duplicates can't be consolidated. Restore or remove it, then try again."@
    }
}

/// Why the dialog does not open. `titles[i]` is the title of the track
/// `ids[i]`.
pub fn missing_files_message(ids: &Vec<TrackId>, titles: &Vec<String>, missing: &Vec<TrackId>) -> (
message: String)
    requires
        titles@.len() == ids@.len(),
    ensures
        message@ == missing_message(missing_titles(ids@, titles.deep_view(), missing@)),
{
    let mut names: Vec<String> = Vec::new();
    let mut index: usize = 0;
    proof {
        assert(missing@.take(0) =~= Seq::empty());
        assert(names.deep_view() =~= Seq::empty());
    }
    while index < missing.len()
        invariant
            index <= missing.len(),
            titles@.len() == ids@.len(),
            names@.len() <= index,
            names.deep_view() == missing_titles(
                ids@,
                titles.deep_view(),
                missing@.take(index as int),
            ),
        decreases missing.len() - index,
    {
        let ghost before = names.deep_view();
        assert(missing@.take(index as int + 1).drop_last() =~= missing@.take(index as int));
        if let Some(at) = find_id(ids, missing[index]) {
            names.push(titles[at].clone());
            assert(names.deep_view() =~= before.push(titles@[at as int]@));
        }
        index = index + 1;
    }
    assert(missing@.take(index as int) =~= missing@);
    if names.len() > 1 {
        let mut message = decimal_text(names.len() as u64);
        message.append(
            " of the selected files are missing from disk, so these duplicates can't be consolidated. Restore or remove them, then try again.",
        );
        return message;
    }
    let mut message = "\u{201c}".to_owned();
    if names.len() == 1 {
        message.append(names[0].as_str());
    }
    message.append(
        "\u{201d} is missing from disk, so these duplicates can't be consolidated. Restore or remove it, then try again.",
    );
    proof {
        let shown = missing_titles(ids@, titles.deep_view(), missing@);
        assert(names.deep_view() == shown);
        assert(message@ =~= missing_message(shown));
    }
    message
}

/// What asking to consolidate the selected tracks comes to.
#[derive(Debug)]
pub enum ConsolidationStart {
    /// The selection is not one of duplicates that the library holds.
    Ignore,
    /// Files are gone; this says why nothing opens.
    Refuse(String),
    Open,
}

/// `start` is what asking to consolidate the selected tracks comes to.
pub open spec fn comes_to(
    selected: nat,
    ids: Seq<TrackId>,
    titles: Seq<Seq<char>>,
    missing: Seq<TrackId>,
    start: ConsolidationStart,
) -> bool {
    match start {
        ConsolidationStart::Ignore => ids.len() != selected || ids.len() < 2,
        ConsolidationStart::Refuse(message) => ids.len() == selected && ids.len() >= 2
            && missing.len() > 0 && message@ == missing_message(
            missing_titles(ids, titles, missing),
        ),
        ConsolidationStart::Open => ids.len() == selected && ids.len() >= 2 && missing.len() == 0,
    }
}

/// What asking to consolidate the selected tracks comes to: all of them have to
/// be in the library, there have to be two at least, and no file may be gone.
pub fn start_consolidation(
    selected: usize,
    ids: &Vec<TrackId>,
    titles: &Vec<String>,
    missing: &Vec<TrackId>,
) -> (start: ConsolidationStart)
    requires
        titles@.len() == ids@.len(),
    ensures
        comes_to(selected as nat, ids@, titles.deep_view(), missing@, start),
{
    if ids.len() != selected || ids.len() < 2 {
        ConsolidationStart::Ignore
    } else if !missing.is_empty() {
        ConsolidationStart::Refuse(missing_files_message(ids, titles, missing))
    } else {
        ConsolidationStart::Open
    }
}

// ---------------------------------------------------------------------------
// Choices
// ---------------------------------------------------------------------------

/// The track with the most stars; the first of them where several tie.
pub fn highest_rated_index(tracks: &Vec<Track>) -> (best: usize)
    ensures
        tracks@.len() == 0 ==> best == 0,
        tracks@.len() > 0 ==> {
            &&& best < tracks@.len()
            &&& forall|i: int|
                0 <= i < tracks@.len() ==> (#[trigger] tracks@[i]).rating.stars
                    <= tracks@[best as int].rating.stars
            &&& forall|i: int|
                0 <= i < best ==> (#[trigger] tracks@[i]).rating.stars
                    < tracks@[best as int].rating.stars
        },
{
    let mut best: usize = 0;
    let mut index: usize = 0;
    while index < tracks.len()
        invariant
            index <= tracks@.len(),
            index == 0 ==> best == 0,
            index > 0 ==> best < index,
            forall|i: int|
                0 <= i < index ==> (#[trigger] tracks@[i]).rating.stars
                    <= tracks@[best as int].rating.stars,
            forall|i: int|
                0 <= i < best ==> (#[trigger] tracks@[i]).rating.stars
                    < tracks@[best as int].rating.stars,
        decreases tracks.len() - index,
    {
        if tracks[index].rating.stars > tracks[best].rating.stars {
            best = index;
        }
        index = index + 1;
    }
    best
}

/// The identifiers of some tracks.
pub open spec fn ids_of(tracks: Seq<Track>) -> Seq<TrackId> {
    Seq::new(tracks.len(), |i: int| tracks[i].id)
}

/// The identifiers of some tracks.
pub fn track_ids(tracks: &Vec<Track>) -> (ids: Vec<TrackId>)
    ensures
        ids@ == ids_of(tracks@),
{
    let mut ids: Vec<TrackId> = Vec::new();
    let mut index: usize = 0;
    while index < tracks.len()
        invariant
            index <= tracks.len(),
            ids@ == ids_of(tracks@).take(index as int),
        decreases tracks.len() - index,
    {
        ids.push(tracks[index].id);
        assert(ids@ =~= ids_of(tracks@).take(index as int + 1));
        index = index + 1;
    }
    assert(ids@ =~= ids_of(tracks@));
    ids
}

/// The track whose audio is kept at first: the one that was found to be of the
/// highest quality, or else the first.
pub fn highest_quality_audio_index(ids: &Vec<TrackId>, best: Option<TrackId>) -> (index: usize)
    ensures
        index == match best {
            Some(id) if id_index(ids@, id) < ids@.len() => id_index(ids@, id),
            _ => 0,
        },
{
    match best {
        Some(id) => match find_id(ids, id) {
            Some(index) => index,
            None => 0,
        },
        None => 0,
    }
}

/// How good a cover is: by its pixels, then by the bytes it takes.
#[derive(Clone, Copy, Debug, PartialEq, Eq, Structural)]
pub struct ArtworkQuality {
    pub pixels: u64,
    pub encoded_bytes: usize,
}

/// Whether one cover is better than another.
pub open spec fn better(left: ArtworkQuality, right: ArtworkQuality) -> bool {
    left.pixels > right.pixels || left.pixels == right.pixels && left.encoded_bytes
        > right.encoded_bytes
}

/// How good a decoded cover is; none where its size is not known.
pub fn artwork_quality(
    dimensions: Option<ArtworkDimensions>,
    encoded_bytes_len: Option<usize>,
) -> (quality: Option<ArtworkQuality>)
    ensures
        quality == match dimensions {
            Some(dimensions) => Some(
                ArtworkQuality {
                    pixels: dimensions.pixels,
                    encoded_bytes: match encoded_bytes_len {
                        Some(len) => len,
                        None => 0,
                    },
                },
            ),
            None => None,
        },
{
    match dimensions {
        Some(dimensions) => Some(
            ArtworkQuality {
                pixels: dimensions.pixels,
                encoded_bytes: encoded_bytes_len.unwrap_or(0),
            },
        ),
        None => None,
    }
}

/// `best` is the first of the best covers.
pub open spec fn is_best_cover(qualities: Seq<Option<ArtworkQuality>>, best: int) -> bool {
    &&& 0 <= best < qualities.len()
    &&& qualities[best] is Some
    &&& forall|i: int|
        0 <= i < qualities.len() && #[trigger] qualities[i] is Some ==> !better(
            qualities[i]->0,
            qualities[best]->0,
        )
    &&& forall|i: int|
        0 <= i < best && #[trigger] qualities[i] is Some ==> better(
            qualities[best]->0,
            qualities[i]->0,
        )
}

/// The first of the best covers, if there is any cover.
pub fn highest_quality_artwork_index(qualities: &[Option<ArtworkQuality>]) -> (best: Option<usize>)
    ensures
        match best {
            Some(best) => is_best_cover(qualities@, best as int),
            None => forall|i: int| 0 <= i < qualities@.len() ==> #[trigger] qualities@[i] is None,
        },
{
    let mut best: Option<usize> = None;
    let mut index: usize = 0;
    while index < qualities.len()
        invariant
            index <= qualities@.len(),
            match best {
                Some(best) => best < index && is_best_cover(
                    qualities@.take(index as int),
                    best as int,
                ),
                None => forall|i: int| 0 <= i < index ==> #[trigger] qualities@[i] is None,
            },
        decreases qualities.len() - index,
    {
        let ghost seen = qualities@.take(index as int);
        let ghost now = qualities@.take(index as int + 1);
        assert(forall|i: int| 0 <= i < index ==> #[trigger] now[i] == seen[i]);
        assert(forall|i: int| 0 <= i < index ==> #[trigger] seen[i] == qualities@[i]);
        if let Some(quality) = qualities[index] {
            match best {
                Some(at) => {
                    let best_quality = qualities[at].unwrap();
                    if quality.pixels > best_quality.pixels || (quality.pixels
                        == best_quality.pixels && quality.encoded_bytes
                        > best_quality.encoded_bytes) {
                        best = Some(index);
                    }
                },
                None => {
                    best = Some(index);
                },
            }
        }
        index = index + 1;
    }
    assert(qualities@.take(index as int) =~= qualities@);
    best
}

/// Which of the duplicates each value of the survivor is taken from.
#[derive(Debug)]
pub struct ConsolidationChoice {
    pub audio: usize,
    pub artwork: usize,
    pub rating: usize,
    /// One for each field, in the order of the fields.
    pub fields: Vec<usize>,
}

/// A field and the track from which it is taken.
#[derive(Clone, Copy, Debug, PartialEq, Eq, Structural)]
pub struct DuplicateMetadataFieldSelection {
    pub field: DuplicateMetadataField,
    pub track_id: TrackId,
}

/// The consolidation that was asked for.
#[derive(Debug)]
pub struct DuplicateConsolidationRequest {
    pub track_ids: Vec<TrackId>,
    pub audio_track_id: TrackId,
    pub metadata: Vec<DuplicateMetadataFieldSelection>,
    pub artwork_track_id: TrackId,
    pub rating_track_id: TrackId,
}

/// The first selection for this field.
pub open spec fn for_field(field: DuplicateMetadataField) -> spec_fn(
    DuplicateMetadataFieldSelection,
) -> bool {
    |selection: DuplicateMetadataFieldSelection| selection.field == field
}

/// The track from which a field is taken at first: the one that was picked for
/// it, or else the first.
pub open spec fn default_index(
    ids: Seq<TrackId>,
    picked: Seq<DuplicateMetadataFieldSelection>,
    field: DuplicateMetadataField,
) -> int {
    match seqs::first_where(picked, for_field(field)) {
        Some(selection) => {
            let index = id_index(ids, selection.track_id);
            if index < ids.len() {
                index
            } else {
                0
            }
        },
        None => 0,
    }
}

fn default_field_index(
    ids: &Vec<TrackId>,
    picked: &Vec<DuplicateMetadataFieldSelection>,
    field: DuplicateMetadataField,
) -> (index: usize)
    ensures
        index == default_index(ids@, picked@, field),
{
    let test = |selection: &DuplicateMetadataFieldSelection| -> (same: bool)
        ensures
            same == (selection.field == field),
    {
        selection.field == field
    };
    match seqs::find_first(picked.as_slice(), test, Ghost(for_field(field))) {
        Some(at) => match find_id(ids, picked[at].track_id) {
            Some(index) => index,
            None => 0,
        },
        None => 0,
    }
}

impl ConsolidationChoice {
    /// Every value is taken from one of so many tracks.
    pub open spec fn wf(&self, count: nat) -> bool {
        &&& self.audio < count
        &&& self.artwork < count
        &&& self.rating < count
        &&& self.fields@.len() == all_fields().len()
        &&& forall|i: int| 0 <= i < self.fields@.len() ==> #[trigger] self.fields@[i] < count
    }

    /// These are the values that are kept at first.
    pub open spec fn is_preset(
        &self,
        tracks: Seq<Track>,
        best_audio: Option<TrackId>,
        picked: Seq<DuplicateMetadataFieldSelection>,
    ) -> bool {
        &&& self.artwork == 0
        &&& self.audio == match best_audio {
            Some(id) if id_index(ids_of(tracks), id) < ids_of(tracks).len() => id_index(
                ids_of(tracks),
                id,
            ),
            _ => 0,
        }
        &&& forall|i: int|
            0 <= i < tracks.len() ==> (#[trigger] tracks[i]).rating.stars
                <= tracks[self.rating as int].rating.stars
        &&& forall|i: int|
            0 <= i < self.rating ==> (#[trigger] tracks[i]).rating.stars
                < tracks[self.rating as int].rating.stars
        &&& forall|i: int|
            0 <= i < all_fields().len() ==> #[trigger] self.fields@[i] == default_index(
                ids_of(tracks),
                picked,
                all_fields()[i],
            )
    }

    /// The values that are kept at first: the best audio, the highest rating,
    /// for each field the track that was picked for it, and the first cover
    /// until the covers are known.
    pub fn preset(
        tracks: &Vec<Track>,
        best_audio: Option<TrackId>,
        picked: &Vec<DuplicateMetadataFieldSelection>,
    ) -> (choice: Self)
        requires
            tracks@.len() > 0,
        ensures
            choice.wf(tracks@.len()),
            choice.is_preset(tracks@, best_audio, picked@),
    {
        let ids = track_ids(tracks);
        let fields = metadata_fields();
        let mut indices: Vec<usize> = Vec::new();
        let mut at: usize = 0;
        while at < fields.len()
            invariant
                at <= fields.len(),
                fields@ == all_fields(),
                ids@ == ids_of(tracks@),
                tracks@.len() > 0,
                indices@.len() == at,
                forall|i: int|
                    0 <= i < at ==> #[trigger] indices@[i] == default_index(
                        ids@,
                        picked@,
                        all_fields()[i],
                    ) && indices@[i] < tracks@.len(),
            decreases fields.len() - at,
        {
            let index: usize = default_field_index(&ids, picked, fields[at]);
            indices.push(index);
            at = at + 1;
        }
        ConsolidationChoice {
            audio: highest_quality_audio_index(&ids, best_audio),
            artwork: 0,
            rating: highest_rated_index(tracks),
            fields: indices,
        }
    }

    /// Takes every field and the rating from one track. The audio and the cover
    /// stay as they are.
    pub fn take_all_from(&mut self, index: usize, count: usize)
        requires
            old(self).wf(count as nat),
        ensures
            final(self).wf(count as nat),
            final(self).audio == old(self).audio,
            final(self).artwork == old(self).artwork,
            index < count ==> final(self).rating == index && forall|i: int|
                0 <= i < final(self).fields@.len() ==> #[trigger] final(self).fields@[i] == index,
            index >= count ==> *final(self) == *old(self),
    {
        if index >= count {
            return;
        }
        self.rating = index;
        let mut at: usize = 0;
        while at < self.fields.len()
            invariant
                at <= self.fields@.len(),
                self.fields@.len() == old(self).fields@.len(),
                self.fields@.len() == all_fields().len(),
                index < count,
                self.rating == index,
                self.audio == old(self).audio,
                self.artwork == old(self).artwork,
                old(self).wf(count as nat),
                forall|i: int| 0 <= i < at ==> #[trigger] self.fields@[i] == index,
            decreases self.fields@.len() - at,
        {
            self.fields.set(at, index);
            at = at + 1;
        }
    }

    /// `request` is the consolidation that these choices ask for.
    pub open spec fn asks_for(
        &self,
        tracks: Seq<Track>,
        request: DuplicateConsolidationRequest,
    ) -> bool {
        &&& request.track_ids@ == ids_of(tracks)
        &&& request.audio_track_id == ids_of(tracks)[self.audio as int]
        &&& request.artwork_track_id == ids_of(tracks)[self.artwork as int]
        &&& request.rating_track_id == ids_of(tracks)[self.rating as int]
        &&& request.metadata@ == Seq::new(
            all_fields().len(),
            |i: int|
                DuplicateMetadataFieldSelection {
                    field: all_fields()[i],
                    track_id: ids_of(tracks)[self.fields@[i] as int],
                },
        )
    }

    /// The consolidation that these choices ask for.
    pub fn request(&self, tracks: &Vec<Track>) -> (request: DuplicateConsolidationRequest)
        requires
            self.wf(tracks@.len()),
        ensures
            self.asks_for(tracks@, request),
    {
        let ids = track_ids(tracks);
        let fields = metadata_fields();
        let mut metadata: Vec<DuplicateMetadataFieldSelection> = Vec::new();
        let mut at: usize = 0;
        while at < fields.len()
            invariant
                at <= fields.len(),
                fields@ == all_fields(),
                ids@ == ids_of(tracks@),
                self.wf(tracks@.len()),
                metadata@.len() == at,
                forall|i: int|
                    0 <= i < at ==> #[trigger] metadata@[i] == (DuplicateMetadataFieldSelection {
                        field: all_fields()[i],
                        track_id: ids@[self.fields@[i] as int],
                    }),
            decreases fields.len() - at,
        {
            let index: usize = self.fields[at];
            metadata.push(
                DuplicateMetadataFieldSelection { field: fields[at], track_id: ids[index] },
            );
            at = at + 1;
        }
        assert(metadata@ =~= Seq::new(
            all_fields().len(),
            |i: int|
                DuplicateMetadataFieldSelection {
                    field: all_fields()[i],
                    track_id: ids@[self.fields@[i] as int],
                },
        ));
        DuplicateConsolidationRequest {
            audio_track_id: ids[self.audio],
            metadata,
            artwork_track_id: ids[self.artwork],
            rating_track_id: ids[self.rating],
            track_ids: ids,
        }
    }
}

/// The covers of the duplicates while they are being decoded. Nothing can be
/// consolidated before all of them are there.
#[derive(Debug)]
pub struct ArtworkPreviews {
    pub qualities: Vec<Option<ArtworkQuality>>,
    pub remaining: usize,
    /// The user has picked a cover, which stays.
    pub manually_selected: bool,
}

/// What a cover that has arrived changes.
#[derive(Clone, Copy, Debug, PartialEq, Eq, Structural)]
pub enum PreviewStep {
    /// Others are still to come.
    Waiting,
    /// All are there: the tracks can be consolidated, and this cover is picked.
    Ready(Option<usize>),
}

impl ArtworkPreviews {
    /// No cover has arrived of so many.
    pub fn new(count: usize) -> (previews: Self)
        ensures
            previews.qualities@ == Seq::new(count as nat, |i: int| None::<ArtworkQuality>),
            previews.remaining == count,
            !previews.manually_selected,
    {
        let mut qualities: Vec<Option<ArtworkQuality>> = Vec::new();
        let mut index: usize = 0;
        while index < count
            invariant
                index <= count,
                qualities@.len() == index,
                forall|i: int| 0 <= i < index ==> #[trigger] qualities@[i] is None,
            decreases count - index,
        {
            qualities.push(None);
            index = index + 1;
        }
        assert(qualities@ =~= Seq::new(count as nat, |i: int| None::<ArtworkQuality>));
        ArtworkPreviews { qualities, remaining: count, manually_selected: false }
    }

    /// The user picks a cover.
    pub fn user_selected(&mut self)
        ensures
            *final(self) == (ArtworkPreviews { manually_selected: true, ..*old(self) }),
    {
        self.manually_selected = true;
    }

    /// `after` are the covers once one has arrived, and `step` what that changes.
    pub open spec fn takes_cover(
        &self,
        index: usize,
        quality: Option<ArtworkQuality>,
        step: PreviewStep,
        after: ArtworkPreviews,
    ) -> bool {
        &&& after.manually_selected == self.manually_selected
        &&& after.qualities@ == if index < self.qualities@.len() {
            self.qualities@.update(index as int, quality)
        } else {
            self.qualities@
        }
        &&& after.remaining == if self.remaining > 0 {
            self.remaining - 1
        } else {
            0
        }
        &&& match step {
            PreviewStep::Waiting => after.remaining > 0,
            PreviewStep::Ready(best) => {
                &&& after.remaining == 0
                &&& match best {
                    Some(best) => !self.manually_selected && is_best_cover(
                        after.qualities@,
                        best as int,
                    ),
                    None => self.manually_selected || forall|i: int|
                        0 <= i < after.qualities@.len() ==> #[trigger] after.qualities@[i] is None,
                }
            },
        }
    }

    /// A cover has arrived. With the last one the best cover is picked, unless
    /// the user has picked one.
    pub fn apply_result(&mut self, index: usize, quality: Option<ArtworkQuality>) -> (step:
        PreviewStep)
        ensures
            old(self).takes_cover(index, quality, step, *final(self)),
    {
        if index < self.qualities.len() {
            self.qualities.set(index, quality);
        }
        self.remaining = self.remaining.saturating_sub(1);
        if self.remaining != 0 {
            return PreviewStep::Waiting;
        }
        if self.manually_selected {
            PreviewStep::Ready(None)
        } else {
            PreviewStep::Ready(highest_quality_artwork_index(self.qualities.as_slice()))
        }
    }
}

// ---------------------------------------------------------------------------
// The table
// ---------------------------------------------------------------------------

/// A row of the table in which the values are chosen.
#[derive(Clone, Copy, Debug, PartialEq, Eq, Structural)]
pub enum TableRow {
    Header,
    Artwork,
    AudioFile,
    Rating,
    Field(DuplicateMetadataField),
    PlayCount,
    Skips,
    DateAdded,
}

/// The rows of the table, from top to bottom.
pub open spec fn all_rows() -> Seq<TableRow> {
    seq![TableRow::Header, TableRow::Artwork, TableRow::AudioFile, TableRow::Rating] + Seq::new(
        all_fields().len(),
        |i: int| TableRow::Field(all_fields()[i]),
    ) + seq![TableRow::PlayCount, TableRow::Skips, TableRow::DateAdded]
}

/// The rows of the table, from top to bottom.
pub fn table_rows() -> (rows: Vec<TableRow>)
    ensures
        rows@ == all_rows(),
{
    let mut rows = vec![TableRow::Header, TableRow::Artwork, TableRow::AudioFile, TableRow::Rating];
    let fields = metadata_fields();
    let ghost top = rows@;
    let mut at: usize = 0;
    while at < fields.len()
        invariant
            at <= fields.len(),
            fields@ == all_fields(),
            top == seq![
                TableRow::Header,
                TableRow::Artwork,
                TableRow::AudioFile,
                TableRow::Rating,
            ],
            rows@ == top + Seq::new(at as nat, |i: int| TableRow::Field(all_fields()[i])),
        decreases fields.len() - at,
    {
        rows.push(TableRow::Field(fields[at]));
        assert(rows@ =~= top + Seq::new(at as nat + 1, |i: int| TableRow::Field(all_fields()[i])));
        at = at + 1;
    }
    rows.push(TableRow::PlayCount);
    rows.push(TableRow::Skips);
    rows.push(TableRow::DateAdded);
    assert(rows@ =~= all_rows());
    rows
}

/// Whether the values of a row are chosen from. Play counts and skips are added
/// up and the oldest date is kept, so those are only shown.
pub fn is_choice(row: TableRow) -> (choice: bool)
    ensures
        choice == !(row is Header || row is PlayCount || row is Skips || row is DateAdded),
{
    match row {
        TableRow::Header | TableRow::PlayCount | TableRow::Skips | TableRow::DateAdded => false,
        _ => true,
    }
}

/// A cell of the table: its text, and whether it is dimmed.
#[derive(Debug)]
pub struct TableCell {
    pub name: String,
    pub value: String,
    pub dim: bool,
}

/// The contents of a cell: its name, its text and whether it is dimmed. The
/// header and the cover have no text of their own.
pub open spec fn cell_of(
    track: Track,
    row: TableRow,
    size: Seq<char>,
    added: Option<Seq<char>>,
) -> Option<(Seq<char>, Seq<char>, bool)> {
    match row {
        TableRow::Header | TableRow::Artwork => None,
        TableRow::AudioFile => Some(
            ("Audio file"@, text::joined(audio_parts(track, size), " · "@), false),
        ),
        TableRow::Rating => Some(("Rating"@, stars_text(track.rating.stars as int), false)),
        TableRow::Field(field) => match shown_field(track.metadata, field) {
            Some(value) => Some((name_of(field), value, false)),
            None => Some((name_of(field), "—"@, true)),
        },
        TableRow::PlayCount => Some(
            ("Play count"@, text::decimal(track.statistics.play_count as nat), true),
        ),
        TableRow::Skips => Some(
            ("Skips"@, text::decimal(track.statistics.skip_count as nat), true),
        ),
        TableRow::DateAdded => Some(
            (
                "Date added"@,
                match added {
                    Some(added) => added,
                    None => "—"@,
                },
                true,
            ),
        ),
    }
}

/// A cell of the table, where the size of the file and the date at which it was
/// added are given as text.
pub fn table_cell(track: &Track, row: TableRow, size: &str, added: &Option<String>) -> (cell: Option<
    TableCell,
>)
    ensures
        match cell {
            Some(cell) => cell_of(*track, row, size@, added.deep_view()) == Some(
                (cell.name@, cell.value@, cell.dim),
            ),
            None => cell_of(*track, row, size@, added.deep_view()) is None,
        },
{
    let (name, value, dim) = match row {
        TableRow::Header | TableRow::Artwork => return None,
        TableRow::AudioFile => ("Audio file", audio_summary(track, size), false),
        TableRow::Rating => ("Rating", rating_stars(track.rating.stars), false),
        TableRow::Field(field) => match metadata_field_display(&track.metadata, field) {
            Some(value) => (metadata_field_name(field), value, false),
            None => (metadata_field_name(field), "—".to_owned(), true),
        },
        TableRow::PlayCount => (
            "Play count",
            decimal_text(track.statistics.play_count),
            true,
        ),
        TableRow::Skips => ("Skips", decimal_text(track.statistics.skip_count), true),
        TableRow::DateAdded => (
            "Date added",
            match added {
                Some(added) => added.clone(),
                None => "—".to_owned(),
            },
            true,
        ),
    };
    Some(TableCell { name: name.to_owned(), value, dim })
}

/// The column of a track in the table.
pub fn column_index(index: usize) -> (column: i32)
    ensures
        column == if index <= i32::MAX {
            index as int
        } else {
            i32::MAX as int
        },
{
    if index as u64 <= i32::MAX as u64 {
        index as i32
    } else {
        i32::MAX
    }
}

/// The label of the button that takes everything from one track.
pub fn take_all_label(index: usize) -> (label: String)
    requires
        index < usize::MAX,
    ensures
        label@ == "Track "@ + text::decimal((index + 1) as nat),
{
    let mut label = "Track ".to_owned();
    push_decimal(&mut label, index as u64 + 1);
    label
}

/// No field is listed twice, so that a consolidation takes each field from one
/// track.
pub proof fn law_fields_are_listed_once()
    ensures
        all_fields().no_duplicates(),
        forall|field: DuplicateMetadataField| #[trigger] all_fields().contains(field),
{
    let fields = all_fields();
    assert forall|field: DuplicateMetadataField| #[trigger] fields.contains(field) by {
        match field {
            DuplicateMetadataField::Title => assert(fields[0] == field),
            DuplicateMetadataField::Artist => assert(fields[1] == field),
            DuplicateMetadataField::Album => assert(fields[2] == field),
            DuplicateMetadataField::AlbumArtist => assert(fields[3] == field),
            DuplicateMetadataField::Composer => assert(fields[4] == field),
            DuplicateMetadataField::Grouping => assert(fields[5] == field),
            DuplicateMetadataField::Genre => assert(fields[6] == field),
            DuplicateMetadataField::TrackNumber => assert(fields[7] == field),
            DuplicateMetadataField::TrackTotal => assert(fields[8] == field),
            DuplicateMetadataField::DiscNumber => assert(fields[9] == field),
            DuplicateMetadataField::DiscTotal => assert(fields[10] == field),
            DuplicateMetadataField::Year => assert(fields[11] == field),
            DuplicateMetadataField::Compilation => assert(fields[12] == field),
            DuplicateMetadataField::Bpm => assert(fields[13] == field),
            DuplicateMetadataField::Key => assert(fields[14] == field),
            DuplicateMetadataField::Comments => assert(fields[15] == field),
            DuplicateMetadataField::Lyrics => assert(fields[16] == field),
        }
    }
}

/// The tag that is text behind a field, where the field is one.
pub open spec fn text_tag(metadata: TrackMetadata, field: DuplicateMetadataField) -> Option<
    Option<String>,
> {
    match field {
        DuplicateMetadataField::Title => Some(metadata.title),
        DuplicateMetadataField::Artist => Some(metadata.artist),
        DuplicateMetadataField::Album => Some(metadata.album),
        DuplicateMetadataField::AlbumArtist => Some(metadata.album_artist),
        DuplicateMetadataField::Composer => Some(metadata.composer),
        DuplicateMetadataField::Grouping => Some(metadata.grouping),
        DuplicateMetadataField::Genre => Some(metadata.genre),
        DuplicateMetadataField::Bpm => Some(metadata.bpm),
        DuplicateMetadataField::Key => Some(metadata.key),
        DuplicateMetadataField::Comments => Some(metadata.comments),
        _ => None,
    }
}

/// The tag that is a number behind a field, where the field is one.
pub open spec fn number_tag(metadata: TrackMetadata, field: DuplicateMetadataField) -> Option<
    Option<int>,
> {
    let number = |value: Option<u32>|
        match value {
            Some(value) => Some(value as int),
            None => None,
        };
    match field {
        DuplicateMetadataField::TrackNumber => Some(number(metadata.track_number)),
        DuplicateMetadataField::TrackTotal => Some(number(metadata.track_total)),
        DuplicateMetadataField::DiscNumber => Some(number(metadata.disc_number)),
        DuplicateMetadataField::DiscTotal => Some(number(metadata.disc_total)),
        DuplicateMetadataField::Year => Some(
            match metadata.year {
                Some(year) => Some(year as int),
                None => None,
            },
        ),
        _ => None,
    }
}

/// A field shows its own tag: a text as it stands, unless it is blank; a number
/// in digits; a compilation as yes or no; and lyrics by their length.
pub proof fn law_a_field_shows_its_own_tag(metadata: TrackMetadata, field: DuplicateMetadataField)
    ensures
        text_tag(metadata, field) matches Some(tag) ==> shown_field(metadata, field)
            == if text::blank(tag.deep_view()) {
            None
        } else {
            tag.deep_view()
        },
        number_tag(metadata, field) matches Some(tag) ==> match tag {
            Some(number) => shown_field(metadata, field) == Some(text::signed_decimal(number)),
            None => shown_field(metadata, field) is None,
        },
        field == DuplicateMetadataField::Compilation ==> {
            &&& metadata.compilation == Some(true) ==> shown_field(metadata, field) == Some(
                "Yes"@,
            )
            &&& metadata.compilation == Some(false) ==> shown_field(metadata, field) == Some(
                "No"@,
            )
            &&& metadata.compilation is None ==> shown_field(metadata, field) is None
        },
        field == DuplicateMetadataField::Lyrics ==> shown_field(metadata, field)
            == if text::blank(metadata.lyrics.deep_view()) {
            None
        } else {
            Some(text::decimal((metadata.lyrics->0)@.len()) + " characters"@)
        },
{
    if let Some(value) = raw_field(metadata, field) {
        text::law_trimming_leaves_a_text_unless_it_is_blank(value);
    }
    if let Some(lyrics) = metadata.lyrics {
        text::law_trimming_leaves_a_text_unless_it_is_blank(lyrics@);
    }
    if let Some(tag) = number_tag(metadata, field) {
        if let Some(number) = tag {
            let digits = text::signed_decimal(number);
            assert(raw_field(metadata, field) == Some(digits));
            lemma_digits_are_not_blank(number);
        }
    }
    if field == DuplicateMetadataField::Lyrics && !text::blank(metadata.lyrics.deep_view()) {
        let count = (metadata.lyrics->0)@.len();
        lemma_digits_are_not_blank(count as int);
        let shown = text::decimal(count) + " characters"@;
        assert(shown[0] == text::decimal(count)[0]);
        assert(!text::white_space(shown[0])) by {
            text::law_digits_stand_for_their_number(count);
        }
        assert(raw_field(metadata, field) == Some(shown));
    }
    if field == DuplicateMetadataField::Compilation {
        reveal_strlit("Yes");
        reveal_strlit("No");
        if metadata.compilation == Some(true) {
            assert("Yes"@[0] == 'Y');
            assert(!text::white_space("Yes"@[0]));
        }
        if metadata.compilation == Some(false) {
            assert("No"@[0] == 'N');
            assert(!text::white_space("No"@[0]));
        }
    }
}

proof fn lemma_digits_are_not_blank(number: int)
    ensures
        text::trimmed(text::signed_decimal(number)).len() > 0,
{
    let digits = text::signed_decimal(number);
    text::law_trimming_leaves_a_text_unless_it_is_blank(digits);
    if number < 0 {
        reveal_strlit("-");
        assert(digits[0] == '-');
        assert(!text::white_space(digits[0]));
    } else {
        text::law_digits_stand_for_their_number(number as nat);
        assert('0' <= digits[0] <= '9');
        assert(!text::white_space(digits[0]));
    }
}

/// A cell that shows a field of a track dims what stands for a missing value,
/// and nothing else of a field; what is only shown, and not chosen, is dimmed.
pub proof fn law_a_cell_shows_its_row_of_the_track(
    track: Track,
    row: TableRow,
    size: Seq<char>,
    added: Option<Seq<char>>,
)
    ensures
        cell_of(track, row, size, added) is None <==> row is Header || row is Artwork,
        row matches TableRow::Field(field) ==> {
            let (name, value, dim) = cell_of(track, row, size, added)->0;
            &&& name == name_of(field)
            &&& shown_field(track.metadata, field) matches Some(shown) ==> value == shown && !dim
            &&& shown_field(track.metadata, field) is None ==> value == "—"@ && dim
        },
        row is Rating ==> cell_of(track, row, size, added) == Some(
            ("Rating"@, stars_text(track.rating.stars as int), false),
        ),
        row is PlayCount ==> cell_of(track, row, size, added) == Some(
            ("Play count"@, text::decimal(track.statistics.play_count as nat), true),
        ),
        row is Skips ==> cell_of(track, row, size, added) == Some(
            ("Skips"@, text::decimal(track.statistics.skip_count as nat), true),
        ),
        row is DateAdded && added is Some ==> cell_of(track, row, size, added) == Some(
            ("Date added"@, added->0, true),
        ),
        row is AudioFile ==> (cell_of(track, row, size, added)->0).0 == "Audio file"@
            && !(cell_of(track, row, size, added)->0).2,
{
}

/// The line that describes a file ends with its duration and its size; before
/// them stand its format, where the file name tells it, and its bit rate, where
/// it is known.
pub proof fn law_a_file_is_described_by_what_is_known(track: Track, size: Seq<char>)
    ensures
        ({
            let parts = audio_parts(track, size);
            let format = format_of(track);
            let known = |b: bool| if b { 1int } else { 0int };
            let seconds: nat = match track.metadata.duration {
                Some(duration) => duration.seconds as nat,
                None => 0,
            };
            &&& parts.len() == 2 + known(format.len() > 0) + known(
                track.metadata.bitrate_kbps is Some,
            )
            &&& parts[parts.len() - 1] == size
            &&& parts[parts.len() - 2] == text::minutes_text(seconds)
            &&& format.len() > 0 ==> parts[0] == format
            &&& track.metadata.bitrate_kbps matches Some(rate) ==> parts[parts.len() - 3]
                == text::decimal(rate as nat) + " kbps"@
        }),
{
}

/// Of five stars as many are filled as the rating has, the filled ones first.
pub proof fn law_as_many_stars_are_filled_as_the_rating_has(stars: u8, i: int)
    requires
        0 <= i < 5,
    ensures
        stars_text(stars as int).len() == 5,
        stars_text(stars as int)[i] == '★' <==> i < stars,
        stars_text(stars as int)[i] == '☆' <==> i >= stars,
{
}

/// The titles that a refusal names are those of the missing tracks that are
/// among the selected, in the order in which they are missing.
pub proof fn law_a_refusal_names_the_missing_tracks(
    ids: Seq<TrackId>,
    titles: Seq<Seq<char>>,
    missing: Seq<TrackId>,
)
    requires
        titles.len() == ids.len(),
    ensures
        seqs::lists(
            missing_titles(ids, titles, missing),
            missing.len(),
            |m: int| ids.contains(missing[m]),
            |m: int| titles[id_index(ids, missing[m])],
        ),
        forall|id: TrackId|
            #![trigger ids.contains(id)]
            ids.contains(id) ==> 0 <= id_index(ids, id) < ids.len() && ids[id_index(ids, id)] == id
                && forall|i: int| 0 <= i < id_index(ids, id) ==> #[trigger] ids[i] != id,
{
    lemma_missing_titles(ids, titles, missing, missing.len());
    assert(missing.take(missing.len() as int) =~= missing);
    assert forall|id: TrackId| #![trigger ids.contains(id)] ids.contains(id) implies 0 <= id_index(
        ids,
        id,
    ) < ids.len() && ids[id_index(ids, id)] == id && forall|i: int|
        0 <= i < id_index(ids, id) ==> #[trigger] ids[i] != id by {
        lemma_id_index(ids, id);
    }
}

proof fn lemma_id_index(ids: Seq<TrackId>, id: TrackId)
    ensures
        0 <= id_index(ids, id) <= ids.len(),
        id_index(ids, id) < ids.len() <==> ids.contains(id),
        id_index(ids, id) < ids.len() ==> ids[id_index(ids, id)] == id,
        forall|i: int| 0 <= i < id_index(ids, id) ==> #[trigger] ids[i] != id,
{
    seqs::lemma_first_index(ids, is_id(id));
    assert forall|i: int| 0 <= i < id_index(ids, id) implies #[trigger] ids[i] != id by {
        assert(!is_id(id)(ids[i]));
    }
    if id_index(ids, id) < ids.len() {
        assert(is_id(id)(ids[id_index(ids, id)]));
    }
}

proof fn lemma_missing_titles(
    ids: Seq<TrackId>,
    titles: Seq<Seq<char>>,
    missing: Seq<TrackId>,
    upto: nat,
)
    requires
        upto <= missing.len(),
    ensures
        seqs::lists(
            missing_titles(ids, titles, missing.take(upto as int)),
            upto,
            |m: int| ids.contains(missing[m]),
            |m: int| titles[id_index(ids, missing[m])],
        ),
    decreases upto,
{
    let wanted = |m: int| ids.contains(missing[m]);
    let item = |m: int| titles[id_index(ids, missing[m])];
    if upto == 0 {
        assert(missing.take(0) =~= Seq::empty());
        seqs::lemma_lists_nothing(wanted, item);
    } else {
        let fewer = (upto - 1) as nat;
        lemma_missing_titles(ids, titles, missing, fewer);
        assert(missing.take(upto as int).drop_last() =~= missing.take(fewer as int));
        assert(missing.take(upto as int).last() == missing[fewer as int]);
        lemma_id_index(ids, missing[fewer as int]);
        seqs::lemma_lists_one_more(
            missing_titles(ids, titles, missing.take(fewer as int)),
            fewer,
            wanted,
            item,
        );
    }
}

/// A field is taken at first from the track that was picked for it, where that
/// is one of the duplicates, and else from the first.
pub proof fn law_a_field_is_taken_from_the_track_that_was_picked(
    ids: Seq<TrackId>,
    picked: Seq<DuplicateMetadataFieldSelection>,
    field: DuplicateMetadataField,
    at: int,
)
    requires
        0 <= at <= picked.len(),
        forall|i: int| 0 <= i < at ==> (#[trigger] picked[i]).field != field,
        at < picked.len() ==> picked[at].field == field,
    ensures
        ({
            let index = default_index(ids, picked, field);
            &&& at < picked.len() && ids.contains(picked[at].track_id) ==> 0 <= index < ids.len()
                && ids[index] == picked[at].track_id
            &&& at == picked.len() || !ids.contains(picked[at].track_id) ==> index == 0
        }),
{
    seqs::lemma_is_first_index(picked, for_field(field), at);
    if at < picked.len() {
        lemma_id_index(ids, picked[at].track_id);
    }
}

/// The best cover has the most pixels, and of those with as many the most bytes;
/// of those alike it is the first.
pub proof fn law_the_best_cover_has_the_most_pixels(
    qualities: Seq<Option<ArtworkQuality>>,
    best: int,
    i: int,
)
    requires
        is_best_cover(qualities, best),
        0 <= i < qualities.len(),
        qualities[i] is Some,
    ensures
        qualities[best] is Some,
        qualities[best]->0.pixels >= qualities[i]->0.pixels,
        qualities[best]->0.pixels == qualities[i]->0.pixels ==> qualities[best]->0.encoded_bytes
            >= qualities[i]->0.encoded_bytes,
        qualities[best] == qualities[i] ==> best <= i,
{
    assert(!better(qualities[i]->0, qualities[best]->0));
}

/// No two fields have the same name.
pub proof fn law_field_names_differ(left: DuplicateMetadataField, right: DuplicateMetadataField)
    requires
        name_of(left) == name_of(right),
    ensures
        left == right,
{
    reveal_strlit("Title");
    reveal_strlit("Artist");
    reveal_strlit("Album");
    reveal_strlit("Album Artist");
    reveal_strlit("Composer");
    reveal_strlit("Grouping");
    reveal_strlit("Genre");
    reveal_strlit("Track Number");
    reveal_strlit("Track Total");
    reveal_strlit("Disc Number");
    reveal_strlit("Disc Total");
    reveal_strlit("Year");
    reveal_strlit("Compilation");
    reveal_strlit("BPM");
    reveal_strlit("Key");
    reveal_strlit("Comments");
    reveal_strlit("Lyrics");
    let (a, b) = (name_of(left), name_of(right));
    assert(a.len() == b.len());
    assert(a[0] == b[0]);
    if a.len() > 2 {
        assert(a[1] == b[1]);
    }
    if a.len() > 6 {
        assert(a[6] == b[6]);
    }
}

/// What the dialog proposes at first asks for the audio that was found best, or
/// that of the first track where it is none of them; for the rating of the first
/// track that no other exceeds; and for every field once, from one of the tracks.
pub proof fn law_the_preset_asks_for_the_best_of_each(
    choice: ConsolidationChoice,
    tracks: Seq<Track>,
    best_audio: Option<TrackId>,
    picked: Seq<DuplicateMetadataFieldSelection>,
    request: DuplicateConsolidationRequest,
)
    requires
        tracks.len() > 0,
        choice.wf(tracks.len()),
        choice.is_preset(tracks, best_audio, picked),
        choice.asks_for(tracks, request),
    ensures
        best_audio matches Some(id) ==> ((exists|i: int|
            0 <= i < tracks.len() && (#[trigger] tracks[i]).id == id) ==> request.audio_track_id
            == id),
        best_audio is None ==> request.audio_track_id == tracks[0].id,
        request.artwork_track_id == tracks[0].id,
        exists|best: int|
            #![trigger tracks[best]]
            0 <= best < tracks.len() && request.rating_track_id == tracks[best].id && (forall|
                i: int,
            |
                0 <= i < tracks.len() ==> (#[trigger] tracks[i]).rating.stars
                    <= tracks[best].rating.stars) && (forall|i: int|
                0 <= i < best ==> (#[trigger] tracks[i]).rating.stars < tracks[best].rating.stars),
        request.track_ids@.len() == tracks.len(),
        forall|i: int| 0 <= i < tracks.len() ==> #[trigger] request.track_ids@[i] == tracks[i].id,
        request.metadata@.len() == all_fields().len(),
        forall|i: int|
            #![trigger request.metadata@[i]]
            0 <= i < request.metadata@.len() ==> request.metadata@[i].field == all_fields()[i]
                && request.track_ids@.contains(request.metadata@[i].track_id),
{
    let ids = ids_of(tracks);
    if let Some(id) = best_audio {
        seqs::lemma_first_index(ids, is_id(id));
        if exists|i: int| 0 <= i < tracks.len() && (#[trigger] tracks[i]).id == id {
            let at = choose|i: int| 0 <= i < tracks.len() && (#[trigger] tracks[i]).id == id;
            assert(ids[at] == id);
            assert(is_id(id)(ids[at]));
        }
    }
    let best = choice.rating as int;
    assert(request.rating_track_id == tracks[best].id);
    assert forall|i: int| #![trigger request.metadata@[i]] 0 <= i < request.metadata@.len() implies
        request.metadata@[i].field == all_fields()[i] && request.track_ids@.contains(
        request.metadata@[i].track_id,
    ) by {
        assert(choice.fields@[i] < tracks.len());
        assert(request.track_ids@[choice.fields@[i] as int] == request.metadata@[i].track_id);
    }
}

/// The tracks can be consolidated exactly once the last cover has arrived; a
/// cover is picked then only if the user has picked none, and it is one that no
/// other has more pixels than.
pub proof fn law_a_cover_is_picked_with_the_last_one(
    before: ArtworkPreviews,
    after: ArtworkPreviews,
    index: usize,
    quality: Option<ArtworkQuality>,
    step: PreviewStep,
)
    requires
        before.takes_cover(index, quality, step, after),
        before.remaining > 0,
    ensures
        step is Ready <==> before.remaining == 1,
        before.manually_selected && step is Ready ==> step == PreviewStep::Ready(None),
        step matches PreviewStep::Ready(Some(best)) ==> after.qualities@[best as int] is Some
            && forall|i: int|
            #![trigger after.qualities@[i]]
            0 <= i < after.qualities@.len() && after.qualities@[i] is Some
                ==> after.qualities@[i]->0.pixels <= after.qualities@[best as int]->0.pixels,
        !before.manually_selected && step == PreviewStep::Ready(None) ==> forall|i: int|
            0 <= i < after.qualities@.len() ==> (#[trigger] after.qualities@[i]) is None,
        index < before.qualities@.len() ==> after.qualities@[index as int] == quality,
        forall|other: int|
            0 <= other < before.qualities@.len() && other != index
                ==> #[trigger] after.qualities@[other] == before.qualities@[other],
{
}

/// Tracks are consolidated only if there are two of them at least, the library
/// holds every one that is selected, and no file is gone; a file that is gone is
/// never passed over.
pub proof fn law_nothing_is_consolidated_without_its_file(
    selected: nat,
    ids: Seq<TrackId>,
    titles: Seq<Seq<char>>,
    missing: Seq<TrackId>,
    start: ConsolidationStart,
)
    requires
        comes_to(selected, ids, titles, missing, start),
    ensures
        start is Open <==> selected >= 2 && ids.len() == selected && missing.len() == 0,
        start is Refuse <==> selected >= 2 && ids.len() == selected && missing.len() > 0,
{
}

} // verus!
