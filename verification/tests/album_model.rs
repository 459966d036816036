use std::path::{Path, PathBuf};

use sustain_ui::albums::detail::{
    album_detail_palette_css, placeholder_icon_size, track_status, TrackStatus,
};
use sustain_ui::albums::model::{
    album_key, album_subtitle, album_track, artist_summary, duration_text, group_albums,
    group_by_keys, normalize_album_key, push_unique_artist, replace_track_in_album,
    track_number_text, AlbumKey, AlbumTrackViewModel, AlbumViewModel,
};
use sustain_ui::library::{
    PlayStatistics, Playtime, Rating, Track, TrackId, TrackLocation, TrackMetadata,
};

fn track_id(value: i64) -> TrackId {
    match TrackId::new(value) {
        Some(track_id) => track_id,
        None => unreachable!("test helper only constructs positive ids"),
    }
}

fn track(
    id: i64,
    path: &str,
    album: &str,
    artist: &str,
    track_number: Option<u32>,
    year: Option<i32>,
) -> Track {
    Track {
        id: track_id(id),
        location: TrackLocation::available(PathBuf::from(path)),
        metadata: TrackMetadata {
            title: Some(path.trim_end_matches(".flac").to_owned()),
            artist: Some(artist.to_owned()),
            album: Some(album.to_owned()),
            year,
            track_number,
            duration: Some(Playtime {
                seconds: 180,
                nanos: 0,
            }),
            ..TrackMetadata::default()
        },
        rating: Rating::unrated(),
        statistics: PlayStatistics {
            play_count: 0,
            skip_count: 0,
        },
        file_size_bytes: None,
    }
}

fn missing_track(id: i64, path: &str, album: &str, artist: &str) -> Track {
    let mut track = track(id, path, album, artist, None, None);
    track.location = TrackLocation::missing(PathBuf::from(path));
    track
}

fn compilation_track(
    id: i64,
    path: &str,
    album: &str,
    artist: &str,
    track_number: Option<u32>,
) -> Track {
    let mut track = track(id, path, album, artist, track_number, None);
    track.metadata.compilation = Some(true);
    track
}

fn compilation_track_with_album_artist(
    id: i64,
    path: &str,
    album: &str,
    artist: &str,
    album_artist: &str,
    track_number: Option<u32>,
) -> Track {
    let mut track = compilation_track(id, path, album, artist, track_number);
    track.metadata.album_artist = Some(album_artist.to_owned());
    track
}

fn numbered(disc_number: Option<u32>, track_number: Option<u32>) -> AlbumTrackViewModel {
    AlbumTrackViewModel {
        id: track_id(1),
        file_path: PathBuf::from("track.flac"),
        title: "Track".to_owned(),
        disc_number,
        track_number,
        duration_seconds: 180,
        is_missing: false,
    }
}

fn ids(tracks: &[AlbumTrackViewModel]) -> Vec<i64> {
    tracks.iter().map(|track| track.id.get()).collect()
}

#[test]
fn groups_tracks_by_album_artist_and_album_title() {
    let tracks = vec![
        track(1, "b.flac", "Album", "Artist", Some(2), Some(200)),
        track(2, "a.flac", "Album", "Artist", Some(1), Some(200)),
        track(3, "other.flac", "Other", "Artist", Some(1), None),
    ];

    let albums = group_albums(&tracks);

    assert_eq!(albums.len(), 2);
    assert_eq!(albums[0].title, "Album");
    assert_eq!(albums[0].artist, "Artist");
    assert_eq!(albums[0].year, Some(200));
    assert_eq!(ids(&albums[0].tracks), vec![2, 1]);
    assert_eq!(albums[1].title, "Other");
}

#[test]
fn non_compilation_tracks_with_same_album_and_different_artists_stay_separate() {
    let tracks = vec![
        track(1, "a.flac", "Shared", "Artist A", Some(1), None),
        track(2, "b.flac", "Shared", "Artist B", Some(2), None),
    ];

    let albums = group_albums(&tracks);

    assert_eq!(albums.len(), 2);
    assert_eq!(
        albums
            .iter()
            .map(|album| album.artist.as_str())
            .collect::<Vec<_>>(),
        vec!["Artist A", "Artist B"]
    );
}

#[test]
fn compilation_tracks_group_by_album_when_track_artists_differ() {
    let tracks = vec![
        compilation_track(1, "a.flac", "Compilation", "Artist A", Some(1)),
        compilation_track(2, "b.flac", "Compilation", "Artist B", Some(2)),
    ];

    let albums = group_albums(&tracks);

    assert_eq!(albums.len(), 1);
    assert_eq!(albums[0].title, "Compilation");
    assert_eq!(albums[0].artist, "Artist A, Artist B");
    assert_eq!(ids(&albums[0].tracks), vec![1, 2]);
}

#[test]
fn explicit_album_artist_overrides_compilation_artist_summary() {
    let tracks = vec![
        compilation_track_with_album_artist(
            1,
            "a.flac",
            "Compilation",
            "Artist A",
            "Album Artist",
            Some(1),
        ),
        compilation_track_with_album_artist(
            2,
            "b.flac",
            "Compilation",
            "Artist B",
            "Album Artist",
            Some(2),
        ),
    ];

    let albums = group_albums(&tracks);

    assert_eq!(albums.len(), 1);
    assert_eq!(albums[0].artist, "Album Artist");
}

#[test]
fn compilation_artist_summary_preserves_all_unique_artists() {
    let tracks = vec![
        compilation_track(1, "a.flac", "Compilation", "Artist A", Some(1)),
        compilation_track(2, "b.flac", "Compilation", "Artist B", Some(2)),
        compilation_track(3, "c.flac", "Compilation", "Artist C", Some(3)),
        compilation_track(4, "d.flac", "Compilation", "Artist D", Some(4)),
        compilation_track(5, "e.flac", "Compilation", "Artist E", Some(5)),
        compilation_track(6, "f.flac", "Compilation", "artist a", Some(6)),
    ];

    let albums = group_albums(&tracks);

    assert_eq!(
        albums[0].artist,
        "Artist A, Artist B, Artist C, Artist D, Artist E"
    );
}

#[test]
fn representative_track_prefers_first_non_missing() {
    let tracks = vec![
        missing_track(1, "missing.flac", "Album", "Artist"),
        track(2, "present.flac", "Album", "Artist", Some(2), Some(200)),
    ];

    let albums = group_albums(&tracks);

    assert_eq!(albums.len(), 1);
    assert_eq!(
        albums[0].representative_track_path.as_deref(),
        Some(Path::new("present.flac"))
    );
}

#[test]
fn representative_track_falls_back_to_first_when_all_missing() {
    let tracks = vec![
        missing_track(1, "a.flac", "Album", "Artist"),
        missing_track(2, "b.flac", "Album", "Artist"),
    ];

    let albums = group_albums(&tracks);

    assert_eq!(albums.len(), 1);
    assert!(albums[0].representative_track_path.is_some());
    assert_eq!(
        albums[0].representative_track_path.as_deref(),
        Some(Path::new("a.flac"))
    );
}

#[test]
fn uses_unknown_album_and_artist_when_metadata_is_missing() {
    let albums = group_albums(&[Track {
        id: track_id(1),
        location: TrackLocation::available(PathBuf::from("track.flac")),
        metadata: TrackMetadata::default(),
        rating: Rating::unrated(),
        statistics: PlayStatistics {
            play_count: 0,
            skip_count: 0,
        },
        file_size_bytes: None,
    }]);

    assert_eq!(albums[0].title, "Unknown Album");
    assert_eq!(albums[0].artist, "Unknown Artist");
}

#[test]
fn track_number_text_includes_disc_when_needed() {
    let single_disc = numbered(Some(1), Some(7));
    let multi_disc = numbered(Some(2), Some(7));

    assert_eq!(track_number_text(&single_disc), "7");
    assert_eq!(track_number_text(&multi_disc), "2-7");
}

#[test]
fn duration_text_uses_hours_when_needed() {
    assert_eq!(duration_text(245), "4:05");
    assert_eq!(duration_text(3_904), "1:05:04");
}

#[test]
fn replace_track_in_album_updates_target_and_re_sorts() {
    let mut albums = group_albums(&[
        track(1, "b.flac", "Album", "Artist", Some(2), Some(2000)),
        track(2, "a.flac", "Album", "Artist", Some(1), Some(2000)),
        track(3, "other.flac", "Other", "Artist", Some(1), None),
    ]);
    assert_eq!(ids(&albums[0].tracks), vec![2, 1]);

    let mut replacement = album_track(&track(
        1,
        "b.flac",
        "Album",
        "Artist",
        Some(1),
        Some(2000),
    ));
    replacement.track_number = Some(0);
    let key = replace_track_in_album(&mut albums, track_id(1), &replacement);

    let updated_album = albums
        .iter()
        .find(|album| album.title == "Album")
        .expect("Album bucket present");
    assert!(key.expect("the album is reported").same_as(&updated_album.key));
    assert_eq!(ids(&updated_album.tracks), vec![1, 2]);
}

#[test]
fn replace_track_in_album_returns_none_when_track_absent() {
    let mut albums = group_albums(&[track(1, "a.flac", "Album", "Artist", Some(1), None)]);
    let ghost = AlbumTrackViewModel {
        id: track_id(99),
        file_path: PathBuf::from("ghost.flac"),
        title: "Ghost".to_owned(),
        disc_number: None,
        track_number: None,
        duration_seconds: 0,
        is_missing: false,
    };

    assert!(replace_track_in_album(&mut albums, track_id(99), &ghost).is_none());
}

#[test]
fn album_keys_are_trimmed_and_lower_case() {
    assert_eq!(normalize_album_key("  ÀLBUM Title\t"), "àlbum title");
    assert_eq!(normalize_album_key(""), "");
}

#[test]
fn keys_that_differ_in_case_alone_share_an_album() {
    let albums = group_albums(&[
        track(1, "a.flac", "Album", "Artist", Some(1), None),
        track(2, "b.flac", " ALBUM ", "artist", Some(2), Some(1999)),
    ]);

    assert_eq!(albums.len(), 1);
    assert_eq!(albums[0].title, "Album");
    assert_eq!(albums[0].artist, "Artist");
    assert_eq!(albums[0].year, Some(1999));
    assert_eq!(ids(&albums[0].tracks), vec![1, 2]);
}

#[test]
fn every_track_is_shown_in_one_album() {
    let tracks = vec![
        track(1, "a.flac", "One", "Artist", Some(1), None),
        compilation_track(2, "b.flac", "Two", "Artist", None),
        missing_track(3, "c.flac", "One", "Artist"),
        track(4, "d.flac", "Three", "", None, None),
    ];

    let albums = group_albums(&tracks);

    let mut shown: Vec<i64> = albums.iter().flat_map(|album| ids(&album.tracks)).collect();
    shown.sort();
    assert_eq!(shown, vec![1, 2, 3, 4]);
}

#[test]
fn titles_fall_back_to_the_file_name() {
    let mut untitled = track(1, "folder/song.mp3", "Album", "Artist", None, None);
    untitled.metadata.title = Some("   ".to_owned());

    assert_eq!(album_track(&untitled).title, "song");
}

#[test]
fn album_subtitles_name_the_year_when_it_is_known() {
    let albums = group_albums(&[
        track(1, "a.flac", "A", "Artist", None, Some(1999)),
        track(2, "b.flac", "B", "Artist", None, None),
    ]);

    assert_eq!(album_subtitle(&albums[0]), "Artist (1999)");
    assert_eq!(album_subtitle(&albums[1]), "Artist");
}

#[test]
fn artists_are_collected_once_whatever_their_case() {
    let mut artists = Vec::new();
    push_unique_artist(&mut artists, "Artist A".to_owned());
    push_unique_artist(&mut artists, "ARTIST A".to_owned());
    push_unique_artist(&mut artists, "Artist B".to_owned());

    assert_eq!(artist_summary(&artists), "Artist A, Artist B");
    assert_eq!(artist_summary(&[]), "");
}

#[test]
fn identifiers_are_positive() {
    assert!(TrackId::new(0).is_none());
    assert!(TrackId::new(-1).is_none());
    assert_eq!(track_id(7).get(), 7);
}

#[test]
fn a_missing_file_shows_before_anything_else() {
    let mut row = numbered(None, Some(1));
    assert_eq!(track_status(&row, None), TrackStatus::Number);
    assert_eq!(track_status(&row, Some(track_id(2))), TrackStatus::Number);
    assert_eq!(track_status(&row, Some(track_id(1))), TrackStatus::Playing);
    row.is_missing = true;
    assert_eq!(track_status(&row, Some(track_id(1))), TrackStatus::Missing);
}

#[test]
fn placeholder_icons_are_a_third_of_the_cover() {
    assert_eq!(placeholder_icon_size(396), 132);
    assert_eq!(placeholder_icon_size(96), 32);
    assert_eq!(placeholder_icon_size(30), 32);
    assert_eq!(placeholder_icon_size(-5), 32);
}

#[test]
fn the_palette_colours_text_and_background() {
    let css = album_detail_palette_css("#111111", "#eeeeee", "#999999");

    assert_eq!(
        css,
        r##"
        .album-detail-dominant-color {
            background-color: #111111;
            border: none;
            color: #eeeeee;
        }

        .album-detail-palette-arrow {
            color: #111111;
        }

        .album-detail-palette-primary,
        button.album-detail-palette-button,
        image.album-detail-palette-primary {
            color: #eeeeee;
        }

        /* Artist name (subtitle), track number, and duration share the
           artwork-derived secondary colour so the muted text reads as
           part of the cover's palette instead of as a uniformly faded
           white/black. The track-playing speaker icon is intentionally
           not in this set: it keeps the strict-contrast foreground so
           the "now playing" cue is unmissable on any artwork. */
        .album-detail-palette-secondary,
        .album-detail-palette-muted {
            color: #999999;
        }

        .album-detail-palette-surface {
            background-color: alpha(#eeeeee, 0.12);
        }

        button.album-detail-palette-button:hover,
        button.album-detail-palette-button:active,
        button.album-detail-palette-button:focus {
            background-color: alpha(#eeeeee, 0.14);
        }

        .album-track-table .track-table-status-playing {
            color: #eeeeee;
        }

        listview.album-track-table > row:focus-visible {
            outline-color: #eeeeee;
        }
        "##
    );
}

#[test]
fn the_same_tracks_grouped_anew_have_the_same_albums() {
    let tracks = vec![
        track(1, "one.flac", "First", "Artist", Some(2), Some(1999)),
        track(2, "two.flac", " FIRST ", "artist", Some(1), None),
        track(3, "three.flac", "Second", "Artist", None, None),
    ];
    let first = group_albums(&tracks);
    let second = group_albums(&tracks);
    assert_eq!(first.len(), 2);
    assert_eq!(first.len(), second.len());
    for (left, right) in first.iter().zip(second.iter()) {
        assert_eq!(left.key, right.key);
        assert_eq!(left.title, right.title);
        assert_eq!(left.artist, right.artist);
        assert_eq!(left.year, right.year);
        let ids = |tracks: &[AlbumTrackViewModel]| -> Vec<TrackId> {
            tracks.iter().map(|track| track.id).collect()
        };
        assert_eq!(ids(&left.tracks), ids(&right.tracks));
    }
    assert!(!first[0].key.same_as(&second[1].key));
    assert_eq!(first[0].title, "First");
    assert_eq!(first[0].tracks[0].id, track_id(2));
}

fn album_ids(albums: &[AlbumViewModel]) -> Vec<(AlbumKey, Vec<TrackId>, Option<PathBuf>)> {
    albums
        .iter()
        .map(|album| {
            (
                album.key.clone(),
                album.tracks.iter().map(|track| track.id).collect(),
                album.representative_track_path.clone(),
            )
        })
        .collect()
}

#[test]
fn the_order_of_the_library_does_not_matter_to_its_albums() {
    let mut tracks = vec![
        missing_track(1, "one.flac", "First", "Artist"),
        track(2, "two.flac", "First", "Artist", Some(2), None),
        track(3, "three.flac", "Second", "Artist", Some(1), Some(1990)),
        track(4, "four.flac", "first", "ARTIST", Some(1), None),
        track(5, "five.flac", "Second", "Artist", Some(1), None),
    ];
    let albums = album_ids(&group_albums(&tracks));
    tracks.reverse();
    assert_eq!(album_ids(&group_albums(&tracks)), albums);
    tracks.swap(0, 3);
    assert_eq!(album_ids(&group_albums(&tracks)), albums);
    assert_eq!(
        albums[0].1,
        vec![track_id(4), track_id(2), track_id(1)]
    );
}

#[test]
fn patching_a_track_agrees_with_grouping_anew() {
    let mut tracks = vec![
        track(1, "one.flac", "First", "Artist", Some(1), None),
        track(2, "two.flac", "First", "Artist", Some(2), None),
        track(3, "three.flac", "Second", "Artist", Some(1), None),
    ];
    let mut patched = group_albums(&tracks);
    let mut changed = track(1, "one.flac", "First", "Artist", Some(9), None);
    changed.metadata.title = Some("Retitled".to_owned());
    let key = replace_track_in_album(&mut patched, track_id(1), &album_track(&changed));
    assert_eq!(key, Some(album_key(&changed)));

    tracks[0] = changed;
    let regrouped = group_albums(&tracks);
    assert_eq!(patched.len(), regrouped.len());
    for (left, right) in patched.iter().zip(regrouped.iter()) {
        assert_eq!(left.key, right.key);
        assert_eq!(left.tracks.len(), right.tracks.len());
        assert!(left
            .tracks
            .iter()
            .zip(right.tracks.iter())
            .all(|(row, other)| row.same_as(other)));
    }
    assert_eq!(patched[0].tracks[1].title, "Retitled");
}

#[test]
fn given_keys_decide_the_albums() {
    let tracks = vec![
        track(1, "one.flac", "First", "Artist", Some(1), None),
        track(2, "two.flac", "Second", "Artist", Some(2), None),
        track(3, "three.flac", "Third", "Artist", Some(3), Some(1999)),
    ];
    let key = |title: &str| AlbumKey {
        artist: "a".to_owned(),
        title: title.to_owned(),
    };
    let albums = group_by_keys(&tracks, &vec![key("z"), key("b"), key("z")]);
    assert_eq!(albums.len(), 2);
    assert_eq!(albums[0].key, key("b"));
    assert_eq!(albums[0].title, "Second");
    assert_eq!(albums[1].key, key("z"));
    assert_eq!(albums[1].title, "First");
    assert_eq!(albums[1].year, Some(1999));
    let ids: Vec<TrackId> = albums[1].tracks.iter().map(|track| track.id).collect();
    assert_eq!(ids, vec![track_id(1), track_id(3)]);
}
