use std::path::PathBuf;

use sustain_ui::albums::grid::{
    album_row_count, columns_for_width, find_album, resize_row_store, row_position_for_album,
    row_slice, selected_album_in_row, track_list_split, RowContent, ALBUM_GRID_COLUMN_SPACING,
    ALBUM_GRID_MARGIN, ALBUM_TILE_COVER_SIZE, ALBUM_TILE_COVER_SIZE_EXPANDED,
    ALBUM_TILE_MIN_WIDTH,
};
use sustain_ui::albums::model::{group_albums, AlbumKey, AlbumViewModel};
use sustain_ui::albums::tile::{AlbumTileSlot, TileCover};
use sustain_ui::albums::view::{
    detail_needs_rebuild, play_album, AlbumDetailKey, AlbumRowRefresh, AlbumsState, ScrollStep,
};
use sustain_ui::artwork::source::ArtworkSource;
use sustain_ui::library::{
    PlayStatistics, Rating, Track, TrackId, TrackLocation, TrackMetadata,
};
use sustain_ui::playback::{PlaybackQueueRequest, PlaybackQueueSource};

fn track_id(value: i64) -> TrackId {
    TrackId::new(value).expect("a positive identifier")
}

fn track(id: i64, album: &str, missing: bool) -> Track {
    let path = PathBuf::from(format!("{id}.flac"));
    Track {
        id: track_id(id),
        location: if missing {
            TrackLocation::missing(path)
        } else {
            TrackLocation::available(path)
        },
        metadata: TrackMetadata {
            title: Some(format!("Track {id}")),
            artist: Some("Artist".to_owned()),
            album: Some(album.to_owned()),
            track_number: Some(id as u32),
            ..TrackMetadata::default()
        },
        rating: Rating::unrated(),
        statistics: PlayStatistics {
            play_count: 0,
            skip_count: 0,
        },
        file_size_bytes: None,
    }
}

fn albums(count: i64) -> Vec<AlbumViewModel> {
    let tracks: Vec<Track> = (1..=count)
        .map(|id| track(id, &format!("Album {id}"), false))
        .collect();
    group_albums(&tracks)
}

fn key(album: i64) -> AlbumKey {
    AlbumKey {
        artist: "artist".to_owned(),
        title: format!("album {album}"),
    }
}

fn source(name: &str) -> Option<ArtworkSource> {
    Some(ArtworkSource::embedded_track(
        PathBuf::from(name),
        PathBuf::from(format!("/music/{name}")),
    ))
}

fn bound_path(slot: &AlbumTileSlot) -> &str {
    match &slot.bound_artwork_source {
        Some(ArtworkSource::EmbeddedTrack { file_path, .. }) => file_path.to_str().expect("text"),
        None => panic!("a source"),
    }
}

#[test]
fn columns_follow_available_width() {
    assert_eq!(columns_for_width(120), 1);
    assert_eq!(columns_for_width(520), 2);
    assert_eq!(columns_for_width(1200), 6);
    assert_eq!(columns_for_width(2400), 13);
}

#[test]
fn columns_account_for_spacing_between_tiles() {
    let two_column_width =
        ALBUM_GRID_MARGIN * 2 + ALBUM_TILE_MIN_WIDTH * 2 + ALBUM_GRID_COLUMN_SPACING;

    assert_eq!(columns_for_width(two_column_width - 1), 1);
    assert_eq!(columns_for_width(two_column_width), 2);
}

#[test]
fn row_count_never_drops_the_empty_state_row() {
    assert_eq!(album_row_count(0, 6), 1);
    assert_eq!(album_row_count(1, 6), 1);
    assert_eq!(album_row_count(6, 6), 1);
    assert_eq!(album_row_count(7, 6), 2);
}

#[test]
fn resizing_row_store_preserves_surviving_tokens() {
    let mut next_token = 0;
    let mut tokens = |count: usize| -> Vec<u32> {
        (0..count)
            .map(|_| {
                next_token += 1;
                next_token
            })
            .collect()
    };
    let mut store = Vec::new();
    resize_row_store(&mut store, 10, tokens(10));
    let first = *store.first().expect("first row token");

    resize_row_store(&mut store, 7, tokens(0));
    assert_eq!(store.len(), 7);
    assert_eq!(store.first(), Some(&first));

    resize_row_store(&mut store, 12, tokens(5));
    assert_eq!(store.len(), 12);
    assert_eq!(store.first(), Some(&first));
}

#[test]
fn narrow_widths_still_have_a_column() {
    assert_eq!(columns_for_width(i32::MIN), 1);
    assert_eq!(columns_for_width(0), 1);
}

#[test]
fn rows_are_full_but_for_the_last() {
    assert_eq!(row_slice(0, 4, 0), RowContent::EmptyState);
    assert_eq!(row_slice(0, 4, 1), RowContent::Nothing);
    assert_eq!(row_slice(9, 4, 1), RowContent::Tiles { start: 4, end: 8 });
    assert_eq!(row_slice(9, 4, 2), RowContent::Tiles { start: 8, end: 9 });
    assert_eq!(row_slice(9, 4, 3), RowContent::Nothing);
}

#[test]
fn albums_are_found_in_their_rows() {
    let albums = albums(7);
    assert_eq!(find_album(&albums, &key(5)), Some(4));
    assert_eq!(row_position_for_album(&albums, &key(5), 3), Some(1));
    assert_eq!(row_position_for_album(&albums, &key(9), 3), None);
    assert_eq!(
        selected_album_in_row(&albums, 3, 6, &Some(key(5))),
        Some(1)
    );
    assert_eq!(selected_album_in_row(&albums, 0, 3, &Some(key(5))), None);
    assert_eq!(selected_album_in_row(&albums, 0, 3, &None), None);
}

#[test]
fn long_track_lists_are_split_in_halves() {
    assert_eq!(track_list_split(1), 1);
    assert_eq!(track_list_split(9), 5);
    assert_eq!(track_list_split(10), 5);
}

#[test]
fn a_tile_that_is_bound_anew_refuses_older_covers() {
    let mut slot = AlbumTileSlot::new();
    let (_, cover) = slot.bind(&key(1), source("1.flac"), false, false);
    let first = match cover {
        TileCover::Load(generation) => generation,
        other => panic!("unexpected {other:?}"),
    };
    assert!(slot.accepts(first));

    let (_, cover) = slot.bind(&key(1), source("1.flac"), false, false);
    assert_eq!(cover, TileCover::Keep);
    assert!(slot.accepts(first));

    let (_, cover) = slot.bind(&key(2), source("2.flac"), false, false);
    assert!(matches!(cover, TileCover::Load(_)));
    assert!(!slot.accepts(first));

    slot.bind(&key(3), source("a/3.flac"), false, false);
    slot.bind(&key(3), source("a/./3.flac"), false, false);
    assert_eq!(bound_path(&slot), "/music/a/3.flac");
    slot.bind(&key(3), source("a/./3.flac"), false, true);
    assert_eq!(bound_path(&slot), "/music/a/./3.flac");

    for _ in 0..300 {
        slot.bind(&key(1), source("1.flac"), false, true);
        assert!(!slot.accepts(first));
    }

    let (_, cover) = slot.show_placeholder();
    assert_eq!(cover, TileCover::Clear);
    assert!(!slot.visible);
    assert!(!slot.accepts(first));
}

#[test]
fn a_selected_tile_has_a_larger_cover() {
    let mut slot = AlbumTileSlot::new();
    assert_eq!(slot.cover_size, ALBUM_TILE_COVER_SIZE);
    assert!(slot.set_selected(true));
    assert_eq!(slot.cover_size, ALBUM_TILE_COVER_SIZE_EXPANDED);
    assert!(!slot.set_selected(true));
    assert!(slot.set_selected(false));
    assert_eq!(slot.cover_size, ALBUM_TILE_COVER_SIZE);
}

#[test]
fn playing_an_album_skips_missing_files() {
    let albums = group_albums(&[
        track(1, "Album", true),
        track(2, "Album", false),
        track(3, "Album", false),
    ]);

    match play_album(&albums[0]) {
        Some((first, PlaybackQueueRequest::Explicit {
            source,
            ordered_track_ids,
        })) => {
            assert_eq!(first, track_id(2));
            assert_eq!(source, PlaybackQueueSource::Album);
            assert_eq!(ordered_track_ids, vec![track_id(2), track_id(3)]);
        }
        other => panic!("unexpected {other:?}"),
    }

    let unplayable = group_albums(&[track(1, "Album", true)]);
    assert!(play_album(&unplayable[0]).is_none());
}

#[test]
fn the_albums_are_grouped_when_they_come_into_sight() {
    let mut state = AlbumsState::new();
    assert!(state.activate());
    assert!(!state.activate());

    state.regroup(&[track(1, "Album 1", false), track(2, "Album 2", false)], 1200);
    state.apply_search(&vec![true, false]);
    assert_eq!(state.all_albums.len(), 2);
    assert_eq!(state.albums.len(), 1);
    assert_eq!(state.albums[0].title, "Album 1");
    assert_eq!(state.rebuild_rows(), Some(1));
}

#[test]
fn selecting_an_album_again_changes_nothing() {
    let mut state = AlbumsState::new();
    state.activate();
    state.regroup(&[track(1, "Album 1", false), track(2, "Album 2", false)], 120);
    state.apply_search(&vec![true, true]);

    assert_eq!(state.select_album(&key(1)), (None, Some(0)));
    assert_eq!(state.find_selected_row(), Some(0));
    assert_eq!(state.select_album(&key(2)), (Some(0), Some(1)));
    assert_eq!(state.select_album(&key(2)), (None, None));
    assert_eq!(state.find_selected_row(), Some(1));
}

#[test]
fn a_revealed_album_is_scrolled_to_and_aligned() {
    let mut state = AlbumsState::new();
    state.activate();
    state.regroup(&[track(1, "Album 1", false), track(2, "Album 2", false)], 120);
    state.apply_search(&vec![true, true]);

    assert!(state.reveal_album_for_track(track_id(2)).is_some());
    assert!(matches!(
        state.scroll_step(120, 2, &vec![]),
        ScrollStep::ScrollTo(1)
    ));
    assert!(matches!(
        state.scroll_step(120, 2, &vec![0, 1]),
        ScrollStep::Align(1)
    ));
    assert!(state.scroll_aligned(false));
    assert!(!state.scroll_aligned(true));
    assert!(state.reveal_album_for_track(track_id(9)).is_none());
}

#[test]
fn an_opened_panel_outdates_the_one_before() {
    let mut state = AlbumsState::new();
    let first = state.begin_detail();
    assert!(state.accepts_detail(first));
    let second = state.begin_detail();
    assert!(!state.accepts_detail(first));
    assert!(state.accepts_detail(second));
    for _ in 0..300 {
        state.begin_detail();
        assert!(!state.accepts_detail(first));
        assert!(!state.accepts_detail(second));
    }
}

#[test]
fn panels_are_rebuilt_only_when_something_differs() {
    let detail = |column| AlbumDetailKey {
        album_key: key(1),
        selected_column: column,
        columns: 4,
        playing_track_id: None,
    };
    assert!(detail_needs_rebuild(
        &None,
        &detail(0),
        &AlbumRowRefresh::Normal
    ));
    assert!(!detail_needs_rebuild(
        &Some(detail(0)),
        &detail(0),
        &AlbumRowRefresh::Normal
    ));
    assert!(detail_needs_rebuild(
        &Some(detail(0)),
        &detail(1),
        &AlbumRowRefresh::Normal
    ));
    assert!(detail_needs_rebuild(
        &Some(detail(0)),
        &detail(0),
        &AlbumRowRefresh::Detail(key(1))
    ));
    assert!(!detail_needs_rebuild(
        &Some(detail(0)),
        &detail(0),
        &AlbumRowRefresh::Detail(key(2))
    ));
}

#[test]
fn a_changed_cover_refreshes_the_panel_and_the_tile_of_its_album_only() {
    let first = key(1);
    let second = key(2);
    let artwork = AlbumRowRefresh::Artwork(key(1));
    assert!(artwork.refreshes_artwork_for(&first));
    assert!(artwork.refreshes_detail_for(&first));
    assert!(!artwork.refreshes_artwork_for(&second));
    assert!(!artwork.refreshes_detail_for(&second));
    let detail = AlbumRowRefresh::Detail(first);
    assert!(!detail.refreshes_artwork_for(&second));
    assert!(!AlbumRowRefresh::Normal.refreshes_artwork_for(&second));
}

/// A view that is active and shows one album per row.
fn active_view(count: i64) -> AlbumsState {
    let tracks: Vec<Track> = (1..=count)
        .map(|id| track(id, &format!("Album {id}"), false))
        .collect();
    let mut state = AlbumsState::new();
    assert!(state.activate());
    assert!(!state.activate());
    state.regroup(&tracks, 120);
    let hits = vec![true; tracks.len()];
    state.apply_search(&hits);
    state
}

#[test]
fn only_a_track_that_looks_otherwise_refreshes_its_row() {
    let mut dormant = AlbumsState::new();
    let unchanged = track(2, "Album 2", false);
    assert!(dormant
        .update_track(track_id(2), Some(&unchanged))
        .is_none());

    let mut state = active_view(3);
    assert!(state.update_track(track_id(2), Some(&unchanged)).is_none());
    assert!(state.update_track(track_id(2), None).is_none());
    assert!(state
        .update_track(track_id(9), Some(&track(9, "Album 9", false)))
        .is_none());

    let mut renamed = track(2, "Album 2", false);
    renamed.metadata.title = Some("Another title".to_owned());
    let (row, album) = state
        .update_track(track_id(2), Some(&renamed))
        .expect("a row to refresh");
    assert_eq!(row, 1);
    assert_eq!(album, key(2));
    assert_eq!(state.all_albums[1].tracks[0].title, "Another title");
    assert_eq!(state.albums[1].tracks[0].title, "Another title");

    let gone = track(2, "Album 2", true);
    assert!(state.update_track(track_id(2), Some(&gone)).is_some());
    assert!(state.albums[1].tracks[0].is_missing);
}

#[test]
fn a_changed_cover_is_read_anew_where_its_album_stands() {
    let state = active_view(3);
    let (row, album) = state
        .refresh_track_artwork(track_id(3))
        .expect("a row to refresh");
    assert_eq!((row, album), (2, key(3)));
    assert!(state.refresh_track_artwork(track_id(7)).is_none());
    assert!(AlbumsState::new()
        .refresh_track_artwork(track_id(1))
        .is_none());
}

#[test]
fn another_playing_track_repaints_the_selected_row() {
    let mut state = active_view(3);
    assert_eq!(state.set_playing_track_id(Some(track_id(1))), None);
    assert_eq!(state.select_album(&key(2)), (None, Some(1)));
    assert_eq!(state.set_playing_track_id(Some(track_id(2))), Some(1));
    assert_eq!(state.set_playing_track_id(Some(track_id(2))), None);
}

#[test]
fn the_search_is_applied_only_to_an_active_view_with_another_text() {
    let mut dormant = AlbumsState::new();
    assert!(!dormant.set_search_text("jazz".to_owned()));
    assert_eq!(dormant.search_text, "jazz");
    let mut state = active_view(2);
    assert!(state.set_search_text("jazz".to_owned()));
    assert!(!state.set_search_text("jazz".to_owned()));
    state.select_album(&key(1));
    state.request_scroll_to_album(&key(1));
    state.apply_search(&vec![false, true]);
    assert_eq!(state.albums.len(), 1);
    assert_eq!(state.albums[0].key, key(2));
    assert!(state.selected_album.is_none());
    assert!(state.pending_scroll_album.is_none());
}

#[test]
fn rows_are_rebuilt_only_for_another_number_of_columns() {
    let mut state = active_view(4);
    assert_eq!(state.visible_columns, 1);
    assert!(!state.width_changed(0));
    assert!(!state.width_changed(130));
    assert_eq!(state.last_width, 130);
    assert!(state.width_changed(520));
    assert_eq!(state.visible_columns, 2);
    assert!(!state.width_changed(520));
    assert_eq!(state.rebuild_rows(), Some(2));
}

#[test]
fn playing_starts_with_the_leading_album() {
    let tracks = vec![
        track(1, "Album", true),
        track(2, "Album", false),
        track(3, "Album", false),
        track(4, "Other", false),
    ];
    let mut state = AlbumsState::new();
    assert!(state.first_album_play_request().is_none());
    state.activate();
    state.regroup(&tracks, 520);
    state.apply_search(&vec![true, true]);
    match state.first_album_play_request() {
        Some((
            first,
            PlaybackQueueRequest::Explicit {
                source,
                ordered_track_ids,
            },
        )) => {
            assert_eq!(first, track_id(2));
            assert_eq!(source, PlaybackQueueSource::Album);
            assert_eq!(ordered_track_ids, vec![track_id(2), track_id(3)]);
        }
        _ => panic!("the album has tracks to play"),
    }
}
