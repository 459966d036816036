use std::path::PathBuf;

use sustain_ui::artwork::cache_row::ArtworkDimensions;
use sustain_ui::consolidation::{
    artwork_quality, audio_summary, column_index, file_format, format_duration,
    highest_quality_artwork_index, highest_quality_audio_index, highest_rated_index, is_choice,
    metadata_field_display, metadata_field_name, metadata_fields, missing_files_message,
    rating_stars, start_consolidation, table_cell, table_rows, take_all_label, track_ids,
    ArtworkPreviews, ArtworkQuality, ConsolidationChoice, ConsolidationStart,
    DuplicateMetadataField, DuplicateMetadataFieldSelection, PreviewStep, TableRow,
};
use sustain_ui::duplicates::{group_rows, groups_status, DuplicateRow, DuplicatesState};
use sustain_ui::library::{
    PlayStatistics, Playtime, Rating, Track, TrackId, TrackLocation, TrackMetadata,
};

fn track_id(value: i64) -> TrackId {
    TrackId::new(value).expect("a positive identifier")
}

fn track(id: i64, path: &str, stars: u8) -> Track {
    Track {
        id: track_id(id),
        location: TrackLocation::available(PathBuf::from(path)),
        metadata: TrackMetadata {
            title: Some(format!("Title {id}")),
            year: Some(1999),
            compilation: Some(true),
            comments: Some("  ".to_owned()),
            duration: Some(Playtime {
                seconds: 245,
                nanos: 500_000_000,
            }),
            bitrate_kbps: Some(320),
            ..TrackMetadata::default()
        },
        rating: Rating { stars },
        statistics: PlayStatistics {
            play_count: 12,
            skip_count: 3,
        },
        file_size_bytes: Some(1000),
    }
}

#[test]
fn artwork_preset_prefers_more_pixels_then_more_encoded_bytes() {
    assert_eq!(
        highest_quality_artwork_index(&[
            Some(ArtworkQuality {
                pixels: 1_000,
                encoded_bytes: 5_000,
            }),
            Some(ArtworkQuality {
                pixels: 2_000,
                encoded_bytes: 1_000,
            }),
            Some(ArtworkQuality {
                pixels: 2_000,
                encoded_bytes: 2_000,
            }),
        ]),
        Some(2)
    );
}

#[test]
fn artwork_preset_ignores_tracks_without_artwork() {
    assert_eq!(
        highest_quality_artwork_index(&[
            None,
            Some(ArtworkQuality {
                pixels: 1_000,
                encoded_bytes: 5_000,
            }),
        ]),
        Some(1)
    );
    assert_eq!(highest_quality_artwork_index(&[None, None]), None);
}

#[test]
fn rating_stars_fills_then_empties_to_five() {
    assert_eq!(rating_stars(0), "☆☆☆☆☆");
    assert_eq!(rating_stars(3), "★★★☆☆");
    assert_eq!(rating_stars(5), "★★★★★");
    assert_eq!(rating_stars(9), "★★★★★");
}

#[test]
fn formats_are_told_by_the_extension() {
    assert_eq!(file_format(&track(1, "a/b.flac", 0)), "FLAC");
    assert_eq!(file_format(&track(1, "a/b", 0)), "");
    assert_eq!(format_duration(&track(1, "a/b", 0)), "4:05");
    assert_eq!(
        audio_summary(&track(1, "a/b.mp3", 0), "1.0 MiB"),
        "MP3 · 320 kbps · 4:05 · 1.0 MiB"
    );
}

#[test]
fn fields_are_listed_and_shown_unless_blank() {
    let fields = metadata_fields();
    assert_eq!(fields.len(), 17);
    assert_eq!(metadata_field_name(fields[3]), "Album Artist");
    let metadata = track(7, "a.mp3", 0).metadata;
    let shown = |field| metadata_field_display(&metadata, field);
    assert_eq!(
        shown(DuplicateMetadataField::Title),
        Some("Title 7".to_owned())
    );
    assert_eq!(shown(DuplicateMetadataField::Year), Some("1999".to_owned()));
    assert_eq!(
        shown(DuplicateMetadataField::Compilation),
        Some("Yes".to_owned())
    );
    assert_eq!(shown(DuplicateMetadataField::Comments), None);
    assert_eq!(shown(DuplicateMetadataField::Artist), None);
}

#[test]
fn missing_files_are_named_or_counted() {
    let ids = vec![track_id(1), track_id(2)];
    let titles = vec!["One".to_owned(), "Two".to_owned()];
    assert_eq!(
        missing_files_message(&ids, &titles, &vec![track_id(2)]),
        "\u{201c}Two\u{201d} is missing from disk, so these duplicates can't be consolidated. Restore or remove it, then try again."
    );
    assert!(
        missing_files_message(&ids, &titles, &vec![track_id(2), track_id(1)])
            .starts_with("2 of the selected files are missing from disk")
    );
}

#[test]
fn a_consolidation_needs_two_tracks_whose_files_are_there() {
    let ids = vec![track_id(1), track_id(2)];
    let titles = vec!["One".to_owned(), "Two".to_owned()];
    assert!(matches!(
        start_consolidation(1, &ids, &titles, &Vec::new()),
        ConsolidationStart::Ignore
    ));
    assert!(matches!(
        start_consolidation(2, &ids, &titles, &vec![track_id(1)]),
        ConsolidationStart::Refuse(_)
    ));
    assert!(matches!(
        start_consolidation(2, &ids, &titles, &Vec::new()),
        ConsolidationStart::Open
    ));
}

#[test]
fn the_best_of_each_kind_is_preset() {
    let tracks = vec![
        track(1, "a.mp3", 2),
        track(2, "b.flac", 4),
        track(3, "c.mp3", 4),
    ];
    let ids = track_ids(&tracks);
    assert_eq!(ids, vec![track_id(1), track_id(2), track_id(3)]);
    assert_eq!(highest_quality_audio_index(&ids, Some(track_id(3))), 2);
    assert_eq!(highest_quality_audio_index(&ids, None), 0);

    let best = highest_rated_index(&tracks);
    assert_eq!(tracks[best].rating.stars, 4);

    let picked = vec![DuplicateMetadataFieldSelection {
        field: DuplicateMetadataField::Title,
        track_id: track_id(3),
    }];
    let mut choice = ConsolidationChoice::preset(&tracks, Some(track_id(2)), &picked);
    assert_eq!(choice.audio, 1);
    assert_eq!(choice.rating, best);
    assert_eq!(choice.fields[0], 2);

    choice.take_all_from(0, tracks.len());
    let request = choice.request(&tracks);
    assert_eq!(request.rating_track_id, track_id(1));
    assert_eq!(request.audio_track_id, track_id(2));
    assert_eq!(request.metadata.len(), 17);
    assert!(request
        .metadata
        .iter()
        .all(|selection| selection.track_id == track_id(1)));
}

#[test]
fn the_best_cover_is_preset_once_all_are_known() {
    let quality = |pixels| {
        artwork_quality(
            Some(ArtworkDimensions {
                width: 10,
                height: 10,
                pixels,
            }),
            Some(5),
        )
    };
    assert_eq!(artwork_quality(None, Some(5)), None);

    let mut previews = ArtworkPreviews::new(2);
    assert_eq!(previews.apply_result(0, quality(100)), PreviewStep::Waiting);
    assert_eq!(
        previews.apply_result(1, quality(200)),
        PreviewStep::Ready(Some(1))
    );

    let mut previews = ArtworkPreviews::new(2);
    previews.apply_result(0, quality(100));
    previews.user_selected();
    assert_eq!(
        previews.apply_result(1, quality(200)),
        PreviewStep::Ready(None)
    );
}

#[test]
fn the_table_has_a_row_for_each_choice_and_each_fact() {
    let rows = table_rows();
    assert_eq!(rows[0], TableRow::Header);
    assert_eq!(rows.len(), 24);
    assert!(is_choice(TableRow::Artwork));
    assert!(is_choice(TableRow::Field(DuplicateMetadataField::Title)));
    assert!(!is_choice(TableRow::PlayCount));

    let track = track(1, "a.mp3", 3);
    let rating = table_cell(&track, TableRow::Rating, "1.0 MiB", &None).expect("a cell");
    assert_eq!(rating.value, "★★★☆☆");
    let plays = table_cell(&track, TableRow::PlayCount, "1.0 MiB", &None).expect("a cell");
    assert_eq!(plays.value, "12");
    assert_eq!(column_index(2), 2);
    assert_eq!(take_all_label(0), "Track 1");
}

#[test]
fn leaving_the_duplicates_gives_their_search_up() {
    let mut state = DuplicatesState::new();
    assert!(state.set_active(true));
    let search = state.begin_scan();
    assert!(state.accepts(search));
    assert!(!state.set_active(true));
    assert!(state.refresh_if_active());

    let newer = state.begin_scan();
    assert!(!state.accepts(search));
    assert!(state.accepts(newer));

    assert!(!state.set_active(false));
    assert!(!state.accepts(newer));
    assert!(!state.refresh_if_active());

    state.set_active(true);
    for _ in 0..300 {
        state.begin_scan();
        assert!(!state.accepts(search));
        assert!(!state.accepts(newer));
    }
}

#[test]
fn groups_alternate_in_bands() {
    let tracks = vec![track(1, "a.mp3", 0), track(2, "b.mp3", 0)];
    let groups = vec![
        vec![track_id(2), track_id(9)],
        vec![track_id(1), track_id(2)],
    ];
    assert_eq!(
        group_rows(&groups, &tracks),
        vec![
            DuplicateRow {
                place: 1,
                band: true,
            },
            DuplicateRow {
                place: 0,
                band: false,
            },
            DuplicateRow {
                place: 1,
                band: false,
            },
        ]
    );
    assert_eq!(groups_status(2, 3), "2 duplicate group(s), 3 track(s).");
}
