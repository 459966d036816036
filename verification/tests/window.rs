use std::path::PathBuf;

use sustain_ui::artwork::source::ArtworkSource;
use sustain_ui::chart::slice_colours;
use sustain_ui::library::{
    PlayStatistics, PlaylistId, PlaylistItem, Playtime, Rating, SidebarSelection, SmartPlaylistId,
    Track, TrackId, TrackLocation, TrackMetadata,
};
use sustain_ui::now_playing::{
    artwork_dominant_color_css, next_track_index, overlay_lyrics, overlay_opens, panel_content,
    shuffle_icon, synced_lyrics_text, title_line, ArtworkPage, ArtworkStep, ClickStep,
    CoverAtHand, NowPlayingArtwork, OverlayFace, PanelContent, SyncedLine, SyncedLyrics,
};
use sustain_ui::pages::Page;
use sustain_ui::playback::ShuffleMode;
use sustain_ui::startup::{schedulers_may_start, DeferredStartup, HydrationState};
use sustain_ui::window::{
    analysis_capability_enabled, availability, imported_rows, initial_search_text,
    layout_for_selection, layout_scope, page_activation, summary_source, ui_settings_from_widgets,
    AnalysisCapability, AnalysisSettings, ColumnLayout, LayoutScope, SummarySource, UiSettings,
    WidgetState,
};

fn track_id(value: i64) -> TrackId {
    TrackId::new(value).expect("a positive identifier")
}

fn track(id: i64, missing: bool) -> Track {
    let path = PathBuf::from(format!("{id}.flac"));
    Track {
        id: track_id(id),
        location: if missing {
            TrackLocation::missing(path)
        } else {
            TrackLocation::available(path)
        },
        metadata: TrackMetadata::default(),
        rating: Rating::unrated(),
        statistics: PlayStatistics {
            play_count: 0,
            skip_count: 0,
        },
        file_size_bytes: None,
    }
}

fn source(name: &str) -> ArtworkSource {
    ArtworkSource::embedded_track(PathBuf::from(name), PathBuf::from(format!("/music/{name}")))
}

fn line(text: &str) -> SyncedLine {
    SyncedLine {
        start_millis: 0,
        text: text.to_owned(),
    }
}

#[test]
fn synced_lyrics_are_rendered_as_readable_plain_lines() {
    let lyrics = SyncedLyrics {
        lines: vec![
            SyncedLine {
                start_millis: 1_500,
                text: "Hello".to_owned(),
            },
            SyncedLine {
                start_millis: 3_000,
                text: "World".to_owned(),
            },
        ],
    };

    assert_eq!(synced_lyrics_text(&lyrics), "Hello\nWorld");
}

#[test]
fn plain_lyrics_stand_in_for_blank_synced_ones() {
    let blank = SyncedLyrics {
        lines: vec![line(""), line("  ")],
    };
    let plain = Some("Plain".to_owned());
    assert_eq!(
        overlay_lyrics(Some(&blank), &plain).as_deref(),
        Some("Plain")
    );
    let sung = SyncedLyrics {
        lines: vec![line("Sung")],
    };
    assert_eq!(overlay_lyrics(Some(&sung), &plain).as_deref(), Some("Sung"));
    assert_eq!(overlay_lyrics(None, &Some(" \n".to_owned())), None);
    assert_eq!(overlay_lyrics(None, &None), None);
}

#[test]
fn the_overlay_opens_with_something_to_show() {
    assert!(overlay_opens(OverlayFace::Artwork, true, true, false, true));
    assert!(!overlay_opens(OverlayFace::Artwork, true, true, true, false));
    assert!(overlay_opens(OverlayFace::Lyrics, true, true, true, false));
    assert!(!overlay_opens(OverlayFace::Lyrics, true, true, false, true));
    assert!(!overlay_opens(OverlayFace::Lyrics, false, true, true, true));
    assert!(!overlay_opens(OverlayFace::Artwork, true, false, true, true));
}

#[test]
fn only_another_file_counts_as_another_cover() {
    let mut artwork = NowPlayingArtwork::new();
    let first = artwork.sync_artwork(
        Some(track_id(1)),
        Some(&source("1.flac")),
        CoverAtHand::Unknown,
    );
    assert_eq!(first, ArtworkStep::Load { generation: 1 });
    assert_eq!(artwork.page, ArtworkPage::Missing);
    let again = artwork.sync_artwork(
        Some(track_id(1)),
        Some(&source("1.flac")),
        CoverAtHand::Decoded,
    );
    assert_eq!(again, ArtworkStep::Keep);
    assert_eq!(artwork.page, ArtworkPage::Present);

    let next = artwork.sync_artwork(
        Some(track_id(2)),
        Some(&source("2.flac")),
        CoverAtHand::Absent,
    );
    assert_eq!(next, ArtworkStep::ShowDecoded);
    assert!(!artwork.deliver(1, Some(track_id(1)), true));
    assert_eq!(artwork.page, ArtworkPage::Missing);
    assert!(artwork.deliver(2, Some(track_id(2)), true));
    assert_eq!(artwork.page, ArtworkPage::Present);

    let none = artwork.sync_artwork(None, None, CoverAtHand::Unknown);
    assert_eq!(none, ArtworkStep::Clear);
    assert_eq!(artwork.page, ArtworkPage::Missing);
    assert!(!artwork.deliver(1, Some(track_id(1)), true));
    assert!(!artwork.deliver(2, Some(track_id(2)), true));
}

#[test]
fn one_cover_is_fetched_at_a_time() {
    let mut artwork = NowPlayingArtwork::new();
    artwork.sync_artwork(
        Some(track_id(1)),
        Some(&source("1.flac")),
        CoverAtHand::Absent,
    );
    assert_eq!(artwork.handle_artwork_click(None), ClickStep::Nothing);
    assert_eq!(
        artwork.handle_artwork_click(Some(track_id(1))),
        ClickStep::Fetch(track_id(1))
    );
    artwork.fetch_started(track_id(1), 42);
    assert_eq!(artwork.page, ArtworkPage::Fetching);
    assert!(!artwork.page.is_clickable());
    assert_eq!(artwork.page.tooltip(), None);
    assert_eq!(
        artwork.handle_artwork_click(Some(track_id(1))),
        ClickStep::Nothing
    );

    artwork.sync_artwork(
        Some(track_id(2)),
        Some(&source("2.flac")),
        CoverAtHand::Absent,
    );
    assert_eq!(artwork.page, ArtworkPage::Missing);
    assert_eq!(
        artwork.handle_artwork_click(Some(track_id(2))),
        ClickStep::Nothing
    );

    assert_eq!(
        artwork.notify_artwork_fetch_complete(track_id(1), Some(track_id(2))),
        Some(42)
    );
    assert_eq!(
        artwork.handle_artwork_click(Some(track_id(2))),
        ClickStep::Fetch(track_id(2))
    );
}

#[test]
fn a_fetched_cover_is_looked_at_again() {
    let mut artwork = NowPlayingArtwork::new();
    artwork.sync_artwork(
        Some(track_id(1)),
        Some(&source("1.flac")),
        CoverAtHand::Absent,
    );
    artwork.fetch_started(track_id(1), 1);
    artwork.notify_artwork_fetch_complete(track_id(1), Some(track_id(1)));
    let step = artwork.sync_artwork(
        Some(track_id(1)),
        Some(&source("1.flac")),
        CoverAtHand::Decoded,
    );
    assert_eq!(step, ArtworkStep::ShowDecoded);
    assert_eq!(artwork.page, ArtworkPage::Present);
    assert_eq!(artwork.page.tooltip(), Some("Zoom artwork"));
    assert_eq!(
        artwork.handle_artwork_click(Some(track_id(1))),
        ClickStep::OpenOverlay
    );
}

#[test]
fn the_next_cover_is_prefetched_once() {
    let mut artwork = NowPlayingArtwork::new();
    assert!(artwork.prefetch(&source("1.flac"), false));
    assert!(!artwork.prefetch(&source("1.flac"), false));
    assert!(!artwork.prefetch(&source("2.flac"), true));
    assert!(artwork.prefetch(&source("1.flac"), false));
    let stored = |artwork: &NowPlayingArtwork| {
        let path = artwork.prefetched.as_ref().expect("a path");
        path.to_str().expect("text").to_owned()
    };
    assert!(!artwork.prefetch(&source("./1.flac"), false));
    assert_eq!(stored(&artwork), "/music/1.flac");
    assert!(artwork.prefetch(&source("./3.flac"), false));
    assert_eq!(stored(&artwork), "/music/./3.flac");

    let tracks = vec![track(1, false), track(2, false)];
    assert_eq!(next_track_index(&tracks, Some(track_id(2))), Some(1));
    assert_eq!(next_track_index(&tracks, Some(track_id(3))), None);
    assert_eq!(next_track_index(&tracks, None), None);
}

#[test]
fn the_panel_makes_room_for_lyrics() {
    assert_eq!(panel_content(None, None, true), PanelContent::Empty);
    let mut playing = track(1, false);
    playing.metadata.duration = Some(Playtime {
        seconds: 60,
        nanos: 5,
    });
    assert_eq!(
        panel_content(Some(&playing), None, true),
        PanelContent::Loaded {
            duration: Playtime {
                seconds: 60,
                nanos: 5,
            },
            position: Playtime {
                seconds: 0,
                nanos: 0,
            },
            line: title_line(true),
        }
    );
    assert_eq!(title_line(true).max_width, 240);
    assert_eq!(title_line(false).max_width, 400);
    assert!(!title_line(false).truncates);
}

#[test]
fn the_shuffle_button_shines_when_shuffling_is_smart() {
    assert_eq!(shuffle_icon(ShuffleMode::Off), (false, false));
    assert_eq!(shuffle_icon(ShuffleMode::Pure), (true, false));
    assert_eq!(shuffle_icon(ShuffleMode::Smart), (true, true));
    assert_eq!(
        artwork_dominant_color_css("rgb(1, 2, 3)"),
        ".now-playing-artwork-dominant { background-color: rgb(1, 2, 3); }"
    );
}

#[test]
fn muted_slices_take_no_colour() {
    let colours = slice_colours(&vec![false, true, false]);
    assert_eq!(colours.count, 2);
    assert_eq!(colours.slots, vec![Some(0), None, Some(1)]);
    let muted = slice_colours(&vec![true]);
    assert_eq!(muted.count, 1);
    assert_eq!(muted.slots, vec![None]);
}

#[test]
fn pages_wake_up_what_they_show() {
    let albums = page_activation(Some(Page::Albums));
    assert!(albums.activate_albums && albums.clear_transient_highlight);
    let duplicates = page_activation(Some(Page::Duplicates));
    assert!(duplicates.duplicates_active && !duplicates.clear_transient_highlight);
    assert!(page_activation(Some(Page::Statistics)).refresh_statistics);
    assert!(!page_activation(Some(Page::Devices)).clear_transient_highlight);
    assert!(!page_activation(Some(Page::CdImport)).clear_transient_highlight);
    assert!(page_activation(None).clear_transient_highlight);
    assert_eq!(summary_source(Some(Page::Devices)), SummarySource::Device);
    assert_eq!(
        summary_source(Some(Page::Playlists)),
        SummarySource::PlaylistTable
    );
    assert_eq!(summary_source(Some(Page::Albums)), SummarySource::Library);
}

#[test]
fn imported_tracks_add_rows_when_there_are_any() {
    assert!(imported_rows(&Vec::new(), true, &Vec::new()).is_none());
    let rows = imported_rows(&vec![track(1, false), track(2, false)], false, &vec![false, true])
        .expect("tracks were imported");
    assert_eq!(rows.len(), 1);
    assert_eq!(rows[0].track_id, track_id(2));
}

#[test]
fn availability_is_known_of_the_library_only() {
    let tracks = vec![track(1, true), track(2, false)];
    assert_eq!(availability(&tracks, track_id(1)), Some(true));
    assert_eq!(availability(&tracks, track_id(2)), Some(false));
    assert_eq!(availability(&tracks, track_id(3)), None);
}

#[test]
fn a_session_starts_where_the_last_one_ended() {
    assert_eq!(initial_search_text("  words "), "words");
    let current = UiSettings {
        search_text: String::new(),
        sidebar_selection: SidebarSelection::Music,
        sidebar_collapsed: false,
        sidebar_width: None,
        library_section_collapsed: false,
        playlists_section_collapsed: false,
        sidebar_show_duplicates: true,
        sidebar_show_statistics: false,
    };
    let saved = ui_settings_from_widgets(
        WidgetState {
            search_text: "words".to_owned(),
            persisted_selection: Some(SidebarSelection::Albums),
            sidebar_collapsed: true,
            sidebar_width: 220,
            library_section_collapsed: true,
            playlists_section_collapsed: false,
        },
        &current,
    );
    assert_eq!(saved.search_text, "words");
    assert_eq!(saved.sidebar_width, Some(220));
    assert!(saved.sidebar_show_duplicates && !saved.sidebar_show_statistics);

    let mut startup = DeferredStartup::new(saved.sidebar_selection);
    assert!(startup.run(true, HydrationState::Pending).is_none());
    let work = startup
        .hydration_ended(HydrationState::Ready)
        .expect("work that waited");
    assert_eq!(work.restore, Some(SidebarSelection::Albums));
    assert!(work.resume_library_work);
    assert!(startup.hydration_ended(HydrationState::Ready).is_none());
}

#[test]
fn without_a_library_to_read_nothing_is_waited_for() {
    let mut startup = DeferredStartup::new(SidebarSelection::Music);
    let work = startup
        .run(false, HydrationState::Failed)
        .expect("work that waited");
    assert_eq!(work.restore, None);
    assert!(!work.resume_library_work);
    assert!(schedulers_may_start(HydrationState::Ready));
    assert!(!schedulers_may_start(HydrationState::Pending));
}

#[test]
fn playlists_have_layouts_of_their_own() {
    let playlist = Some(SidebarSelection::Item(PlaylistItem::Playlist(
        PlaylistId::new(1).expect("a positive identifier"),
    )));
    let smart = Some(SidebarSelection::Item(PlaylistItem::SmartPlaylist(
        SmartPlaylistId::new(2).expect("a positive identifier"),
    )));
    assert!(matches!(
        layout_scope(playlist),
        Some(LayoutScope::Playlist(_))
    ));
    assert_eq!(layout_scope(Some(SidebarSelection::Music)), None);

    let layout = |columns| ColumnLayout {
        columns,
        sort: Some("title"),
    };
    let own = layout_for_selection(playlist, Some(layout(1)), Some(layout(2))).expect("a layout");
    assert_eq!((own.columns, own.sort), (1, None));
    let own = layout_for_selection(smart, Some(layout(1)), Some(layout(2))).expect("a layout");
    assert_eq!((own.columns, own.sort), (1, Some("title")));
    let default = layout_for_selection(smart, None, Some(layout(2))).expect("a layout");
    assert_eq!((default.columns, default.sort), (2, Some("title")));
    let music = layout_for_selection(
        Some(SidebarSelection::Music),
        Some(layout(1)),
        Some(layout(2)),
    )
    .expect("a layout");
    assert_eq!(music.columns, 2);
    assert!(layout_for_selection::<i32, &str>(smart, None, None).is_none());
}

#[test]
fn analyses_are_switched_one_by_one() {
    let settings = AnalysisSettings {
        bpm: true,
        key: false,
        audio: true,
    };
    assert!(analysis_capability_enabled(settings, AnalysisCapability::Bpm));
    assert!(!analysis_capability_enabled(settings, AnalysisCapability::Key));
    assert!(analysis_capability_enabled(
        settings,
        AnalysisCapability::Audio
    ));
}
