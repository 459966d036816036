use std::path::PathBuf;

use sustain_ui::library::{
    Library, PlayStatistics, Playlist, PlaylistEntry, PlaylistFolder, PlaylistFolderId, PlaylistId,
    PlaylistItem, Playtime, Rating, SidebarSelection, SmartPlaylist, SmartPlaylistId, Track,
    TrackId, TrackLocation, TrackMetadata,
};
use sustain_ui::missing_track::{
    play_track_or_offer_locate, PendingLocatedPlaybacks, PlayAttempt,
};
use sustain_ui::notices::{CommandError, CommandErrorKind};
use sustain_ui::pages::{page_for_selection, Page};
use sustain_ui::playback::{
    first_playable_track_for_queue, header_shuffle_mode, play_request_for_visible_view,
    queue_request_for_library, queue_request_for_playlist_selection,
    repopulate_request_for_visible_view, toggle_or_start, update_play_pause_sensitivity, PlayPress,
    PlaybackQueueRequest, PlaybackQueueSource, PlaybackState, ShuffleMode,
};
use sustain_ui::playlists::{
    add_to_playlist_entries, chain_ends_within, library_rows, playlist_display_path,
    playlist_table_rows_for, playlists_header_state_for, rebuild_playlists_view, PlaylistsRefresh,
};
use sustain_ui::search::{search_changed, summarizes_songs, SearchChange};
use sustain_ui::sidebar::{
    current_selection_is_regular_playlist, delete_command, playlist_to_remove_from,
    rename_command, resolve_move_target, selection_profile_kind, tracks_drop_command, DropPosition,
    SidebarCommand,
};

fn track_id(value: i64) -> TrackId {
    TrackId::new(value).expect("a positive identifier")
}

fn playlist_id(value: i64) -> PlaylistId {
    PlaylistId::new(value).expect("a positive identifier")
}

fn smart_id(value: i64) -> SmartPlaylistId {
    SmartPlaylistId::new(value).expect("a positive identifier")
}

fn folder_id(value: i64) -> PlaylistFolderId {
    PlaylistFolderId::new(value).expect("a positive identifier")
}

fn track(id: i64, missing: bool) -> Track {
    let path = PathBuf::from(format!("{id}.flac"));
    Track {
        id: track_id(id),
        location: if missing {
            TrackLocation::missing(path)
        } else {
            TrackLocation::available(path)
        },
        metadata: TrackMetadata {
            duration: Some(Playtime {
                seconds: 60,
                nanos: 0,
            }),
            ..TrackMetadata::default()
        },
        rating: Rating::unrated(),
        statistics: PlayStatistics {
            play_count: 0,
            skip_count: 0,
        },
        file_size_bytes: None,
    }
}

fn entry(playlist: i64, track: i64, position: u32) -> PlaylistEntry {
    PlaylistEntry {
        playlist_id: playlist_id(playlist),
        track_id: track_id(track),
        position,
    }
}

fn library() -> Library {
    Library {
        tracks: vec![track(1, true), track(2, false), track(3, false)],
        playlists: vec![
            Playlist {
                id: playlist_id(1),
                name: "Mix".to_owned(),
                parent_folder_id: Some(folder_id(2)),
                position: 0,
                entries: vec![entry(1, 2, 2), entry(1, 3, 0), entry(1, 9, 1)],
            },
            Playlist {
                id: playlist_id(2),
                name: "Empty".to_owned(),
                parent_folder_id: None,
                position: 1,
                entries: Vec::new(),
            },
        ],
        smart_playlists: vec![SmartPlaylist {
            id: smart_id(1),
            name: "Smart".to_owned(),
            parent_folder_id: None,
            position: 2,
        }],
        folders: vec![
            PlaylistFolder {
                id: folder_id(1),
                name: "Outer".to_owned(),
                parent_folder_id: None,
                position: 3,
            },
            PlaylistFolder {
                id: folder_id(2),
                name: "Inner".to_owned(),
                parent_folder_id: Some(folder_id(1)),
                position: 0,
            },
        ],
    }
}

fn mix() -> Option<SidebarSelection> {
    Some(SidebarSelection::Item(PlaylistItem::Playlist(playlist_id(
        1,
    ))))
}

fn smart() -> Option<SidebarSelection> {
    Some(SidebarSelection::Item(PlaylistItem::SmartPlaylist(
        smart_id(1),
    )))
}

fn queued(request: &PlaybackQueueRequest) -> Option<(PlaybackQueueSource, Vec<i64>)> {
    match request {
        PlaybackQueueRequest::Library => None,
        PlaybackQueueRequest::Explicit {
            source,
            ordered_track_ids,
        } => Some((
            *source,
            ordered_track_ids.iter().map(|id| id.get()).collect(),
        )),
    }
}

#[test]
fn a_search_narrows_the_queue_of_the_library() {
    let tracks = library().tracks;
    let hits = vec![false, true, true];
    assert_eq!(
        queued(&queue_request_for_library(&tracks, "  ", &hits)),
        None
    );
    assert_eq!(
        queued(&queue_request_for_library(&tracks, "x", &hits)),
        Some((PlaybackQueueSource::SearchResults, vec![2, 3]))
    );
}

#[test]
fn a_playlist_is_queued_in_its_own_order() {
    let library = library();
    let hits = vec![true, true, false];
    let queue = queue_request_for_playlist_selection(&library, mix(), "", &hits, &Vec::new());
    assert_eq!(
        queued(&queue),
        Some((PlaybackQueueSource::Playlist(playlist_id(1)), vec![3, 2]))
    );
    let searched = queue_request_for_playlist_selection(&library, mix(), "x", &hits, &Vec::new());
    assert_eq!(
        queued(&searched).map(|(_, ids)| ids),
        Some(vec![2])
    );
    let matches = queue_request_for_playlist_selection(&library, smart(), "", &hits, &vec![2, 0]);
    assert_eq!(
        queued(&matches).map(|(_, ids)| ids),
        Some(vec![3, 1])
    );
}

#[test]
fn playback_starts_with_the_first_file_that_is_there() {
    let tracks = library().tracks;
    assert_eq!(
        first_playable_track_for_queue(&tracks, &PlaybackQueueRequest::Library),
        Some(track_id(2))
    );
    let queue = PlaybackQueueRequest::Explicit {
        source: PlaybackQueueSource::Selection,
        ordered_track_ids: vec![track_id(1), track_id(9), track_id(3)],
    };
    assert_eq!(
        first_playable_track_for_queue(&tracks, &queue),
        Some(track_id(3))
    );
    let unplayable = PlaybackQueueRequest::Explicit {
        source: PlaybackQueueSource::Selection,
        ordered_track_ids: vec![track_id(1)],
    };
    assert_eq!(first_playable_track_for_queue(&tracks, &unplayable), None);
}

#[test]
fn the_play_button_starts_what_is_in_sight() {
    let library = library();
    let hits = vec![true, true, true];
    let songs = play_request_for_visible_view(
        &library,
        Some(Page::Songs),
        None,
        None,
        "",
        &hits,
        &Vec::new(),
    );
    assert_eq!(songs.as_ref().map(|(first, _)| *first), Some(track_id(2)));
    assert!(matches!(
        toggle_or_start(PlaybackState::Stopped, songs),
        PlayPress::Start(first, _) if first == track_id(2)
    ));

    let list = play_request_for_visible_view(
        &library,
        Some(Page::Playlists),
        None,
        mix(),
        "",
        &hits,
        &Vec::new(),
    );
    assert_eq!(list.map(|(first, _)| first), Some(track_id(3)));
    assert!(matches!(
        toggle_or_start(PlaybackState::Paused, None),
        PlayPress::Toggle
    ));
    assert!(matches!(
        toggle_or_start(PlaybackState::Stopped, None),
        PlayPress::Nothing
    ));
}

#[test]
fn a_queue_is_widened_by_the_page_in_sight() {
    let library = library();
    let hits = vec![true, true, true];
    let songs =
        repopulate_request_for_visible_view(&library, Some(Page::Songs), None, &hits, &Vec::new());
    assert_eq!(songs.as_ref().map(queued), Some(None));
    let albums =
        repopulate_request_for_visible_view(&library, Some(Page::Albums), None, &hits, &Vec::new());
    assert!(albums.is_none());
}

#[test]
fn nothing_can_be_started_in_an_empty_library() {
    assert!(!update_play_pause_sensitivity(
        PlaybackState::Stopped,
        &Vec::new()
    ));
    assert!(update_play_pause_sensitivity(
        PlaybackState::Paused,
        &Vec::new()
    ));
    assert!(update_play_pause_sensitivity(
        PlaybackState::Stopped,
        &library().tracks
    ));
    assert_eq!(header_shuffle_mode(true), ShuffleMode::Pure);
    assert_eq!(header_shuffle_mode(false), ShuffleMode::Off);
}

#[test]
fn playlist_rows_carry_their_positions() {
    let library = library();
    let hits = vec![true, false, true];
    let rows = playlist_table_rows_for(&library, mix(), true, &hits, &Vec::new());
    let shown: Vec<(i64, Option<u32>)> = rows
        .iter()
        .map(|row| (row.track_id.get(), row.playlist_position))
        .collect();
    assert_eq!(shown, vec![(3, Some(0)), (2, Some(2))]);
    let searched = playlist_table_rows_for(&library, mix(), false, &hits, &Vec::new());
    assert_eq!(searched.len(), 1);
    assert_eq!(library_rows(&library.tracks, true, &hits).len(), 3);
    assert_eq!(library_rows(&library.tracks, false, &hits).len(), 2);
}

#[test]
fn the_header_sums_the_rows_up() {
    let library = library();
    let hits = vec![true, true, true];
    let (header, rows) = rebuild_playlists_view(&library, mix(), true, &hits, &Vec::new());
    let header = header.expect("a playlist has a header");
    assert_eq!(header.title, "Mix");
    assert_eq!(header.track_count, rows.len());
    assert_eq!(header.duration_seconds, 120);
    assert!(playlists_header_state_for(&library, None, &rows).is_none());
}

#[test]
fn display_paths_name_the_folders() {
    let library = library();
    assert!(chain_ends_within(
        &library.folders,
        Some(folder_id(2)),
        library.folders.len()
    ));
    assert_eq!(
        playlist_display_path(&library.playlists[0], &library.folders),
        "Outer / Inner / Mix"
    );
    let entries = add_to_playlist_entries(&library);
    let paths: Vec<&str> = entries
        .iter()
        .map(|entry| entry.display_path.as_str())
        .collect();
    assert_eq!(paths, vec!["Empty", "Outer / Inner / Mix"]);
}

#[test]
fn folders_that_hold_each_other_have_no_path() {
    let mut folders = library().folders;
    folders[0].parent_folder_id = Some(folder_id(2));
    assert!(!chain_ends_within(
        &folders,
        Some(folder_id(2)),
        folders.len()
    ));
}

#[test]
fn a_hidden_playlist_is_caught_up_with_when_it_is_shown() {
    let mut refresh = PlaylistsRefresh { dirty: false };
    assert!(!refresh.refresh_if_visible(Some(Page::Songs)));
    assert!(refresh.dirty);
    assert!(refresh.page_shown(Some(Page::Playlists)));
    assert!(!refresh.page_shown(Some(Page::Playlists)));
    assert!(refresh.refresh_if_visible(Some(Page::Playlists)));
}

#[test]
fn typing_searches_once_for_each_text() {
    let mut current = "a".to_owned();
    assert_eq!(search_changed(&mut current, "a"), None);
    assert_eq!(
        search_changed(&mut current, "ab"),
        Some(SearchChange { widen_queue: false })
    );
    assert_eq!(current, "ab");
    assert_eq!(
        search_changed(&mut current, " \t"),
        Some(SearchChange { widen_queue: true })
    );
    assert!(summarizes_songs(Some(Page::Songs)));
    assert!(!summarizes_songs(None));
}

#[test]
fn selections_lead_to_their_pages() {
    assert_eq!(page_for_selection(None), Page::Songs);
    assert_eq!(page_for_selection(mix()), Page::Playlists);
    assert_eq!(Page::CdImport.name(), "cd-import");
    assert_eq!(selection_profile_kind(mix()), "regular-playlist");
    assert!(current_selection_is_regular_playlist(mix()));
    assert!(!current_selection_is_regular_playlist(smart()));
    assert_eq!(playlist_to_remove_from(mix()), Some(playlist_id(1)));
    assert_eq!(playlist_to_remove_from(smart()), None);
}

#[test]
fn items_move_into_folders_and_beside_others() {
    let library = library();
    let mix = PlaylistItem::Playlist(playlist_id(1));
    let empty = PlaylistItem::Playlist(playlist_id(2));
    let inner = PlaylistItem::Folder(folder_id(2));
    assert_eq!(
        resolve_move_target(&library, empty, inner, DropPosition::Into),
        Some((Some(folder_id(2)), 1))
    );
    assert_eq!(
        resolve_move_target(&library, empty, mix, DropPosition::Below),
        Some((Some(folder_id(2)), 1))
    );
    assert_eq!(
        resolve_move_target(&library, empty, mix, DropPosition::Above),
        Some((Some(folder_id(2)), 0))
    );
    assert_eq!(
        resolve_move_target(
            &library,
            empty,
            PlaylistItem::Playlist(playlist_id(9)),
            DropPosition::Above
        ),
        None
    );
}

#[test]
fn sidebar_actions_become_commands() {
    let library = library();
    assert!(matches!(
        rename_command(
            &library,
            PlaylistItem::SmartPlaylist(smart_id(1)),
            "New".to_owned()
        ),
        Some(SidebarCommand::RenameSmartPlaylist { name, .. }) if name == "New"
    ));
    assert!(rename_command(
        &library,
        PlaylistItem::SmartPlaylist(smart_id(9)),
        "New".to_owned()
    )
    .is_none());
    assert!(matches!(
        delete_command(PlaylistItem::Folder(folder_id(1))),
        SidebarCommand::DeleteFolder(id) if id == folder_id(1)
    ));
    assert!(tracks_drop_command(PlaylistItem::Playlist(playlist_id(1)), Vec::new()).is_none());
    assert!(
        tracks_drop_command(PlaylistItem::Folder(folder_id(1)), vec![track_id(1)]).is_none()
    );
    assert!(matches!(
        tracks_drop_command(PlaylistItem::Playlist(playlist_id(1)), vec![track_id(1)]),
        Some(SidebarCommand::AddTracks { track_ids, .. }) if track_ids == vec![track_id(1)]
    ));
}

#[test]
fn a_missing_track_can_be_located_and_is_then_played() {
    let error = |kind| CommandError {
        kind,
        text: "no".to_owned(),
    };
    assert!(matches!(
        play_track_or_offer_locate(Ok(()), None),
        PlayAttempt::Playing
    ));
    assert!(matches!(
        play_track_or_offer_locate(Err(error(CommandErrorKind::TrackUnavailable)), Some(true)),
        PlayAttempt::Locate
    ));
    assert!(matches!(
        play_track_or_offer_locate(Err(error(CommandErrorKind::TrackUnavailable)), None),
        PlayAttempt::Failed(Some(notice)) if notice.body == "no"
    ));

    let mut pending = PendingLocatedPlaybacks::new();
    pending.remember(track_id(1), PlaybackQueueRequest::Library);
    let other = pending.relocation_completed(track_id(2), true);
    assert!(other.invalidate_artwork && other.play.is_none());
    let failed = pending.relocation_completed(track_id(1), false);
    assert!(failed.play.is_none());
    pending.remember(track_id(1), PlaybackQueueRequest::Library);
    let found = pending.relocation_completed(track_id(1), true);
    assert!(matches!(found.play, Some(PlaybackQueueRequest::Library)));
    let again = pending.relocation_completed(track_id(1), true);
    assert!(again.play.is_none());
}

#[test]
fn a_burst_of_changes_schedules_one_rebuild() {
    let mut refresh = PlaylistsRefresh { dirty: false };
    assert!(!refresh.schedule_structural_refresh(Some(Page::Songs)));
    assert!(refresh.page_shown(Some(Page::Playlists)));
    assert!(refresh.schedule_structural_refresh(Some(Page::Playlists)));
    assert!(!refresh.schedule_structural_refresh(Some(Page::Playlists)));
    assert!(refresh.refresh_if_visible(Some(Page::Playlists)));
    assert!(!refresh.dirty);
}

#[test]
fn going_to_a_playlist_rebuilds_the_view_once() {
    let mut refresh = PlaylistsRefresh { dirty: false };
    let switching = refresh.selection_leads_to(Page::Playlists, Some(Page::Songs));
    assert!(switching);
    assert!(refresh.page_shown(Some(Page::Playlists)));
    assert_eq!(
        refresh.selection_shown(switching, Some(Page::Playlists)),
        (false, true)
    );
    let switching = refresh.selection_leads_to(Page::Playlists, Some(Page::Playlists));
    assert!(!switching);
    assert_eq!(
        refresh.selection_shown(switching, Some(Page::Playlists)),
        (true, true)
    );
    let switching = refresh.selection_leads_to(Page::Songs, Some(Page::Playlists));
    assert_eq!(
        refresh.selection_shown(switching, Some(Page::Songs)),
        (false, false)
    );
}
