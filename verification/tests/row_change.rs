use sustain_ui::library::{PlaylistEntry, PlaylistId, PlaylistItem, SidebarSelection, TrackId};
use sustain_ui::reorder::{compute_playlist_reorder_position, RowDropPosition, RowReorderDrop};
use sustain_ui::row_change::{
    end_inline_edit, inline_edit_changed_kind, plan_row_change, AlbumsUpdate, DuplicatesUpdate,
    EditableField, FieldChange, InlineEditStep, MetadataChange, PlaylistTableUpdate,
    RowChangePlan, SmartPlaylistTrackStatus, TrackRowChangedKind,
};
use sustain_ui::library::SmartPlaylistId;

fn playlist_entries(track_ids: &[i64]) -> Vec<PlaylistEntry> {
    let playlist_id = PlaylistId::new(1).expect("positive id");
    track_ids
        .iter()
        .enumerate()
        .map(|(position, id)| PlaylistEntry {
            playlist_id,
            track_id: track_id(*id),
            position: u32::try_from(position).expect("position fits in u32"),
        })
        .collect()
}

fn track_id(value: i64) -> TrackId {
    TrackId::new(value).expect("positive track id")
}

#[test]
fn album_grouping_metadata_changes_regroup_albums() {
    let mut change = MetadataChange {
        album: FieldChange::Replace("New Album".to_owned()),
        ..MetadataChange::default()
    };
    assert_eq!(
        TrackRowChangedKind::for_metadata_change(&change),
        TrackRowChangedKind::AlbumAndDuplicateGrouping
    );
    assert!(TrackRowChangedKind::for_metadata_change(&change).affects_album_structure());
    assert!(TrackRowChangedKind::for_metadata_change(&change).affects_duplicate_grouping());

    change = MetadataChange {
        year: FieldChange::Replace(2026),
        ..MetadataChange::default()
    };
    assert_eq!(
        TrackRowChangedKind::for_metadata_change(&change),
        TrackRowChangedKind::AlbumStructure
    );
    assert!(TrackRowChangedKind::for_metadata_change(&change).affects_album_structure());
    assert!(!TrackRowChangedKind::for_metadata_change(&change).affects_duplicate_grouping());
}

#[test]
fn duplicate_grouping_only_metadata_changes_patch_album_in_place_and_rescan_duplicates() {
    let change = MetadataChange {
        title: FieldChange::Replace("New Title".to_owned()),
        ..MetadataChange::default()
    };
    assert_eq!(
        TrackRowChangedKind::for_metadata_change(&change),
        TrackRowChangedKind::DuplicateGrouping
    );
    assert!(!TrackRowChangedKind::for_metadata_change(&change).affects_album_structure());
    assert!(TrackRowChangedKind::for_metadata_change(&change).affects_duplicate_grouping());
}

#[test]
fn non_grouping_metadata_changes_patch_visible_rows_only() {
    let change = MetadataChange {
        genre: FieldChange::Replace("House".to_owned()),
        ..MetadataChange::default()
    };
    assert_eq!(
        TrackRowChangedKind::for_metadata_change(&change),
        TrackRowChangedKind::Data
    );
    assert!(!TrackRowChangedKind::for_metadata_change(&change).affects_album_structure());
    assert!(!TrackRowChangedKind::for_metadata_change(&change).affects_duplicate_grouping());
}

#[test]
fn a_cleared_field_counts_as_changed() {
    let change = MetadataChange {
        artist: FieldChange::Clear,
        ..MetadataChange::default()
    };
    assert_eq!(
        TrackRowChangedKind::for_metadata_change(&change),
        TrackRowChangedKind::AlbumAndDuplicateGrouping
    );
}

#[test]
fn edits_in_the_table_are_classed_by_their_field() {
    assert_eq!(
        inline_edit_changed_kind(EditableField::Artist),
        TrackRowChangedKind::AlbumAndDuplicateGrouping
    );
    assert_eq!(
        inline_edit_changed_kind(EditableField::Title),
        TrackRowChangedKind::DuplicateGrouping
    );
    assert_eq!(
        inline_edit_changed_kind(EditableField::Year),
        TrackRowChangedKind::AlbumStructure
    );
    assert_eq!(
        inline_edit_changed_kind(EditableField::Genre),
        TrackRowChangedKind::Data
    );
}

#[test]
fn a_row_change_touches_only_what_it_has_to() {
    let smart = Some(SidebarSelection::Item(PlaylistItem::SmartPlaylist(
        SmartPlaylistId::new(1).expect("positive id"),
    )));
    assert!(plan_row_change(
        false,
        TrackRowChangedKind::Data,
        None,
        SmartPlaylistTrackStatus::Included,
        false
    )
    .is_none());
    assert_eq!(
        plan_row_change(
            true,
            TrackRowChangedKind::TableOnly,
            smart,
            SmartPlaylistTrackStatus::Included,
            true
        ),
        Some(RowChangePlan {
            albums: AlbumsUpdate::Nothing,
            duplicates: DuplicatesUpdate::UpdateRow,
            playlist_table: PlaylistTableUpdate::UpdateRow,
        })
    );
    assert_eq!(
        plan_row_change(
            true,
            TrackRowChangedKind::AlbumAndDuplicateGrouping,
            smart,
            SmartPlaylistTrackStatus::Excluded,
            true
        ),
        Some(RowChangePlan {
            albums: AlbumsUpdate::Regroup,
            duplicates: DuplicatesUpdate::Rescan,
            playlist_table: PlaylistTableUpdate::Rebuild,
        })
    );
}

#[test]
fn drop_above_target_post_removal_collapses_source_tracks_before_target() {
    let entries = playlist_entries(&[1, 2, 3, 4, 5]);
    let drop = RowReorderDrop {
        dragged_track_ids: vec![track_id(3), track_id(4)],
        target_track_id: track_id(5),
        position: RowDropPosition::Above,
    };
    assert_eq!(compute_playlist_reorder_position(&entries, &drop), Some(2));
}

#[test]
fn drop_below_target_adds_one_to_post_removal_index() {
    let entries = playlist_entries(&[1, 2, 3, 4, 5]);
    let drop = RowReorderDrop {
        dragged_track_ids: vec![track_id(3)],
        target_track_id: track_id(5),
        position: RowDropPosition::Below,
    };
    assert_eq!(compute_playlist_reorder_position(&entries, &drop), Some(4));
}

#[test]
fn drop_above_target_when_no_sources_precede_it_keeps_index_unchanged() {
    let entries = playlist_entries(&[1, 2, 3, 4]);
    let drop = RowReorderDrop {
        dragged_track_ids: vec![track_id(4)],
        target_track_id: track_id(2),
        position: RowDropPosition::Above,
    };
    assert_eq!(compute_playlist_reorder_position(&entries, &drop), Some(1));
}

#[test]
fn missing_target_rejects_the_move() {
    let entries = playlist_entries(&[1, 2, 3]);
    let drop = RowReorderDrop {
        dragged_track_ids: vec![track_id(1)],
        target_track_id: track_id(99),
        position: RowDropPosition::Above,
    };
    assert_eq!(compute_playlist_reorder_position(&entries, &drop), None);
}

#[test]
fn empty_dragged_set_rejects_the_move() {
    let entries = playlist_entries(&[1, 2, 3]);
    let drop = RowReorderDrop {
        dragged_track_ids: Vec::new(),
        target_track_id: track_id(2),
        position: RowDropPosition::Above,
    };
    assert_eq!(compute_playlist_reorder_position(&entries, &drop), None);
}

#[test]
fn a_row_that_is_dropped_on_itself_stays() {
    let entries = playlist_entries(&[1, 2, 3]);
    let drop = RowReorderDrop {
        dragged_track_ids: vec![track_id(2)],
        target_track_id: track_id(2),
        position: RowDropPosition::Below,
    };
    assert_eq!(compute_playlist_reorder_position(&entries, &drop), None);
}

#[test]
fn an_edit_in_place_writes_only_what_changed() {
    assert_eq!(
        end_inline_edit(EditableField::Title, None),
        InlineEditStep::Refuse
    );
    assert_eq!(
        end_inline_edit(EditableField::Bpm, Some(&MetadataChange::default())),
        InlineEditStep::Close
    );
    let bpm = MetadataChange {
        bpm: FieldChange::Replace("128".to_owned()),
        ..MetadataChange::default()
    };
    assert_eq!(
        end_inline_edit(EditableField::Bpm, Some(&bpm)),
        InlineEditStep::Write(TrackRowChangedKind::Data)
    );
    let comments = MetadataChange {
        comments: FieldChange::Clear,
        ..MetadataChange::default()
    };
    assert!(!comments.is_unchanged());
}

#[test]
fn an_edit_in_place_touches_what_its_change_touches() {
    let title = MetadataChange {
        title: FieldChange::Replace("New Title".to_owned()),
        ..MetadataChange::default()
    };
    assert_eq!(
        inline_edit_changed_kind(EditableField::Title),
        TrackRowChangedKind::for_metadata_change(&title)
    );
    let year = MetadataChange {
        year: FieldChange::Replace(1999),
        ..MetadataChange::default()
    };
    assert_eq!(
        inline_edit_changed_kind(EditableField::Year),
        TrackRowChangedKind::for_metadata_change(&year)
    );
}
