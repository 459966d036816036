//! What a change of a single track means for the views.

use vstd::prelude::*;

use crate::albums::model;
use crate::albums::model::AlbumViewModel;
use crate::albums::regrouping;
use crate::library::{PlaylistItem, SidebarSelection, Track, TrackMetadata};

verus! {

/// What becomes of a tag.
#[derive(Debug, Default, PartialEq, Eq)]
pub enum FieldChange<T> {
    #[default]
    Unchanged,
    Replace(T),
    Clear,
}

/// What becomes of the tags of a track.
#[derive(Debug, Default, PartialEq, Eq)]
pub struct MetadataChange {
    pub title: FieldChange<String>,
    pub artist: FieldChange<String>,
    pub album: FieldChange<String>,
    pub album_artist: FieldChange<String>,
    pub composer: FieldChange<String>,
    pub grouping: FieldChange<String>,
    pub genre: FieldChange<String>,
    pub track_number: FieldChange<u32>,
    pub track_total: FieldChange<u32>,
    pub disc_number: FieldChange<u32>,
    pub disc_total: FieldChange<u32>,
    pub year: FieldChange<i32>,
    pub compilation: FieldChange<bool>,
    pub bpm: FieldChange<String>,
    pub key: FieldChange<String>,
    pub comments: FieldChange<String>,
}

/// What a change of a track touches.
#[derive(Clone, Copy, Debug, PartialEq, Eq, Structural)]
pub enum TrackRowChangedKind {
    /// Fields changed, but albums are grouped as before.
    Data,
    /// Fields that make tracks duplicates of one another changed; albums are
    /// grouped as before.
    DuplicateGrouping,
    /// Fields that group albums changed.
    AlbumStructure,
    /// Fields changed that group albums and make tracks duplicates.
    AlbumAndDuplicateGrouping,
    /// Fields changed that albums do not show, such as the rating.
    TableOnly,
    /// Embedded artwork changed, and no field.
    Artwork,
}

/// Whether a field is touched.
pub fn field_changed<T>(field: &FieldChange<T>) -> (changed: bool)
    ensures
        changed == (*field !is Unchanged),
{
    match field {
        FieldChange::Unchanged => false,
        _ => true,
    }
}

/// A change leaves every tag as it is.
pub open spec fn changes_nothing(change: MetadataChange) -> bool {
    &&& change.title is Unchanged
    &&& change.artist is Unchanged
    &&& change.album is Unchanged
    &&& change.album_artist is Unchanged
    &&& change.composer is Unchanged
    &&& change.grouping is Unchanged
    &&& change.genre is Unchanged
    &&& change.track_number is Unchanged
    &&& change.track_total is Unchanged
    &&& change.disc_number is Unchanged
    &&& change.disc_total is Unchanged
    &&& change.year is Unchanged
    &&& change.compilation is Unchanged
    &&& change.bpm is Unchanged
    &&& change.key is Unchanged
    &&& change.comments is Unchanged
}

impl MetadataChange {
    /// Whether every tag stays as it is.
    pub fn is_unchanged(&self) -> (unchanged: bool)
        ensures
            unchanged == changes_nothing(*self),
    {
        !(field_changed(&self.title) || field_changed(&self.artist) || field_changed(&self.album)
            || field_changed(&self.album_artist) || field_changed(&self.composer)
            || field_changed(&self.grouping) || field_changed(&self.genre)
            || field_changed(&self.track_number) || field_changed(&self.track_total)
            || field_changed(&self.disc_number) || field_changed(&self.disc_total)
            || field_changed(&self.year) || field_changed(&self.compilation)
            || field_changed(&self.bpm) || field_changed(&self.key)
            || field_changed(&self.comments))
    }
}

/// A change touches a field by which albums are grouped or that their tiles
/// show.
pub open spec fn touches_albums(change: MetadataChange) -> bool {
    ||| change.artist !is Unchanged
    ||| change.album !is Unchanged
    ||| change.album_artist !is Unchanged
    ||| change.year !is Unchanged
    ||| change.compilation !is Unchanged
}

/// A change touches a field that makes tracks duplicates of one another.
pub open spec fn touches_duplicates(change: MetadataChange) -> bool {
    ||| change.title !is Unchanged
    ||| change.artist !is Unchanged
    ||| change.album !is Unchanged
}

/// The kind of a change of tags that touches albums or duplicates.
pub open spec fn kind_touching(albums: bool, duplicates: bool) -> TrackRowChangedKind {
    match (albums, duplicates) {
        (true, true) => TrackRowChangedKind::AlbumAndDuplicateGrouping,
        (true, false) => TrackRowChangedKind::AlbumStructure,
        (false, true) => TrackRowChangedKind::DuplicateGrouping,
        (false, false) => TrackRowChangedKind::Data,
    }
}

/// What a change of tags touches.
pub open spec fn kind_of_change(change: MetadataChange) -> TrackRowChangedKind {
    kind_touching(touches_albums(change), touches_duplicates(change))
}

impl TrackRowChangedKind {
    /// What a change of tags touches.
    pub fn for_metadata_change(change: &MetadataChange) -> (kind: Self)
        ensures
            kind == kind_of_change(*change),
    {
        let albums = field_changed(&change.artist) || field_changed(&change.album)
            || field_changed(&change.album_artist) || field_changed(&change.year)
            || field_changed(&change.compilation);
        let duplicates = field_changed(&change.title) || field_changed(&change.artist)
            || field_changed(&change.album);
        match (albums, duplicates) {
            (true, true) => TrackRowChangedKind::AlbumAndDuplicateGrouping,
            (true, false) => TrackRowChangedKind::AlbumStructure,
            (false, true) => TrackRowChangedKind::DuplicateGrouping,
            (false, false) => TrackRowChangedKind::Data,
        }
    }

    /// Whether albums have to be grouped anew.
    pub open spec fn regroups_albums(self) -> bool {
        self == TrackRowChangedKind::AlbumStructure || self
            == TrackRowChangedKind::AlbumAndDuplicateGrouping
    }

    /// Whether duplicates have to be looked for anew.
    pub open spec fn regroups_duplicates(self) -> bool {
        self == TrackRowChangedKind::DuplicateGrouping || self
            == TrackRowChangedKind::AlbumAndDuplicateGrouping
    }

    /// Whether albums have to be grouped anew.
    pub fn affects_album_structure(self) -> (affects: bool)
        ensures
            affects == self.regroups_albums(),
    {
        match self {
            TrackRowChangedKind::AlbumStructure
            | TrackRowChangedKind::AlbumAndDuplicateGrouping => true,
            _ => false,
        }
    }

    /// Whether duplicates have to be looked for anew.
    pub fn affects_duplicate_grouping(self) -> (affects: bool)
        ensures
            affects == self.regroups_duplicates(),
    {
        match self {
            TrackRowChangedKind::DuplicateGrouping
            | TrackRowChangedKind::AlbumAndDuplicateGrouping => true,
            _ => false,
        }
    }
}

/// A column that can be edited in place.
#[derive(Clone, Copy, Debug, PartialEq, Eq, Structural)]
pub enum EditableField {
    Title,
    Artist,
    Album,
    Genre,
    Year,
    Bpm,
    Key,
    TrackNumber,
}

/// Albums are grouped by a column, or their tiles show it.
pub open spec fn column_touches_albums(field: EditableField) -> bool {
    field == EditableField::Artist || field == EditableField::Album || field == EditableField::Year
}

/// A column makes tracks duplicates of one another.
pub open spec fn column_touches_duplicates(field: EditableField) -> bool {
    field == EditableField::Title || field == EditableField::Artist || field
        == EditableField::Album
}

/// What an edit in place touches.
pub open spec fn kind_of_edit(field: EditableField) -> TrackRowChangedKind {
    kind_touching(column_touches_albums(field), column_touches_duplicates(field))
}

/// What an edit in place touches.
pub fn inline_edit_changed_kind(field: EditableField) -> (kind: TrackRowChangedKind)
    ensures
        kind == kind_of_edit(field),
{
    match field {
        EditableField::Artist
        | EditableField::Album => TrackRowChangedKind::AlbumAndDuplicateGrouping,
        EditableField::Year => TrackRowChangedKind::AlbumStructure,
        EditableField::Title => TrackRowChangedKind::DuplicateGrouping,
        EditableField::Genre
        | EditableField::Bpm
        | EditableField::Key
        | EditableField::TrackNumber => TrackRowChangedKind::Data,
    }
}

/// A change touches the tag of one column, and no other.
pub open spec fn touches_only(change: MetadataChange, field: EditableField) -> bool {
    &&& change.title !is Unchanged <==> field == EditableField::Title
    &&& change.artist !is Unchanged <==> field == EditableField::Artist
    &&& change.album !is Unchanged <==> field == EditableField::Album
    &&& change.genre !is Unchanged <==> field == EditableField::Genre
    &&& change.year !is Unchanged <==> field == EditableField::Year
    &&& change.bpm !is Unchanged <==> field == EditableField::Bpm
    &&& change.key !is Unchanged <==> field == EditableField::Key
    &&& change.track_number !is Unchanged <==> field == EditableField::TrackNumber
    &&& change.album_artist is Unchanged
    &&& change.composer is Unchanged
    &&& change.grouping is Unchanged
    &&& change.track_total is Unchanged
    &&& change.disc_number is Unchanged
    &&& change.disc_total is Unchanged
    &&& change.compilation is Unchanged
    &&& change.comments is Unchanged
}

/// An edit in place refreshes the views as the same change does when it comes
/// from elsewhere, and is never taken for no change at all.
pub proof fn law_edit_in_place_is_a_change_of_its_tag(
    field: EditableField,
    change: MetadataChange,
)
    requires
        touches_only(change, field),
    ensures
        kind_touching(column_touches_albums(field), column_touches_duplicates(field))
            == kind_touching(touches_albums(change), touches_duplicates(change)),
        !changes_nothing(change),
{
}

/// What is done with an edit in place that ends.
#[derive(Clone, Copy, Debug, PartialEq, Eq, Structural)]
pub enum InlineEditStep {
    /// The track is gone: the edit is refused.
    Refuse,
    /// Nothing was changed, or what was typed is no number: the editor closes.
    Close,
    /// The change is written. If that succeeds, the editor closes and the views
    /// take in a change of this kind.
    Write(TrackRowChangedKind),
}

/// What is done when an edit in place ends.
pub open spec fn edit_end(field: EditableField, change: Option<&MetadataChange>) -> InlineEditStep {
    match change {
        None => InlineEditStep::Refuse,
        Some(change) => if changes_nothing(*change) {
            InlineEditStep::Close
        } else {
            InlineEditStep::Write(kind_of_edit(field))
        },
    }
}

/// What is done when an edit in place ends, with the change that it makes; the
/// change is `None` when the track is not in the library.
pub fn end_inline_edit(field: EditableField, change: Option<&MetadataChange>) -> (step:
    InlineEditStep)
    ensures
        step == edit_end(field, change),
{
    match change {
        None => InlineEditStep::Refuse,
        Some(change) => {
            if change.is_unchanged() {
                InlineEditStep::Close
            } else {
                InlineEditStep::Write(inline_edit_changed_kind(field))
            }
        },
    }
}

/// What the album view does.
#[derive(Clone, Copy, Debug, PartialEq, Eq, Structural)]
pub enum AlbumsUpdate {
    /// Groups the library anew.
    Regroup,
    /// Patches the one track.
    PatchTrack,
    /// Reads the cover of the one track's album anew.
    RefreshArtwork,
    Nothing,
}

/// What the duplicates view does.
#[derive(Clone, Copy, Debug, PartialEq, Eq, Structural)]
pub enum DuplicatesUpdate {
    /// Looks for duplicates anew, if it is shown.
    Rescan,
    /// Repaints the one row.
    UpdateRow,
}

/// What the playlist table does.
#[derive(Clone, Copy, Debug, PartialEq, Eq, Structural)]
pub enum PlaylistTableUpdate {
    /// Rebuilds its rows, since the track joins or leaves them.
    Rebuild,
    /// Repaints the one row.
    UpdateRow,
    Nothing,
}

/// Whether a smart playlist holds a track.
#[derive(Clone, Copy, Debug, PartialEq, Eq, Structural)]
pub enum SmartPlaylistTrackStatus {
    Included,
    Excluded,
    /// The track alone does not decide it.
    RequiresFullRebuild,
}

/// What the views do when a track has changed.
#[derive(Clone, Copy, Debug, PartialEq, Eq, Structural)]
pub struct RowChangePlan {
    pub albums: AlbumsUpdate,
    pub duplicates: DuplicatesUpdate,
    pub playlist_table: PlaylistTableUpdate,
}

/// What the album view does: it regroups only when its grouping is touched, so
/// that no other change collapses the open album or moves the view.
pub open spec fn albums_update(kind: TrackRowChangedKind) -> AlbumsUpdate {
    if kind.regroups_albums() {
        AlbumsUpdate::Regroup
    } else if kind == TrackRowChangedKind::Artwork {
        AlbumsUpdate::RefreshArtwork
    } else if kind == TrackRowChangedKind::TableOnly {
        AlbumsUpdate::Nothing
    } else {
        AlbumsUpdate::PatchTrack
    }
}

/// Whether the track joins or leaves the rows of the selected smart playlist,
/// or may do so.
pub open spec fn membership_changed(status: SmartPlaylistTrackStatus, in_table: bool) -> bool {
    match status {
        SmartPlaylistTrackStatus::Included => !in_table,
        SmartPlaylistTrackStatus::Excluded => in_table,
        SmartPlaylistTrackStatus::RequiresFullRebuild => true,
    }
}

/// What the playlist table does.
pub open spec fn playlist_table_update(
    selection: Option<SidebarSelection>,
    status: SmartPlaylistTrackStatus,
    in_table: bool,
) -> PlaylistTableUpdate {
    if selection matches Some(SidebarSelection::Item(PlaylistItem::SmartPlaylist(_))) {
        if membership_changed(status, in_table) {
            PlaylistTableUpdate::Rebuild
        } else if in_table {
            PlaylistTableUpdate::UpdateRow
        } else {
            PlaylistTableUpdate::Nothing
        }
    } else {
        PlaylistTableUpdate::UpdateRow
    }
}

/// What the views do when a track has changed; nothing for a track that the
/// library no longer holds.
pub open spec fn plan_for(
    known: bool,
    kind: TrackRowChangedKind,
    selection: Option<SidebarSelection>,
    status: SmartPlaylistTrackStatus,
    in_table: bool,
) -> Option<RowChangePlan> {
    if known {
        Some(
            RowChangePlan {
                albums: albums_update(kind),
                duplicates: if kind.regroups_duplicates() {
                    DuplicatesUpdate::Rescan
                } else {
                    DuplicatesUpdate::UpdateRow
                },
                playlist_table: playlist_table_update(selection, status, in_table),
            },
        )
    } else {
        None
    }
}

/// What the views do when a track has changed. Nothing is done for a track
/// that the library no longer holds. `status` tells whether the selected smart
/// playlist holds the track, and `in_table` whether its table shows it.
pub fn plan_row_change(
    known: bool,
    kind: TrackRowChangedKind,
    selection: Option<SidebarSelection>,
    status: SmartPlaylistTrackStatus,
    in_table: bool,
) -> (plan: Option<RowChangePlan>)
    ensures
        plan == plan_for(known, kind, selection, status, in_table),
{
    if !known {
        return None;
    }
    let albums = if kind.affects_album_structure() {
        AlbumsUpdate::Regroup
    } else {
        match kind {
            TrackRowChangedKind::Data
            | TrackRowChangedKind::DuplicateGrouping => AlbumsUpdate::PatchTrack,
            TrackRowChangedKind::Artwork => AlbumsUpdate::RefreshArtwork,
            _ => AlbumsUpdate::Nothing,
        }
    };
    let duplicates = if kind.affects_duplicate_grouping() {
        DuplicatesUpdate::Rescan
    } else {
        DuplicatesUpdate::UpdateRow
    };
    let playlist_table = match selection {
        Some(SidebarSelection::Item(PlaylistItem::SmartPlaylist(_))) => {
            let changed = match status {
                SmartPlaylistTrackStatus::Included => !in_table,
                SmartPlaylistTrackStatus::Excluded => in_table,
                SmartPlaylistTrackStatus::RequiresFullRebuild => true,
            };
            if changed {
                PlaylistTableUpdate::Rebuild
            } else if in_table {
                PlaylistTableUpdate::UpdateRow
            } else {
                PlaylistTableUpdate::Nothing
            }
        },
        _ => PlaylistTableUpdate::UpdateRow,
    };
    Some(RowChangePlan { albums, duplicates, playlist_table })
}

/// An update that neither adds the track to the shown rows nor removes it keeps
/// the rows, and with them the place to which the user has scrolled.
pub proof fn law_settled_membership_never_rebuilds(
    selection: Option<SidebarSelection>,
    in_table: bool,
)
    ensures
        playlist_table_update(
            selection,
            if in_table {
                SmartPlaylistTrackStatus::Included
            } else {
                SmartPlaylistTrackStatus::Excluded
            },
            in_table,
        ) != PlaylistTableUpdate::Rebuild,
{
}

/// What a change makes of a text.
pub open spec fn text_becomes(
    change: FieldChange<String>,
    before: Option<String>,
    after: Option<String>,
) -> bool {
    match change {
        FieldChange::Unchanged => after.deep_view() == before.deep_view(),
        FieldChange::Replace(value) => after.deep_view() == Some(value@),
        FieldChange::Clear => after is None,
    }
}

/// What a change makes of a value.
pub open spec fn value_becomes<T>(
    change: FieldChange<T>,
    before: Option<T>,
    after: Option<T>,
) -> bool {
    match change {
        FieldChange::Unchanged => after == before,
        FieldChange::Replace(value) => after == Some(value),
        FieldChange::Clear => after is None,
    }
}

/// The tags `after` are the tags `before` once the change was made.
pub open spec fn tags_become(
    change: MetadataChange,
    before: TrackMetadata,
    after: TrackMetadata,
) -> bool {
    &&& text_becomes(change.title, before.title, after.title)
    &&& text_becomes(change.artist, before.artist, after.artist)
    &&& text_becomes(change.album, before.album, after.album)
    &&& text_becomes(change.album_artist, before.album_artist, after.album_artist)
    &&& text_becomes(change.composer, before.composer, after.composer)
    &&& text_becomes(change.grouping, before.grouping, after.grouping)
    &&& text_becomes(change.genre, before.genre, after.genre)
    &&& value_becomes(change.track_number, before.track_number, after.track_number)
    &&& value_becomes(change.track_total, before.track_total, after.track_total)
    &&& value_becomes(change.disc_number, before.disc_number, after.disc_number)
    &&& value_becomes(change.disc_total, before.disc_total, after.disc_total)
    &&& value_becomes(change.year, before.year, after.year)
    &&& value_becomes(change.compilation, before.compilation, after.compilation)
    &&& text_becomes(change.bpm, before.bpm, after.bpm)
    &&& text_becomes(change.key, before.key, after.key)
    &&& text_becomes(change.comments, before.comments, after.comments)
}

/// A change for which the albums are not grouped anew leaves every track that it
/// is made to in its album, and leaves all that the album draws from it: the
/// artist under whom it is filed, the artist and the album artist that the album
/// names, its title, its year and whether it is a compilation.
pub proof fn law_a_track_stays_in_its_album_unless_albums_are_regrouped(
    change: MetadataChange,
    before: Track,
    after: Track,
)
    requires
        tags_become(change, before.metadata, after.metadata),
        !kind_of_change(change).regroups_albums(),
    ensures
        model::key_of(after) == model::key_of(before),
        model::album_title_of(after.metadata) == model::album_title_of(before.metadata),
        model::grouping_artist(after.metadata) == model::grouping_artist(before.metadata),
        model::artist_of(after.metadata) == model::artist_of(before.metadata),
        model::names_album_artist(after.metadata) == model::names_album_artist(before.metadata),
        model::in_compilation(after.metadata) == model::in_compilation(before.metadata),
        after.metadata.year == before.metadata.year,
        regrouping::album_tags_alike(after, before),
{
}

/// The albums are right after a change: where they are not grouped anew, but the
/// track is patched in its album, they are what grouping the library anew would
/// make of them.
pub proof fn law_the_albums_are_right_after_a_change(
    change: MetadataChange,
    albums: Seq<AlbumViewModel>,
    tracks: Seq<Track>,
    place: int,
    changed: Track,
    patched: Seq<AlbumViewModel>,
    regrouped: Seq<AlbumViewModel>,
)
    requires
        albums_update(kind_of_change(change)) != AlbumsUpdate::Regroup,
        model::albums_group(albums, tracks),
        regrouping::ids_differ(tracks),
        0 <= place < tracks.len(),
        changed.id == tracks[place].id,
        tags_become(change, tracks[place].metadata, changed.metadata),
        model::track_patched(albums, patched, changed.id, model::track_row(changed)),
        model::albums_group(regrouped, tracks.update(place, changed)),
    ensures
        albums_update(kind_of_change(change)) == AlbumsUpdate::PatchTrack,
        regrouping::same_keys_and_rows(patched, regrouped),
        forall|i: int|
            0 <= i < patched.len() ==> (#[trigger] patched[i]).title@ == regrouped[i].title@
                && patched[i].artist@ == regrouped[i].artist@ && patched[i].year
                == regrouped[i].year,
{
    law_a_track_stays_in_its_album_unless_albums_are_regrouped(change, tracks[place], changed);
    regrouping::law_patching_is_enough_when_the_album_tags_stay(
        albums,
        tracks,
        place,
        changed,
        patched,
        regrouped,
    );
}

/// The same holds of an edit in place: the column that is edited decides.
pub proof fn law_a_track_stays_in_its_album_unless_its_edit_regroups(
    field: EditableField,
    change: MetadataChange,
    before: Track,
    after: Track,
)
    requires
        touches_only(change, field),
        tags_become(change, before.metadata, after.metadata),
        !kind_of_edit(field).regroups_albums(),
    ensures
        model::key_of(after) == model::key_of(before),
        regrouping::album_tags_alike(after, before),
{
    law_edit_in_place_is_a_change_of_its_tag(field, change);
}

/// Albums are not grouped anew, and duplicates not looked for anew, without
/// need: not when the tags from which albums are drawn stay, nor when the title,
/// the artist and the album stay. Where one of these three changes, duplicates
/// are looked for anew.
pub proof fn law_views_are_not_rebuilt_without_need(change: MetadataChange)
    ensures
        change.artist is Unchanged && change.album is Unchanged && change.album_artist is Unchanged
            && change.year is Unchanged && change.compilation is Unchanged ==> !kind_of_change(
            change,
        ).regroups_albums(),
        kind_of_change(change).regroups_duplicates() <==> !(change.title is Unchanged
            && change.artist is Unchanged && change.album is Unchanged),
        kind_of_change(change) != TrackRowChangedKind::TableOnly,
        kind_of_change(change) != TrackRowChangedKind::Artwork,
{
}

/// Two changes made at once rebuild what either would rebuild on its own.
pub proof fn law_changes_add_up(first: MetadataChange, second: MetadataChange, both: MetadataChange)
    requires
        both.title is Unchanged <==> first.title is Unchanged && second.title is Unchanged,
        both.artist is Unchanged <==> first.artist is Unchanged && second.artist is Unchanged,
        both.album is Unchanged <==> first.album is Unchanged && second.album is Unchanged,
        both.album_artist is Unchanged <==> first.album_artist is Unchanged
            && second.album_artist is Unchanged,
        both.year is Unchanged <==> first.year is Unchanged && second.year is Unchanged,
        both.compilation is Unchanged <==> first.compilation is Unchanged
            && second.compilation is Unchanged,
    ensures
        kind_of_change(both).regroups_albums() == (kind_of_change(first).regroups_albums()
            || kind_of_change(second).regroups_albums()),
        kind_of_change(both).regroups_duplicates() == (kind_of_change(first).regroups_duplicates()
            || kind_of_change(second).regroups_duplicates()),
{
}

/// What each view does for a track that the library holds. The albums are
/// grouped anew only for changes that group them; a change of artwork only has
/// the cover read anew, and a change that albums do not show leaves them alone.
/// Duplicates are looked for anew only for changes that make tracks duplicates.
pub proof fn law_each_view_does_what_the_change_calls_for(
    kind: TrackRowChangedKind,
    selection: Option<SidebarSelection>,
    status: SmartPlaylistTrackStatus,
    in_table: bool,
)
    ensures
        plan_for(false, kind, selection, status, in_table) is None,
        ({
            let plan = plan_for(true, kind, selection, status, in_table);
            &&& plan is Some
            &&& plan->0.albums == AlbumsUpdate::Regroup <==> kind
                == TrackRowChangedKind::AlbumStructure || kind
                == TrackRowChangedKind::AlbumAndDuplicateGrouping
            &&& plan->0.albums == AlbumsUpdate::RefreshArtwork <==> kind
                == TrackRowChangedKind::Artwork
            &&& plan->0.albums == AlbumsUpdate::Nothing <==> kind
                == TrackRowChangedKind::TableOnly
            &&& plan->0.duplicates == DuplicatesUpdate::Rescan <==> kind
                == TrackRowChangedKind::DuplicateGrouping || kind
                == TrackRowChangedKind::AlbumAndDuplicateGrouping
        }),
{
}

/// The table of a smart playlist shows a track after a change iff the playlist
/// holds it: it is rebuilt where the track joins or leaves, or may do so, and
/// otherwise only repaints the row that it has. Any other table repaints.
pub proof fn law_the_smart_playlist_table_follows_its_tracks(
    kind: TrackRowChangedKind,
    selection: Option<SidebarSelection>,
    status: SmartPlaylistTrackStatus,
    in_table: bool,
)
    ensures
        ({
            let update = plan_for(true, kind, selection, status, in_table)->0.playlist_table;
            let smart = selection matches Some(
                SidebarSelection::Item(PlaylistItem::SmartPlaylist(_)),
            );
            let shown_after = if update == PlaylistTableUpdate::Rebuild {
                status == SmartPlaylistTrackStatus::Included
            } else {
                in_table
            };
            &&& !smart ==> update == PlaylistTableUpdate::UpdateRow
            &&& smart && status != SmartPlaylistTrackStatus::RequiresFullRebuild ==> shown_after
                == (status == SmartPlaylistTrackStatus::Included)
            &&& smart && status == SmartPlaylistTrackStatus::RequiresFullRebuild ==> update
                == PlaylistTableUpdate::Rebuild
            &&& smart && update == PlaylistTableUpdate::Nothing ==> !in_table
            &&& smart && update == PlaylistTableUpdate::UpdateRow ==> in_table
            &&& smart && in_table && status == SmartPlaylistTrackStatus::Included ==> update
                == PlaylistTableUpdate::UpdateRow
            &&& smart && !in_table && status == SmartPlaylistTrackStatus::Excluded ==> update
                == PlaylistTableUpdate::Nothing
        }),
{
}

/// An edit that is closed without being written would have left every tag as it
/// is; and one that is written touches what an edit of its field touches.
pub proof fn law_an_edit_is_dropped_only_if_it_changes_no_tag(
    field: EditableField,
    change: MetadataChange,
    before: TrackMetadata,
    after: TrackMetadata,
)
    requires
        tags_become(change, before, after),
        edit_end(field, Some(&change)) is Close,
    ensures
        after.title.deep_view() == before.title.deep_view(),
        after.artist.deep_view() == before.artist.deep_view(),
        after.album.deep_view() == before.album.deep_view(),
        after.album_artist.deep_view() == before.album_artist.deep_view(),
        after.composer.deep_view() == before.composer.deep_view(),
        after.grouping.deep_view() == before.grouping.deep_view(),
        after.genre.deep_view() == before.genre.deep_view(),
        after.track_number == before.track_number,
        after.track_total == before.track_total,
        after.disc_number == before.disc_number,
        after.disc_total == before.disc_total,
        after.year == before.year,
        after.compilation == before.compilation,
        after.bpm.deep_view() == before.bpm.deep_view(),
        after.key.deep_view() == before.key.deep_view(),
        after.comments.deep_view() == before.comments.deep_view(),
{
}

} // verus!
