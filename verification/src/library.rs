//! The library's records: tracks, their tags, where their files are, and the
//! playlists that hold them.

use std::path::PathBuf;

use vstd::prelude::*;

use crate::seqs;

verus! {

/// The positive number by which a track is known.
#[derive(Clone, Copy, Debug, PartialEq, Eq, Hash, Structural)]
pub struct TrackId {
    pub value: i64,
}

impl TrackId {
    /// The identifier with this number, if the number is positive.
    pub fn new(value: i64) -> (id: Option<TrackId>)
        ensures
            id == if value > 0 { Some(TrackId { value }) } else { None },
    {
        if value > 0 {
            Some(TrackId { value })
        } else {
            None
        }
    }

    /// The number itself.
    pub fn get(&self) -> (value: i64)
        ensures
            value == self.value,
    {
        self.value
    }
}

/// A length of time: whole seconds and the nanoseconds beyond them.
#[derive(Clone, Copy, Debug, PartialEq, Eq, Structural)]
pub struct Playtime {
    pub seconds: u64,
    pub nanos: u32,
}

/// Where a track's file is, and whether it was found there.
#[derive(Clone, Debug)]
pub struct TrackLocation {
    pub path: PathBuf,
    pub missing: bool,
}

impl TrackLocation {
    /// A file that is where the library expects it.
    pub fn available(path: PathBuf) -> (location: TrackLocation)
        ensures
            location == (TrackLocation { path, missing: false }),
    {
        TrackLocation { path, missing: false }
    }

    /// A file that is gone from where the library expects it.
    pub fn missing(path: PathBuf) -> (location: TrackLocation)
        ensures
            location == (TrackLocation { path, missing: true }),
    {
        TrackLocation { path, missing: true }
    }

    /// Whether the file is gone.
    pub fn is_missing(&self) -> (missing: bool)
        ensures
            missing == self.missing,
    {
        self.missing
    }

    /// A copy of the path.
    pub fn path(&self) -> (path: PathBuf)
        ensures
            crate::paths::path_bytes(path) == crate::paths::path_bytes(self.path),
    {
        self.path.clone()
    }
}

/// The tags of a track.
#[derive(Clone, Debug, Default)]
pub struct TrackMetadata {
    pub title: Option<String>,
    pub artist: Option<String>,
    pub album: Option<String>,
    pub album_artist: Option<String>,
    pub composer: Option<String>,
    pub grouping: Option<String>,
    pub genre: Option<String>,
    pub track_number: Option<u32>,
    pub track_total: Option<u32>,
    pub disc_number: Option<u32>,
    pub disc_total: Option<u32>,
    pub year: Option<i32>,
    pub compilation: Option<bool>,
    /// The tempo as it is shown.
    pub bpm: Option<String>,
    pub key: Option<String>,
    pub comments: Option<String>,
    pub lyrics: Option<String>,
    pub duration: Option<Playtime>,
    pub bitrate_kbps: Option<u32>,
}

/// A rating of up to five stars; none is unrated.
#[derive(Clone, Copy, Debug, PartialEq, Eq, Structural)]
pub struct Rating {
    pub stars: u8,
}

impl Rating {
    /// No rating.
    pub fn unrated() -> (rating: Rating)
        ensures
            rating.stars == 0,
    {
        Rating { stars: 0 }
    }
}

/// How often a track was played and skipped.
#[derive(Clone, Copy, Debug, Default, PartialEq, Eq, Structural)]
pub struct PlayStatistics {
    pub play_count: u64,
    pub skip_count: u64,
}

/// A track of the library.
#[derive(Clone, Debug)]
pub struct Track {
    pub id: TrackId,
    pub location: TrackLocation,
    pub metadata: TrackMetadata,
    pub rating: Rating,
    pub statistics: PlayStatistics,
    pub file_size_bytes: Option<u64>,
}

/// The positive number by which a playlist is known.
#[derive(Clone, Copy, Debug, PartialEq, Eq, Hash, Structural)]
pub struct PlaylistId {
    pub value: i64,
}

/// The positive number by which a smart playlist is known.
#[derive(Clone, Copy, Debug, PartialEq, Eq, Hash, Structural)]
pub struct SmartPlaylistId {
    pub value: i64,
}

/// The positive number by which a folder of playlists is known.
#[derive(Clone, Copy, Debug, PartialEq, Eq, Hash, Structural)]
pub struct PlaylistFolderId {
    pub value: i64,
}

impl PlaylistId {
    /// The identifier with this number, if the number is positive.
    pub fn new(value: i64) -> (id: Option<PlaylistId>)
        ensures
            id == if value > 0 { Some(PlaylistId { value }) } else { None },
    {
        if value > 0 {
            Some(PlaylistId { value })
        } else {
            None
        }
    }
}

impl SmartPlaylistId {
    /// The identifier with this number, if the number is positive.
    pub fn new(value: i64) -> (id: Option<SmartPlaylistId>)
        ensures
            id == if value > 0 { Some(SmartPlaylistId { value }) } else { None },
    {
        if value > 0 {
            Some(SmartPlaylistId { value })
        } else {
            None
        }
    }
}

impl PlaylistFolderId {
    /// The identifier with this number, if the number is positive.
    pub fn new(value: i64) -> (id: Option<PlaylistFolderId>)
        ensures
            id == if value > 0 { Some(PlaylistFolderId { value }) } else { None },
    {
        if value > 0 {
            Some(PlaylistFolderId { value })
        } else {
            None
        }
    }
}

/// A place of a playlist, and the track that stands there.
#[derive(Clone, Copy, Debug, PartialEq, Eq, Structural)]
pub struct PlaylistEntry {
    pub playlist_id: PlaylistId,
    pub track_id: TrackId,
    pub position: u32,
}

/// A playlist with its entries.
#[derive(Debug)]
pub struct Playlist {
    pub id: PlaylistId,
    pub name: String,
    pub parent_folder_id: Option<PlaylistFolderId>,
    pub position: u32,
    pub entries: Vec<PlaylistEntry>,
}

/// A playlist whose tracks follow from rules.
#[derive(Debug)]
pub struct SmartPlaylist {
    pub id: SmartPlaylistId,
    pub name: String,
    pub parent_folder_id: Option<PlaylistFolderId>,
    pub position: u32,
}

/// A folder of playlists.
#[derive(Debug)]
pub struct PlaylistFolder {
    pub id: PlaylistFolderId,
    pub name: String,
    pub parent_folder_id: Option<PlaylistFolderId>,
    pub position: u32,
}

/// An item of the sidebar's tree.
#[derive(Clone, Copy, Debug, PartialEq, Eq, Structural)]
pub enum PlaylistItem {
    Playlist(PlaylistId),
    SmartPlaylist(SmartPlaylistId),
    Folder(PlaylistFolderId),
}

/// What is selected in the sidebar.
#[derive(Clone, Copy, Debug, PartialEq, Eq, Structural)]
pub enum SidebarSelection {
    Music,
    Albums,
    Statistics,
    Item(PlaylistItem),
}

/// What the views draw from: the tracks of the library and its playlists.
#[derive(Debug)]
pub struct Library {
    pub tracks: Vec<Track>,
    pub playlists: Vec<Playlist>,
    pub smart_playlists: Vec<SmartPlaylist>,
    pub folders: Vec<PlaylistFolder>,
}

/// The property of being a track with this identifier.
pub open spec fn has_track_id(id: TrackId) -> spec_fn(Track) -> bool {
    |track: Track| track.id == id
}

/// Where the last track with this identifier stands; `-1` when there is none.
pub open spec fn last_track_index(tracks: Seq<Track>, id: TrackId) -> int {
    seqs::last_index(tracks, has_track_id(id))
}

/// Finds the last track with this identifier.
pub fn find_last_track(tracks: &Vec<Track>, id: TrackId) -> (index: Option<usize>)
    ensures
        match index {
            Some(index) => index == last_track_index(tracks@, id) && index < tracks.len(),
            None => last_track_index(tracks@, id) < 0,
        },
{
    let test = |track: &Track| -> (same: bool)
        ensures
            same == (track.id == id),
    {
        track.id == id
    };
    seqs::find_last(tracks.as_slice(), test, Ghost(has_track_id(id)))
}

/// Whether an identifier is among some.
pub fn contains_track(ids: &Vec<TrackId>, id: TrackId) -> (contains: bool)
    ensures
        contains == ids@.contains(id),
{
    let mut index: usize = 0;
    while index < ids.len()
        invariant
            index <= ids.len(),
            forall|i: int| 0 <= i < index ==> ids@[i] != id,
        decreases ids.len() - index,
    {
        if ids[index] == id {
            assert(ids@[index as int] == id);
            return true;
        }
        index = index + 1;
    }
    false
}

/// Finds the playlist with this identifier.
pub fn find_playlist(playlists: &Vec<Playlist>, id: PlaylistId) -> (index: Option<usize>)
    ensures
        match index {
            Some(index) => index < playlists.len() && index == seqs::first_index(
                playlists@,
                |playlist: Playlist| playlist.id == id,
            ),
            None => seqs::first_index(playlists@, |playlist: Playlist| playlist.id == id)
                == playlists.len(),
        },
{
    let test = |playlist: &Playlist| -> (same: bool)
        ensures
            same == (playlist.id == id),
    {
        playlist.id == id
    };
    seqs::find_first(playlists.as_slice(), test, Ghost(|playlist: Playlist| playlist.id == id))
}

} // verus!
