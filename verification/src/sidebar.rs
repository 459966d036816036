//! What the sidebar's actions come to: moves in its tree, renames, deletions,
//! drops of tracks.

use vstd::prelude::*;

use crate::library::{find_playlist, Library, Playlist, PlaylistFolder, PlaylistFolderId, PlaylistId,
    PlaylistItem, SidebarSelection, SmartPlaylist, SmartPlaylistId, TrackId};
use crate::playlists::find_smart_playlist;
use crate::seqs;

verus! {

/// Where an item of the tree is dropped, seen from the item it is dropped on.
#[derive(Clone, Copy, Debug, PartialEq, Eq, Structural)]
pub enum DropPosition {
    Above,
    Below,
    Into,
}

/// How many folders lie directly in this one.
pub open spec fn folders_in(folders: Seq<PlaylistFolder>, parent: PlaylistFolderId) -> nat
    decreases folders.len(),
{
    if folders.len() == 0 {
        0
    } else {
        folders_in(folders.drop_last(), parent) + if folders.last().parent_folder_id == Some(
            parent,
        ) { 1nat } else { 0nat }
    }
}

/// How many playlists lie directly in this folder.
pub open spec fn playlists_in(playlists: Seq<Playlist>, parent: PlaylistFolderId) -> nat
    decreases playlists.len(),
{
    if playlists.len() == 0 {
        0
    } else {
        playlists_in(playlists.drop_last(), parent) + if playlists.last().parent_folder_id == Some(
            parent,
        ) { 1nat } else { 0nat }
    }
}

/// How many smart playlists lie directly in this folder.
pub open spec fn smart_playlists_in(
    playlists: Seq<SmartPlaylist>,
    parent: PlaylistFolderId,
) -> nat
    decreases playlists.len(),
{
    if playlists.len() == 0 {
        0
    } else {
        smart_playlists_in(playlists.drop_last(), parent)
            + if playlists.last().parent_folder_id == Some(parent) { 1nat } else { 0nat }
    }
}

/// How many items lie directly in this folder.
pub open spec fn children_of(library: Library, parent: PlaylistFolderId) -> nat {
    folders_in(library.folders@, parent) + playlists_in(library.playlists@, parent)
        + smart_playlists_in(library.smart_playlists@, parent)
}

fn is_child_of(parent: Option<PlaylistFolderId>, folder: PlaylistFolderId) -> (child: bool)
    ensures
        child == (parent == Some(folder)),
{
    match parent {
        Some(id) => id == folder,
        None => false,
    }
}

fn count_children(library: &Library, parent: PlaylistFolderId) -> (count: u128)
    ensures
        count == children_of(*library, parent),
{
    let mut count: u128 = 0;
    let mut index: usize = 0;
    assert(library.folders@.take(0) =~= Seq::empty());
    while index < library.folders.len()
        invariant
            index <= library.folders.len(),
            count == folders_in(library.folders@.take(index as int), parent),
            count <= index,
        decreases library.folders.len() - index,
    {
        assert(library.folders@.take(index as int + 1).drop_last() =~= library.folders@.take(
            index as int,
        ));
        if is_child_of(library.folders[index].parent_folder_id, parent) {
            count = count + 1;
        }
        index = index + 1;
    }
    assert(library.folders@.take(index as int) =~= library.folders@);
    let ghost so_far: nat = count as nat;
    index = 0;
    assert(library.playlists@.take(0) =~= Seq::empty());
    while index < library.playlists.len()
        invariant
            index <= library.playlists.len(),
            so_far == folders_in(library.folders@, parent),
            so_far <= usize::MAX,
            count == so_far + playlists_in(library.playlists@.take(index as int), parent),
            count <= so_far + index,
        decreases library.playlists.len() - index,
    {
        assert(library.playlists@.take(index as int + 1).drop_last() =~= library.playlists@.take(
            index as int,
        ));
        if is_child_of(library.playlists[index].parent_folder_id, parent) {
            count = count + 1;
        }
        index = index + 1;
    }
    assert(library.playlists@.take(index as int) =~= library.playlists@);
    let ghost so_far_too: nat = count as nat;
    index = 0;
    assert(library.smart_playlists@.take(0) =~= Seq::empty());
    while index < library.smart_playlists.len()
        invariant
            index <= library.smart_playlists.len(),
            so_far_too == folders_in(library.folders@, parent) + playlists_in(
                library.playlists@,
                parent,
            ),
            so_far_too <= 2 * usize::MAX,
            count == so_far_too + smart_playlists_in(
                library.smart_playlists@.take(index as int),
                parent,
            ),
            count <= so_far_too + index,
        decreases library.smart_playlists.len() - index,
    {
        assert(library.smart_playlists@.take(index as int + 1).drop_last()
            =~= library.smart_playlists@.take(index as int));
        if is_child_of(library.smart_playlists[index].parent_folder_id, parent) {
            count = count + 1;
        }
        index = index + 1;
    }
    assert(library.smart_playlists@.take(index as int) =~= library.smart_playlists@);
    count
}

/// Where an item of the tree stands: in which folder, and at which position.
/// There is no place for an item that the library does not hold.
pub open spec fn place_of(library: Library, item: PlaylistItem) -> Option<
    (Option<PlaylistFolderId>, u32),
> {
    match item {
        PlaylistItem::Folder(id) => match seqs::first_where(
            library.folders@,
            |folder: PlaylistFolder| folder.id == id,
        ) {
            Some(folder) => Some((folder.parent_folder_id, folder.position)),
            None => None,
        },
        PlaylistItem::Playlist(id) => match seqs::first_where(
            library.playlists@,
            |playlist: Playlist| playlist.id == id,
        ) {
            Some(playlist) => Some((playlist.parent_folder_id, playlist.position)),
            None => None,
        },
        PlaylistItem::SmartPlaylist(id) => match seqs::first_where(
            library.smart_playlists@,
            |playlist: SmartPlaylist| playlist.id == id,
        ) {
            Some(playlist) => Some((playlist.parent_folder_id, playlist.position)),
            None => None,
        },
    }
}

/// Where a dropped item goes. Dropping it into a folder puts it behind what the
/// folder holds; otherwise it goes to the place of the item it is dropped on,
/// or behind that. Nothing is dropped on itself.
pub open spec fn move_target(
    library: Library,
    source: PlaylistItem,
    target: PlaylistItem,
    drop: DropPosition,
) -> Option<(Option<PlaylistFolderId>, u32)> {
    if source == target {
        None
    } else if target is Folder && drop == DropPosition::Into {
        Some(
            (
                Some(target->Folder_0),
                (children_of(library, target->Folder_0) % 0x1_0000_0000) as u32,
            ),
        )
    } else {
        match place_of(library, target) {
            None => None,
            Some((parent, position)) => Some(
                (
                    parent,
                    if drop == DropPosition::Below && position < u32::MAX {
                        (position + 1) as u32
                    } else {
                        position
                    },
                ),
            ),
        }
    }
}

fn find_folder(folders: &Vec<PlaylistFolder>, id: PlaylistFolderId) -> (index: Option<usize>)
    ensures
        match index {
            Some(index) => index < folders.len() && index == seqs::first_index(
                folders@,
                |folder: PlaylistFolder| folder.id == id,
            ),
            None => seqs::first_index(folders@, |folder: PlaylistFolder| folder.id == id)
                == folders.len(),
        },
{
    let test = |folder: &PlaylistFolder| -> (same: bool)
        ensures
            same == (folder.id == id),
    {
        folder.id == id
    };
    seqs::find_first(folders.as_slice(), test, Ghost(|folder: PlaylistFolder| folder.id == id))
}

/// Where a dropped item goes.
pub fn resolve_move_target(
    library: &Library,
    source: PlaylistItem,
    target: PlaylistItem,
    drop: DropPosition,
) -> (place: Option<(Option<PlaylistFolderId>, u32)>)
    ensures
        place == move_target(*library, source, target, drop),
{
    if source == target {
        return None;
    }
    let (parent, position) = match target {
        PlaylistItem::Folder(id) => {
            if drop == DropPosition::Into {
                let count: u128 = count_children(library, id);
                return Some((Some(id), (count % 0x1_0000_0000) as u32));
            }
            match find_folder(&library.folders, id) {
                Some(index) => (
                    library.folders[index].parent_folder_id,
                    library.folders[index].position,
                ),
                None => return None,
            }
        },
        PlaylistItem::Playlist(id) => match find_playlist(&library.playlists, id) {
            Some(index) => (
                library.playlists[index].parent_folder_id,
                library.playlists[index].position,
            ),
            None => return None,
        },
        PlaylistItem::SmartPlaylist(id) => match find_smart_playlist(&library.smart_playlists, id) {
            Some(index) => (
                library.smart_playlists[index].parent_folder_id,
                library.smart_playlists[index].position,
            ),
            None => return None,
        },
    };
    let position: u32 = match drop {
        DropPosition::Below => position.saturating_add(1),
        _ => position,
    };
    Some((parent, position))
}

/// What the sidebar asks the library to do.
#[derive(Debug)]
pub enum SidebarCommand {
    RenamePlaylist { id: PlaylistId, name: String },
    RenameFolder { id: PlaylistFolderId, name: String },
    /// The smart playlist keeps the rules that it has.
    RenameSmartPlaylist { id: SmartPlaylistId, name: String },
    DeletePlaylist(PlaylistId),
    DeleteFolder(PlaylistFolderId),
    DeleteSmartPlaylist(SmartPlaylistId),
    AddTracks { id: PlaylistId, track_ids: Vec<TrackId> },
}

/// The command that renames an item. A smart playlist that is gone cannot be
/// renamed, for want of its rules.
pub fn rename_command(library: &Library, item: PlaylistItem, name: String) -> (command: Option<
    SidebarCommand,
>)
    ensures
        match item {
            PlaylistItem::Playlist(id) => command == Some(
                SidebarCommand::RenamePlaylist { id, name },
            ),
            PlaylistItem::Folder(id) => command == Some(SidebarCommand::RenameFolder { id, name }),
            PlaylistItem::SmartPlaylist(id) => command == if seqs::first_where(
                library.smart_playlists@,
                |playlist: SmartPlaylist| playlist.id == id,
            ) is Some {
                Some(SidebarCommand::RenameSmartPlaylist { id, name })
            } else {
                None
            },
        },
{
    match item {
        PlaylistItem::Playlist(id) => Some(SidebarCommand::RenamePlaylist { id, name }),
        PlaylistItem::Folder(id) => Some(SidebarCommand::RenameFolder { id, name }),
        PlaylistItem::SmartPlaylist(id) => match find_smart_playlist(&library.smart_playlists, id) {
            Some(_) => Some(SidebarCommand::RenameSmartPlaylist { id, name }),
            None => None,
        },
    }
}

/// The command that deletes an item.
pub fn delete_command(item: PlaylistItem) -> (command: SidebarCommand)
    ensures
        command == match item {
            PlaylistItem::Playlist(id) => SidebarCommand::DeletePlaylist(id),
            PlaylistItem::Folder(id) => SidebarCommand::DeleteFolder(id),
            PlaylistItem::SmartPlaylist(id) => SidebarCommand::DeleteSmartPlaylist(id),
        },
{
    match item {
        PlaylistItem::Playlist(id) => SidebarCommand::DeletePlaylist(id),
        PlaylistItem::Folder(id) => SidebarCommand::DeleteFolder(id),
        PlaylistItem::SmartPlaylist(id) => SidebarCommand::DeleteSmartPlaylist(id),
    }
}

/// The command for tracks that are dropped on an item: only a playlist takes
/// tracks, and no tracks are no drop.
pub fn tracks_drop_command(target: PlaylistItem, track_ids: Vec<TrackId>) -> (command: Option<
    SidebarCommand,
>)
    ensures
        command == match target {
            PlaylistItem::Playlist(id) if track_ids@.len() > 0 => Some(
                SidebarCommand::AddTracks { id, track_ids },
            ),
            _ => None,
        },
{
    match target {
        PlaylistItem::Playlist(id) => {
            if track_ids.is_empty() {
                None
            } else {
                Some(SidebarCommand::AddTracks { id, track_ids })
            }
        },
        _ => None,
    }
}

/// The word by which a selection is known in profiles.
pub fn selection_profile_kind(selection: Option<SidebarSelection>) -> (kind: &'static str)
    ensures
        kind@ == match selection {
            Some(SidebarSelection::Music) => "music"@,
            Some(SidebarSelection::Albums) => "albums"@,
            Some(SidebarSelection::Statistics) => "statistics"@,
            Some(SidebarSelection::Item(PlaylistItem::Playlist(_))) => "regular-playlist"@,
            Some(SidebarSelection::Item(PlaylistItem::SmartPlaylist(_))) => "smart-playlist"@,
            Some(SidebarSelection::Item(PlaylistItem::Folder(_))) => "folder"@,
            None => "none"@,
        },
{
    match selection {
        Some(SidebarSelection::Music) => "music",
        Some(SidebarSelection::Albums) => "albums",
        Some(SidebarSelection::Statistics) => "statistics",
        Some(SidebarSelection::Item(PlaylistItem::Playlist(_))) => "regular-playlist",
        Some(SidebarSelection::Item(PlaylistItem::SmartPlaylist(_))) => "smart-playlist",
        Some(SidebarSelection::Item(PlaylistItem::Folder(_))) => "folder",
        None => "none",
    }
}

/// Whether a playlist of the user's own order is selected.
pub fn current_selection_is_regular_playlist(selection: Option<SidebarSelection>) -> (regular: bool)
    ensures
        regular == (selection matches Some(SidebarSelection::Item(PlaylistItem::Playlist(_)))),
{
    match selection {
        Some(SidebarSelection::Item(PlaylistItem::Playlist(_))) => true,
        _ => false,
    }
}

/// The playlist from which tracks are removed: the selected one, where it is of
/// the user's own making.
pub fn playlist_to_remove_from(selection: Option<SidebarSelection>) -> (playlist: Option<PlaylistId>)
    ensures
        playlist == match selection {
            Some(SidebarSelection::Item(PlaylistItem::Playlist(id))) => Some(id),
            _ => None,
        },
{
    match selection {
        Some(SidebarSelection::Item(PlaylistItem::Playlist(id))) => Some(id),
        _ => None,
    }
}

/// An item that is dropped above or below another lands in the same folder.
pub proof fn law_drop_beside_an_item_stays_in_its_folder(
    library: Library,
    source: PlaylistItem,
    target: PlaylistItem,
    drop: DropPosition,
)
    requires
        drop != DropPosition::Into,
        move_target(library, source, target, drop) is Some,
    ensures
        place_of(library, target) is Some,
        (move_target(library, source, target, drop)->0).0 == (place_of(library, target)->0).0,
{
}

/// Folders that lie directly in a folder, as places in the list of all.
proof fn lemma_folders_in(folders: Seq<PlaylistFolder>, parent: PlaylistFolderId, upto: nat) -> (
    inside: Seq<int>)
    requires
        upto <= folders.len(),
    ensures
        seqs::lists(
            inside,
            upto,
            |i: int| folders[i].parent_folder_id == Some(parent),
            |i: int| i,
        ),
        folders_in(folders.take(upto as int), parent) == inside.len(),
    decreases upto,
{
    let wanted = |i: int| folders[i].parent_folder_id == Some(parent);
    let item = |i: int| i;
    if upto == 0 {
        assert(folders.take(0) =~= Seq::empty());
        seqs::lemma_lists_nothing(wanted, item);
        Seq::empty()
    } else {
        let fewer = (upto - 1) as nat;
        let inside = lemma_folders_in(folders, parent, fewer);
        assert(folders.take(upto as int).drop_last() =~= folders.take(fewer as int));
        assert(folders.take(upto as int).last() == folders[fewer as int]);
        seqs::lemma_lists_one_more(inside, fewer, wanted, item);
        if wanted(fewer as int) {
            inside.push(fewer as int)
        } else {
            inside
        }
    }
}

/// Playlists that lie directly in a folder, as places in the list of all.
proof fn lemma_playlists_in(playlists: Seq<Playlist>, parent: PlaylistFolderId, upto: nat) -> (
    inside: Seq<int>)
    requires
        upto <= playlists.len(),
    ensures
        seqs::lists(
            inside,
            upto,
            |i: int| playlists[i].parent_folder_id == Some(parent),
            |i: int| i,
        ),
        playlists_in(playlists.take(upto as int), parent) == inside.len(),
    decreases upto,
{
    let wanted = |i: int| playlists[i].parent_folder_id == Some(parent);
    let item = |i: int| i;
    if upto == 0 {
        assert(playlists.take(0) =~= Seq::empty());
        seqs::lemma_lists_nothing(wanted, item);
        Seq::empty()
    } else {
        let fewer = (upto - 1) as nat;
        let inside = lemma_playlists_in(playlists, parent, fewer);
        assert(playlists.take(upto as int).drop_last() =~= playlists.take(fewer as int));
        assert(playlists.take(upto as int).last() == playlists[fewer as int]);
        seqs::lemma_lists_one_more(inside, fewer, wanted, item);
        if wanted(fewer as int) {
            inside.push(fewer as int)
        } else {
            inside
        }
    }
}

/// Smart playlists that lie directly in a folder, as places in the list of all.
proof fn lemma_smart_playlists_in(
    playlists: Seq<SmartPlaylist>,
    parent: PlaylistFolderId,
    upto: nat,
) -> (inside: Seq<int>)
    requires
        upto <= playlists.len(),
    ensures
        seqs::lists(
            inside,
            upto,
            |i: int| playlists[i].parent_folder_id == Some(parent),
            |i: int| i,
        ),
        smart_playlists_in(playlists.take(upto as int), parent) == inside.len(),
    decreases upto,
{
    let wanted = |i: int| playlists[i].parent_folder_id == Some(parent);
    let item = |i: int| i;
    if upto == 0 {
        assert(playlists.take(0) =~= Seq::empty());
        seqs::lemma_lists_nothing(wanted, item);
        Seq::empty()
    } else {
        let fewer = (upto - 1) as nat;
        let inside = lemma_smart_playlists_in(playlists, parent, fewer);
        assert(playlists.take(upto as int).drop_last() =~= playlists.take(fewer as int));
        assert(playlists.take(upto as int).last() == playlists[fewer as int]);
        seqs::lemma_lists_one_more(inside, fewer, wanted, item);
        if wanted(fewer as int) {
            inside.push(fewer as int)
        } else {
            inside
        }
    }
}

/// What is dropped into a folder goes into that folder, behind all that lies in
/// it: its position is the number of the folders, playlists and smart playlists
/// whose parent the folder is.
pub proof fn law_a_drop_into_a_folder_goes_behind_its_contents(
    library: Library,
    source: PlaylistItem,
    folder: PlaylistFolderId,
) -> (inside: (Seq<int>, Seq<int>, Seq<int>))
    requires
        source != PlaylistItem::Folder(folder),
    ensures
        seqs::lists(
            inside.0,
            library.folders@.len(),
            |i: int| library.folders@[i].parent_folder_id == Some(folder),
            |i: int| i,
        ),
        seqs::lists(
            inside.1,
            library.playlists@.len(),
            |i: int| library.playlists@[i].parent_folder_id == Some(folder),
            |i: int| i,
        ),
        seqs::lists(
            inside.2,
            library.smart_playlists@.len(),
            |i: int| library.smart_playlists@[i].parent_folder_id == Some(folder),
            |i: int| i,
        ),
        ({
            let place = move_target(
                library,
                source,
                PlaylistItem::Folder(folder),
                DropPosition::Into,
            );
            let count = inside.0.len() + inside.1.len() + inside.2.len();
            &&& place is Some
            &&& (place->0).0 == Some(folder)
            &&& count <= u32::MAX ==> (place->0).1 == count
        }),
{
    let (folders, playlists, smart) = (
        library.folders@,
        library.playlists@,
        library.smart_playlists@,
    );
    let first = lemma_folders_in(folders, folder, folders.len());
    let second = lemma_playlists_in(playlists, folder, playlists.len());
    let third = lemma_smart_playlists_in(smart, folder, smart.len());
    assert(folders.take(folders.len() as int) =~= folders);
    assert(playlists.take(playlists.len() as int) =~= playlists);
    assert(smart.take(smart.len() as int) =~= smart);
    (first, second, third)
}

/// Where an item of the tree stands is what the library says of it: the folder
/// and the position of the first that has its identifier.
pub proof fn law_an_item_stands_where_the_library_says(
    library: Library,
    item: PlaylistItem,
    at: int,
)
    requires
        match item {
            PlaylistItem::Folder(id) => 0 <= at < library.folders@.len() && library.folders@[at].id
                == id && forall|i: int|
                0 <= i < at ==> (#[trigger] library.folders@[i]).id != id,
            PlaylistItem::Playlist(id) => 0 <= at < library.playlists@.len()
                && library.playlists@[at].id == id && forall|i: int|
                0 <= i < at ==> (#[trigger] library.playlists@[i]).id != id,
            PlaylistItem::SmartPlaylist(id) => 0 <= at < library.smart_playlists@.len()
                && library.smart_playlists@[at].id == id && forall|i: int|
                0 <= i < at ==> (#[trigger] library.smart_playlists@[i]).id != id,
        },
    ensures
        place_of(library, item) == match item {
            PlaylistItem::Folder(_) => Some(
                (library.folders@[at].parent_folder_id, library.folders@[at].position),
            ),
            PlaylistItem::Playlist(_) => Some(
                (library.playlists@[at].parent_folder_id, library.playlists@[at].position),
            ),
            PlaylistItem::SmartPlaylist(_) => Some(
                (
                    library.smart_playlists@[at].parent_folder_id,
                    library.smart_playlists@[at].position,
                ),
            ),
        },
{
    match item {
        PlaylistItem::Folder(id) => {
            let wanted = |folder: PlaylistFolder| folder.id == id;
            seqs::lemma_is_first_index(library.folders@, wanted, at);
        },
        PlaylistItem::Playlist(id) => {
            let wanted = |playlist: Playlist| playlist.id == id;
            seqs::lemma_is_first_index(library.playlists@, wanted, at);
        },
        PlaylistItem::SmartPlaylist(id) => {
            let wanted = |playlist: SmartPlaylist| playlist.id == id;
            seqs::lemma_is_first_index(library.smart_playlists@, wanted, at);
        },
    }
}

/// An item that is dropped above another takes its place, and one that is
/// dropped below it the next; what is dropped on a playlist goes to its place.
/// Nothing is dropped on itself, nor beside what the library does not hold.
pub proof fn law_a_dropped_item_takes_its_place_beside_the_target(
    library: Library,
    source: PlaylistItem,
    target: PlaylistItem,
    drop: DropPosition,
)
    ensures
        move_target(library, source, source, drop) is None,
        source != target && !(target is Folder && drop == DropPosition::Into) ==> match place_of(
            library,
            target,
        ) {
            None => move_target(library, source, target, drop) is None,
            Some((parent, position)) => {
                let place = move_target(library, source, target, drop);
                &&& place is Some
                &&& (place->0).0 == parent
                &&& drop != DropPosition::Below ==> (place->0).1 == position
                &&& drop == DropPosition::Below && position < u32::MAX ==> (place->0).1 == position
                    + 1
                &&& drop == DropPosition::Below && position == u32::MAX ==> (place->0).1
                    == u32::MAX
            },
        },
{
}

} // verus!
