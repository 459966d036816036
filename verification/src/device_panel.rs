//! The page of a device that playlists are copied to: which device it shows,
//! what its bottom bar says of the space, and what is said before a sync.

use std::path::PathBuf;

use vstd::prelude::*;

use crate::library::{Library, PlaylistItem};
use crate::paths;
use crate::paths::same_path;
use crate::seqs;
use crate::text;
use crate::text::{join, push_decimal};

verus! {

// ---------------------------------------------------------------------------
// Devices
// ---------------------------------------------------------------------------

/// Where the files of a device are reached.
#[derive(Debug)]
pub enum DeviceTarget {
    /// The device is mounted as a file system.
    Filesystem { mount_path: PathBuf },
    /// The device is reached through its own protocol.
    Protocol { location: String },
}

/// A target as the components of its path, or as its text.
pub enum TargetView {
    Filesystem(Seq<Seq<u8>>),
    Protocol(Seq<char>),
}

impl View for DeviceTarget {
    type V = TargetView;

    open spec fn view(&self) -> TargetView {
        match *self {
            DeviceTarget::Filesystem { mount_path } => TargetView::Filesystem(
                paths::path_components(paths::path_bytes(mount_path)),
            ),
            DeviceTarget::Protocol { location } => TargetView::Protocol(location@),
        }
    }
}

impl DeviceTarget {
    /// The bytes of the path at which the device is mounted.
    pub open spec fn mount_bytes(&self) -> Option<Seq<u8>> {
        match *self {
            DeviceTarget::Filesystem { mount_path } => Some(paths::path_bytes(mount_path)),
            DeviceTarget::Protocol { .. } => None,
        }
    }
}

impl Clone for DeviceTarget {
    fn clone(&self) -> (copy: Self)
        ensures
            copy@ == self@,
            copy.mount_bytes() == self.mount_bytes(),
    {
        match self {
            DeviceTarget::Filesystem { mount_path } => DeviceTarget::Filesystem {
                mount_path: mount_path.clone(),
            },
            DeviceTarget::Protocol { location } => DeviceTarget::Protocol {
                location: location.clone(),
            },
        }
    }
}

/// A device that is connected.
#[derive(Debug)]
pub struct ConnectedDevice {
    pub id: String,
    pub label: String,
    pub target: DeviceTarget,
    pub volume_id: Option<String>,
}

/// A device as its texts.
pub struct DeviceView {
    pub id: Seq<char>,
    pub label: Seq<char>,
    pub target: TargetView,
    pub volume_id: Option<Seq<char>>,
}

impl View for ConnectedDevice {
    type V = DeviceView;

    open spec fn view(&self) -> DeviceView {
        DeviceView {
            id: self.id@,
            label: self.label@,
            target: self.target@,
            volume_id: self.volume_id.deep_view(),
        }
    }
}

impl Clone for ConnectedDevice {
    fn clone(&self) -> (copy: Self)
        ensures
            copy@ == self@,
            copy.target.mount_bytes() == self.target.mount_bytes(),
    {
        let volume_id = match &self.volume_id {
            Some(volume) => Some(volume.clone()),
            None => None,
        };
        ConnectedDevice {
            id: self.id.clone(),
            label: self.label.clone(),
            target: self.target.clone(),
            volume_id,
        }
    }
}

impl ConnectedDevice {
    /// Whether a device is found where another was: at the same place, on the
    /// same volume.
    pub fn same_place(&self, other: &ConnectedDevice) -> (same: bool)
        ensures
            same == (self@.target == other@.target && self@.volume_id == other@.volume_id),
    {
        let same_volume = match (&self.volume_id, &other.volume_id) {
            (Some(mine), Some(theirs)) => *mine == *theirs,
            (None, None) => true,
            _ => false,
        };
        let same_target = match (&self.target, &other.target) {
            (
                DeviceTarget::Filesystem { mount_path: mine },
                DeviceTarget::Filesystem { mount_path: theirs },
            ) => same_path(mine, theirs),
            (
                DeviceTarget::Protocol { location: mine },
                DeviceTarget::Protocol { location: theirs },
            ) => *mine == *theirs,
            _ => false,
        };
        same_volume && same_target
    }
}

/// How files are laid out on a device.
#[derive(Clone, Copy, Debug, PartialEq, Eq, Structural)]
pub enum DeviceLayout {
    M3u,
    FolderPerPlaylist,
    Pioneer,
}

/// What the settings of a layout show below the choice of it.
#[derive(Clone, Copy, Debug, PartialEq, Eq, Structural)]
pub enum SettingsSection {
    Empty,
    FilesPerFolder,
    AnalysisReadiness,
}

/// What is stored of a device: how it is called, how its files are laid out,
/// and how many of them a folder holds at most.
#[derive(Debug)]
pub struct DeviceConfig {
    pub label: String,
    pub layout: DeviceLayout,
    pub files_per_folder: Option<u32>,
}

/// The configuration that the page shows: the stored one, or that of a device
/// which is not known yet.
pub fn shown_config(stored: Option<DeviceConfig>, device: &ConnectedDevice) -> (config: DeviceConfig)
    ensures
        stored matches Some(known) ==> config == known,
        stored is None ==> {
            &&& config.label@ == device@.label
            &&& config.layout == DeviceLayout::M3u
            &&& config.files_per_folder is None
        },
{
    match stored {
        Some(known) => known,
        None => DeviceConfig {
            label: device.label.clone(),
            layout: DeviceLayout::M3u,
            files_per_folder: None,
        },
    }
}

// ---------------------------------------------------------------------------
// The page
// ---------------------------------------------------------------------------

/// Which device the page shows, and what is still to be refreshed on it.
pub struct DevicePanelState {
    pub device: Option<ConnectedDevice>,
    pub connected: bool,
    /// The rows on missing analyses are shown.
    pub readiness_shown: bool,
    /// A refresh of those rows waits for the next idle moment.
    pub readiness_queued: bool,
}

/// What a change among the connected devices asks of the page.
#[derive(Clone, Copy, Debug, PartialEq, Eq, Structural)]
pub enum DeviceChange {
    Nothing,
    /// The device is back, or it has moved: plan and show it anew.
    ShowAgain,
    /// The device is gone: drop its plan and refresh the bottom bar.
    Disconnected,
}

/// The property of being the device with this identifier.
pub open spec fn has_id(id: Seq<char>) -> spec_fn(ConnectedDevice) -> bool {
    |device: ConnectedDevice| device@.id == id
}

/// What a list of connected devices means for the device that is shown.
pub open spec fn change_for(
    device: Option<ConnectedDevice>,
    connected: bool,
    devices: Seq<ConnectedDevice>,
) -> DeviceChange {
    match device {
        None => DeviceChange::Nothing,
        Some(current) => match seqs::first_where(devices, has_id(current@.id)) {
            Some(found) => if !connected || found@.target != current@.target || found@.volume_id
                != current@.volume_id {
                DeviceChange::ShowAgain
            } else {
                DeviceChange::Nothing
            },
            None => if connected {
                DeviceChange::Disconnected
            } else {
                DeviceChange::Nothing
            },
        },
    }
}

/// Where the device with an identifier stands in a list.
pub fn find_device(devices: &[ConnectedDevice], id: &String) -> (place: Option<usize>)
    ensures
        match place {
            Some(index) => index < devices@.len() && index == seqs::first_index(
                devices@,
                has_id(id@),
            ),
            None => seqs::first_index(devices@, has_id(id@)) == devices@.len(),
        },
{
    let test = |device: &ConnectedDevice| -> (same: bool)
        ensures
            same == has_id(id@)(*device),
    {
        device.id == *id
    };
    seqs::find_first(devices, test, Ghost(has_id(id@)))
}

impl DevicePanelState {
    /// A page without a device.
    pub fn new() -> (state: Self)
        ensures
            state == (DevicePanelState {
                device: None,
                connected: false,
                readiness_shown: false,
                readiness_queued: false,
            }),
    {
        DevicePanelState {
            device: None,
            connected: false,
            readiness_shown: false,
            readiness_queued: false,
        }
    }

    /// Shows a device.
    pub fn show_device(&mut self, device: ConnectedDevice)
        ensures
            *final(self) == (DevicePanelState {
                device: Some(device),
                connected: true,
                ..*old(self)
            }),
    {
        self.device = Some(device);
        self.connected = true;
    }

    /// Lays the page out for a layout: only for the Pioneer layout does it show
    /// what is analysed.
    pub fn rebuild(&mut self, layout: DeviceLayout) -> (section: SettingsSection)
        ensures
            section == match layout {
                DeviceLayout::M3u => SettingsSection::Empty,
                DeviceLayout::FolderPerPlaylist => SettingsSection::FilesPerFolder,
                DeviceLayout::Pioneer => SettingsSection::AnalysisReadiness,
            },
            *final(self) == (DevicePanelState {
                readiness_shown: layout == DeviceLayout::Pioneer,
                ..*old(self)
            }),
    {
        match layout {
            DeviceLayout::M3u => {
                self.readiness_shown = false;
                SettingsSection::Empty
            },
            DeviceLayout::FolderPerPlaylist => {
                self.readiness_shown = false;
                SettingsSection::FilesPerFolder
            },
            DeviceLayout::Pioneer => {
                self.readiness_shown = true;
                SettingsSection::AnalysisReadiness
            },
        }
    }

    /// `after` is the page once it is known which devices are connected, and
    /// `change` what that means for its device.
    pub open spec fn follows(
        &self,
        devices: Seq<ConnectedDevice>,
        change: DeviceChange,
        after: DevicePanelState,
    ) -> bool {
        &&& change == change_for(self.device, self.connected, devices)
        &&& match change {
            DeviceChange::Nothing => after == *self,
            DeviceChange::Disconnected => after == (DevicePanelState { connected: false, ..*self }),
            DeviceChange::ShowAgain => {
                let found = seqs::first_where(devices, has_id(self.device->0@.id));
                &&& after.device is Some
                &&& after.device->0@ == found->0@
                &&& after.device->0.target.mount_bytes() == found->0.target.mount_bytes()
                &&& after == (DevicePanelState { device: after.device, connected: true, ..*self })
            },
        }
    }

    /// Takes in which devices are connected.
    pub fn connected_devices_changed(&mut self, devices: &[ConnectedDevice]) -> (change:
        DeviceChange)
        ensures
            old(self).follows(devices@, change, *final(self)),
    {
        let found = match &self.device {
            None => {
                return DeviceChange::Nothing;
            },
            Some(current) => match find_device(devices, &current.id) {
                Some(index) => if !self.connected || !devices[index].same_place(current) {
                    Some(devices[index].clone())
                } else {
                    return DeviceChange::Nothing;
                },
                None => None,
            },
        };
        match found {
            Some(device) => {
                self.show_device(device);
                DeviceChange::ShowAgain
            },
            None => if self.connected {
                self.connected = false;
                DeviceChange::Disconnected
            } else {
                DeviceChange::Nothing
            },
        }
    }

    /// Whether a new plan is shown at once: on a visible page whose device is
    /// connected.
    pub fn refresh_plan(&self, visible: bool) -> (refresh: bool)
        ensures
            refresh == (visible && self.connected && self.device is Some),
    {
        visible && self.connected && self.device.is_some()
    }

    /// Whether the analysis of a track queues a refresh.
    pub open spec fn queues_refresh(&self, visible: bool) -> bool {
        visible && self.readiness_shown && !self.readiness_queued
    }

    /// The page after the analysis of a track.
    pub open spec fn after_analysis(self, visible: bool) -> DevicePanelState {
        DevicePanelState {
            readiness_queued: self.readiness_queued || self.queues_refresh(visible),
            ..self
        }
    }

    /// A track was analysed. Returns whether a refresh of the rows on missing
    /// analyses has to be queued: not when they are out of sight, and not when
    /// one waits already.
    pub fn refresh_readiness(&mut self, visible: bool) -> (queue: bool)
        ensures
            queue == old(self).queues_refresh(visible),
            *final(self) == old(self).after_analysis(visible),
    {
        if !visible || !self.readiness_shown || self.readiness_queued {
            return false;
        }
        self.readiness_queued = true;
        true
    }

    /// The queued refresh runs. Returns whether there is still something to
    /// refresh.
    pub fn run_queued_refresh(&mut self, visible: bool) -> (refresh: bool)
        ensures
            refresh == (visible && old(self).readiness_shown && old(self).device is Some),
            *final(self) == (DevicePanelState { readiness_queued: false, ..*old(self) }),
    {
        self.readiness_queued = false;
        visible && self.readiness_shown && self.device.is_some()
    }

    /// The user has the device forgotten.
    pub fn forget_device(&mut self)
        ensures
            *final(self) == (DevicePanelState { device: None, connected: false, ..*old(self) }),
    {
        self.device = None;
        self.connected = false;
    }
}

/// A refresh that is queued answers for every track that is analysed before it
/// runs: none of them queues another. Once it has run, the next one does.
pub proof fn law_one_refresh_for_a_burst(state: DevicePanelState, visible: bool)
    ensures
        !state.after_analysis(true).queues_refresh(visible) || !state.readiness_shown,
        state.after_analysis(true).after_analysis(visible) == state.after_analysis(true),
        state.readiness_shown ==> (DevicePanelState {
            readiness_queued: false,
            ..state.after_analysis(visible)
        }).queues_refresh(true),
{
}

/// A device that stays where it is leaves the page as it is, and so does one
/// whose absence is known.
pub proof fn law_settled_devices_change_nothing(
    current: ConnectedDevice,
    devices: Seq<ConnectedDevice>,
)
    ensures
        change_for(None, false, devices) == DeviceChange::Nothing,
        seqs::first_where(devices, has_id(current@.id)) is None ==> change_for(
            Some(current),
            false,
            devices,
        ) == DeviceChange::Nothing,
        seqs::first_where(devices, has_id(current@.id)) matches Some(found) ==> change_for(
            Some(found),
            true,
            devices,
        ) == DeviceChange::Nothing,
{
    if let Some(found) = seqs::first_where(devices, has_id(current@.id)) {
        seqs::lemma_first_index(devices, has_id(current@.id));
        assert(has_id(current@.id)(found));
    }
}

// ---------------------------------------------------------------------------
// The playlists
// ---------------------------------------------------------------------------

/// A row of the checklist of playlists.
#[derive(Clone, Copy, Debug, PartialEq, Eq, Structural)]
pub struct ChecklistRow {
    pub item: PlaylistItem,
    pub ticked: bool,
}

/// The items that can be copied to a device: the playlists, then the smart
/// playlists.
pub open spec fn syncable(library: Library) -> Seq<PlaylistItem> {
    Seq::new(
        library.playlists@.len(),
        |i: int| PlaylistItem::Playlist(library.playlists@[i].id),
    ) + Seq::new(
        library.smart_playlists@.len(),
        |i: int| PlaylistItem::SmartPlaylist(library.smart_playlists@[i].id),
    )
}

/// The checklist for a selection.
pub open spec fn checklist_of(library: Library, selection: Seq<PlaylistItem>) -> Seq<ChecklistRow> {
    syncable(library).map_values(
        |item: PlaylistItem| ChecklistRow { item, ticked: selection.contains(item) },
    )
}

/// The items that are ticked.
pub open spec fn ticked_items(rows: Seq<ChecklistRow>) -> Seq<PlaylistItem>
    decreases rows.len(),
{
    if rows.len() == 0 {
        Seq::empty()
    } else {
        let earlier = ticked_items(rows.drop_last());
        if rows.last().ticked {
            earlier.push(rows.last().item)
        } else {
            earlier
        }
    }
}

fn selects(selection: &[PlaylistItem], item: PlaylistItem) -> (selected: bool)
    ensures
        selected == selection@.contains(item),
{
    let mut index: usize = 0;
    while index < selection.len()
        invariant
            index <= selection@.len(),
            forall|i: int| 0 <= i < index ==> #[trigger] selection@[i] != item,
        decreases selection.len() - index,
    {
        if selection[index] == item {
            return true;
        }
        index = index + 1;
    }
    false
}

/// The checklist of playlists for what is selected.
pub fn playlist_checklist(library: &Library, selection: &[PlaylistItem]) -> (rows: Vec<
    ChecklistRow,
>)
    ensures
        rows@ == checklist_of(*library, selection@),
{
    let ghost all = checklist_of(*library, selection@);
    let mut rows: Vec<ChecklistRow> = Vec::new();
    let mut index: usize = 0;
    while index < library.playlists.len()
        invariant
            index <= library.playlists@.len(),
            all == checklist_of(*library, selection@),
            rows@ == all.take(index as int),
        decreases library.playlists.len() - index,
    {
        let item = PlaylistItem::Playlist(library.playlists[index].id);
        rows.push(ChecklistRow { item, ticked: selects(selection, item) });
        assert(rows@ =~= all.take(index as int + 1));
        index = index + 1;
    }
    let mut smart: usize = 0;
    while smart < library.smart_playlists.len()
        invariant
            smart <= library.smart_playlists@.len(),
            all == checklist_of(*library, selection@),
            rows@ == all.take(library.playlists@.len() + smart),
        decreases library.smart_playlists.len() - smart,
    {
        let item = PlaylistItem::SmartPlaylist(library.smart_playlists[smart].id);
        rows.push(ChecklistRow { item, ticked: selects(selection, item) });
        assert(rows@ =~= all.take(library.playlists@.len() + smart + 1));
        smart = smart + 1;
    }
    assert(rows@ =~= all);
    rows
}

/// What is selected on the checklist.
pub fn selected_items(rows: &[ChecklistRow]) -> (selection: Vec<PlaylistItem>)
    ensures
        selection@ == ticked_items(rows@),
{
    let mut selection: Vec<PlaylistItem> = Vec::new();
    let mut index: usize = 0;
    assert(rows@.take(0) =~= Seq::empty());
    while index < rows.len()
        invariant
            index <= rows@.len(),
            selection@ == ticked_items(rows@.take(index as int)),
        decreases rows.len() - index,
    {
        assert(rows@.take(index as int + 1).drop_last() =~= rows@.take(index as int));
        if rows[index].ticked {
            selection.push(rows[index].item);
        }
        index = index + 1;
    }
    assert(rows@.take(index as int) =~= rows@);
    selection
}

/// What is read off an untouched checklist is what it was made for: the items
/// of the selection that there are, and no others.
pub proof fn law_checklist_gives_the_selection_back(
    library: Library,
    selection: Seq<PlaylistItem>,
    item: PlaylistItem,
)
    ensures
        ticked_items(checklist_of(library, selection)).contains(item) <==> selection.contains(item)
            && syncable(library).contains(item),
{
    let rows = checklist_of(library, selection);
    lemma_ticked_items(rows, item);
    let items = syncable(library);
    if items.contains(item) && selection.contains(item) {
        let i = items.index_of(item);
        assert(rows[i].item == item && rows[i].ticked);
    }
    if exists|i: int| 0 <= i < rows.len() && (#[trigger] rows[i]).ticked && rows[i].item == item {
        let i = choose|i: int|
            0 <= i < rows.len() && (#[trigger] rows[i]).ticked && rows[i].item == item;
        assert(items[i] == item);
    }
}

proof fn lemma_ticked_items(rows: Seq<ChecklistRow>, item: PlaylistItem)
    ensures
        ticked_items(rows).contains(item) <==> exists|i: int|
            0 <= i < rows.len() && (#[trigger] rows[i]).ticked && rows[i].item == item,
    decreases rows.len(),
{
    if rows.len() > 0 {
        let rest = rows.drop_last();
        lemma_ticked_items(rest, item);
        let all = ticked_items(rows);
        let earlier = ticked_items(rest);
        if all.contains(item) {
            let k = all.index_of(item);
            if k < earlier.len() {
                assert(earlier[k] == item);
                let i = choose|i: int|
                    0 <= i < rest.len() && (#[trigger] rest[i]).ticked && rest[i].item == item;
                assert(rows[i].ticked && rows[i].item == item);
            } else {
                assert(rows[rows.len() - 1].ticked);
            }
        }
        if exists|i: int|
            0 <= i < rows.len() && (#[trigger] rows[i]).ticked && rows[i].item == item {
            let i = choose|i: int|
                0 <= i < rows.len() && (#[trigger] rows[i]).ticked && rows[i].item == item;
            if i < rest.len() {
                assert(rest[i].ticked && rest[i].item == item);
                let k = earlier.index_of(item);
                assert(all[k] == item);
            } else {
                assert(all[all.len() - 1] == item);
            }
        }
    }
}

// ---------------------------------------------------------------------------
// The plan
// ---------------------------------------------------------------------------

/// How many bytes of a plan belong to a genre.
#[derive(Debug)]
pub struct GenreBytes {
    pub genre: Option<String>,
    pub bytes: u64,
}

/// What a sync would do.
#[derive(Debug)]
pub struct SyncPlan {
    /// The bytes of all selected tracks.
    pub bytes_total: u64,
    /// The bytes that are not on the device yet.
    pub bytes_to_copy: u64,
    /// The number of files that are no longer selected.
    pub remove_count: usize,
    /// The bytes of all selected tracks by genre, the largest first.
    pub genre_bytes: Vec<GenreBytes>,
}

/// The space on a device.
#[derive(Clone, Copy, Debug, PartialEq, Eq, Structural)]
pub struct DeviceCapacity {
    pub total_bytes: u64,
    pub available_bytes: u64,
}

/// A plan with the space that it was made for; without a selection there is no
/// plan.
#[derive(Debug)]
pub struct PlanSnapshot {
    pub plan: Option<SyncPlan>,
    pub capacity: DeviceCapacity,
}

/// How far the plan of a device is.
#[derive(Debug)]
pub enum PlanState {
    Unavailable,
    Pending,
    Ready(PlanSnapshot),
}

/// What is still to be analysed for a device.
#[derive(Clone, Copy, Debug, PartialEq, Eq, Structural)]
pub struct AnalysisReadiness {
    pub missing_bpm: usize,
    pub missing_key: usize,
    pub missing_waveform: usize,
    /// The number of tracks that an analysis would complete.
    pub analyzable: usize,
}

/// The readiness that counts for a layout: none but that of the Pioneer layout.
pub open spec fn counted_readiness(
    layout: Option<DeviceLayout>,
    readiness: AnalysisReadiness,
) -> AnalysisReadiness {
    if layout == Some(DeviceLayout::Pioneer) {
        readiness
    } else {
        AnalysisReadiness { missing_bpm: 0, missing_key: 0, missing_waveform: 0, analyzable: 0 }
    }
}

/// The readiness that counts for a layout: only Pioneer hardware reads what was
/// analysed.
pub fn relevant_readiness(layout: Option<DeviceLayout>, readiness: AnalysisReadiness) -> (relevant:
    AnalysisReadiness)
    ensures
        relevant == counted_readiness(layout, readiness),
{
    match layout {
        Some(DeviceLayout::Pioneer) => readiness,
        _ => AnalysisReadiness {
            missing_bpm: 0,
            missing_key: 0,
            missing_waveform: 0,
            analyzable: 0,
        },
    }
}

/// What the bottom bar says of the space.
#[derive(Clone, Copy, Debug, PartialEq, Eq, Structural)]
pub enum Occupation {
    Disconnected,
    Calculating,
    CapacityUnavailable,
    NotEnoughSpace { needed_bytes: u64, available_bytes: u64 },
    Occupied { selected_bytes: u64, total_bytes: u64 },
}

/// The bytes that a plan selects.
pub open spec fn selected_bytes(plan: Option<SyncPlan>) -> u64 {
    match plan {
        Some(plan) => plan.bytes_total,
        None => 0,
    }
}

/// The bytes that a plan copies.
pub open spec fn needed_bytes(plan: Option<SyncPlan>) -> u64 {
    match plan {
        Some(plan) => plan.bytes_to_copy,
        None => 0,
    }
}

/// What is said of the space: nothing is known of it but for a connected device
/// with a plan.
pub open spec fn occupation_of(state: PlanState, connected: bool) -> Occupation {
    if !connected {
        Occupation::Disconnected
    } else {
        match state {
            PlanState::Pending => Occupation::Calculating,
            PlanState::Unavailable => Occupation::CapacityUnavailable,
            PlanState::Ready(snapshot) => {
                let capacity = snapshot.capacity;
                if capacity.total_bytes == 0 {
                    Occupation::CapacityUnavailable
                } else if needed_bytes(snapshot.plan) > capacity.available_bytes {
                    Occupation::NotEnoughSpace {
                        needed_bytes: needed_bytes(snapshot.plan),
                        available_bytes: capacity.available_bytes,
                    }
                } else {
                    Occupation::Occupied {
                        selected_bytes: selected_bytes(snapshot.plan),
                        total_bytes: capacity.total_bytes,
                    }
                }
            },
        }
    }
}

/// What is said of the space on a device.
pub fn occupation(state: &PlanState, connected: bool) -> (occupation: Occupation)
    ensures
        occupation == occupation_of(*state, connected),
{
    if !connected {
        return Occupation::Disconnected;
    }
    match state {
        PlanState::Pending => Occupation::Calculating,
        PlanState::Unavailable => Occupation::CapacityUnavailable,
        PlanState::Ready(snapshot) => {
            let (selected, needed): (u64, u64) = match &snapshot.plan {
                Some(plan) => (plan.bytes_total, plan.bytes_to_copy),
                None => (0, 0),
            };
            let capacity = snapshot.capacity;
            if capacity.total_bytes == 0 {
                Occupation::CapacityUnavailable
            } else if needed > capacity.available_bytes {
                Occupation::NotEnoughSpace {
                    needed_bytes: needed,
                    available_bytes: capacity.available_bytes,
                }
            } else {
                Occupation::Occupied {
                    selected_bytes: selected,
                    total_bytes: capacity.total_bytes,
                }
            }
        },
    }
}

/// Whether the space is too small.
pub fn over_capacity(occupation: Occupation) -> (over: bool)
    ensures
        over == (occupation is NotEnoughSpace),
{
    match occupation {
        Occupation::NotEnoughSpace { .. } => true,
        _ => false,
    }
}

/// The text over the bar; the two sizes that it may hold are written out by
/// the caller, in the order of the fields.
pub fn occupation_text(occupation: Occupation, first: &str, second: &str) -> (text: String)
    ensures
        text@ == match occupation {
            Occupation::Disconnected => "Device disconnected"@,
            Occupation::Calculating => "Calculating device sync plan..."@,
            Occupation::CapacityUnavailable => "Device capacity unavailable"@,
            Occupation::NotEnoughSpace { .. } => "Not enough space — "@ + first@ + " needed, "@
                + second@ + " free"@,
            Occupation::Occupied { .. } => first@ + " of "@ + second@,
        },
{
    match occupation {
        Occupation::Disconnected => "Device disconnected".to_owned(),
        Occupation::Calculating => "Calculating device sync plan...".to_owned(),
        Occupation::CapacityUnavailable => "Device capacity unavailable".to_owned(),
        Occupation::NotEnoughSpace { .. } => {
            let mut text = "Not enough space — ".to_owned();
            text.append(first);
            text.append(" needed, ");
            text.append(second);
            text.append(" free");
            text
        },
        Occupation::Occupied { .. } => {
            let mut text = first.to_owned();
            text.append(" of ");
            text.append(second);
            text
        },
    }
}

/// The plan that counts: that of a connected device.
pub open spec fn current_plan(state: PlanState, connected: bool) -> Option<SyncPlan> {
    match state {
        PlanState::Ready(snapshot) if connected => snapshot.plan,
        _ => None,
    }
}

/// The device can be synced: it is connected, there is a plan, and the plan has
/// room.
pub open spec fn allows_sync(state: PlanState, connected: bool) -> bool {
    current_plan(state, connected) is Some && !(occupation_of(state, connected) is NotEnoughSpace)
}

/// How many files a sync would remove.
pub open spec fn files_to_remove(state: PlanState, connected: bool) -> usize {
    match current_plan(state, connected) {
        Some(plan) => plan.remove_count,
        None => 0,
    }
}

/// Whether the device can be synced: it is connected, there is a plan, and the
/// plan has room.
pub fn sync_allowed(state: &PlanState, connected: bool) -> (allowed: bool)
    ensures
        allowed == allows_sync(*state, connected),
{
    match state {
        PlanState::Ready(snapshot) => connected && snapshot.plan.is_some() && !over_capacity(
            occupation(state, connected),
        ),
        _ => false,
    }
}

/// How many files a sync would remove.
pub fn remove_count(state: &PlanState, connected: bool) -> (count: usize)
    ensures
        count == files_to_remove(*state, connected),
{
    match state {
        PlanState::Ready(snapshot) => match &snapshot.plan {
            Some(plan) => if connected {
                plan.remove_count
            } else {
                0
            },
            None => 0,
        },
        _ => 0,
    }
}

/// A sync that is allowed fits on the device.
pub proof fn law_allowed_sync_fits(snapshot: PlanSnapshot, plan: SyncPlan)
    requires
        snapshot.plan == Some(plan),
        snapshot.capacity.total_bytes > 0,
    ensures
        !(occupation_of(PlanState::Ready(snapshot), true) is NotEnoughSpace) <==> plan.bytes_to_copy
            <= snapshot.capacity.available_bytes,
{
}

// ---------------------------------------------------------------------------
// The bar
// ---------------------------------------------------------------------------

/// How many genres have a colour of their own; the others share one.
pub const GENRE_PALETTE_CAP: usize = 8;

/// The degrees between two colours of the palette.
pub const HUE_STEP_DEGREES: u32 = 45;

/// How a part of the bar is coloured.
#[derive(Clone, Copy, Debug, PartialEq, Eq, Structural)]
pub enum SegmentTint {
    /// The accent colour, or the colour of an error.
    Plain,
    /// The accent colour, turned by this many degrees.
    AccentHue(u32),
    /// The grey of the genres that have no colour of their own.
    Muted,
}

/// What a part of the bar stands for.
#[derive(Debug)]
pub enum SegmentLabel {
    Genre { name: Option<String>, bytes: u64 },
    Others { count: usize, bytes: u64 },
}

/// A part of the bar: `part` of `whole`.
#[derive(Debug)]
pub struct BarSegment {
    pub part: u64,
    pub whole: u64,
    pub tint: SegmentTint,
    pub label: Option<SegmentLabel>,
}

/// The bytes of some genres.
pub open spec fn genre_total(genres: Seq<GenreBytes>) -> nat
    decreases genres.len(),
{
    if genres.len() == 0 {
        0
    } else {
        genre_total(genres.drop_last()) + genres.last().bytes as nat
    }
}

proof fn lemma_genre_total_grows(genres: Seq<GenreBytes>, upto: int)
    requires
        0 <= upto <= genres.len(),
    ensures
        genre_total(genres.take(upto)) <= genre_total(genres),
    decreases genres.len(),
{
    if upto < genres.len() {
        lemma_genre_total_grows(genres.drop_last(), upto);
        assert(genres.drop_last().take(upto) =~= genres.take(upto));
    } else {
        assert(genres.take(upto) =~= genres);
    }
}

/// The total is that of the first genres and that of the others.
proof fn lemma_genre_total_splits(genres: Seq<GenreBytes>, at: int)
    requires
        0 <= at <= genres.len(),
    ensures
        genre_total(genres) == genre_total(genres.take(at)) + genre_total(genres.skip(at)),
    decreases genres.len(),
{
    if at < genres.len() {
        let rest = genres.drop_last();
        lemma_genre_total_splits(rest, at);
        assert(rest.take(at) =~= genres.take(at));
        assert(rest.skip(at) =~= genres.skip(at).drop_last());
        assert(genres.skip(at).last() == genres.last());
    } else {
        assert(genres.take(at) =~= genres);
        assert(genres.skip(at) =~= Seq::empty());
    }
}

/// How many genres have a colour of their own.
pub open spec fn coloured(genres: Seq<GenreBytes>) -> int {
    if genres.len() < GENRE_PALETTE_CAP {
        genres.len() as int
    } else {
        GENRE_PALETTE_CAP as int
    }
}

/// The part of a genre with a colour of its own.
pub open spec fn shows_genre(segment: BarSegment, genre: GenreBytes, rank: int, whole: u64) -> bool {
    &&& segment.part == genre.bytes
    &&& segment.whole == whole
    &&& segment.tint == SegmentTint::AccentHue((rank * HUE_STEP_DEGREES) as u32)
    &&& segment.label matches Some(SegmentLabel::Genre { name, bytes })
    &&& name.deep_view() == genre.genre.deep_view()
    &&& bytes == genre.bytes
}

/// The part that stands for all other genres.
pub open spec fn shows_others(segment: BarSegment, others: Seq<GenreBytes>, whole: u64) -> bool {
    &&& segment.part == genre_total(others)
    &&& segment.whole == whole
    &&& segment.tint == SegmentTint::Muted
    &&& segment.label == Some(
        SegmentLabel::Others { count: others.len() as usize, bytes: segment.part },
    )
}

/// The parts of the bar for the genres of a plan: the largest in colours of
/// their own, then one for all others that take space.
pub open spec fn are_genre_segments(
    segments: Seq<BarSegment>,
    genres: Seq<GenreBytes>,
    whole: u64,
) -> bool {
    let first = coloured(genres);
    let others = genres.skip(first);
    if whole == 0 {
        segments.len() == 0
    } else {
        &&& segments.len() == first + if genre_total(others) > 0 {
            1int
        } else {
            0
        }
        &&& forall|i: int|
            0 <= i < first ==> shows_genre(#[trigger] segments[i], genres[i], i, whole)
        &&& genre_total(others) > 0 ==> shows_others(segments[first], others, whole)
    }
}

/// The genres that share a colour add up to a number of bytes that can be shown.
pub open spec fn others_fit(genres: Seq<GenreBytes>) -> bool {
    genre_total(genres.skip(coloured(genres))) <= u64::MAX
}

/// The parts of the bar for the genres of a plan.
pub fn genre_segments(plan: &SyncPlan, total_bytes: u64) -> (segments: Vec<BarSegment>)
    requires
        total_bytes > 0 ==> others_fit(plan.genre_bytes@),
    ensures
        are_genre_segments(segments@, plan.genre_bytes@, total_bytes),
{
    let mut segments: Vec<BarSegment> = Vec::new();
    if total_bytes == 0 {
        return segments;
    }
    let ghost genres = plan.genre_bytes@;
    let ghost first = coloured(genres);
    let mut rank: usize = 0;
    let mut degrees: u32 = 0;
    while rank < plan.genre_bytes.len() && rank < GENRE_PALETTE_CAP
        invariant
            genres == plan.genre_bytes@,
            first == coloured(genres),
            0 <= rank <= first,
            degrees == rank * HUE_STEP_DEGREES,
            segments@.len() == rank,
            forall|i: int|
                0 <= i < rank ==> shows_genre(#[trigger] segments@[i], genres[i], i, total_bytes),
        decreases plan.genre_bytes.len() - rank,
    {
        let genre = &plan.genre_bytes[rank];
        let name = match &genre.genre {
            Some(name) => Some(name.clone()),
            None => None,
        };
        segments.push(
            BarSegment {
                part: genre.bytes,
                whole: total_bytes,
                tint: SegmentTint::AccentHue(degrees),
                label: Some(SegmentLabel::Genre { name, bytes: genre.bytes }),
            },
        );
        rank = rank + 1;
        degrees = degrees + HUE_STEP_DEGREES;
    }
    let ghost others = genres.skip(first);
    let mut other_bytes: u64 = 0;
    let mut other_count: usize = 0;
    assert(others.take(0) =~= Seq::empty());
    while rank < plan.genre_bytes.len()
        invariant
            genres == plan.genre_bytes@,
            first == coloured(genres),
            others == genres.skip(first),
            first <= rank <= genres.len(),
            other_count == rank - first,
            other_bytes == genre_total(others.take(other_count as int)),
            genre_total(others) <= u64::MAX,
        decreases plan.genre_bytes.len() - rank,
    {
        proof {
            let next = others.take(other_count as int + 1);
            assert(next.drop_last() =~= others.take(other_count as int));
            assert(next.last() == genres[rank as int]);
            lemma_genre_total_grows(others, other_count as int + 1);
        }
        other_bytes = other_bytes + plan.genre_bytes[rank].bytes;
        other_count = other_count + 1;
        rank = rank + 1;
    }
    assert(others.take(other_count as int) =~= others);
    if other_bytes > 0 {
        segments.push(
            BarSegment {
                part: other_bytes,
                whole: total_bytes,
                tint: SegmentTint::Muted,
                label: Some(SegmentLabel::Others { count: other_count, bytes: other_bytes }),
            },
        );
    }
    segments
}

/// The parts of the bar: by genre where the plan has room, else one part that
/// fills the bar when the space is too small and is empty when none is known.
pub open spec fn are_bar_segments(
    segments: Seq<BarSegment>,
    state: PlanState,
    connected: bool,
) -> bool {
    match occupation_of(state, connected) {
        Occupation::Occupied { total_bytes, .. } => match current_plan(state, connected) {
            Some(plan) => are_genre_segments(segments, plan.genre_bytes@, total_bytes),
            None => segments.len() == 0,
        },
        Occupation::NotEnoughSpace { .. } => segments == seq![
            BarSegment { part: 1, whole: 1, tint: SegmentTint::Plain, label: None },
        ],
        _ => segments == seq![
            BarSegment { part: 0, whole: 1, tint: SegmentTint::Plain, label: None },
        ],
    }
}

/// The genres of a plan can be shown, where they are shown.
pub open spec fn genres_fit(state: PlanState, connected: bool) -> bool {
    occupation_of(state, connected) is Occupied ==> (current_plan(state, connected) matches Some(
        plan,
    ) ==> others_fit(plan.genre_bytes@))
}

/// The parts of the bar.
pub fn bar_segments(state: &PlanState, connected: bool) -> (segments: Vec<BarSegment>)
    requires
        genres_fit(*state, connected),
    ensures
        are_bar_segments(segments@, *state, connected),
{
    let mut segments: Vec<BarSegment> = Vec::new();
    match occupation(state, connected) {
        Occupation::Occupied { total_bytes, .. } => {
            if let PlanState::Ready(snapshot) = state {
                if let Some(plan) = &snapshot.plan {
                    segments = genre_segments(plan, total_bytes);
                }
            }
        },
        Occupation::NotEnoughSpace { .. } => {
            segments.push(
                BarSegment { part: 1, whole: 1, tint: SegmentTint::Plain, label: None },
            );
        },
        _ => {
            segments.push(
                BarSegment { part: 0, whole: 1, tint: SegmentTint::Plain, label: None },
            );
        },
    }
    segments
}

/// The bytes of all parts of a bar.
pub open spec fn parts_total(segments: Seq<BarSegment>) -> nat
    decreases segments.len(),
{
    if segments.len() == 0 {
        0
    } else {
        parts_total(segments.drop_last()) + segments.last().part as nat
    }
}

proof fn lemma_parts_of_genres(
    segments: Seq<BarSegment>,
    genres: Seq<GenreBytes>,
    whole: u64,
    upto: int,
)
    requires
        0 <= upto <= segments.len(),
        upto <= genres.len(),
        forall|i: int|
            0 <= i < upto ==> shows_genre(#[trigger] segments[i], genres[i], i, whole),
    ensures
        parts_total(segments.take(upto)) == genre_total(genres.take(upto)),
    decreases upto,
{
    if upto > 0 {
        lemma_parts_of_genres(segments, genres, whole, upto - 1);
        assert(segments.take(upto).drop_last() =~= segments.take(upto - 1));
        assert(genres.take(upto).drop_last() =~= genres.take(upto - 1));
        assert(shows_genre(segments[upto - 1], genres[upto - 1], upto - 1, whole));
    } else {
        assert(segments.take(0) =~= Seq::empty());
        assert(genres.take(0) =~= Seq::empty());
    }
}

/// The parts of the bar span together what the genres of the plan take, no
/// matter how many genres there are; and they are never more than the palette
/// has colours, and one.
pub proof fn law_segments_span_the_selection(
    segments: Seq<BarSegment>,
    genres: Seq<GenreBytes>,
    whole: u64,
)
    requires
        whole > 0,
        are_genre_segments(segments, genres, whole),
    ensures
        parts_total(segments) == genre_total(genres),
        segments.len() <= GENRE_PALETTE_CAP + 1,
        forall|i: int| 0 <= i < segments.len() ==> (#[trigger] segments[i]).whole == whole,
{
    let first = coloured(genres);
    let others = genres.skip(first);
    lemma_parts_of_genres(segments, genres, whole, first);
    lemma_genre_total_splits(genres, first);
    if genre_total(others) > 0 {
        assert(segments.drop_last() =~= segments.take(first));
        assert(shows_others(segments.last(), others, whole));
    } else {
        assert(segments.take(first) =~= segments);
    }
    assert forall|i: int| 0 <= i < segments.len() implies (#[trigger] segments[i]).whole
        == whole by {
        if i < first {
            assert(shows_genre(segments[i], genres[i], i, whole));
        }
    }
}

/// No two parts of the bar have the same colour.
pub proof fn law_segments_differ_in_colour(
    segments: Seq<BarSegment>,
    genres: Seq<GenreBytes>,
    whole: u64,
    i: int,
    j: int,
)
    requires
        are_genre_segments(segments, genres, whole),
        0 <= i < j < segments.len(),
    ensures
        segments[i].tint != segments[j].tint,
{
    let first = coloured(genres);
    assert(shows_genre(segments[i], genres[i], i, whole));
    if j < first {
        assert(shows_genre(segments[j], genres[j], j, whole));
    } else {
        assert(shows_others(segments[j], genres.skip(first), whole));
    }
}

/// The text that names a part of the bar; the caller writes its size out.
pub fn segment_text(label: &SegmentLabel, size: &str) -> (text: String)
    ensures
        text@ == match *label {
            SegmentLabel::Genre { name, .. } => (match name {
                Some(name) => name@,
                None => "Unknown"@,
            }) + " — "@ + size@,
            SegmentLabel::Others { count, .. } => text::decimal(count as nat) + " other "@ + (
            if count == 1 {
                "genre"@
            } else {
                "genres"@
            }) + " — "@ + size@,
        },
{
    match label {
        SegmentLabel::Genre { name, .. } => {
            let mut text = match name {
                Some(name) => name.clone(),
                None => "Unknown".to_owned(),
            };
            text.append(" — ");
            text.append(size);
            text
        },
        SegmentLabel::Others { count, .. } => {
            let mut text = String::new();
            push_decimal(&mut text, *count as u64);
            text.append(" other ");
            if *count == 1 {
                text.append("genre");
            } else {
                text.append("genres");
            }
            text.append(" — ");
            text.append(size);
            assert(text@ =~= text::decimal(*count as nat) + " other "@ + (if *count == 1 {
                "genre"@
            } else {
                "genres"@
            }) + " — "@ + size@);
            text
        },
    }
}

/// Which part of the bar is named at the pointer.
#[derive(Clone, Copy, Debug, PartialEq, Eq, Structural)]
pub struct HoverState {
    pub shown: Option<usize>,
}

/// What a movement of the pointer asks for.
#[derive(Clone, Copy, Debug, PartialEq, Eq, Structural)]
pub enum HoverStep {
    Stay,
    Show(usize),
    Hide,
}

impl HoverState {
    /// Nothing is named.
    pub fn new() -> (state: Self)
        ensures
            state == (HoverState { shown: None }),
    {
        HoverState { shown: None }
    }

    /// `after` is what is named once the pointer has moved, and `step` what that
    /// asks for.
    pub open spec fn hovers(
        &self,
        over: Option<usize>,
        named: bool,
        step: HoverStep,
        after: HoverState,
    ) -> bool {
        &&& after.shown == if named {
            over
        } else {
            None
        }
        &&& step == match after.shown {
            Some(index) => if self.shown == Some(index) {
                HoverStep::Stay
            } else {
                HoverStep::Show(index)
            },
            None => HoverStep::Hide,
        }
    }

    /// The pointer is over a part of the bar, which may have a name, or over
    /// none. Moving within a part does not name it anew.
    pub fn pointed(&mut self, over: Option<usize>, named: bool) -> (step: HoverStep)
        ensures
            old(self).hovers(over, named, step, *final(self)),
    {
        match over {
            Some(index) => if named {
                let same = match self.shown {
                    Some(shown) => shown == index,
                    None => false,
                };
                self.shown = Some(index);
                if same {
                    HoverStep::Stay
                } else {
                    HoverStep::Show(index)
                }
            } else {
                self.shown = None;
                HoverStep::Hide
            },
            None => {
                self.shown = None;
                HoverStep::Hide
            },
        }
    }
}

// ---------------------------------------------------------------------------
// The actions
// ---------------------------------------------------------------------------

/// What the row on an analysis says.
pub fn analysis_status(missing: usize) -> (status: String)
    ensures
        status@ == if missing == 0 {
            "Complete"@
        } else {
            text::decimal(missing as nat) + " missing"@
        },
{
    if missing == 0 {
        "Complete".to_owned()
    } else {
        let mut status = String::new();
        push_decimal(&mut status, missing as u64);
        status.append(" missing");
        assert(status@ =~= text::decimal(missing as nat) + " missing"@);
        status
    }
}

/// The label of the button that has this many tracks analysed.
pub open spec fn analyse_text(count: nat) -> Seq<char> {
    "Analyse "@ + text::decimal(count) + " missing "@ + if count == 1 {
        "track"@
    } else {
        "tracks"@
    }
}

/// The label of the button that has tracks analysed; there is none when there
/// is nothing to analyse.
pub fn analyse_label(readiness: AnalysisReadiness) -> (label: Option<String>)
    ensures
        label is Some <==> readiness.analyzable > 0,
        label matches Some(label) ==> label@ == analyse_text(readiness.analyzable as nat),
{
    if readiness.analyzable == 0 {
        return None;
    }
    let mut label = "Analyse ".to_owned();
    push_decimal(&mut label, readiness.analyzable as u64);
    label.append(" missing ");
    if readiness.analyzable == 1 {
        label.append("track");
    } else {
        label.append("tracks");
    }
    Some(label)
}

/// What the user is told before a sync.
#[derive(Clone, Copy, Debug, PartialEq, Eq, Structural)]
pub struct PreSyncWarnings {
    pub missing_bpm: usize,
    pub missing_key: usize,
    pub missing_waveform: usize,
    /// The number of files that are removed.
    pub remove_count: usize,
}

/// What a press of the button that syncs leads to.
#[derive(Clone, Copy, Debug, PartialEq, Eq, Structural)]
pub enum SyncPress {
    /// The user is asked; a confirmed sync removes what is not selected.
    Ask,
    Sync { remove_stale: bool },
}

/// The parts of the sentence on missing analyses.
pub open spec fn gap_parts(bpm: nat, key: nat, waveform: nat) -> Seq<Seq<char>> {
    let first: Seq<Seq<char>> = if bpm > 0 {
        seq![text::decimal(bpm) + " missing BPM"@]
    } else {
        seq![]
    };
    let second: Seq<Seq<char>> = if key > 0 {
        seq![text::decimal(key) + " missing key"@]
    } else {
        seq![]
    };
    let third: Seq<Seq<char>> = if waveform > 0 {
        seq![text::decimal(waveform) + " missing waveform"@]
    } else {
        seq![]
    };
    first + second + third
}

fn push_gap(parts: &mut Vec<String>, count: usize, what: &str)
    ensures
        final(parts).deep_view() == old(parts).deep_view() + if count > 0 {
            seq![text::decimal(count as nat) + what@]
        } else {
            seq![]
        },
{
    let ghost before = parts.deep_view();
    if count > 0 {
        let mut part = String::new();
        push_decimal(&mut part, count as u64);
        part.append(what);
        assert(part@ =~= text::decimal(count as nat) + what@);
        parts.push(part);
    }
    assert(parts.deep_view() =~= before + if count > 0 {
        seq![text::decimal(count as nat) + what@]
    } else {
        seq![]
    });
}

impl PreSyncWarnings {
    /// Some analysis is missing.
    pub open spec fn has_gaps(&self) -> bool {
        self.missing_bpm > 0 || self.missing_key > 0 || self.missing_waveform > 0
    }

    /// Whether a selected track lacks an analysis.
    pub fn analysis_incomplete(&self) -> (incomplete: bool)
        ensures
            incomplete == self.has_gaps(),
    {
        self.missing_bpm > 0 || self.missing_key > 0 || self.missing_waveform > 0
    }

    /// Whether the user is asked before the sync.
    pub fn needs_dialog(&self) -> (needed: bool)
        ensures
            needed == (self.remove_count > 0 || self.has_gaps()),
    {
        self.remove_count > 0 || self.analysis_incomplete()
    }

    /// The sentence on missing analyses.
    pub fn analysis_sentence(&self) -> (sentence: Option<String>)
        ensures
            sentence is Some <==> self.has_gaps(),
            sentence matches Some(sentence) ==> sentence@
                == "Some selected tracks are not fully analysed ("@ + text::joined(
                gap_parts(
                    self.missing_bpm as nat,
                    self.missing_key as nat,
                    self.missing_waveform as nat,
                ),
                ", "@,
            )
                + "). They will still sync, but that information will be missing on Pioneer players. Run Analyse first to fill the gaps."@,
    {
        if !self.analysis_incomplete() {
            return None;
        }
        let mut parts: Vec<String> = Vec::new();
        push_gap(&mut parts, self.missing_bpm, " missing BPM");
        push_gap(&mut parts, self.missing_key, " missing key");
        push_gap(&mut parts, self.missing_waveform, " missing waveform");
        assert(parts.deep_view() =~= gap_parts(
            self.missing_bpm as nat,
            self.missing_key as nat,
            self.missing_waveform as nat,
        ));
        let list = join(parts.as_slice(), ", ");
        let mut sentence = "Some selected tracks are not fully analysed (".to_owned();
        sentence.append(list.as_str());
        sentence.append(
            "). They will still sync, but that information will be missing on Pioneer players. Run Analyse first to fill the gaps.",
        );
        Some(sentence)
    }

    /// The sentence on files that are removed.
    pub fn removal_sentence(&self) -> (sentence: Option<String>)
        ensures
            sentence is Some <==> self.remove_count > 0,
            sentence matches Some(sentence) ==> sentence@ == "Syncing will remove "@
                + text::decimal(self.remove_count as nat) + (if self.remove_count == 1 {
                " track from this device that is"@
            } else {
                " tracks from this device that are"@
            }) + " no longer in your selected playlists."@,
    {
        if self.remove_count == 0 {
            return None;
        }
        let mut sentence = "Syncing will remove ".to_owned();
        push_decimal(&mut sentence, self.remove_count as u64);
        if self.remove_count == 1 {
            sentence.append(" track from this device that is");
        } else {
            sentence.append(" tracks from this device that are");
        }
        sentence.append(" no longer in your selected playlists.");
        Some(sentence)
    }

    /// The label of the button that goes on with the sync; one that removes
    /// files says so.
    pub fn confirm_label(&self) -> (label: &'static str)
        ensures
            label@ == if self.remove_count > 0 {
                "Sync and remove"@
            } else {
                "Sync anyway"@
            },
    {
        if self.remove_count > 0 {
            "Sync and remove"
        } else {
            "Sync anyway"
        }
    }

    /// What a press of the button that syncs leads to. With no window to ask
    /// in, the sync goes on and keeps the files that it would remove.
    pub open spec fn press(&self, can_ask: bool) -> SyncPress {
        if self.remove_count == 0 && !self.has_gaps() {
            SyncPress::Sync { remove_stale: true }
        } else if can_ask {
            SyncPress::Ask
        } else {
            SyncPress::Sync { remove_stale: self.remove_count == 0 }
        }
    }

    /// The button that syncs is pressed.
    pub fn sync_pressed(&self, can_ask: bool) -> (press: SyncPress)
        ensures
            press == self.press(can_ask),
    {
        if !self.needs_dialog() {
            SyncPress::Sync { remove_stale: true }
        } else if can_ask {
            SyncPress::Ask
        } else {
            SyncPress::Sync { remove_stale: self.remove_count == 0 }
        }
    }
}

/// No file is removed from a device without the user's consent.
pub proof fn law_nothing_is_removed_unasked(warnings: PreSyncWarnings, can_ask: bool)
    requires
        warnings.remove_count > 0,
    ensures
        warnings.press(can_ask) != (SyncPress::Sync { remove_stale: true }),
{
}

// ---------------------------------------------------------------------------
// The bottom bar
// ---------------------------------------------------------------------------

/// What the bottom bar shows and offers.
#[derive(Debug)]
pub struct BottomBar {
    pub occupation: Occupation,
    pub over_capacity: bool,
    pub segments: Vec<BarSegment>,
    /// The label of the button that has tracks analysed, where it is shown.
    pub analyse: Option<String>,
    pub sync_allowed: bool,
    pub warnings: PreSyncWarnings,
}

impl DevicePanelState {
    /// Fills the bottom bar from the plan of the device, how its files are laid
    /// out and what is analysed.
    pub fn refresh_bottom_bar(
        &self,
        state: &PlanState,
        layout: Option<DeviceLayout>,
        readiness: AnalysisReadiness,
    ) -> (bar: BottomBar)
        requires
            genres_fit(*state, self.connected),
        ensures
            bar.occupation == occupation_of(*state, self.connected),
            bar.over_capacity == (bar.occupation is NotEnoughSpace),
            are_bar_segments(bar.segments@, *state, self.connected),
            bar.analyse is Some <==> counted_readiness(layout, readiness).analyzable > 0,
            bar.analyse matches Some(label) ==> label@ == analyse_text(
                readiness.analyzable as nat,
            ),
            bar.sync_allowed == allows_sync(*state, self.connected),
            bar.warnings.missing_bpm == counted_readiness(layout, readiness).missing_bpm,
            bar.warnings.missing_key == counted_readiness(layout, readiness).missing_key,
            bar.warnings.missing_waveform == counted_readiness(layout, readiness).missing_waveform,
            bar.warnings.remove_count == files_to_remove(*state, self.connected),
    {
        let counted = relevant_readiness(layout, readiness);
        let occupation = occupation(state, self.connected);
        BottomBar {
            occupation,
            over_capacity: over_capacity(occupation),
            segments: bar_segments(state, self.connected),
            analyse: analyse_label(counted),
            sync_allowed: sync_allowed(state, self.connected),
            warnings: PreSyncWarnings {
                missing_bpm: counted.missing_bpm,
                missing_key: counted.missing_key,
                missing_waveform: counted.missing_waveform,
                remove_count: remove_count(state, self.connected),
            },
        }
    }
}

// ---------------------------------------------------------------------------
// Laws
// ---------------------------------------------------------------------------

/// The page follows its device: while the device is connected where it was, and
/// on the same volume, nothing changes; where it is found elsewhere, or is back,
/// it is shown anew; and where no device has its identifier it is gone, which is
/// said once.
pub proof fn law_the_page_follows_its_device(
    current: ConnectedDevice,
    connected: bool,
    devices: Seq<ConnectedDevice>,
    at: int,
)
    requires
        0 <= at <= devices.len(),
        forall|i: int| 0 <= i < at ==> (#[trigger] devices[i]).id@ != current.id@,
        at < devices.len() ==> devices[at].id@ == current.id@,
    ensures
        ({
            let change = change_for(Some(current), connected, devices);
            let stays = at < devices.len() && devices[at].target@ == current.target@
                && devices[at].volume_id.deep_view() == current.volume_id.deep_view();
            &&& at < devices.len() ==> (change == DeviceChange::Nothing <==> connected && stays)
            &&& at < devices.len() ==> change != DeviceChange::Disconnected
            &&& at == devices.len() ==> (change == DeviceChange::Disconnected <==> connected)
            &&& at == devices.len() ==> change != DeviceChange::ShowAgain
        }),
{
    seqs::lemma_is_first_index(devices, has_id(current@.id), at);
}

/// The checklist has a row for each playlist and then for each smart playlist of
/// the library, and ticks exactly those that are selected.
pub proof fn law_the_checklist_ticks_what_is_selected(
    library: Library,
    selection: Seq<PlaylistItem>,
    i: int,
)
    ensures
        ({
            let rows = checklist_of(library, selection);
            let (playlists, smart) = (library.playlists@, library.smart_playlists@);
            &&& rows.len() == playlists.len() + smart.len()
            &&& 0 <= i < playlists.len() ==> rows[i].item == PlaylistItem::Playlist(
                playlists[i].id,
            )
            &&& 0 <= i < smart.len() ==> rows[playlists.len() + i].item
                == PlaylistItem::SmartPlaylist(smart[i].id)
            &&& 0 <= i < rows.len() ==> rows[i].ticked == selection.contains(rows[i].item)
        }),
{
}

/// What is selected on the checklist are the items of its ticked rows, in their
/// order.
pub proof fn law_exactly_the_ticked_items_are_selected(rows: Seq<ChecklistRow>)
    ensures
        seqs::lists(
            ticked_items(rows),
            rows.len(),
            |i: int| rows[i].ticked,
            |i: int| rows[i].item,
        ),
{
    lemma_ticked_upto(rows, rows.len());
    assert(rows.take(rows.len() as int) =~= rows);
}

proof fn lemma_ticked_upto(rows: Seq<ChecklistRow>, upto: nat)
    requires
        upto <= rows.len(),
    ensures
        seqs::lists(
            ticked_items(rows.take(upto as int)),
            upto,
            |i: int| rows[i].ticked,
            |i: int| rows[i].item,
        ),
    decreases upto,
{
    let wanted = |i: int| rows[i].ticked;
    let item = |i: int| rows[i].item;
    if upto == 0 {
        assert(rows.take(0) =~= Seq::empty());
        seqs::lemma_lists_nothing(wanted, item);
    } else {
        let fewer = (upto - 1) as nat;
        lemma_ticked_upto(rows, fewer);
        assert(rows.take(upto as int).drop_last() =~= rows.take(fewer as int));
        assert(rows.take(upto as int).last() == rows[fewer as int]);
        seqs::lemma_lists_one_more(ticked_items(rows.take(fewer as int)), fewer, wanted, item);
    }
}

/// Missing analyses count for Pioneer hardware, and for no other.
pub proof fn law_analyses_count_for_pioneer_hardware_alone(
    layout: Option<DeviceLayout>,
    readiness: AnalysisReadiness,
)
    ensures
        layout == Some(DeviceLayout::Pioneer) ==> counted_readiness(layout, readiness)
            == readiness,
        layout != Some(DeviceLayout::Pioneer) ==> ({
            let counted = counted_readiness(layout, readiness);
            counted.missing_bpm == 0 && counted.missing_key == 0 && counted.missing_waveform == 0
                && counted.analyzable == 0
        }),
{
}

/// What is said of the space: that it is too small iff a connected device has
/// less free than the plan copies; how much of it the plan fills iff there is
/// enough; and nothing of the space of a device that is not connected, is not
/// planned yet or does not tell its size.
pub proof fn law_the_space_is_judged_by_what_is_copied(snapshot: PlanSnapshot, connected: bool)
    ensures
        ({
            let said = occupation_of(PlanState::Ready(snapshot), connected);
            let (copied, selected): (int, int) = match snapshot.plan {
                Some(plan) => (plan.bytes_to_copy as int, plan.bytes_total as int),
                None => (0, 0),
            };
            let capacity = snapshot.capacity;
            let known = connected && capacity.total_bytes > 0;
            &&& said is NotEnoughSpace <==> known && copied > capacity.available_bytes
            &&& said matches Occupation::NotEnoughSpace { needed_bytes, available_bytes }
                ==> needed_bytes == copied && available_bytes == capacity.available_bytes
            &&& said is Occupied <==> known && copied <= capacity.available_bytes
            &&& said matches Occupation::Occupied { selected_bytes, total_bytes }
                ==> selected_bytes == selected && total_bytes == capacity.total_bytes
            &&& said is Disconnected <==> !connected
            &&& said is CapacityUnavailable <==> connected && capacity.total_bytes == 0
        }),
        occupation_of(PlanState::Pending, true) == Occupation::Calculating,
        occupation_of(PlanState::Unavailable, true) == Occupation::CapacityUnavailable,
        occupation_of(PlanState::Pending, false) == Occupation::Disconnected,
        occupation_of(PlanState::Unavailable, false) == Occupation::Disconnected,
{
}

/// A device can be synced iff it is connected and planned, and what is copied
/// fits, as far as its size is known. What a sync removes is what its plan says.
pub proof fn law_only_what_fits_is_synced(state: PlanState, connected: bool)
    ensures
        allows_sync(state, connected) <==> connected && (state matches PlanState::Ready(snapshot)
            && snapshot.plan matches Some(plan) && (plan.bytes_to_copy
            <= snapshot.capacity.available_bytes || snapshot.capacity.total_bytes == 0)),
        files_to_remove(state, connected) > 0 ==> connected && (state matches PlanState::Ready(
            snapshot,
        ) && snapshot.plan matches Some(plan) && plan.remove_count == files_to_remove(
            state,
            connected,
        )),
        connected && (state matches PlanState::Ready(snapshot) && snapshot.plan matches Some(plan)
            && plan.remove_count > 0) ==> files_to_remove(state, connected) > 0,
{
}

/// The first genres of a plan have a part of the bar each, named after the genre
/// and as long as its bytes; all others share the last part, which tells how
/// many they are and what they take.
pub proof fn law_each_genre_has_its_part_of_the_bar(
    segments: Seq<BarSegment>,
    genres: Seq<GenreBytes>,
    whole: u64,
    i: int,
)
    requires
        whole > 0,
        are_genre_segments(segments, genres, whole),
        0 <= i < genres.len(),
    ensures
        i < 8 ==> i < segments.len() && segments[i].part == genres[i].bytes && segments[i].whole
            == whole && segments[i].tint == SegmentTint::AccentHue((45 * i) as u32) && (
        segments[i].label matches Some(SegmentLabel::Genre { name, bytes }) && name.deep_view()
            == genres[i].genre.deep_view() && bytes == genres[i].bytes),
        i >= 8 && genres[i].bytes > 0 ==> segments.len() == 9 && segments[8].part
            >= genres[i].bytes && segments[8].tint == SegmentTint::Muted && (
        segments[8].label matches Some(SegmentLabel::Others { count, bytes }) && bytes
            == segments[8].part && (genres.len() <= usize::MAX ==> count == genres.len() - 8)),
        genres.len() <= 8 ==> segments.len() == genres.len(),
{
    let first = coloured(genres);
    let others = genres.skip(first);
    if i < first {
        assert(shows_genre(segments[i], genres[i], i, whole));
    } else {
        assert(others[i - first] == genres[i]);
        lemma_genre_within_total(others, i - first);
    }
    if genres.len() <= 8 {
        assert(others =~= Seq::empty());
    }
}

proof fn lemma_genre_within_total(genres: Seq<GenreBytes>, i: int)
    requires
        0 <= i < genres.len(),
    ensures
        genre_total(genres) >= genres[i].bytes,
    decreases genres.len(),
{
    if i < genres.len() - 1 {
        assert(genres.drop_last()[i] == genres[i]);
        lemma_genre_within_total(genres.drop_last(), i);
    }
}

/// Where the space is too small one part fills the bar; where nothing is known
/// of the space the bar is empty.
pub proof fn law_the_bar_is_full_when_the_space_is_too_small(
    segments: Seq<BarSegment>,
    state: PlanState,
    connected: bool,
)
    requires
        are_bar_segments(segments, state, connected),
        !(occupation_of(state, connected) is Occupied),
    ensures
        segments.len() == 1,
        segments[0].whole == 1,
        segments[0].part == 1 <==> occupation_of(state, connected) is NotEnoughSpace,
        segments[0].part == 0 <==> !(occupation_of(state, connected) is NotEnoughSpace),
        segments[0].label is None,
{
}

/// A sync that neither removes files nor lacks an analysis starts at once; any
/// other is asked about, and where nobody can be asked it goes on without
/// removing anything.
pub proof fn law_a_sync_is_asked_about_when_there_is_something_to_say(
    warnings: PreSyncWarnings,
    can_ask: bool,
)
    ensures
        ({
            let something = warnings.remove_count > 0 || warnings.missing_bpm > 0
                || warnings.missing_key > 0 || warnings.missing_waveform > 0;
            &&& warnings.press(can_ask) == SyncPress::Ask <==> something && can_ask
            &&& !something ==> warnings.press(can_ask) == (SyncPress::Sync { remove_stale: true })
            &&& something && !can_ask ==> warnings.press(can_ask) == (SyncPress::Sync {
                remove_stale: warnings.remove_count == 0,
            })
        }),
{
}

/// The sentence on missing analyses names each kind that is missing, and no
/// other.
pub proof fn law_the_sentence_names_each_gap(bpm: nat, key: nat, waveform: nat)
    ensures
        ({
            let parts = gap_parts(bpm, key, waveform);
            let known = |n: nat| if n > 0 { 1int } else { 0int };
            &&& parts.len() == known(bpm) + known(key) + known(waveform)
            &&& bpm > 0 ==> parts[0] == text::decimal(bpm) + " missing BPM"@
            &&& key > 0 ==> parts[known(bpm)] == text::decimal(key) + " missing key"@
            &&& waveform > 0 ==> parts[known(bpm) + known(key)] == text::decimal(waveform)
                + " missing waveform"@
        }),
        analyse_text(1) == "Analyse "@ + text::decimal(1) + " missing track"@,
        bpm != 1 ==> analyse_text(bpm) == "Analyse "@ + text::decimal(bpm) + " missing tracks"@,
{
    reveal_strlit(" missing ");
    reveal_strlit("track");
    reveal_strlit("tracks");
    reveal_strlit(" missing track");
    reveal_strlit(" missing tracks");
    assert(" missing "@ + "track"@ =~= " missing track"@);
    assert(" missing "@ + "tracks"@ =~= " missing tracks"@);
    assert(analyse_text(1) =~= "Analyse "@ + text::decimal(1) + (" missing "@ + "track"@));
    if bpm != 1 {
        assert(analyse_text(bpm) =~= "Analyse "@ + text::decimal(bpm) + (" missing "@
            + "tracks"@));
    }
}

/// The page takes the same devices in only once: told again, nothing changes.
/// A device that is shown again is connected, and shown as it is plugged in now;
/// one that is gone stays on the page, unconnected.
pub proof fn law_the_same_devices_change_the_page_once(
    before: DevicePanelState,
    between: DevicePanelState,
    after: DevicePanelState,
    devices: Seq<ConnectedDevice>,
    first: DeviceChange,
    second: DeviceChange,
)
    requires
        before.follows(devices, first, between),
        between.follows(devices, second, after),
    ensures
        second == DeviceChange::Nothing,
        after == between,
        first == DeviceChange::ShowAgain ==> between.connected && between.device is Some
            && between.device->0@.id == before.device->0@.id,
        first == DeviceChange::Disconnected ==> !between.connected && between.device
            == before.device,
        before.device is None ==> first == DeviceChange::Nothing,
{
    if let Some(current) = before.device {
        seqs::lemma_first_index(devices, has_id(current@.id));
    }
}

/// A part of the bar is named when the pointer comes over it, and not anew while
/// it stays there; a part without a name hides the last one.
pub proof fn law_a_part_is_named_once(
    before: HoverState,
    between: HoverState,
    after: HoverState,
    over: usize,
    named: bool,
    first: HoverStep,
    second: HoverStep,
)
    requires
        before.hovers(Some(over), named, first, between),
        between.hovers(Some(over), named, second, after),
    ensures
        named ==> second == HoverStep::Stay && (before.shown != Some(over) ==> first
            == HoverStep::Show(over)),
        !named ==> first == HoverStep::Hide && second == HoverStep::Hide,
{
}

} // verus!
