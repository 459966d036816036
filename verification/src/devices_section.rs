//! The section of the sidebar that lists devices and discs: what it shows, what
//! happens when hardware goes away, and how hardware is ejected.

use std::path::PathBuf;

use vstd::prelude::*;

use crate::cd_import;
use crate::cd_import::{DiscRelease, PanelState, TocSnapshot};
use crate::device_panel;
use crate::device_panel::{find_device, ConnectedDevice, DeviceTarget};
use crate::notices;
use crate::notices::{Notice, NotificationCategory, NotificationSeverity};
use crate::pages::Page;
use crate::paths;
use crate::paths::same_path;
use crate::seqs;

verus! {

// ---------------------------------------------------------------------------
// Entries
// ---------------------------------------------------------------------------

/// An entry of the section.
#[derive(Debug)]
pub enum DeviceEntry {
    SyncTarget(ConnectedDevice),
    AudioCd(TocSnapshot),
}

/// The entries of the section: the devices, then the discs.
pub open spec fn entries_of(devices: Seq<ConnectedDevice>, discs: Seq<TocSnapshot>) -> Seq<
    DeviceEntry,
> {
    devices.map_values(|device: ConnectedDevice| DeviceEntry::SyncTarget(device))
        + discs.map_values(|disc: TocSnapshot| DeviceEntry::AudioCd(disc))
}

/// The entries of the section.
pub fn device_entries(devices: Vec<ConnectedDevice>, discs: Vec<TocSnapshot>) -> (entries: Vec<
    DeviceEntry,
>)
    ensures
        entries@ == entries_of(devices@, discs@),
{
    let ghost given_devices = devices@;
    let ghost given_discs = discs@;
    let ghost all = entries_of(devices@, discs@);
    let mut devices = devices;
    let mut discs = discs;
    let mut entries: Vec<DeviceEntry> = Vec::new();
    let ghost mut done: int = 0;
    assert(given_devices.skip(0) =~= given_devices);
    while devices.len() > 0
        invariant
            all == entries_of(given_devices, given_discs),
            0 <= done <= given_devices.len(),
            devices@ == given_devices.skip(done),
            entries@ == all.take(done),
        decreases devices.len(),
    {
        let device = devices.remove(0);
        entries.push(DeviceEntry::SyncTarget(device));
        proof {
            assert(entries@ =~= all.take(done + 1));
            assert(devices@ =~= given_devices.skip(done + 1));
            done = done + 1;
        }
    }
    let ghost mut more: int = 0;
    assert(given_discs.skip(0) =~= given_discs);
    while discs.len() > 0
        invariant
            all == entries_of(given_devices, given_discs),
            0 <= more <= given_discs.len(),
            discs@ == given_discs.skip(more),
            entries@ == all.take(given_devices.len() + more),
        decreases discs.len(),
    {
        let disc = discs.remove(0);
        entries.push(DeviceEntry::AudioCd(disc));
        proof {
            assert(entries@ =~= all.take(given_devices.len() + more + 1));
            assert(discs@ =~= given_discs.skip(more + 1));
            more = more + 1;
        }
    }
    assert(entries@ =~= all);
    entries
}

// ---------------------------------------------------------------------------
// Changes
// ---------------------------------------------------------------------------

/// What the drives are asked while something is done with them: nothing while a
/// disc is imported, which owns its drive.
pub fn probes_discs(cd_import_running: bool) -> (probe: bool)
    ensures
        probe == !cd_import_running,
{
    !cd_import_running
}

/// What a change of the hardware does to the pages.
#[derive(Clone, Copy, Debug, PartialEq, Eq, Structural)]
pub struct HardwareChange {
    /// The disc on the page is gone: it is forgotten, and what is looked up for
    /// it is given up.
    pub forget_disc: bool,
    /// The page in sight has lost what it shows: the selection beneath it is
    /// restored.
    pub restore_selection: bool,
}

/// A disc is among some discs.
pub open spec fn disc_present(discs: Seq<TocSnapshot>, disc: TocSnapshot) -> bool {
    exists|i: int|
        0 <= i < discs.len() && (#[trigger] discs[i]).identity@ == disc.identity@
}

/// A device is among some devices.
pub open spec fn device_present(devices: Seq<ConnectedDevice>, device: ConnectedDevice) -> bool {
    seqs::first_where(devices, device_panel::has_id(device@.id)) is Some
}

fn has_disc(discs: &[TocSnapshot], disc: &TocSnapshot) -> (present: bool)
    ensures
        present == disc_present(discs@, *disc),
{
    let ghost wanted = |other: TocSnapshot| other.identity@ == disc.identity@;
    let test = |other: &TocSnapshot| -> (same: bool)
        ensures
            same == (other.identity@ == disc.identity@),
    {
        other.identity == disc.identity
    };
    proof {
        seqs::lemma_first_index(discs@, wanted);
    }
    seqs::find_first(discs, test, Ghost(wanted)).is_some()
}

/// What is left of the pages when these devices and discs are there.
pub open spec fn change_of(
    shown_disc: Option<TocSnapshot>,
    discs: Seq<TocSnapshot>,
    shown_device: Option<ConnectedDevice>,
    devices: Seq<ConnectedDevice>,
    page: Option<Page>,
) -> HardwareChange {
    let disc_gone = shown_disc is Some && !disc_present(discs, shown_disc->0);
    let device_gone = shown_device is Some && !device_present(devices, shown_device->0);
    HardwareChange {
        forget_disc: disc_gone,
        restore_selection: disc_gone && page == Some(Page::CdImport) || device_gone && page == Some(
            Page::Devices,
        ),
    }
}

/// Takes in which devices and discs there are.
pub fn hardware_changed(
    shown_disc: Option<&TocSnapshot>,
    discs: &[TocSnapshot],
    shown_device: Option<&ConnectedDevice>,
    devices: &[ConnectedDevice],
    page: Option<Page>,
) -> (change: HardwareChange)
    ensures
        change == change_of(
            cd_import::unborrowed(shown_disc),
            discs@,
            cd_import::unborrowed(shown_device),
            devices@,
            page,
        ),
{
    let disc_gone = match shown_disc {
        Some(disc) => !has_disc(discs, disc),
        None => false,
    };
    let device_gone = match shown_device {
        Some(device) => find_device(devices, &device.id).is_none(),
        None => false,
    };
    let restore_selection = match page {
        Some(Page::CdImport) => disc_gone,
        Some(Page::Devices) => device_gone,
        _ => false,
    };
    HardwareChange { forget_disc: disc_gone, restore_selection }
}

/// Hardware that stays, and hardware that is not in sight, takes nobody off a
/// page.
pub proof fn law_only_lost_hardware_moves_the_view(
    shown_disc: Option<TocSnapshot>,
    discs: Seq<TocSnapshot>,
    shown_device: Option<ConnectedDevice>,
    devices: Seq<ConnectedDevice>,
    page: Option<Page>,
)
    ensures
        page != Some(Page::CdImport) && page != Some(Page::Devices) ==> !change_of(
            shown_disc,
            discs,
            shown_device,
            devices,
            page,
        ).restore_selection,
        shown_disc is Some && discs.contains(shown_disc->0) && shown_device is Some
            && devices.contains(shown_device->0) ==> change_of(
            shown_disc,
            discs,
            shown_device,
            devices,
            page,
        ) == (HardwareChange { forget_disc: false, restore_selection: false }),
{
    if shown_disc is Some && discs.contains(shown_disc->0) && shown_device is Some
        && devices.contains(shown_device->0) {
        let i = discs.index_of(shown_disc->0);
        assert(discs[i].identity@ == shown_disc->0.identity@);
        let wanted = device_panel::has_id(shown_device->0@.id);
        seqs::lemma_first_index(devices, wanted);
        let k = devices.index_of(shown_device->0);
        assert(wanted(devices[k]));
    }
}

// ---------------------------------------------------------------------------
// Lookups
// ---------------------------------------------------------------------------

/// A result of looking a disc up.
#[derive(Debug)]
pub enum CdLookupEvent {
    Releases { releases: Vec<DiscRelease>, failed: bool },
    Cover { cover: Option<Vec<u8>>, decoded: bool },
}

/// What a result leads to.
#[derive(Debug)]
pub struct LookupOutcome {
    pub notice: Option<Notice>,
    pub fetch_cover: bool,
}

/// Says that a lookup failed.
pub open spec fn lookup_failed_notice() -> notices::NoticeView {
    notices::NoticeView {
        category: NotificationCategory::CdImport,
        severity: NotificationSeverity::Warning,
        body: "Could not reach MusicBrainz; using fallback CD metadata."@,
    }
}

/// `after` is the page once a result of looking a disc up has come in, and
/// `outcome` what follows.
pub open spec fn looked_up(
    before: PanelState,
    after: PanelState,
    event: CdLookupEvent,
    current: bool,
    outcome: LookupOutcome,
) -> bool {
    &&& !current ==> after == before && !outcome.fetch_cover && outcome.notice is None
    &&& current ==> match event {
        CdLookupEvent::Releases { releases, failed } => {
            &&& notices::notice_view(outcome.notice) == if failed {
                Some(lookup_failed_notice())
            } else {
                None
            }
            &&& before.takes_releases(after, releases, outcome.fetch_cover)
        },
        CdLookupEvent::Cover { cover, decoded } => {
            &&& outcome.notice is None
            &&& !outcome.fetch_cover
            &&& after == before.with_cover(cover, decoded)
        },
    }
}

/// Takes in a result of looking a disc up, unless it belongs to a disc that is
/// no longer on the page.
pub fn lookup_ended(panel: &mut PanelState, event: CdLookupEvent, current: bool) -> (outcome:
    LookupOutcome)
    requires
        old(panel).wf(),
    ensures
        final(panel).wf(),
        looked_up(*old(panel), *final(panel), event, current, outcome),
{
    if !current {
        return LookupOutcome { notice: None, fetch_cover: false };
    }
    match event {
        CdLookupEvent::Releases { releases, failed } => {
            let notice = if failed {
                Some(
                    Notice {
                        category: NotificationCategory::CdImport,
                        severity: NotificationSeverity::Warning,
                        body: "Could not reach MusicBrainz; using fallback CD metadata.".to_owned(),
                    },
                )
            } else {
                None
            };
            let fetch_cover = panel.apply_releases(releases);
            LookupOutcome { notice, fetch_cover }
        },
        CdLookupEvent::Cover { cover, decoded } => {
            panel.apply_cover(cover, decoded);
            LookupOutcome { notice: None, fetch_cover: false }
        },
    }
}

// ---------------------------------------------------------------------------
// Ejecting
// ---------------------------------------------------------------------------

/// A drive, and whether it can be ejected.
#[derive(Debug)]
pub struct Drive {
    pub device: Option<String>,
    pub can_eject: bool,
}

/// The property of being the drive of a device.
pub open spec fn is_drive(device: Seq<char>) -> spec_fn(Drive) -> bool {
    |drive: Drive| drive.device is Some && drive.device->0@ == device
}

/// Which drive is ejected for a disc, if any.
pub open spec fn drive_of(drives: Seq<Drive>, device: Seq<char>) -> Option<int> {
    let found = seqs::first_index(drives, is_drive(device));
    if found < drives.len() && drives[found].can_eject {
        Some(found)
    } else {
        None
    }
}

/// Which drive is ejected for a disc, if any: that of the disc's device, where
/// it can be ejected at all.
pub fn drive_to_eject(drives: &[Drive], device: &String) -> (chosen: Option<usize>)
    ensures
        match chosen {
            Some(index) => drive_of(drives@, device@) == Some(index as int),
            None => drive_of(drives@, device@) is None,
        },
{
    let test = |drive: &Drive| -> (matching: bool)
        ensures
            matching == is_drive(device@)(*drive),
    {
        match &drive.device {
            Some(name) => *name == *device,
            None => false,
        }
    };
    match seqs::find_first(drives, test, Ghost(is_drive(device@))) {
        Some(index) => if drives[index].can_eject {
            Some(index)
        } else {
            None
        },
        None => None,
    }
}

/// A mounted file system, and what can be done with it.
#[derive(Debug)]
pub struct Mount {
    pub root: Option<PathBuf>,
    pub can_eject: bool,
    pub can_unmount: bool,
}

/// How a device is ejected.
#[derive(Clone, Copy, Debug, PartialEq, Eq, Structural)]
pub enum EjectStep {
    /// It is not mounted as a file system.
    Nothing,
    /// It is no longer mounted.
    NotFound,
    Eject(usize),
    Unmount(usize),
    /// It can be neither ejected nor unmounted.
    Impossible,
}

/// The property of being mounted at a path.
pub open spec fn mounted_at(path: PathBuf) -> spec_fn(Mount) -> bool {
    |mount: Mount|
        mount.root is Some && paths::components(mount.root) == paths::components(
            Some(path),
        )
}

/// How a device is ejected: it is ejected where that is possible, and else
/// unmounted.
pub open spec fn eject_of(target: DeviceTarget, mounts: Seq<Mount>) -> EjectStep {
    match target {
        DeviceTarget::Protocol { .. } => EjectStep::Nothing,
        DeviceTarget::Filesystem { mount_path } => {
            let found = seqs::first_index(mounts, mounted_at(mount_path));
            if found >= mounts.len() {
                EjectStep::NotFound
            } else if mounts[found].can_eject {
                EjectStep::Eject(found as usize)
            } else if mounts[found].can_unmount {
                EjectStep::Unmount(found as usize)
            } else {
                EjectStep::Impossible
            }
        },
    }
}

/// How a device is ejected.
pub fn eject_device(target: &DeviceTarget, mounts: &[Mount]) -> (step: EjectStep)
    ensures
        step == eject_of(*target, mounts@),
{
    let path = match target {
        DeviceTarget::Protocol { .. } => {
            return EjectStep::Nothing;
        },
        DeviceTarget::Filesystem { mount_path } => mount_path,
    };
    let test = |mount: &Mount| -> (matching: bool)
        ensures
            matching == mounted_at(*path)(*mount),
    {
        match &mount.root {
            Some(root) => same_path(root, path),
            None => false,
        }
    };
    match seqs::find_first(mounts, test, Ghost(mounted_at(*path))) {
        Some(index) => if mounts[index].can_eject {
            EjectStep::Eject(index)
        } else if mounts[index].can_unmount {
            EjectStep::Unmount(index)
        } else {
            EjectStep::Impossible
        },
        None => EjectStep::NotFound,
    }
}

/// What is said of a device that cannot be ejected, or whose ejection failed.
pub open spec fn eject_message(step: EjectStep, failed: bool) -> Option<Seq<char>> {
    match step {
        EjectStep::Nothing => None,
        EjectStep::NotFound => Some("Could not find the mounted device to eject."@),
        EjectStep::Impossible => Some("This device cannot be ejected by the desktop."@),
        EjectStep::Eject(_) => if failed {
            Some("Could not eject the device."@)
        } else {
            None
        },
        EjectStep::Unmount(_) => if failed {
            Some("Could not unmount the device."@)
        } else {
            None
        },
    }
}

/// What is said of a device that cannot be ejected, or whose ejection failed.
pub fn eject_notice(step: EjectStep, failed: bool) -> (notice: Option<Notice>)
    ensures
        notices::notice_view(notice) == match eject_message(step, failed) {
            Some(body) => Some(
                notices::NoticeView {
                    category: NotificationCategory::DeviceSync,
                    severity: NotificationSeverity::Warning,
                    body,
                },
            ),
            None => None,
        },
{
    let body = match step {
        EjectStep::Nothing => {
            return None;
        },
        EjectStep::NotFound => "Could not find the mounted device to eject.",
        EjectStep::Impossible => "This device cannot be ejected by the desktop.",
        EjectStep::Eject(_) => {
            if !failed {
                return None;
            }
            "Could not eject the device."
        },
        EjectStep::Unmount(_) => {
            if !failed {
                return None;
            }
            "Could not unmount the device."
        },
    };
    Some(
        Notice {
            category: NotificationCategory::DeviceSync,
            severity: NotificationSeverity::Warning,
            body: body.to_owned(),
        },
    )
}

/// What is said of a disc whose ejection ended.
pub fn disc_eject_notice(failed: bool) -> (notice: Option<Notice>)
    ensures
        notices::notice_view(notice) == if failed {
            Some(
                notices::NoticeView {
                    category: NotificationCategory::CdImport,
                    severity: NotificationSeverity::Warning,
                    body: "Could not eject the disc."@,
                },
            )
        } else {
            None
        },
{
    if failed {
        Some(
            Notice {
                category: NotificationCategory::CdImport,
                severity: NotificationSeverity::Warning,
                body: "Could not eject the disc.".to_owned(),
            },
        )
    } else {
        None
    }
}

/// The section lists all devices, in their order, and behind them all discs.
pub proof fn law_devices_are_listed_before_discs(
    devices: Seq<ConnectedDevice>,
    discs: Seq<TocSnapshot>,
    i: int,
)
    ensures
        entries_of(devices, discs).len() == devices.len() + discs.len(),
        0 <= i < devices.len() ==> entries_of(devices, discs)[i] == DeviceEntry::SyncTarget(
            devices[i],
        ),
        0 <= i < discs.len() ==> entries_of(devices, discs)[devices.len() + i]
            == DeviceEntry::AudioCd(discs[i]),
{
}

/// A disc is forgotten iff it is shown and no disc is known as it is. The view
/// moves iff the page in sight has lost what it shows: the page of discs its
/// disc, or the page of devices its device.
pub proof fn law_lost_hardware_is_let_go(
    shown_disc: Option<TocSnapshot>,
    discs: Seq<TocSnapshot>,
    shown_device: Option<ConnectedDevice>,
    devices: Seq<ConnectedDevice>,
    page: Option<Page>,
)
    ensures
        ({
            let change = change_of(shown_disc, discs, shown_device, devices, page);
            let disc_gone = shown_disc is Some && forall|i: int|
                0 <= i < discs.len() ==> (#[trigger] discs[i]).identity@
                    != shown_disc->0.identity@;
            let device_gone = shown_device is Some && forall|i: int|
                0 <= i < devices.len() ==> (#[trigger] devices[i]).id@ != shown_device->0.id@;
            &&& change.forget_disc == disc_gone
            &&& page == Some(Page::CdImport) ==> change.restore_selection == disc_gone
            &&& page == Some(Page::Devices) ==> change.restore_selection == device_gone
            &&& page != Some(Page::CdImport) && page != Some(Page::Devices)
                ==> !change.restore_selection
        }),
{
    if let Some(device) = shown_device {
        let wanted = device_panel::has_id(device@.id);
        seqs::lemma_first_index(devices, wanted);
        let k = seqs::first_index(devices, wanted);
        if k < devices.len() {
            assert(wanted(devices[k]));
            assert(devices[k].id@ == device.id@);
        } else {
            assert forall|i: int| 0 <= i < devices.len() implies (#[trigger] devices[i]).id@
                != device.id@ by {
                assert(!wanted(devices[i]));
            }
        }
    }
}

/// A device is ejected from where it is mounted: it is ejected where that can be
/// done, else unmounted where that can be done. One that is not mounted is not
/// found, and one without a file system is left alone.
pub proof fn law_a_device_is_ejected_where_it_is_mounted(
    path: PathBuf,
    mounts: Seq<Mount>,
    at: int,
)
    requires
        0 <= at <= mounts.len(),
        mounts.len() <= usize::MAX,
        forall|i: int|
            0 <= i < at ==> paths::components((#[trigger] mounts[i]).root) != paths::components(
                Some(path),
            ),
        at < mounts.len() ==> paths::components(mounts[at].root) == paths::components(Some(path)),
    ensures
        ({
            let step = eject_of(DeviceTarget::Filesystem { mount_path: path }, mounts);
            &&& at == mounts.len() <==> step == EjectStep::NotFound
            &&& at < mounts.len() && mounts[at].can_eject ==> step == EjectStep::Eject(at as usize)
            &&& at < mounts.len() && !mounts[at].can_eject && mounts[at].can_unmount ==> step
                == EjectStep::Unmount(at as usize)
            &&& at < mounts.len() && !mounts[at].can_eject && !mounts[at].can_unmount ==> step
                == EjectStep::Impossible
        }),
        forall|location: String|
            #[trigger] eject_of(DeviceTarget::Protocol { location }, mounts) == EjectStep::Nothing,
{
    assert forall|i: int| 0 <= i < at implies !mounted_at(path)(#[trigger] mounts[i]) by {
        assert(paths::components(mounts[i].root) != paths::components(Some(path)));
    }
    seqs::lemma_is_first_index(mounts, mounted_at(path), at);
}

/// The drive that is ejected is the first that holds the disc's device, and none
/// where that one cannot be ejected.
pub proof fn law_the_drive_of_the_disc_is_ejected(drives: Seq<Drive>, device: Seq<char>, at: int)
    requires
        0 <= at < drives.len(),
        drives[at].device is Some && drives[at].device->0@ == device,
        forall|i: int|
            0 <= i < at ==> !((#[trigger] drives[i]).device is Some && drives[i].device->0@
                == device),
    ensures
        drives[at].can_eject ==> drive_of(drives, device) == Some(at),
        !drives[at].can_eject ==> drive_of(drives, device) is None,
{
    seqs::lemma_is_first_index(drives, is_drive(device), at);
}

/// A disc whose drive is not there is not ejected.
pub proof fn law_no_other_drive_is_ejected(drives: Seq<Drive>, device: Seq<char>)
    ensures
        drive_of(drives, device) matches Some(at) ==> 0 <= at < drives.len()
            && drives[at].can_eject && drives[at].device is Some && drives[at].device->0@ == device,
{
    seqs::lemma_first_index(drives, is_drive(device));
}

/// A result for a disc that is no longer on the page changes nothing; a lookup
/// that failed is warned of, and a cover is never reported.
pub proof fn law_an_outdated_lookup_changes_nothing(
    before: PanelState,
    after: PanelState,
    event: CdLookupEvent,
    current: bool,
    outcome: LookupOutcome,
)
    requires
        looked_up(before, after, event, current, outcome),
    ensures
        !current ==> after == before && outcome.notice is None && !outcome.fetch_cover,
        outcome.notice is Some <==> current && (event matches CdLookupEvent::Releases {
            failed,
            ..
        } && failed),
        outcome.notice matches Some(notice) ==> notice.severity == NotificationSeverity::Warning,
        event is Cover ==> !outcome.fetch_cover,
{
}

/// What is said of an ejection: nothing where it went well or nothing was done,
/// and each way in which it can go wrong in words of its own.
pub proof fn law_a_failed_ejection_is_told(step: EjectStep, failed: bool)
    ensures
        eject_message(step, failed) is None <==> step is Nothing || (!failed && (step is Eject
            || step is Unmount)),
        step is NotFound || step is Impossible ==> eject_message(step, failed) == eject_message(
            step,
            !failed,
        ),
{
}

} // verus!
