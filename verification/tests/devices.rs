use std::path::PathBuf;

use sustain_ui::cd_import::{PanelState, TocSnapshot, TocTrack};
use sustain_ui::device_panel::{
    analyse_label, analysis_status, bar_segments, genre_segments, occupation, occupation_text,
    playlist_checklist, segment_text, selected_items, shown_config, sync_allowed,
    AnalysisReadiness, ChecklistRow, ConnectedDevice, DeviceCapacity, DeviceChange, DeviceConfig,
    DeviceLayout, DevicePanelState, DeviceTarget, GenreBytes, HoverState, HoverStep, Occupation,
    PlanSnapshot, PlanState, PreSyncWarnings, SegmentTint, SettingsSection, SyncPlan, SyncPress,
};
use sustain_ui::devices_section::{
    device_entries, disc_eject_notice, drive_to_eject, eject_device, eject_notice,
    hardware_changed, lookup_ended, probes_discs, CdLookupEvent, DeviceEntry, Drive, EjectStep,
    HardwareChange, Mount,
};
use sustain_ui::library::{
    Library, Playlist, PlaylistId, PlaylistItem, SmartPlaylist, SmartPlaylistId,
};
use sustain_ui::notices::{NotificationCategory, NotificationSeverity};
use sustain_ui::pages::Page;

fn device(id: &str, mount_path: &str) -> ConnectedDevice {
    ConnectedDevice {
        id: id.to_owned(),
        label: format!("Label {id}"),
        target: DeviceTarget::Filesystem {
            mount_path: PathBuf::from(mount_path),
        },
        volume_id: Some("volume".to_owned()),
    }
}

fn disc(device_path: &str, disc_id: &str) -> TocSnapshot {
    TocSnapshot {
        device_path: device_path.to_owned(),
        disc_id: disc_id.to_owned(),
        identity: format!("{device_path} {disc_id}"),
        tracks: vec![TocTrack {
            number: 1,
            duration_seconds: 60,
        }],
    }
}

fn genre(name: Option<&str>, bytes: u64) -> GenreBytes {
    GenreBytes {
        genre: name.map(str::to_owned),
        bytes,
    }
}

fn plan(bytes_to_copy: u64, genre_bytes: Vec<GenreBytes>) -> SyncPlan {
    SyncPlan {
        bytes_total: genre_bytes.iter().map(|genre| genre.bytes).sum(),
        bytes_to_copy,
        remove_count: 2,
        genre_bytes,
    }
}

fn ready(plan: Option<SyncPlan>, total_bytes: u64, available_bytes: u64) -> PlanState {
    PlanState::Ready(PlanSnapshot {
        plan,
        capacity: DeviceCapacity {
            total_bytes,
            available_bytes,
        },
    })
}

fn complete() -> AnalysisReadiness {
    AnalysisReadiness {
        missing_bpm: 0,
        missing_key: 0,
        missing_waveform: 0,
        analyzable: 0,
    }
}

#[test]
fn the_page_keeps_the_path_of_a_device_as_it_is() {
    let mut panel = DevicePanelState::new();
    panel.show_device(device("a", "/mnt/a"));
    panel.connected_devices_changed(&[device("a", "/mnt/b/./")]);
    match panel.device.as_ref().map(|device| &device.target) {
        Some(DeviceTarget::Filesystem { mount_path }) => {
            assert_eq!(mount_path.to_str(), Some("/mnt/b/./"));
        }
        _ => panic!("a device with a file system"),
    }
}

#[test]
fn the_page_follows_its_device() {
    let mut panel = DevicePanelState::new();
    assert_eq!(
        panel.connected_devices_changed(&[device("a", "/mnt/a")]),
        DeviceChange::Nothing
    );
    panel.show_device(device("a", "/mnt/a"));
    assert!(panel.refresh_plan(true));
    assert!(!panel.refresh_plan(false));

    assert_eq!(
        panel.connected_devices_changed(&[device("b", "/mnt/b"), device("a", "/mnt/a/")]),
        DeviceChange::Nothing
    );
    assert_eq!(
        panel.connected_devices_changed(&[device("a", "/mnt/other")]),
        DeviceChange::ShowAgain
    );
    assert_eq!(
        panel.connected_devices_changed(&[device("b", "/mnt/b")]),
        DeviceChange::Disconnected
    );
    assert!(!panel.refresh_plan(true));
    assert_eq!(panel.connected_devices_changed(&[]), DeviceChange::Nothing);
    assert_eq!(
        panel.connected_devices_changed(&[device("a", "/mnt/other")]),
        DeviceChange::ShowAgain
    );
    assert!(panel.connected);

    panel.forget_device();
    assert!(panel.device.is_none());
}

#[test]
fn a_burst_of_analyses_queues_one_refresh() {
    let mut panel = DevicePanelState::new();
    panel.show_device(device("a", "/mnt/a"));
    assert_eq!(panel.rebuild(DeviceLayout::M3u), SettingsSection::Empty);
    assert!(!panel.refresh_readiness(true));
    assert_eq!(
        panel.rebuild(DeviceLayout::Pioneer),
        SettingsSection::AnalysisReadiness
    );
    assert!(!panel.refresh_readiness(false));
    assert!(panel.refresh_readiness(true));
    assert!(!panel.refresh_readiness(true));
    assert!(panel.run_queued_refresh(true));
    assert!(panel.refresh_readiness(true));
    assert!(!panel.run_queued_refresh(false));
}

#[test]
fn a_new_device_has_playlists_as_files() {
    let config = shown_config(None, &device("a", "/mnt/a"));
    assert_eq!(config.label, "Label a");
    assert_eq!(config.layout, DeviceLayout::M3u);
    assert_eq!(config.files_per_folder, None);
    let stored = shown_config(
        Some(DeviceConfig {
            label: "Stick".to_owned(),
            layout: DeviceLayout::Pioneer,
            files_per_folder: Some(99),
        }),
        &device("a", "/mnt/a"),
    );
    assert_eq!(stored.label, "Stick");
    assert_eq!(stored.files_per_folder, Some(99));
}

#[test]
fn the_checklist_gives_the_selection_back() {
    let playlist = |id| PlaylistId::new(id).expect("a positive identifier");
    let smart = SmartPlaylistId::new(1).expect("a positive identifier");
    let library = Library {
        tracks: Vec::new(),
        playlists: vec![
            Playlist {
                id: playlist(1),
                name: "One".to_owned(),
                parent_folder_id: None,
                position: 0,
                entries: Vec::new(),
            },
            Playlist {
                id: playlist(2),
                name: "Two".to_owned(),
                parent_folder_id: None,
                position: 1,
                entries: Vec::new(),
            },
        ],
        smart_playlists: vec![SmartPlaylist {
            id: smart,
            name: "Smart".to_owned(),
            parent_folder_id: None,
            position: 2,
        }],
        folders: Vec::new(),
    };
    let selection = vec![
        PlaylistItem::SmartPlaylist(smart),
        PlaylistItem::Playlist(playlist(2)),
        PlaylistItem::Playlist(playlist(9)),
    ];
    let rows = playlist_checklist(&library, &selection);
    assert_eq!(
        rows[0],
        ChecklistRow {
            item: PlaylistItem::Playlist(playlist(1)),
            ticked: false,
        }
    );
    assert_eq!(
        selected_items(&rows),
        vec![
            PlaylistItem::Playlist(playlist(2)),
            PlaylistItem::SmartPlaylist(smart)
        ]
    );
}

#[test]
fn the_bar_says_what_is_known_of_the_space() {
    assert_eq!(occupation(&PlanState::Pending, false), Occupation::Disconnected);
    assert_eq!(occupation(&PlanState::Pending, true), Occupation::Calculating);
    assert_eq!(
        occupation(&PlanState::Unavailable, true),
        Occupation::CapacityUnavailable
    );
    assert_eq!(
        occupation(&ready(None, 0, 0), true),
        Occupation::CapacityUnavailable
    );
    let small = ready(Some(plan(50, vec![genre(None, 80)])), 100, 40);
    assert_eq!(
        occupation(&small, true),
        Occupation::NotEnoughSpace {
            needed_bytes: 50,
            available_bytes: 40,
        }
    );
    assert!(!sync_allowed(&small, true));
    let large = ready(Some(plan(40, vec![genre(None, 80)])), 100, 40);
    assert_eq!(
        occupation(&large, true),
        Occupation::Occupied {
            selected_bytes: 80,
            total_bytes: 100,
        }
    );
    assert!(sync_allowed(&large, true));
    assert!(!sync_allowed(&large, false));
    assert!(!sync_allowed(&ready(None, 100, 40), true));

    assert_eq!(
        occupation_text(occupation(&small, true), "50 B", "40 B"),
        "Not enough space — 50 B needed, 40 B free"
    );
    assert_eq!(
        occupation_text(occupation(&large, true), "80 B", "100 B"),
        "80 B of 100 B"
    );
    assert_eq!(
        occupation_text(Occupation::Disconnected, "", ""),
        "Device disconnected"
    );
}

#[test]
fn the_largest_genres_have_colours_of_their_own() {
    let genres: Vec<GenreBytes> = (0..10).map(|i| genre(Some("Genre"), 100 - i)).collect();
    let plan = plan(0, genres);
    let segments = genre_segments(&plan, 2000);
    assert_eq!(segments.len(), 9);
    assert_eq!(segments[0].tint, SegmentTint::AccentHue(0));
    assert_eq!(segments[7].tint, SegmentTint::AccentHue(315));
    assert_eq!(segments[8].tint, SegmentTint::Muted);
    assert_eq!(segments[8].part, 92 + 91);
    let spanned: u64 = segments.iter().map(|segment| segment.part).sum();
    assert_eq!(spanned, plan.bytes_total);
    assert_eq!(
        segment_text(segments[8].label.as_ref().expect("a label"), "183 B"),
        "2 other genres — 183 B"
    );
    assert!(genre_segments(&plan, 0).is_empty());
}

#[test]
fn genres_without_a_name_are_unknown() {
    let segments = genre_segments(&plan(0, vec![genre(None, 5)]), 10);
    assert_eq!(segments.len(), 1);
    assert_eq!((segments[0].part, segments[0].whole), (5, 10));
    assert_eq!(
        segment_text(segments[0].label.as_ref().expect("a label"), "5 B"),
        "Unknown — 5 B"
    );
}

#[test]
fn a_full_bar_stands_for_too_little_space() {
    let small = ready(Some(plan(50, vec![genre(None, 80)])), 100, 40);
    let segments = bar_segments(&small, true);
    assert_eq!(segments.len(), 1);
    assert_eq!((segments[0].part, segments[0].whole), (1, 1));
    assert_eq!(segments[0].tint, SegmentTint::Plain);
    let segments = bar_segments(&small, false);
    assert_eq!((segments[0].part, segments[0].whole), (0, 1));
}

#[test]
fn the_bottom_bar_warns_of_gaps_on_pioneer_hardware_only() {
    let mut panel = DevicePanelState::new();
    panel.show_device(device("a", "/mnt/a"));
    let state = ready(Some(plan(40, vec![genre(None, 80)])), 100, 40);
    let gaps = AnalysisReadiness {
        missing_bpm: 1,
        missing_key: 0,
        missing_waveform: 2,
        analyzable: 1,
    };
    let bar = panel.refresh_bottom_bar(&state, Some(DeviceLayout::Pioneer), gaps);
    assert_eq!(bar.analyse.as_deref(), Some("Analyse 1 missing track"));
    assert!(bar.sync_allowed);
    assert!(bar.warnings.analysis_incomplete());
    assert_eq!(bar.warnings.remove_count, 2);
    let bar = panel.refresh_bottom_bar(&state, Some(DeviceLayout::M3u), gaps);
    assert_eq!(bar.analyse, None);
    assert!(!bar.warnings.analysis_incomplete());
}

#[test]
fn warnings_name_every_gap() {
    let warnings = PreSyncWarnings {
        missing_bpm: 3,
        missing_key: 0,
        missing_waveform: 1,
        remove_count: 1,
    };
    assert!(warnings.needs_dialog());
    assert_eq!(
        warnings.analysis_sentence().expect("a sentence"),
        "Some selected tracks are not fully analysed (3 missing BPM, 1 missing waveform). They will still sync, but that information will be missing on Pioneer players. Run Analyse first to fill the gaps."
    );
    assert_eq!(
        warnings.removal_sentence().expect("a sentence"),
        "Syncing will remove 1 track from this device that is no longer in your selected playlists."
    );
    assert_eq!(warnings.confirm_label(), "Sync and remove");
    assert_eq!(warnings.sync_pressed(true), SyncPress::Ask);
    assert_eq!(
        warnings.sync_pressed(false),
        SyncPress::Sync {
            remove_stale: false,
        }
    );

    let nothing = PreSyncWarnings {
        missing_bpm: 0,
        missing_key: 0,
        missing_waveform: 0,
        remove_count: 0,
    };
    assert!(!nothing.needs_dialog());
    assert_eq!(nothing.analysis_sentence(), None);
    assert_eq!(nothing.removal_sentence(), None);
    assert_eq!(
        nothing.sync_pressed(true),
        SyncPress::Sync { remove_stale: true }
    );

    let many = PreSyncWarnings {
        remove_count: 4,
        ..nothing
    };
    assert_eq!(
        many.removal_sentence().expect("a sentence"),
        "Syncing will remove 4 tracks from this device that are no longer in your selected playlists."
    );
    let gaps = PreSyncWarnings {
        missing_key: 1,
        ..nothing
    };
    assert_eq!(gaps.confirm_label(), "Sync anyway");
}

#[test]
fn analyses_are_complete_or_counted() {
    assert_eq!(analysis_status(0), "Complete");
    assert_eq!(analysis_status(12), "12 missing");
    assert_eq!(analyse_label(complete()), None);
    let many = AnalysisReadiness {
        analyzable: 5,
        ..complete()
    };
    assert_eq!(
        analyse_label(many).as_deref(),
        Some("Analyse 5 missing tracks")
    );
}

#[test]
fn a_part_of_the_bar_is_named_once_while_it_is_pointed_at() {
    let mut hover = HoverState::new();
    assert_eq!(hover.pointed(Some(1), true), HoverStep::Show(1));
    assert_eq!(hover.pointed(Some(1), true), HoverStep::Stay);
    assert_eq!(hover.pointed(Some(2), true), HoverStep::Show(2));
    assert_eq!(hover.pointed(Some(3), false), HoverStep::Hide);
    assert_eq!(hover.pointed(Some(2), true), HoverStep::Show(2));
    assert_eq!(hover.pointed(None, true), HoverStep::Hide);
}

#[test]
fn devices_come_before_discs() {
    let entries = device_entries(vec![device("a", "/mnt/a")], vec![disc("/dev/sr0", "d")]);
    assert_eq!(entries.len(), 2);
    assert!(matches!(&entries[0], DeviceEntry::SyncTarget(device) if device.id == "a"));
    assert!(matches!(&entries[1], DeviceEntry::AudioCd(disc) if disc.disc_id == "d"));
    assert!(probes_discs(false));
    assert!(!probes_discs(true));
}

#[test]
fn lost_hardware_takes_its_page_away() {
    let shown_disc = disc("/dev/sr0", "d");
    let shown_device = device("a", "/mnt/a");
    let change = |discs: &[TocSnapshot], devices: &[ConnectedDevice], page| {
        hardware_changed(Some(&shown_disc), discs, Some(&shown_device), devices, page)
    };
    assert_eq!(
        change(
            &[disc("/dev/sr0", "d")],
            &[device("a", "/mnt/a")],
            Some(Page::CdImport)
        ),
        HardwareChange {
            forget_disc: false,
            restore_selection: false,
        }
    );
    assert_eq!(
        change(
            &[disc("/dev/sr0", "e")],
            &[device("a", "/mnt/a")],
            Some(Page::CdImport)
        ),
        HardwareChange {
            forget_disc: true,
            restore_selection: true,
        }
    );
    assert_eq!(
        change(&[], &[device("a", "/mnt/a")], Some(Page::Songs)),
        HardwareChange {
            forget_disc: true,
            restore_selection: false,
        }
    );
    assert_eq!(
        change(&[disc("/dev/sr0", "d")], &[], Some(Page::Devices)),
        HardwareChange {
            forget_disc: false,
            restore_selection: true,
        }
    );
}

#[test]
fn lookups_of_another_disc_are_dropped() {
    let mut panel = PanelState::new();
    panel.show_disc(disc("/dev/sr0", "d"));
    let event = || CdLookupEvent::Releases {
        releases: Vec::new(),
        failed: true,
    };
    let outcome = lookup_ended(&mut panel, event(), false);
    assert!(outcome.notice.is_none());
    let outcome = lookup_ended(&mut panel, event(), true);
    let notice = outcome.notice.expect("a notice");
    assert_eq!(notice.category, NotificationCategory::CdImport);
    assert_eq!(notice.severity, NotificationSeverity::Warning);
    assert_eq!(
        notice.body,
        "Could not reach MusicBrainz; using fallback CD metadata."
    );
    assert!(!outcome.fetch_cover);
    lookup_ended(
        &mut panel,
        CdLookupEvent::Cover {
            cover: Some(vec![7]),
            decoded: true,
        },
        true,
    );
    assert_eq!(panel.cover, Some(vec![7]));
}

#[test]
fn the_drive_of_a_disc_is_ejected() {
    let drives = vec![
        Drive {
            device: None,
            can_eject: true,
        },
        Drive {
            device: Some("/dev/sr0".to_owned()),
            can_eject: true,
        },
        Drive {
            device: Some("/dev/sr1".to_owned()),
            can_eject: false,
        },
    ];
    assert_eq!(drive_to_eject(&drives, &"/dev/sr0".to_owned()), Some(1));
    assert_eq!(drive_to_eject(&drives, &"/dev/sr1".to_owned()), None);
    assert_eq!(drive_to_eject(&drives, &"/dev/sr2".to_owned()), None);
    assert!(disc_eject_notice(false).is_none());
    assert_eq!(
        disc_eject_notice(true).expect("a notice").body,
        "Could not eject the disc."
    );
}

#[test]
fn devices_are_ejected_or_else_unmounted() {
    let mount = |root: &str, can_eject, can_unmount| Mount {
        root: Some(PathBuf::from(root)),
        can_eject,
        can_unmount,
    };
    let target = device("a", "/mnt/a").target;
    let step = |mounts: Vec<Mount>| eject_device(&target, &mounts);
    assert_eq!(step(Vec::new()), EjectStep::NotFound);
    assert_eq!(
        step(vec![mount("/mnt/b", true, true), mount("/mnt/a/", true, true)]),
        EjectStep::Eject(1)
    );
    assert_eq!(
        step(vec![mount("/mnt/a", false, true)]),
        EjectStep::Unmount(0)
    );
    assert_eq!(
        step(vec![mount("/mnt/a", false, false)]),
        EjectStep::Impossible
    );
    let phone = DeviceTarget::Protocol {
        location: "mtp://phone".to_owned(),
    };
    assert_eq!(eject_device(&phone, &[]), EjectStep::Nothing);

    assert!(eject_notice(EjectStep::Nothing, true).is_none());
    assert!(eject_notice(EjectStep::Eject(0), false).is_none());
    assert!(eject_notice(EjectStep::Unmount(0), false).is_none());
    let body = |step, failed| eject_notice(step, failed).expect("a notice").body;
    assert_eq!(
        body(EjectStep::NotFound, false),
        "Could not find the mounted device to eject."
    );
    assert_eq!(
        body(EjectStep::Eject(0), true),
        "Could not eject the device."
    );
    assert_eq!(
        body(EjectStep::Unmount(0), true),
        "Could not unmount the device."
    );
    assert_eq!(
        body(EjectStep::Impossible, false),
        "This device cannot be ejected by the desktop."
    );
}
