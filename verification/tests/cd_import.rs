use sustain_ui::cd_import::{
    format_duration, most_reasonable_release_index, release_details, release_rank,
    release_selector_label, subtitle_text, track_display, CoverLayer, DiscRelease, DiscTrack,
    OverrideField, PanelState, TocSnapshot, TocTrack,
};

fn snapshot(disc_id: &str, tracks: u32) -> TocSnapshot {
    TocSnapshot {
        device_path: "/dev/sr0".to_owned(),
        disc_id: disc_id.to_owned(),
        identity: format!("/dev/sr0 {disc_id}"),
        tracks: (1..=tracks)
            .map(|number| TocTrack {
                number,
                duration_seconds: 180,
            })
            .collect(),
    }
}

fn release_with(title: &str, tracks: usize, is_compilation: bool, year: Option<i32>) -> DiscRelease {
    DiscRelease {
        release_mbid: format!("rel-{title}"),
        title: Some(title.to_owned()),
        artist_credit: Some("The Band".to_owned()),
        year,
        country: None,
        label: None,
        is_compilation,
        tracks: (1..=tracks)
            .map(|position| DiscTrack {
                title: Some(format!("{title} track {position}")),
                artist_credit: None,
            })
            .collect(),
    }
}

fn release_named(title: &str, tracks: usize) -> DiscRelease {
    release_with(title, tracks, false, Some(2000))
}

fn panel() -> PanelState {
    PanelState::new()
}

#[test]
fn most_reasonable_prefers_album_then_earliest_pressing() {
    assert_eq!(most_reasonable_release_index(&[]), None);

    let compilation = release_with("Hits", 3, true, Some(2010));
    let album = release_with("Album", 3, false, Some(1999));
    assert_eq!(
        most_reasonable_release_index(&[compilation, album]),
        Some(1)
    );

    let reissue = release_with("Album", 3, false, Some(2015));
    let original = release_with("Album", 3, false, Some(1995));
    assert_eq!(most_reasonable_release_index(&[reissue, original]), Some(1));

    let first = release_with("Album", 3, false, Some(2000));
    let second = release_with("Album", 3, false, Some(2000));
    assert_eq!(most_reasonable_release_index(&[first, second]), Some(0));
}

#[test]
fn all_tracks_ticked_by_default_and_unticking_all_blocks_import() {
    let mut panel = panel();
    panel.show_disc(snapshot("disc-a", 3));
    assert_eq!(panel.rows.len(), 3);
    assert!(
        panel.rows.iter().all(|row| row.ticked),
        "every track is ticked on show"
    );
    assert!(panel.panel_ready_for_import());

    for index in 0..panel.rows.len() {
        panel.set_ticked(index, false);
    }
    assert!(!panel.panel_ready_for_import());
    assert!(panel.current_request().is_none());

    panel.set_ticked(0, true);
    assert!(panel.panel_ready_for_import());
    assert_eq!(panel.selected_track_numbers(), vec![1]);
}

#[test]
fn multiple_releases_preselect_the_most_reasonable_and_show_the_selector() {
    let mut panel = panel();
    panel.show_disc(snapshot("disc-a", 3));
    assert!(panel.panel_ready_for_import());

    let later = release_with("First", 3, false, Some(2010));
    let earlier = release_with("Second", 3, false, Some(1990));
    assert!(panel.apply_releases(vec![later, earlier]));
    assert!(panel.selector_visible);
    assert_eq!(panel.selected_release, Some(1), "earlier pressing");
    assert!(panel.panel_ready_for_import());
    assert_eq!(panel.title(), "Second");
}

#[test]
fn single_release_auto_selects_and_hides_the_selector() {
    let mut panel = panel();
    panel.show_disc(snapshot("disc-a", 2));
    panel.apply_releases(vec![release_named("Only", 2)]);
    assert!(!panel.selector_visible);
    assert!(panel.panel_ready_for_import());
    assert_eq!(panel.title(), "Only");
}

#[test]
fn forgetting_the_disc_clears_the_page_and_disables_import() {
    let mut panel = panel();
    panel.show_disc(snapshot("disc-a", 2));
    assert!(panel.panel_ready_for_import());
    assert!(
        !panel.import_allowed(false, false, false),
        "no configured library path keeps Import disabled"
    );
    assert!(panel.import_allowed(true, false, false));

    panel.forget_disc();
    assert!(panel.snapshot.is_none());
    assert!(!panel.panel_ready_for_import());
    assert!(!panel.import_allowed(true, false, false));
}

#[test]
fn ranks_count_what_is_known_of_a_release() {
    let mut release = release_with("Album", 3, false, Some(1995));
    assert_eq!(release_rank(&release), (1, 1, u32::MAX - 1995));
    release.label = Some("Label".to_owned());
    release.country = Some("  ".to_owned());
    assert_eq!(release_rank(&release), (1, 2, u32::MAX - 1995));
    release.is_compilation = true;
    release.year = None;
    assert_eq!(release_rank(&release), (0, 1, 0));
}

#[test]
fn an_import_waits_for_other_tasks_and_needs_a_drive() {
    let mut panel = panel();
    panel.show_disc(snapshot("disc-a", 2));
    assert!(!panel.import_allowed(true, true, false));
    assert!(!panel.import_allowed(true, false, true));
}

#[test]
fn results_without_a_disc_are_ignored() {
    let mut panel = panel();
    assert!(!panel.apply_releases(vec![release_named("Late", 2)]));
    assert!(panel.releases.is_empty());
    panel.apply_cover(Some(vec![1, 2, 3]), true);
    assert_eq!(panel.cover, None);
    assert_eq!(panel.title(), "Audio CD");
    assert_eq!(panel.subtitle(), "Unknown Artist");
}

#[test]
fn the_cover_follows_the_selected_release() {
    let mut panel = panel();
    panel.show_disc(snapshot("disc-a", 2));
    assert_eq!(panel.layer, CoverLayer::Placeholder);
    panel.mark_lookup_started();
    assert_eq!(panel.layer, CoverLayer::Searching);
    panel.apply_releases(vec![release_named("One", 2), release_named("Two", 2)]);
    panel.apply_cover(Some(vec![1]), true);
    assert_eq!(panel.layer, CoverLayer::Cover);

    assert!(panel.select_release(1));
    assert_eq!(panel.selected_release, Some(1));
    assert_eq!(panel.layer, CoverLayer::Searching);
    panel.apply_cover(Some(vec![2]), false);
    assert_eq!(panel.layer, CoverLayer::Placeholder);

    assert!(panel.select_release(7));
    assert_eq!(panel.selected_release, Some(1));
}

#[test]
fn no_candidate_leaves_the_placeholder() {
    let mut panel = panel();
    panel.show_disc(snapshot("disc-a", 2));
    panel.mark_lookup_started();
    assert!(!panel.apply_releases(Vec::new()));
    assert_eq!(panel.layer, CoverLayer::Placeholder);
    assert!(!panel.select_release(0));
}

#[test]
fn typed_titles_win_unless_they_are_blank() {
    let mut panel = panel();
    panel.show_disc(snapshot("disc-a", 2));
    panel.apply_releases(vec![release_named("Album", 2)]);
    let disc = snapshot("disc-a", 2);

    assert_eq!(
        panel.row_display(&disc, 1),
        ("Album track 1".to_owned(), "The Band".to_owned())
    );
    panel.set_track_override(1, OverrideField::Title, "Typed".to_owned());
    panel.set_track_override(1, OverrideField::Artist, "   ".to_owned());
    assert_eq!(
        panel.row_display(&disc, 1),
        ("Typed".to_owned(), "The Band".to_owned())
    );
    panel.set_track_override(1, OverrideField::Artist, "Someone".to_owned());
    assert_eq!(
        panel.row_display(&disc, 1),
        ("Typed".to_owned(), "Someone".to_owned())
    );
    assert_eq!(panel.row_display(&disc, 2).0, "Album track 2");
}

#[test]
fn an_import_takes_the_ticked_tracks_and_the_release() {
    let mut panel = panel();
    panel.show_disc(snapshot("disc-a", 3));
    panel.apply_releases(vec![release_named("Album", 3)]);
    panel.set_ticked(1, false);
    panel.set_track_override(3, OverrideField::Title, "Last".to_owned());

    let request = panel.current_request().expect("a disc with ticked tracks");
    assert_eq!(request.snapshot.disc_id, "disc-a");
    assert_eq!(request.selected_tracks, vec![1, 3]);
    assert_eq!(
        request.release.map(|release| release.release_mbid.as_str()),
        Some("rel-Album")
    );
    assert!(request.overrides.contains_key(&3));
    assert_eq!(request.overrides[&3].title.as_deref(), Some("Last"));
    assert_eq!(request.overrides[&3].artist, None);
    assert!(!request.overrides.contains_key(&1));
}

#[test]
fn unknown_discs_have_numbered_tracks() {
    let disc = snapshot("disc-a", 12);
    assert_eq!(
        track_display(&disc, None, 3),
        ("Track 03".to_owned(), String::new())
    );
    assert_eq!(
        track_display(&disc, Some(&release_named("Short", 2)), 12),
        ("Track 12".to_owned(), "The Band".to_owned())
    );
    assert_eq!(
        format_duration(&TocTrack {
            number: 1,
            duration_seconds: 245,
        }),
        "4:05"
    );
}

#[test]
fn releases_are_described_by_what_is_known() {
    let mut release = release_with("Album", 3, false, Some(1995));
    release.country = Some("GB".to_owned());
    release.label = Some("Label".to_owned());
    assert_eq!(release_details(&release), "1995 · Label · GB");
    assert_eq!(release_selector_label(&release), "Album (1995)");
    assert_eq!(
        subtitle_text(Some(&release)),
        "The Band · 1995 · Label · GB"
    );
    assert_eq!(subtitle_text(None), "Unknown Artist");
    assert_eq!(release_details(&release_with("Bare", 1, false, None)), "");
    assert_eq!(release_details(&release_named("Dated", 1)), "2000");
}
