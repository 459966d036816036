use std::path::PathBuf;

use sustain_ui::commands::{artwork_selection_warning, dispatch_batch};
use sustain_ui::library::TrackId;
use sustain_ui::notices::{
    report_error, CommandError, CommandErrorKind, NotificationCategory, NotificationSeverity,
};
use sustain_ui::tasks::{
    drain_task, dropped_paths, poll_task, should_resume_consolidation, start_failure,
    LibraryManagementMode, PollStep, Polled, TaskEvent,
};
use sustain_ui::text::{
    decimal_text, format_minutes, non_empty_text, order_texts, to_ascii_uppercase, Order,
};
use sustain_ui::worker_results::{
    artwork_fetch_notice, coalesce_updates, metadata_write_notice, ArtworkFetchOutcome,
    MetadataWriteKind,
};

fn error(kind: CommandErrorKind, text: &str) -> CommandError {
    CommandError {
        kind,
        text: text.to_owned(),
    }
}

#[test]
fn consolidation_start_failure_reports_through_the_notification_center() {
    let notification = start_failure(
        NotificationCategory::LibraryConsolidation,
        &error(CommandErrorKind::Other, "the library is not managed"),
    )
    .expect("a consolidation start-failure notification");
    assert_eq!(
        notification.category,
        NotificationCategory::LibraryConsolidation
    );
    assert_eq!(notification.severity, NotificationSeverity::Error);
}

#[test]
fn scan_start_failure_reports_through_the_notification_center() {
    let notification = start_failure(
        NotificationCategory::LibraryScan,
        &error(CommandErrorKind::Other, "no library services for /music"),
    )
    .expect("a scan start-failure notification");
    assert_eq!(notification.category, NotificationCategory::LibraryScan);
    assert_eq!(notification.severity, NotificationSeverity::Error);
}

#[test]
fn an_error_that_is_shown_already_is_not_reported_again() {
    assert!(report_error(
        NotificationCategory::Command,
        &error(
            CommandErrorKind::ManagedLibraryFilesystemUnsupported,
            "unsupported"
        ),
    )
    .is_none());
    let notice = report_error(
        NotificationCategory::Command,
        &error(CommandErrorKind::Other, "it failed"),
    )
    .expect("a notice");
    assert_eq!(notice.body, "it failed");
    assert_eq!(notice.severity, NotificationSeverity::Error);
}

#[test]
fn batches_report_their_first_error_or_a_warning() {
    let all_well = dispatch_batch(vec![Ok(()), Ok(())]);
    assert_eq!((all_well.succeeded, all_well.failed), (2, 0));
    assert!(all_well.report().is_none());

    let nothing_well = dispatch_batch(vec![
        Err(error(CommandErrorKind::Other, "first")),
        Err(error(CommandErrorKind::Other, "second")),
    ]);
    let notice = nothing_well.report().expect("an error");
    assert_eq!(notice.body, "first");
    assert_eq!(notice.severity, NotificationSeverity::Error);

    let mixed = dispatch_batch(vec![
        Ok(()),
        Err(error(CommandErrorKind::Other, "first")),
        Ok(()),
    ]);
    assert_eq!((mixed.succeeded, mixed.failed), (2, 1));
    let notice = mixed.report().expect("a warning");
    assert_eq!(notice.body, "Some selected tracks could not be updated.");
    assert_eq!(notice.severity, NotificationSeverity::Warning);
}

#[test]
fn a_batch_is_silent_only_about_what_is_shown_already() {
    let shown = || {
        Err(error(
            CommandErrorKind::ManagedLibraryFilesystemUnsupported,
            "unsupported",
        ))
    };
    let other = || Err(error(CommandErrorKind::Other, "other"));

    assert!(dispatch_batch(vec![]).report().is_none());
    assert!(dispatch_batch(vec![shown(), other()]).report().is_none());
    let notice = dispatch_batch(vec![other(), shown()])
        .report()
        .expect("the first error");
    assert_eq!(notice.body, "other");
    let notice = dispatch_batch(vec![shown(), Ok(())])
        .report()
        .expect("a warning");
    assert_eq!(notice.body, "Some selected tracks could not be updated.");
}

#[test]
fn a_task_that_is_gone_has_failed() {
    assert!(matches!(
        poll_task::<u32, &str>(Polled::Disconnected, "gone"),
        PollStep::Fail("gone")
    ));
    assert!(matches!(
        poll_task::<u32, &str>(Polled::Empty, "gone"),
        PollStep::Continue
    ));
    assert!(matches!(
        poll_task::<u32, &str>(Polled::Ended(Ok(3)), "gone"),
        PollStep::Apply(3)
    ));
    assert!(matches!(
        poll_task::<u32, &str>(Polled::Ended(Err("no")), "gone"),
        PollStep::Fail("no")
    ));
}

#[test]
fn only_the_latest_progress_before_the_end_counts() {
    let drained = drain_task::<u32, u32, &str>(
        vec![
            TaskEvent::Progress(1),
            TaskEvent::Progress(2),
            TaskEvent::Finished(Ok(9)),
            TaskEvent::Progress(3),
        ],
        "gone",
    );
    assert_eq!(drained.latest_progress, Some(2));
    assert!(matches!(drained.step, PollStep::Apply(9)));

    let running = drain_task::<u32, u32, &str>(vec![TaskEvent::Progress(1)], "gone");
    assert_eq!(running.latest_progress, Some(1));
    assert!(matches!(running.step, PollStep::Continue));

    let gone = drain_task::<u32, u32, &str>(vec![TaskEvent::Disconnected], "gone");
    assert!(matches!(gone.step, PollStep::Fail("gone")));
}

#[test]
fn a_consolidation_resumes_only_for_a_managed_library_at_rest() {
    let managed = LibraryManagementMode::CopyAddedFilesIntoLibrary;
    assert!(should_resume_consolidation(managed, true, false));
    assert!(!should_resume_consolidation(managed, false, false));
    assert!(!should_resume_consolidation(managed, true, true));
    assert!(!should_resume_consolidation(
        LibraryManagementMode::ReferenceFilesInPlace,
        true,
        false
    ));
}

#[test]
fn dropped_files_need_a_path_on_this_machine() {
    assert_eq!(dropped_paths(vec![None, None]), None);
    assert_eq!(
        dropped_paths(vec![
            Some(PathBuf::from("/a")),
            None,
            Some(PathBuf::from("/b"))
        ]),
        Some(vec![PathBuf::from("/a"), PathBuf::from("/b")])
    );
}

#[test]
fn failed_writes_say_what_was_not_saved() {
    assert!(metadata_write_notice(MetadataWriteKind::Rating, true).is_none());
    assert_eq!(
        metadata_write_notice(MetadataWriteKind::Rating, false)
            .expect("a notice")
            .body,
        "Could not save the rating to the audio file."
    );
    assert_eq!(
        metadata_write_notice(MetadataWriteKind::Artwork, false)
            .expect("a notice")
            .category,
        NotificationCategory::MetadataWrite
    );
    assert_eq!(
        artwork_fetch_notice(ArtworkFetchOutcome::NoMatch).body,
        "No cover art found for this track."
    );
    assert_eq!(
        artwork_fetch_notice(ArtworkFetchOutcome::Rejected).severity,
        NotificationSeverity::Warning
    );
    assert_eq!(
        artwork_fetch_notice(ArtworkFetchOutcome::Failed).severity,
        NotificationSeverity::Error
    );
    assert_eq!(
        artwork_fetch_notice(ArtworkFetchOutcome::Fetched).severity,
        NotificationSeverity::Info
    );
}

#[test]
fn a_burst_refreshes_each_track_once() {
    let id = |value| TrackId::new(value).expect("a positive identifier");
    assert_eq!(
        coalesce_updates(&vec![id(3), id(1), id(3), id(2), id(1)]),
        vec![id(3), id(1), id(2)]
    );
}

#[test]
fn texts_are_trimmed_ordered_and_counted() {
    assert_eq!(
        non_empty_text(&Some("  a b\u{3000}".to_owned())),
        Some("a b".to_owned())
    );
    assert_eq!(non_empty_text(&Some(" \u{a0}\n".to_owned())), None);
    assert_eq!(non_empty_text(&None), None);
    assert_eq!(order_texts("ab", "abc"), Order::Before);
    assert_eq!(order_texts("b", "abc"), Order::After);
    assert_eq!(order_texts("é", "é"), Order::Same);
    assert_eq!(decimal_text(0), "0");
    assert_eq!(decimal_text(u64::MAX), "18446744073709551615");
    assert_eq!(format_minutes(3_904), "65:04");
}

#[test]
fn a_picture_that_cannot_be_used_is_warned_about() {
    let notice = artwork_selection_warning("too large");
    assert_eq!(notice.category, NotificationCategory::Command);
    assert_eq!(notice.severity, NotificationSeverity::Warning);
    assert_eq!(
        notice.body,
        "Could not use the selected artwork: too large."
    );
}

#[test]
fn ascii_letters_are_raised_and_others_stay() {
    assert_eq!(to_ascii_uppercase("flac"), "FLAC");
    assert_eq!(to_ascii_uppercase("azAZ09 é-ß"), "AZAZ09 é-ß");
    assert_eq!(to_ascii_uppercase(""), "");
}
