//! Short-lived messages to the user, and the errors of commands that they
//! report.

use vstd::prelude::*;

verus! {

/// How grave a message is.
#[derive(Clone, Copy, Debug, PartialEq, Eq, Structural)]
pub enum NotificationSeverity {
    Info,
    Warning,
    Error,
}

/// What a message is about.
#[derive(Clone, Copy, Debug, PartialEq, Eq, Structural)]
pub enum NotificationCategory {
    Command,
    LibraryScan,
    LibraryConsolidation,
    DuplicateConsolidation,
    MetadataWrite,
    ArtworkFetch,
    CdImport,
    DeviceSync,
}

/// A message that fades away by itself.
#[derive(Debug)]
pub struct Notice {
    pub category: NotificationCategory,
    pub severity: NotificationSeverity,
    pub body: String,
}

/// The contents of a [`Notice`].
#[verifier::ext_equal]
pub struct NoticeView {
    pub category: NotificationCategory,
    pub severity: NotificationSeverity,
    pub body: Seq<char>,
}

impl View for Notice {
    type V = NoticeView;

    open spec fn view(&self) -> NoticeView {
        NoticeView { category: self.category, severity: self.severity, body: self.body@ }
    }
}

/// A message as a value of the specification.
pub open spec fn notice_view(notice: Option<Notice>) -> Option<NoticeView> {
    match notice {
        Some(notice) => Some(notice@),
        None => None,
    }
}

/// What the views tell apart among the errors of a command.
#[derive(Clone, Copy, Debug, PartialEq, Eq, Structural)]
pub enum CommandErrorKind {
    /// The file of the track cannot be played.
    TrackUnavailable,
    /// The file system cannot hold a managed library. A message that stays
    /// says so already.
    ManagedLibraryFilesystemUnsupported,
    Other,
}

/// The error of a command, with the text by which it is reported.
#[derive(Debug)]
pub struct CommandError {
    pub kind: CommandErrorKind,
    pub text: String,
}

/// The message for an error: none for one that is reported by a message that
/// stays.
pub open spec fn error_notice(category: NotificationCategory, error: CommandError) -> Option<
    NoticeView,
> {
    if error.kind == CommandErrorKind::ManagedLibraryFilesystemUnsupported {
        None
    } else {
        Some(NoticeView { category, severity: NotificationSeverity::Error, body: error.text@ })
    }
}

/// The message for an error.
pub fn report_error(category: NotificationCategory, error: &CommandError) -> (notice: Option<Notice>)
    ensures
        notice_view(notice) == error_notice(category, *error),
{
    if error.kind == CommandErrorKind::ManagedLibraryFilesystemUnsupported {
        None
    } else {
        Some(
            Notice { category, severity: NotificationSeverity::Error, body: error.text.clone() },
        )
    }
}

/// An error is reported with its own text, as an error, unless a message that
/// stays says so already.
pub proof fn law_an_error_is_reported_with_its_text(
    category: NotificationCategory,
    error: CommandError,
)
    ensures
        error_notice(category, error) is None <==> error.kind
            == CommandErrorKind::ManagedLibraryFilesystemUnsupported,
        error_notice(category, error) matches Some(notice) ==> notice.category == category
            && notice.severity == NotificationSeverity::Error && notice.body == error.text@,
{
}

} // verus!
