//! Tracks whose files are gone: offering to locate one when it is played, and
//! playing it once it was found.

use std::collections::HashMap;

use vstd::prelude::*;

use crate::library::TrackId;
use crate::notices;
use crate::notices::{report_error, CommandError, CommandErrorKind, Notice, NotificationCategory,
    NotificationSeverity};
use crate::playback::PlaybackQueueRequest;

verus! {

/// What follows an attempt to play a track.
#[derive(Debug)]
pub enum PlayAttempt {
    /// The track plays.
    Playing,
    /// The track's file is gone: the user is asked where it is.
    Locate,
    /// The attempt failed, with this message, if any.
    Failed(Option<Notice>),
}

/// `attempt` is what follows an attempt to play a track.
pub open spec fn attempted(
    result: Result<(), CommandError>,
    track_is_missing: Option<bool>,
    attempt: PlayAttempt,
) -> bool {
    match (result, attempt) {
        (Ok(()), PlayAttempt::Playing) => true,
        (Err(error), PlayAttempt::Locate) => error.kind == CommandErrorKind::TrackUnavailable
            && track_is_missing == Some(true),
        (Err(error), PlayAttempt::Failed(notice)) => !(error.kind
            == CommandErrorKind::TrackUnavailable && track_is_missing == Some(true))
            && notices::notice_view(notice) == notices::error_notice(
            NotificationCategory::Command,
            error,
        ),
        _ => false,
    }
}

/// What follows an attempt to play a track. Only a track that the library holds
/// as missing is worth locating.
pub fn play_track_or_offer_locate(
    result: Result<(), CommandError>,
    track_is_missing: Option<bool>,
) -> (attempt: PlayAttempt)
    ensures
        attempted(result, track_is_missing, attempt),
{
    match result {
        Ok(()) => PlayAttempt::Playing,
        Err(error) => {
            if error.kind == CommandErrorKind::TrackUnavailable && track_is_missing.unwrap_or(
                false,
            ) {
                PlayAttempt::Locate
            } else {
                PlayAttempt::Failed(report_error(NotificationCategory::Command, &error))
            }
        },
    }
}

/// The queues with which missing tracks are played once they are found.
pub struct PendingLocatedPlaybacks {
    queues: HashMap<i64, PlaybackQueueRequest>,
}

impl View for PendingLocatedPlaybacks {
    type V = Map<i64, PlaybackQueueRequest>;

    closed spec fn view(&self) -> Map<i64, PlaybackQueueRequest> {
        self.queues@
    }
}

/// What follows the relocation of a missing track.
#[derive(Debug)]
pub struct RelocationOutcome {
    /// The cover of the track is read anew.
    pub invalidate_artwork: bool,
    /// The track is played with this queue.
    pub play: Option<PlaybackQueueRequest>,
}

/// `after` are the queues that wait once the relocation of a track has ended,
/// and `outcome` is what follows.
pub open spec fn relocated(
    before: Map<i64, PlaybackQueueRequest>,
    after: Map<i64, PlaybackQueueRequest>,
    track_id: TrackId,
    succeeded: bool,
    outcome: RelocationOutcome,
) -> bool {
    &&& after == before.remove(track_id.value)
    &&& outcome.invalidate_artwork == succeeded
    &&& outcome.play == if succeeded && before.contains_key(track_id.value) {
        Some(before[track_id.value])
    } else {
        None
    }
}

impl PendingLocatedPlaybacks {
    /// No track waits to be found.
    pub fn new() -> (pending: Self)
        ensures
            pending@ == Map::<i64, PlaybackQueueRequest>::empty(),
    {
        PendingLocatedPlaybacks { queues: HashMap::new() }
    }

    /// A track is to be played with this queue once it is found.
    pub fn remember(&mut self, track_id: TrackId, queue: PlaybackQueueRequest)
        ensures
            final(self)@ == old(self)@.insert(track_id.value, queue),
    {
        self.queues.insert(track_id.value, queue);
    }

    /// The search for a track was given up.
    pub fn forget(&mut self, track_id: TrackId)
        ensures
            final(self)@ == old(self)@.remove(track_id.value),
    {
        self.queues.remove(&track_id.value);
    }

    /// The relocation of a track has ended. One that failed is forgotten; one
    /// that succeeded is played, if its queue was remembered.
    pub fn relocation_completed(&mut self, track_id: TrackId, succeeded: bool) -> (outcome:
        RelocationOutcome)
        ensures
            relocated(old(self)@, final(self)@, track_id, succeeded, outcome),
    {
        let queue = self.queues.remove(&track_id.value);
        if succeeded {
            RelocationOutcome { invalidate_artwork: true, play: queue }
        } else {
            RelocationOutcome { invalidate_artwork: false, play: None }
        }
    }
}

/// A track that was remembered with a queue is played with that queue once it is
/// found, and only once; one that is not found is not played. The queues of
/// other tracks go on waiting.
pub proof fn law_a_found_track_is_played_once_with_its_queue(
    waiting: Map<i64, PlaybackQueueRequest>,
    between: Map<i64, PlaybackQueueRequest>,
    after: Map<i64, PlaybackQueueRequest>,
    track_id: TrackId,
    queue: PlaybackQueueRequest,
    succeeded: bool,
    again: bool,
    first: RelocationOutcome,
    second: RelocationOutcome,
    other: i64,
)
    requires
        relocated(waiting.insert(track_id.value, queue), between, track_id, succeeded, first),
        relocated(between, after, track_id, again, second),
        other != track_id.value,
    ensures
        succeeded ==> first.play == Some(queue) && first.invalidate_artwork,
        !succeeded ==> first.play is None && !first.invalidate_artwork,
        second.play is None,
        after.contains_key(other) <==> waiting.contains_key(other),
        waiting.contains_key(other) ==> after[other] == waiting[other],
{
}

/// The user is asked to locate a track only if it could not be played and its
/// file is known to be missing; every other failure is reported as an error.
pub proof fn law_only_a_missing_file_is_located(
    result: Result<(), CommandError>,
    track_is_missing: Option<bool>,
    attempt: PlayAttempt,
)
    requires
        attempted(result, track_is_missing, attempt),
    ensures
        attempt is Playing <==> result is Ok,
        attempt is Locate ==> track_is_missing == Some(true),
        result matches Err(error) ==> (error.kind == CommandErrorKind::TrackUnavailable
            && track_is_missing == Some(true) ==> attempt is Locate),
        result matches Err(error) ==> match attempt {
            PlayAttempt::Failed(Some(notice)) => notice.severity == NotificationSeverity::Error
                && notice.body@ == error.text@,
            PlayAttempt::Failed(None) => error.kind
                == CommandErrorKind::ManagedLibraryFilesystemUnsupported,
            _ => error.kind == CommandErrorKind::TrackUnavailable,
        },
{
    if let Err(error) = result {
        notices::law_an_error_is_reported_with_its_text(NotificationCategory::Command, error);
    }
}

} // verus!
