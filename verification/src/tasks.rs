//! The long tasks that run beside the views: scanning, importing and
//! organizing the library. A task is polled until it has ended.

use std::path::PathBuf;

use vstd::prelude::*;

use crate::notices;
use crate::notices::{report_error, CommandError, Notice, NotificationCategory,
    NotificationSeverity};
use crate::seqs;

verus! {

/// How the library treats files that are added.
#[derive(Clone, Copy, Debug, PartialEq, Eq, Structural)]
pub enum LibraryManagementMode {
    ReferenceFilesInPlace,
    CopyAddedFilesIntoLibrary,
}

/// Whether an interrupted organization of the library resumes at launch: in a
/// managed library that is reachable, while no other task runs.
pub fn should_resume_consolidation(
    mode: LibraryManagementMode,
    library_reachable: bool,
    task_running: bool,
) -> (resume: bool)
    ensures
        resume == (mode == LibraryManagementMode::CopyAddedFilesIntoLibrary && library_reachable
            && !task_running),
{
    mode == LibraryManagementMode::CopyAddedFilesIntoLibrary && library_reachable && !task_running
}

/// The message for a task that could not be started.
pub open spec fn start_notice(category: NotificationCategory, error: CommandError) -> Option<
    notices::NoticeView,
> {
    if category == NotificationCategory::LibraryConsolidation {
        notices::error_notice(category, error)
    } else {
        Some(
            notices::NoticeView {
                category,
                severity: NotificationSeverity::Error,
                body: error.text@,
            },
        )
    }
}

/// The message for a task that could not be started. A task of the library that
/// cannot be managed says nothing, since a message that stays does already.
pub fn start_failure(category: NotificationCategory, error: &CommandError) -> (notice: Option<
    Notice,
>)
    ensures
        notices::notice_view(notice) == start_notice(category, *error),
{
    if category == NotificationCategory::LibraryConsolidation {
        report_error(category, error)
    } else {
        Some(
            Notice { category, severity: NotificationSeverity::Error, body: error.text.clone() },
        )
    }
}

/// What a poll of a task finds.
#[derive(Debug)]
pub enum Polled<R, E> {
    /// The task has ended.
    Ended(Result<R, E>),
    /// The task has nothing to say yet.
    Empty,
    /// The task is gone without having ended.
    Disconnected,
}

/// What is done after a poll.
#[derive(Debug)]
pub enum PollStep<R, E> {
    /// The result is applied, and polling stops.
    Apply(R),
    /// The failure is reported, and polling stops.
    Fail(E),
    /// Polling goes on.
    Continue,
}

/// What is done after a poll. A task that is gone without having ended has
/// failed.
pub fn poll_task<R, E>(polled: Polled<R, E>, gone: E) -> (step: PollStep<R, E>)
    ensures
        step == match polled {
            Polled::Ended(Ok(result)) => PollStep::Apply(result),
            Polled::Ended(Err(error)) => PollStep::Fail(error),
            Polled::Empty => PollStep::Continue,
            Polled::Disconnected => PollStep::Fail(gone),
        },
{
    match polled {
        Polled::Ended(Ok(result)) => PollStep::Apply(result),
        Polled::Ended(Err(error)) => PollStep::Fail(error),
        Polled::Empty => PollStep::Continue,
        Polled::Disconnected => PollStep::Fail(gone),
    }
}

/// What a task with progress has sent.
#[derive(Debug)]
pub enum TaskEvent<P, R, E> {
    Progress(P),
    Finished(Result<R, E>),
    /// The task is gone without having ended.
    Disconnected,
}

/// What the events that were drained come to.
#[derive(Debug)]
pub struct Drained<P, R, E> {
    /// The latest progress, which alone is shown.
    pub latest_progress: Option<P>,
    pub step: PollStep<R, E>,
}

/// Where the first event stands that ends the task.
pub open spec fn end_of_task<P, R, E>(events: Seq<TaskEvent<P, R, E>>) -> int
    decreases events.len(),
{
    if events.len() == 0 || !(events[0] is Progress) {
        0
    } else {
        1 + end_of_task(events.drop_first())
    }
}

/// The latest progress among some events.
pub open spec fn latest_progress<P, R, E>(events: Seq<TaskEvent<P, R, E>>) -> Option<P>
    decreases events.len(),
{
    if events.len() == 0 {
        None
    } else {
        match events.last() {
            TaskEvent::Progress(progress) => Some(progress),
            _ => latest_progress(events.drop_last()),
        }
    }
}

/// What the events that a task has sent come to, up to the one that ends it.
pub open spec fn drained_of<P, R, E>(
    events: Seq<TaskEvent<P, R, E>>,
    gone: E,
) -> Drained<P, R, E> {
    let end = end_of_task(events);
    Drained {
        latest_progress: latest_progress(events.take(end)),
        step: if end == events.len() {
            PollStep::Continue
        } else {
            match events[end] {
                TaskEvent::Finished(Ok(done)) => PollStep::Apply(done),
                TaskEvent::Finished(Err(error)) => PollStep::Fail(error),
                _ => PollStep::Fail(gone),
            }
        },
    }
}

/// What the events that a task has sent come to. Nothing counts that comes
/// after the event that ends it.
pub fn drain_task<P, R, E>(events: Vec<TaskEvent<P, R, E>>, gone: E) -> (drained: Drained<P, R, E>)
    ensures
        0 <= end_of_task(events@) <= events@.len(),
        drained == drained_of(events@, gone),
{
    let ghost all = events@;
    let mut rest = events;
    let mut latest: Option<P> = None;
    let ghost mut done: int = 0;
    proof {
        assert(all.skip(0) =~= all);
        assert(all.take(0) =~= Seq::empty());
    }
    while rest.len() > 0
        invariant
            0 <= done <= all.len(),
            rest@ == all.skip(done),
            end_of_task(all) == done + end_of_task(all.skip(done)),
            latest == latest_progress(all.take(done)),
            all == events@,
        decreases rest.len(),
    {
        let event = rest.remove(0);
        proof {
            assert(all.skip(done)[0] == all[done]);
            assert(all.skip(done).drop_first() =~= all.skip(done + 1));
            assert(rest@ =~= all.skip(done + 1));
            assert(all.take(done + 1).drop_last() =~= all.take(done));
        }
        match event {
            TaskEvent::Progress(progress) => {
                latest = Some(progress);
            },
            TaskEvent::Finished(Ok(result)) => {
                return Drained { latest_progress: latest, step: PollStep::Apply(result) };
            },
            TaskEvent::Finished(Err(error)) => {
                return Drained { latest_progress: latest, step: PollStep::Fail(error) };
            },
            TaskEvent::Disconnected => {
                return Drained { latest_progress: latest, step: PollStep::Fail(gone) };
            },
        }
        proof {
            done = done + 1;
        }
    }
    Drained { latest_progress: latest, step: PollStep::Continue }
}

// ---------------------------------------------------------------------------
// Imports
// ---------------------------------------------------------------------------

/// The paths of the files that have one.
pub open spec fn local_paths(files: Seq<Option<PathBuf>>) -> Seq<PathBuf>
    decreases files.len(),
{
    if files.len() == 0 {
        Seq::empty()
    } else {
        let earlier = local_paths(files.drop_last());
        match files.last() {
            Some(path) => earlier.push(path),
            None => earlier,
        }
    }
}

/// What is imported when files are dropped: those on this machine. Without any
/// the drop is refused.
pub fn dropped_paths(files: Vec<Option<PathBuf>>) -> (paths: Option<Vec<PathBuf>>)
    ensures
        paths is Some <==> local_paths(files@).len() > 0,
        paths matches Some(paths) ==> paths@ == local_paths(files@),
{
    let ghost all = files@;
    let mut rest = files;
    let mut paths: Vec<PathBuf> = Vec::new();
    let ghost mut done: int = 0;
    proof {
        assert(all.skip(0) =~= all);
        assert(all.take(0) =~= Seq::empty());
    }
    while rest.len() > 0
        invariant
            0 <= done <= all.len(),
            rest@ == all.skip(done),
            paths@ == local_paths(all.take(done)),
        decreases rest.len(),
    {
        let file = rest.remove(0);
        proof {
            assert(all.take(done + 1).drop_last() =~= all.take(done));
            assert(all.take(done + 1).last() == file);
            assert(rest@ =~= all.skip(done + 1));
        }
        if let Some(path) = file {
            paths.push(path);
        }
        proof {
            done = done + 1;
        }
    }
    assert(all.take(done) =~= all);
    if paths.is_empty() {
        None
    } else {
        Some(paths)
    }
}

/// A task ends with the first event that is no progress: none before it ends the
/// task, and where there is none the task goes on.
pub proof fn law_a_task_ends_with_its_first_end<P, R, E>(events: Seq<TaskEvent<P, R, E>>)
    ensures
        0 <= end_of_task(events) <= events.len(),
        forall|i: int| 0 <= i < end_of_task(events) ==> (#[trigger] events[i]) is Progress,
        end_of_task(events) < events.len() ==> !(events[end_of_task(events)] is Progress),
    decreases events.len(),
{
    if events.len() > 0 && events[0] is Progress {
        let rest = events.drop_first();
        law_a_task_ends_with_its_first_end(rest);
        assert forall|i: int| 0 <= i < end_of_task(events) implies (
        #[trigger] events[i]) is Progress by {
            if i > 0 {
                assert(events[i] == rest[i - 1]);
            }
        }
        if end_of_task(rest) < rest.len() {
            assert(events[end_of_task(events)] == rest[end_of_task(rest)]);
        }
    }
}

/// The progress that is shown is the last that was made; where none was made,
/// none is shown.
pub proof fn law_the_last_progress_is_shown<P, R, E>(events: Seq<TaskEvent<P, R, E>>, last: int)
    requires
        -1 <= last < events.len(),
        last >= 0 ==> events[last] is Progress,
        forall|i: int| last < i < events.len() ==> !((#[trigger] events[i]) is Progress),
    ensures
        last >= 0 ==> latest_progress(events) is Some && events[last] == TaskEvent::<
            P,
            R,
            E,
        >::Progress(latest_progress(events)->0),
        last < 0 ==> latest_progress(events) is None,
    decreases events.len(),
{
    if events.len() > 0 && last < events.len() - 1 {
        let rest = events.drop_last();
        assert(!(events[events.len() - 1] is Progress));
        assert forall|i: int| last < i < rest.len() implies !((#[trigger] rest[i]) is Progress) by {
            assert(rest[i] == events[i]);
        }
        if last >= 0 {
            assert(rest[last] == events[last]);
        }
        law_the_last_progress_is_shown(rest, last);
    }
}

/// Of dropped files exactly those are imported that are on this machine, in
/// their order.
pub proof fn law_exactly_the_local_files_are_imported(files: Seq<Option<PathBuf>>)
    ensures
        seqs::lists(
            local_paths(files),
            files.len(),
            |i: int| files[i] is Some,
            |i: int| files[i]->0,
        ),
{
    lemma_local_upto(files, files.len());
    assert(files.take(files.len() as int) =~= files);
}

proof fn lemma_local_upto(files: Seq<Option<PathBuf>>, upto: nat)
    requires
        upto <= files.len(),
    ensures
        seqs::lists(
            local_paths(files.take(upto as int)),
            upto,
            |i: int| files[i] is Some,
            |i: int| files[i]->0,
        ),
    decreases upto,
{
    let wanted = |i: int| files[i] is Some;
    let item = |i: int| files[i]->0;
    if upto == 0 {
        assert(files.take(0) =~= Seq::empty());
        seqs::lemma_lists_nothing(wanted, item);
    } else {
        let fewer = (upto - 1) as nat;
        lemma_local_upto(files, fewer);
        assert(files.take(upto as int).drop_last() =~= files.take(fewer as int));
        assert(files.take(upto as int).last() == files[fewer as int]);
        seqs::lemma_lists_one_more(local_paths(files.take(fewer as int)), fewer, wanted, item);
    }
}

/// A task applies what it ended with, and says why it failed; it goes on for as
/// long as it has sent nothing but progress, of which the latest is shown.
/// Whatever is sent after the end changes nothing.
pub proof fn law_nothing_counts_after_the_end_of_a_task<P, R, E>(
    progress: Seq<TaskEvent<P, R, E>>,
    end: TaskEvent<P, R, E>,
    late: Seq<TaskEvent<P, R, E>>,
    gone: E,
)
    requires
        forall|i: int| 0 <= i < progress.len() ==> (#[trigger] progress[i]) is Progress,
        !(end is Progress),
    ensures
        drained_of(progress, gone).step == PollStep::<R, E>::Continue,
        drained_of(progress.push(end) + late, gone) == drained_of(progress.push(end), gone),
        end matches TaskEvent::Finished(Ok(done)) ==> drained_of(progress.push(end), gone).step
            == PollStep::<R, E>::Apply(done),
        end matches TaskEvent::Finished(Err(error)) ==> drained_of(progress.push(end), gone).step
            == PollStep::<R, E>::Fail(error),
        end is Disconnected ==> drained_of(progress.push(end), gone).step == PollStep::<R, E>::Fail(
            gone,
        ),
        drained_of(progress.push(end), gone).latest_progress == drained_of(
            progress,
            gone,
        ).latest_progress,
        progress.len() > 0 ==> progress.last() == TaskEvent::<P, R, E>::Progress(
            drained_of(progress, gone).latest_progress->0,
        ) && drained_of(progress, gone).latest_progress is Some,
{
    let ended = progress.push(end);
    let more = ended + late;
    law_a_task_ends_with_its_first_end(progress);
    law_a_task_ends_with_its_first_end(ended);
    law_a_task_ends_with_its_first_end(more);
    let n = progress.len() as int;
    assert(ended[n] == end && more[n] == end);
    if end_of_task(progress) < n {
        assert(progress[end_of_task(progress)] is Progress);
    }
    if end_of_task(ended) < n {
        assert(ended[end_of_task(ended)] == progress[end_of_task(ended)]);
    }
    if end_of_task(more) < n {
        assert(more[end_of_task(more)] == progress[end_of_task(more)]);
    }
    assert(end_of_task(ended) == n);
    assert(end_of_task(more) == n);
    assert(progress.take(n) =~= progress);
    assert(ended.take(n) =~= progress);
    assert(more.take(n) =~= progress);
}

/// A task that could not be started says why, unless it is one of the library
/// for which a message that stays says so already.
pub proof fn law_a_task_that_does_not_start_says_why(
    category: NotificationCategory,
    error: CommandError,
)
    ensures
        start_notice(category, error) is None <==> category
            == NotificationCategory::LibraryConsolidation && error.kind
            == crate::notices::CommandErrorKind::ManagedLibraryFilesystemUnsupported,
        start_notice(category, error) matches Some(notice) ==> notice.category == category
            && notice.severity == NotificationSeverity::Error && notice.body == error.text@,
{
}

} // verus!
