//! Running several commands at once, and what is reported of them.

use vstd::prelude::*;

use crate::notices;
use crate::notices::{report_error, CommandError, CommandErrorKind, Notice, NotificationCategory,
    NotificationSeverity};
use crate::seqs;

verus! {

/// How the commands of a batch ended so far.
#[derive(Debug)]
pub struct CommandBatchResult {
    pub succeeded: usize,
    pub failed: usize,
    pub first_error: Option<CommandError>,
}

/// How many of the commands succeeded.
pub open spec fn successes(results: Seq<Result<(), CommandError>>) -> nat
    decreases results.len(),
{
    if results.len() == 0 {
        0
    } else {
        successes(results.drop_last()) + if results.last() is Ok { 1nat } else { 0nat }
    }
}

/// The error of the first command that failed.
pub open spec fn first_error(results: Seq<Result<(), CommandError>>) -> Option<CommandError>
    decreases results.len(),
{
    if results.len() == 0 {
        None
    } else {
        match first_error(results.drop_last()) {
            Some(error) => Some(error),
            None => match results.last() {
                Ok(()) => None,
                Err(error) => Some(error),
            },
        }
    }
}

impl CommandBatchResult {
    /// The result sums up how these commands ended.
    pub open spec fn sums_up(&self, results: Seq<Result<(), CommandError>>) -> bool {
        &&& self.succeeded == successes(results)
        &&& self.succeeded + self.failed == results.len()
        &&& self.first_error == first_error(results)
    }

    /// No command has run yet.
    pub fn new() -> (result: Self)
        ensures
            result.sums_up(Seq::empty()),
    {
        CommandBatchResult { succeeded: 0, failed: 0, first_error: None }
    }

    /// One more command has ended. The first error is kept.
    pub fn record(&mut self, result: Result<(), CommandError>)
        requires
            old(self).succeeded < usize::MAX,
            old(self).failed < usize::MAX,
        ensures
            match result {
                Ok(()) => final(self).succeeded == old(self).succeeded + 1 && final(self).failed
                    == old(self).failed && final(self).first_error == old(self).first_error,
                Err(error) => final(self).succeeded == old(self).succeeded && final(self).failed
                    == old(self).failed + 1 && final(self).first_error == match old(
                    self,
                ).first_error {
                    Some(first) => Some(first),
                    None => Some(error),
                },
            },
            forall|earlier: Seq<Result<(), CommandError>>| #[trigger]
                old(self).sums_up(earlier) ==> final(self).sums_up(earlier.push(result)),
    {
        proof {
            assert forall|earlier: Seq<Result<(), CommandError>>| #[trigger]
                old(self).sums_up(earlier) implies earlier.push(result).drop_last()
                == earlier by {
                assert(earlier.push(result).drop_last() =~= earlier);
            }
        }
        match result {
            Ok(()) => {
                self.succeeded = self.succeeded + 1;
            },
            Err(error) => {
                self.failed = self.failed + 1;
                if self.first_error.is_none() {
                    self.first_error = Some(error);
                }
            },
        }
    }

    /// The message for the batch: none when all went well, the first error when
    /// nothing did, and a warning when only some did.
    pub open spec fn reported(&self) -> Option<notices::NoticeView> {
        if self.failed == 0 || self.first_error is None {
            None
        } else if self.succeeded == 0 {
            notices::error_notice(NotificationCategory::Command, self.first_error->0)
        } else {
            Some(
                notices::NoticeView {
                    category: NotificationCategory::Command,
                    severity: NotificationSeverity::Warning,
                    body: "Some selected tracks could not be updated."@,
                },
            )
        }
    }

    /// The message for the batch.
    pub fn report(&self) -> (notice: Option<Notice>)
        ensures
            notices::notice_view(notice) == self.reported(),
    {
        if self.failed == 0 {
            return None;
        }
        match &self.first_error {
            None => None,
            Some(error) => {
                if self.succeeded == 0 {
                    report_error(NotificationCategory::Command, error)
                } else {
                    Some(
                        Notice {
                            category: NotificationCategory::Command,
                            severity: NotificationSeverity::Warning,
                            body: "Some selected tracks could not be updated.".to_owned(),
                        },
                    )
                }
            },
        }
    }
}

/// A warning about what the user asked for.
pub fn command_warning(body: String) -> (notice: Notice)
    ensures
        notice@ == (notices::NoticeView {
            category: NotificationCategory::Command,
            severity: NotificationSeverity::Warning,
            body: body@,
        }),
{
    Notice { category: NotificationCategory::Command, severity: NotificationSeverity::Warning, body }
}

/// The warning about a picture that cannot be used as a cover, for this reason.
pub fn artwork_selection_warning(reason: &str) -> (notice: Notice)
    ensures
        notice@ == (notices::NoticeView {
            category: NotificationCategory::Command,
            severity: NotificationSeverity::Warning,
            body: "Could not use the selected artwork: "@ + reason@ + "."@,
        }),
{
    let mut body = "Could not use the selected artwork: ".to_owned();
    body.append(reason);
    body.append(".");
    command_warning(body)
}

/// Sums up how the commands of a batch ended.
pub fn dispatch_batch(results: Vec<Result<(), CommandError>>) -> (result: CommandBatchResult)
    ensures
        result.sums_up(results@),
{
    let ghost all = results@;
    let total: usize = results.len();
    let mut rest = results;
    let mut batch = CommandBatchResult::new();
    let ghost mut done: int = 0;
    assert(all.take(0) =~= Seq::empty());
    while rest.len() > 0
        invariant
            0 <= done <= all.len(),
            all.len() == total,
            rest@ == all.skip(done),
            batch.sums_up(all.take(done)),
        decreases rest.len(),
    {
        proof {
            lemma_successes_bound(all.take(done));
        }
        let result = rest.remove(0);
        batch.record(result);
        proof {
            assert(all.take(done).push(result) =~= all.take(done + 1));
            assert(rest@ =~= all.skip(done + 1));
            done = done + 1;
        }
    }
    assert(all.take(done) =~= all);
    batch
}

proof fn lemma_successes_bound(results: Seq<Result<(), CommandError>>)
    ensures
        successes(results) <= results.len(),
    decreases results.len(),
{
    if results.len() > 0 {
        lemma_successes_bound(results.drop_last());
    }
}

/// A batch has a first error iff not all of its commands succeeded.
pub proof fn law_failures_have_an_error(results: Seq<Result<(), CommandError>>)
    ensures
        first_error(results) is Some <==> successes(results) < results.len(),
    decreases results.len(),
{
    if results.len() > 0 {
        law_failures_have_an_error(results.drop_last());
        lemma_successes_bound(results.drop_last());
    }
}

/// A batch is reported iff one of its commands failed, except that nothing is
/// said when all of them failed and the first error is one that is shown
/// already.
pub proof fn law_a_batch_is_reported_iff_a_command_failed(
    batch: CommandBatchResult,
    results: Seq<Result<(), CommandError>>,
)
    requires
        batch.sums_up(results),
    ensures
        batch.reported() is Some <==> {
            &&& successes(results) < results.len()
            &&& successes(results) > 0 || first_error(results)->0.kind
                != CommandErrorKind::ManagedLibraryFilesystemUnsupported
        },
{
    law_failures_have_an_error(results);
}

/// The commands that succeeded, as places in the batch.
proof fn lemma_successes(results: Seq<Result<(), CommandError>>, upto: nat) -> (good: Seq<int>)
    requires
        upto <= results.len(),
    ensures
        seqs::lists(good, upto, |i: int| results[i] is Ok, |i: int| i),
        successes(results.take(upto as int)) == good.len(),
    decreases upto,
{
    let wanted = |i: int| results[i] is Ok;
    let item = |i: int| i;
    if upto == 0 {
        assert(results.take(0) =~= Seq::empty());
        seqs::lemma_lists_nothing(wanted, item);
        Seq::empty()
    } else {
        let fewer = (upto - 1) as nat;
        let good = lemma_successes(results, fewer);
        assert(results.take(upto as int).drop_last() =~= results.take(fewer as int));
        assert(results.take(upto as int).last() == results[fewer as int]);
        seqs::lemma_lists_one_more(good, fewer, wanted, item);
        if wanted(fewer as int) {
            good.push(fewer as int)
        } else {
            good
        }
    }
}

/// A batch is summed up by how many of its commands succeeded, and reported by
/// the error of the first that failed: with that error where none succeeded, and
/// with a warning where some did.
pub proof fn law_a_batch_is_reported_by_its_first_failure(
    batch: CommandBatchResult,
    results: Seq<Result<(), CommandError>>,
    first: int,
) -> (good: Seq<int>)
    requires
        batch.sums_up(results),
        0 <= first < results.len(),
        results[first] is Err,
        forall|i: int| 0 <= i < first ==> (#[trigger] results[i]) is Ok,
    ensures
        seqs::lists(good, results.len(), |i: int| results[i] is Ok, |i: int| i),
        batch.succeeded == good.len(),
        batch.failed == results.len() - good.len(),
        batch.first_error == Some(results[first]->Err_0),
        good.len() == 0 ==> batch.reported() == notices::error_notice(
            NotificationCategory::Command,
            results[first]->Err_0,
        ),
        good.len() > 0 ==> batch.reported() is Some && batch.reported()->0.severity
            == NotificationSeverity::Warning && batch.reported()->0.category
            == NotificationCategory::Command,
{
    let good = lemma_successes(results, results.len());
    assert(results.take(results.len() as int) =~= results);
    lemma_first_error(results, first);
    law_failures_have_an_error(results);
    lemma_successes_bound(results);
    good
}

proof fn lemma_first_error(results: Seq<Result<(), CommandError>>, first: int)
    requires
        0 <= first <= results.len(),
        first < results.len() ==> results[first] is Err,
        forall|i: int| 0 <= i < first ==> (#[trigger] results[i]) is Ok,
    ensures
        first < results.len() ==> first_error(results) == Some(results[first]->Err_0),
        first == results.len() ==> first_error(results) is None,
    decreases results.len(),
{
    if results.len() > 0 {
        let rest = results.drop_last();
        let upto = if first < rest.len() { first } else { rest.len() as int };
        assert forall|i: int| 0 <= i < upto implies (#[trigger] rest[i]) is Ok by {
            assert(rest[i] == results[i]);
        }
        if upto < rest.len() {
            assert(rest[upto] == results[first]);
        }
        lemma_first_error(rest, upto);
        assert(results.last() == results[results.len() - 1]);
    }
}

} // verus!
