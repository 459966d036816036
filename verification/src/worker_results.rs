//! What the background workers report: writes of tags that failed, covers that
//! were fetched, tracks that were updated.

use vstd::prelude::*;

use crate::library::{contains_track, TrackId};
use crate::notices::{Notice, NoticeView, NotificationCategory, NotificationSeverity};
use crate::notices;
use crate::seqs;

verus! {

/// What was written to an audio file.
#[derive(Clone, Copy, Debug, PartialEq, Eq, Structural)]
pub enum MetadataWriteKind {
    Rating,
    Metadata,
    Artwork,
}

/// The message for a write: none when it succeeded.
pub fn metadata_write_notice(kind: MetadataWriteKind, succeeded: bool) -> (notice: Option<Notice>)
    ensures
        notices::notice_view(notice) == if succeeded {
            None
        } else {
            Some(
                NoticeView {
                    category: NotificationCategory::MetadataWrite,
                    severity: NotificationSeverity::Error,
                    body: match kind {
                        MetadataWriteKind::Rating => "Could not save the rating to the audio file."@,
                        MetadataWriteKind::Metadata =>
                            "Could not save the metadata change to the audio file."@,
                        MetadataWriteKind::Artwork =>
                            "Could not save the artwork change to the audio file."@,
                    },
                },
            )
        },
{
    if succeeded {
        return None;
    }
    let body = match kind {
        MetadataWriteKind::Rating => "Could not save the rating to the audio file.",
        MetadataWriteKind::Metadata => "Could not save the metadata change to the audio file.",
        MetadataWriteKind::Artwork => "Could not save the artwork change to the audio file.",
    };
    Some(
        Notice {
            category: NotificationCategory::MetadataWrite,
            severity: NotificationSeverity::Error,
            body: body.to_owned(),
        },
    )
}

/// How the fetch of a cover ended.
#[derive(Clone, Copy, Debug, PartialEq, Eq, Structural)]
pub enum ArtworkFetchOutcome {
    Fetched,
    NoMatch,
    Rejected,
    Failed,
}

/// How grave the message for a fetch is, and what it says.
pub open spec fn fetch_message(outcome: ArtworkFetchOutcome) -> (NotificationSeverity, Seq<char>) {
    match outcome {
        ArtworkFetchOutcome::Fetched => (NotificationSeverity::Info, "Artwork updated."@),
        ArtworkFetchOutcome::NoMatch => (
            NotificationSeverity::Info,
            "No cover art found for this track."@,
        ),
        ArtworkFetchOutcome::Rejected => (
            NotificationSeverity::Warning,
            "The fetched cover art was rejected because it is unsupported, corrupt, or too large."@,
        ),
        ArtworkFetchOutcome::Failed => (
            NotificationSeverity::Error,
            "Could not fetch cover art."@,
        ),
    }
}

/// The message for a fetch.
pub fn artwork_fetch_notice(outcome: ArtworkFetchOutcome) -> (notice: Notice)
    ensures
        notice@ == (NoticeView {
            category: NotificationCategory::ArtworkFetch,
            severity: fetch_message(outcome).0,
            body: fetch_message(outcome).1,
        }),
{
    let (severity, body) = match outcome {
        ArtworkFetchOutcome::Fetched => (NotificationSeverity::Info, "Artwork updated."),
        ArtworkFetchOutcome::NoMatch => (
            NotificationSeverity::Info,
            "No cover art found for this track.",
        ),
        ArtworkFetchOutcome::Rejected => (
            NotificationSeverity::Warning,
            "The fetched cover art was rejected because it is unsupported, corrupt, or too large.",
        ),
        ArtworkFetchOutcome::Failed => (
            NotificationSeverity::Error,
            "Could not fetch cover art.",
        ),
    };
    Notice { category: NotificationCategory::ArtworkFetch, severity, body: body.to_owned() }
}

/// The different identifiers of a list, each where it comes first.
pub open spec fn distinct(ids: Seq<TrackId>) -> Seq<TrackId>
    decreases ids.len(),
{
    if ids.len() == 0 {
        Seq::empty()
    } else {
        let earlier = distinct(ids.drop_last());
        if earlier.contains(ids.last()) {
            earlier
        } else {
            earlier.push(ids.last())
        }
    }
}

/// The tracks of a burst of updates, each of which is refreshed once.
pub fn coalesce_updates(ids: &Vec<TrackId>) -> (pending: Vec<TrackId>)
    ensures
        pending@ == distinct(ids@),
{
    let mut pending: Vec<TrackId> = Vec::new();
    let mut index: usize = 0;
    assert(ids@.take(0) =~= Seq::empty());
    while index < ids.len()
        invariant
            index <= ids.len(),
            pending@ == distinct(ids@.take(index as int)),
        decreases ids.len() - index,
    {
        assert(ids@.take(index as int + 1).drop_last() =~= ids@.take(index as int));
        if !contains_track(&pending, ids[index]) {
            pending.push(ids[index]);
        }
        index = index + 1;
    }
    assert(ids@.take(index as int) =~= ids@);
    pending
}

/// A burst of updates refreshes every track that it names, and none twice.
pub proof fn law_burst_refreshes_each_track_once(ids: Seq<TrackId>)
    ensures
        forall|id: TrackId| #[trigger] distinct(ids).contains(id) <==> ids.contains(id),
        distinct(ids).no_duplicates(),
    decreases ids.len(),
{
    if ids.len() > 0 {
        let rest = ids.drop_last();
        let earlier = distinct(rest);
        law_burst_refreshes_each_track_once(rest);
        assert forall|id: TrackId| #[trigger] distinct(ids).contains(id) <==> ids.contains(id) by {
            if ids.contains(id) {
                let i = ids.index_of(id);
                if i < rest.len() {
                    assert(rest[i] == id);
                    assert(earlier.contains(id));
                    let k = earlier.index_of(id);
                    assert(distinct(ids)[k] == id);
                } else if earlier.contains(id) {
                    assert(distinct(ids).contains(id));
                } else {
                    assert(distinct(ids)[earlier.len() as int] == id);
                }
            }
            if distinct(ids).contains(id) {
                let k = distinct(ids).index_of(id);
                if k < earlier.len() {
                    assert(earlier[k] == id);
                    assert(earlier.contains(id));
                    assert(rest.contains(id));
                    let i = rest.index_of(id);
                    assert(ids[i] == id);
                } else {
                    assert(ids[ids.len() - 1] == id);
                }
            }
        }
    }
}

/// The message for a fetch is as grave as its end: a cover that was found, or
/// that there is none, is told; one that was refused is warned of; and a fetch
/// that failed is an error. No two ends are told alike.
pub proof fn law_each_end_of_a_fetch_is_told_apart(
    left: ArtworkFetchOutcome,
    right: ArtworkFetchOutcome,
)
    ensures
        fetch_message(left).0 == NotificationSeverity::Error <==> left
            == ArtworkFetchOutcome::Failed,
        fetch_message(left).0 == NotificationSeverity::Warning <==> left
            == ArtworkFetchOutcome::Rejected,
        fetch_message(left).1 == fetch_message(right).1 ==> left == right,
{
    reveal_strlit("Artwork updated.");
    reveal_strlit("No cover art found for this track.");
    reveal_strlit(
        "The fetched cover art was rejected because it is unsupported, corrupt, or too large.",
    );
    reveal_strlit("Could not fetch cover art.");
    assert(fetch_message(left).1.len() == fetch_message(right).1.len() || fetch_message(left).1
        != fetch_message(right).1);
}

/// A burst refreshes the tracks in the order in which they first occur.
pub proof fn law_a_burst_keeps_the_order_of_first_updates(ids: Seq<TrackId>)
    ensures
        seqs::lists(
            distinct(ids),
            ids.len(),
            |i: int| forall|earlier: int| 0 <= earlier < i ==> #[trigger] ids[earlier] != ids[i],
            |i: int| ids[i],
        ),
{
    lemma_distinct_upto(ids, ids.len());
    assert(ids.take(ids.len() as int) =~= ids);
}

proof fn lemma_distinct_upto(ids: Seq<TrackId>, upto: nat)
    requires
        upto <= ids.len(),
    ensures
        seqs::lists(
            distinct(ids.take(upto as int)),
            upto,
            |i: int| forall|earlier: int| 0 <= earlier < i ==> #[trigger] ids[earlier] != ids[i],
            |i: int| ids[i],
        ),
    decreases upto,
{
    let wanted = |i: int|
        forall|earlier: int| 0 <= earlier < i ==> #[trigger] ids[earlier] != ids[i];
    let item = |i: int| ids[i];
    if upto == 0 {
        assert(ids.take(0) =~= Seq::empty());
        seqs::lemma_lists_nothing(wanted, item);
    } else {
        let fewer = (upto - 1) as nat;
        let last = fewer as int;
        lemma_distinct_upto(ids, fewer);
        assert(ids.take(upto as int).drop_last() =~= ids.take(last));
        assert(ids.take(upto as int).last() == ids[last]);
        seqs::lemma_lists_one_more(distinct(ids.take(last)), fewer, wanted, item);
        lemma_distinct_holds(ids.take(last), ids[last]);
        if distinct(ids.take(last)).contains(ids[last]) {
            let at = ids.take(last).index_of(ids[last]);
            assert(ids[at] == ids[last]);
            assert(!wanted(last));
        } else {
            assert forall|earlier: int| 0 <= earlier < last implies #[trigger] ids[earlier]
                != ids[last] by {
                assert(ids.take(last)[earlier] == ids[earlier]);
            }
            assert(wanted(last));
        }
    }
}

proof fn lemma_distinct_holds(ids: Seq<TrackId>, id: TrackId)
    ensures
        distinct(ids).contains(id) <==> ids.contains(id),
    decreases ids.len(),
{
    if ids.len() > 0 {
        let rest = ids.drop_last();
        lemma_distinct_holds(rest, id);
        lemma_distinct_holds(rest, ids.last());
        let earlier = distinct(rest);
        assert(ids =~= rest.push(ids.last()));
        if ids.contains(id) && id != ids.last() {
            let at = ids.index_of(id);
            assert(rest[at] == id);
        }
        if rest.contains(id) {
            assert(ids[rest.index_of(id)] == id);
        }
        if id == ids.last() {
            assert(ids[ids.len() - 1] == id);
            assert(earlier.push(id)[earlier.len() as int] == id);
        }
        if earlier.contains(id) {
            let at = earlier.index_of(id);
            assert(earlier.push(ids.last())[at] == id);
        }
        if distinct(ids).contains(id) {
            let at = distinct(ids).index_of(id);
            if at < earlier.len() {
                assert(earlier[at] == id);
            }
        }
    }
}

} // verus!
