//! The phases of a sync run and the order in which they may be published.

use vstd::prelude::*;

verus! {

/// How far a sync run has come. A run publishes its phases in this order:
/// `Starting`, `FoundGames`, `FindingImages`, then `DownloadingImages` any
/// number of times with a falling count, then `Done`.
#[derive(Clone, Copy, Debug, PartialEq, Eq)]
pub enum SyncProgress {
    NotStarted,
    Starting,
    FoundGames { games_found: usize },
    FindingImages,
    DownloadingImages { to_download: usize },
    Done,
}

/// Whether `next` may be published directly after `last`.
pub open spec fn may_follow(last: SyncProgress, next: SyncProgress) -> bool {
    match (last, next) {
        (SyncProgress::Starting, SyncProgress::FoundGames { .. }) => true,
        (SyncProgress::FoundGames { .. }, SyncProgress::FindingImages) => true,
        (SyncProgress::FindingImages, SyncProgress::DownloadingImages { .. }) => true,
        (SyncProgress::FindingImages, SyncProgress::Done) => true,
        (
            SyncProgress::DownloadingImages { to_download: before },
            SyncProgress::DownloadingImages { to_download: after },
        ) => after < before,
        (SyncProgress::DownloadingImages { .. }, SyncProgress::Done) => true,
        _ => false,
    }
}

/// Whether `log` is what a run may have published so far: nothing, or
/// `Starting` followed by phases each of which may follow the one before.
pub open spec fn is_run_prefix(log: Seq<SyncProgress>) -> bool {
    &&& log.len() > 0 ==> log[0] is Starting
    &&& forall|i: int| 0 <= i < log.len() - 1 ==> may_follow(#[trigger] log[i], log[i + 1])
}

/// Whether `log` is what a finished run has published.
pub open spec fn is_full_run(log: Seq<SyncProgress>) -> bool {
    is_run_prefix(log) && log.len() > 0 && log.last() is Done
}

/// The phase that a subscriber sees last: `NotStarted` before anything was
/// published.
pub open spec fn latest_phase(log: Seq<SyncProgress>) -> SyncProgress {
    if log.len() == 0 {
        SyncProgress::NotStarted
    } else {
        log.last()
    }
}

/// The place of a phase in a run.
pub open spec fn phase_rank(phase: SyncProgress) -> int {
    match phase {
        SyncProgress::NotStarted => 0,
        SyncProgress::Starting => 1,
        SyncProgress::FoundGames { .. } => 2,
        SyncProgress::FindingImages => 3,
        SyncProgress::DownloadingImages { .. } => 4,
        SyncProgress::Done => 5,
    }
}

/// Publishing a phase that may follow the latest one keeps a log in order.
pub proof fn lemma_publish_keeps_order(log: Seq<SyncProgress>, next: SyncProgress)
    requires
        is_run_prefix(log),
        if log.len() == 0 {
            next is Starting
        } else {
            may_follow(log.last(), next)
        },
    ensures
        is_run_prefix(log.push(next)),
        latest_phase(log.push(next)) == next,
{
    let longer = log.push(next);
    assert forall|i: int| 0 <= i < longer.len() - 1 implies may_follow(
        #[trigger] longer[i],
        longer[i + 1],
    ) by {
        if i < log.len() - 1 {
            assert(longer[i] == log[i] && longer[i + 1] == log[i + 1]);
        }
    }
}

/// The first three phases of a run are `Starting`, `FoundGames` and
/// `FindingImages`; whatever stands after them and before the end is
/// `DownloadingImages`.
proof fn lemma_prefix_shape(log: Seq<SyncProgress>, i: int)
    requires
        is_run_prefix(log),
        0 <= i < log.len(),
    ensures
        i == 0 ==> log[i] is Starting,
        i == 1 ==> log[i] is FoundGames,
        i == 2 ==> log[i] is FindingImages,
        i >= 3 ==> log[i] is DownloadingImages || (log[i] is Done && i == log.len() - 1),
        i < log.len() - 1 ==> !(log[i] is Done),
    decreases i,
{
    if i > 0 {
        lemma_prefix_shape(log, i - 1);
        assert(may_follow(log[i - 1], log[i]));
    }
    if i < log.len() - 1 {
        assert(may_follow(log[i], log[i + 1]));
    }
}

proof fn lemma_counts_fall(log: Seq<SyncProgress>, i: int, j: int)
    requires
        is_run_prefix(log),
        3 <= i < j < log.len(),
        log[j] is DownloadingImages,
    ensures
        log[i] is DownloadingImages,
        log[j]->to_download < log[i]->to_download,
    decreases j - i,
{
    lemma_prefix_shape(log, i);
    assert(may_follow(log[j - 1], log[j]));
    if i < j - 1 {
        lemma_prefix_shape(log, j - 1);
        lemma_counts_fall(log, i, j - 1);
    } else {
        assert(may_follow(log[i], log[j]));
    }
}

/// Phase ordering: what a finished run has published is exactly `Starting`,
/// `FoundGames`, `FindingImages`, then `DownloadingImages` any number of
/// times, each time with a smaller count, then `Done`. No phase is left out
/// and none comes twice or out of turn.
pub proof fn lemma_full_run_shape(log: Seq<SyncProgress>)
    requires
        is_full_run(log),
    ensures
        log.len() >= 4,
        log[0] is Starting,
        log[1] is FoundGames,
        log[2] is FindingImages,
        log[log.len() - 1] is Done,
        forall|i: int| 3 <= i < log.len() - 1 ==> (#[trigger] log[i]) is DownloadingImages,
        forall|i: int, j: int|
            3 <= i < j < log.len() - 1 ==> (#[trigger] log[j])->to_download < (
            #[trigger] log[i])->to_download,
{
    let end = log.len() - 1;
    lemma_prefix_shape(log, end);
    if end >= 1 {
        lemma_prefix_shape(log, 1);
    }
    if end >= 2 {
        lemma_prefix_shape(log, 2);
    }
    lemma_prefix_shape(log, 0);
    assert forall|i: int| 3 <= i < log.len() - 1 implies (#[trigger] log[i]) is DownloadingImages by {
        lemma_prefix_shape(log, i);
    }
    assert forall|i: int, j: int| 3 <= i < j < log.len() - 1 implies (#[trigger] log[j])->to_download
        < (#[trigger] log[i])->to_download by {
        lemma_prefix_shape(log, j);
        lemma_counts_fall(log, i, j);
    }
}

/// A run never goes back: in what it has published no phase stands before
/// one of a lower rank.
pub proof fn lemma_phases_never_regress(log: Seq<SyncProgress>, i: int, j: int)
    requires
        is_run_prefix(log),
        0 <= i <= j < log.len(),
    ensures
        phase_rank(log[i]) <= phase_rank(log[j]),
    decreases j - i,
{
    if i < j {
        lemma_phases_never_regress(log, i, j - 1);
        assert(may_follow(log[j - 1], log[j]));
    }
}

} // verus!
