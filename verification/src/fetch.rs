//! The fetch coordinator's bookkeeping: one fetch state for each enabled
//! source.
//!
//! The fetches themselves run wherever the caller runs them. For each source
//! its worker reports here that it has begun and what it brought back, and the
//! caller asks whether every source has reported and collects what succeeded.

use crate::game_scan::{clone_games, game_views, ScannedGame, ScannedGameView};
use crate::sync::source_views;
use vstd::prelude::*;

verus! {

/// Where the fetch of one source stands.
#[derive(Clone, Debug, PartialEq, Eq)]
pub enum FetchStatus<T> {
    NeedsFetched,
    Fetching,
    Fetched(T),
}

/// Why a source's fetch failed, in the source's own words.
#[derive(Clone, Debug, PartialEq, Eq)]
pub struct FetchError {
    pub message: String,
}

/// What the fetch of a source brings back.
pub type FetchOutcome = Result<Vec<ScannedGame>, FetchError>;

/// The set of slots: for each enabled source its name and the state of its
/// fetch.
pub type GamesToSync = Vec<(String, FetchStatus<FetchOutcome>)>;

/// A discovery source as the coordinator needs to know it.
#[derive(Clone, Debug, PartialEq, Eq)]
pub struct SourceInfo {
    pub name: String,
    /// Whether the user's configuration has the source switched on.
    pub enabled: bool,
}

/// The state of a fetch as contracts see it.
pub enum StatusView {
    NeedsFetched,
    Fetching,
    Games(Seq<ScannedGameView>),
    Failed(Seq<char>),
}

/// The view of a fetch state: a failure is seen by its message.
pub open spec fn status_view(status: FetchStatus<FetchOutcome>) -> StatusView {
    match status {
        FetchStatus::NeedsFetched => StatusView::NeedsFetched,
        FetchStatus::Fetching => StatusView::Fetching,
        FetchStatus::Fetched(Ok(games)) => StatusView::Games(game_views(games@)),
        FetchStatus::Fetched(Err(error)) => StatusView::Failed(error.message@),
    }
}

/// The set of slots as contracts see it.
pub open spec fn tracked_views(games: Seq<(String, FetchStatus<FetchOutcome>)>) -> Seq<
    (Seq<char>, StatusView),
> {
    Seq::new(games.len(), |i: int| (games[i].0@, status_view(games[i].1)))
}

/// Whether a fetch has ended, well or badly.
pub open spec fn is_fetched(status: StatusView) -> bool {
    status is Games || status is Failed
}

/// Whether every source of the set has reported. A source that failed has
/// reported too.
pub open spec fn all_fetched(slots: Seq<(Seq<char>, StatusView)>) -> bool {
    forall|i: int| 0 <= i < slots.len() ==> is_fetched((#[trigger] slots[i]).1)
}

/// The names of the first `n` sources that are enabled, in their order.
pub open spec fn enabled_names(sources: Seq<SourceInfo>, n: nat) -> Seq<Seq<char>>
    decreases n,
{
    if n == 0 || n > sources.len() {
        Seq::empty()
    } else if sources[n - 1].enabled {
        enabled_names(sources, (n - 1) as nat).push(sources[n - 1].name@)
    } else {
        enabled_names(sources, (n - 1) as nat)
    }
}

/// The positions of the first `n` sources that are enabled, in their order.
pub open spec fn enabled_positions(sources: Seq<SourceInfo>, n: nat) -> Seq<usize>
    decreases n,
{
    if n == 0 || n > sources.len() {
        Seq::empty()
    } else if sources[n - 1].enabled {
        enabled_positions(sources, (n - 1) as nat).push((n - 1) as usize)
    } else {
        enabled_positions(sources, (n - 1) as nat)
    }
}

/// What has come in from the first `n` slots: the games of each one
/// whose fetch succeeded, under its name. Sources that failed or have not
/// reported are left out.
pub open spec fn fetched_games(slots: Seq<(Seq<char>, StatusView)>, n: nat) -> Seq<
    (Seq<char>, Seq<ScannedGameView>),
>
    decreases n,
{
    if n == 0 || n > slots.len() {
        Seq::empty()
    } else {
        match slots[n - 1].1 {
            StatusView::Games(games) => fetched_games(slots, (n - 1) as nat).push(
                (slots[n - 1].0, games),
            ),
            _ => fetched_games(slots, (n - 1) as nat),
        }
    }
}

impl<T> FetchStatus<T> {
    /// Whether the fetch has ended.
    pub fn is_some(&self) -> (done: bool)
        ensures
            done == (*self is Fetched),
    {
        match self {
            FetchStatus::NeedsFetched => false,
            FetchStatus::Fetching => false,
            FetchStatus::Fetched(_) => true,
        }
    }
}

/// The sources for which a fetch is to be launched: the enabled ones, by their
/// position in `sources`. The k-th of them reports to the k-th slot of the set
/// that [`create_games_to_sync`] makes.
pub fn sources_to_fetch(sources: &Vec<SourceInfo>) -> (positions: Vec<usize>)
    ensures
        positions@ == enabled_positions(sources@, sources@.len()),
{
    let mut positions: Vec<usize> = Vec::new();
    let n = sources.len();
    let mut i: usize = 0;
    while i < n
        invariant
            n == sources@.len(),
            i <= n,
            positions@ == enabled_positions(sources@, i as nat),
        decreases n - i,
    {
        if sources[i].enabled {
            positions.push(i);
        }
        i = i + 1;
    }
    positions
}

/// Starts a discovery: a fresh set with one slot for each enabled
/// source, none of them fetched yet. Nothing of an earlier set is in it.
pub fn create_games_to_sync(sources: &Vec<SourceInfo>) -> (to_sync: GamesToSync)
    ensures
        to_sync@.len() == enabled_names(sources@, sources@.len()).len(),
        forall|k: int|
            0 <= k < to_sync@.len() ==> (#[trigger] tracked_views(to_sync@)[k]) == (
                enabled_names(sources@, sources@.len())[k],
                StatusView::NeedsFetched,
            ),
{
    let mut to_sync: GamesToSync = Vec::new();
    let n = sources.len();
    let mut i: usize = 0;
    while i < n
        invariant
            n == sources@.len(),
            i <= n,
            to_sync@.len() == enabled_names(sources@, i as nat).len(),
            forall|k: int|
                0 <= k < to_sync@.len() ==> (#[trigger] tracked_views(to_sync@)[k]) == (
                    enabled_names(sources@, i as nat)[k],
                    StatusView::NeedsFetched,
                ),
        decreases n - i,
    {
        if sources[i].enabled {
            let ghost before = tracked_views(to_sync@);
            to_sync.push((sources[i].name.clone(), FetchStatus::NeedsFetched));
            assert(tracked_views(to_sync@) =~= before.push(
                (sources@[i as int].name@, StatusView::NeedsFetched),
            ));
        }
        i = i + 1;
    }
    to_sync
}

/// The set after the worker of `slot` has reported that it begins: a
/// slot that was waiting is now fetching, everything else is as it was.
pub open spec fn after_begin(slots: Seq<(Seq<char>, StatusView)>, slot: int) -> Seq<
    (Seq<char>, StatusView),
> {
    if 0 <= slot < slots.len() && slots[slot].1 is NeedsFetched {
        slots.update(slot, (slots[slot].0, StatusView::Fetching))
    } else {
        slots
    }
}

/// The set after the worker of `slot` has reported what it brought
/// back: a slot that had not reported holds the outcome, everything else is as
/// it was. The first report of a slot stands.
pub open spec fn after_report(
    slots: Seq<(Seq<char>, StatusView)>,
    slot: int,
    outcome: StatusView,
) -> Seq<(Seq<char>, StatusView)> {
    if 0 <= slot < slots.len() && !is_fetched(slots[slot].1) {
        slots.update(slot, (slots[slot].0, outcome))
    } else {
        slots
    }
}

/// Records that the fetch of a slot has begun.
pub fn mark_fetching(games: &mut GamesToSync, slot: usize)
    ensures
        tracked_views(final(games)@) == after_begin(tracked_views(old(games)@), slot as int),
{
    let ghost before = tracked_views(games@);
    if slot < games.len() {
        let waiting = match &games[slot].1 {
            FetchStatus::NeedsFetched => true,
            _ => false,
        };
        if waiting {
            games[slot].1 = FetchStatus::Fetching;
            assert(tracked_views(games@) =~= before.update(
                slot as int,
                (before[slot as int].0, StatusView::Fetching),
            ));
            return ;
        }
    }
    assert(tracked_views(games@) =~= before);
}

/// Records what the fetch of a slot brought back.
pub fn mark_fetched(games: &mut GamesToSync, slot: usize, outcome: FetchOutcome)
    ensures
        tracked_views(final(games)@) == after_report(
            tracked_views(old(games)@),
            slot as int,
            status_view(FetchStatus::Fetched(outcome)),
        ),
{
    let ghost before = tracked_views(games@);
    if slot < games.len() {
        if !games[slot].1.is_some() {
            games[slot].1 = FetchStatus::Fetched(outcome);
            assert(tracked_views(games@) =~= before.update(
                slot as int,
                (before[slot as int].0, status_view(FetchStatus::Fetched(outcome))),
            ));
            return ;
        }
    }
    assert(tracked_views(games@) =~= before);
}

/// Whether every source of the set has reported, with games or with an error.
pub fn all_ready(games: &GamesToSync) -> (ready: bool)
    ensures
        ready == all_fetched(tracked_views(games@)),
{
    let n = games.len();
    let mut i: usize = 0;
    while i < n
        invariant
            n == games@.len(),
            i <= n,
            forall|j: int| 0 <= j < i ==> is_fetched((#[trigger] tracked_views(games@)[j]).1),
        decreases n - i,
    {
        if !games[i].1.is_some() {
            assert(!is_fetched(tracked_views(games@)[i as int].1));
            return false;
        }
        assert(is_fetched(tracked_views(games@)[i as int].1));
        i = i + 1;
    }
    true
}

/// A copy of the set as it stands: a point-in-time read that the caller can
/// look at while the workers go on.
pub fn snapshot(games: &GamesToSync) -> (copy: GamesToSync)
    ensures
        tracked_views(copy@) == tracked_views(games@),
{
    let mut copy: GamesToSync = Vec::new();
    let n = games.len();
    let mut i: usize = 0;
    while i < n
        invariant
            n == games@.len(),
            i <= n,
            copy@.len() == i,
            forall|j: int|
                0 <= j < i ==> (#[trigger] tracked_views(copy@)[j]) == tracked_views(games@)[j],
        decreases n - i,
    {
        let status = match &games[i].1 {
            FetchStatus::NeedsFetched => FetchStatus::NeedsFetched,
            FetchStatus::Fetching => FetchStatus::Fetching,
            FetchStatus::Fetched(Ok(data)) => FetchStatus::Fetched(Ok(clone_games(data))),
            FetchStatus::Fetched(Err(error)) => FetchStatus::Fetched(
                Err(FetchError { message: error.message.clone() }),
            ),
        };
        let ghost before = tracked_views(copy@);
        copy.push((games[i].0.clone(), status));
        assert(tracked_views(copy@) =~= before.push(tracked_views(games@)[i as int]));
        i = i + 1;
    }
    assert(tracked_views(copy@) =~= tracked_views(games@));
    copy
}

/// Collects what the sources that succeeded brought back, in the order of the
/// set of slots. A source that failed, or that has not reported yet, gives
/// nothing and hinders no other.
pub fn get_all_games(games: &GamesToSync) -> (all: Vec<(String, Vec<ScannedGame>)>)
    ensures
        source_views(all@) == fetched_games(tracked_views(games@), games@.len()),
{
    let mut all: Vec<(String, Vec<ScannedGame>)> = Vec::new();
    let n = games.len();
    let mut i: usize = 0;
    assert(source_views(all@) =~= fetched_games(tracked_views(games@), 0));
    while i < n
        invariant
            n == games@.len(),
            i <= n,
            source_views(all@) == fetched_games(tracked_views(games@), i as nat),
        decreases n - i,
    {
        if let FetchStatus::Fetched(Ok(data)) = &games[i].1 {
            let ghost before = source_views(all@);
            all.push((games[i].0.clone(), clone_games(data)));
            assert(source_views(all@) =~= before.push(
                (games@[i as int].0@, game_views(data@)),
            ));
        }
        i = i + 1;
    }
    all
}

/// The set after the first `n` of a row of reports, each a slot with the
/// outcome that its worker brought back.
pub open spec fn after_reports(
    slots: Seq<(Seq<char>, StatusView)>,
    reports: Seq<(int, StatusView)>,
    n: nat,
) -> Seq<(Seq<char>, StatusView)>
    decreases n,
{
    if n == 0 || n > reports.len() {
        slots
    } else {
        after_report(
            after_reports(slots, reports, (n - 1) as nat),
            reports[n - 1].0,
            reports[n - 1].1,
        )
    }
}

/// A report touches its own slot only: every other slot, and every name, is as
/// it was, and a slot that had reported before keeps what it reported.
pub proof fn lemma_report_is_local(
    slots: Seq<(Seq<char>, StatusView)>,
    slot: int,
    outcome: StatusView,
)
    ensures
        after_report(slots, slot, outcome).len() == slots.len(),
        forall|i: int|
            0 <= i < slots.len() && i != slot ==> #[trigger] after_report(slots, slot, outcome)[i]
                == slots[i],
        forall|i: int|
            0 <= i < slots.len() ==> (#[trigger] after_report(slots, slot, outcome)[i]).0
                == slots[i].0,
        forall|i: int|
            0 <= i < slots.len() && is_fetched(slots[i].1) ==> #[trigger] after_report(
                slots,
                slot,
                outcome,
            )[i] == slots[i],
        0 <= slot < slots.len() && !is_fetched(slots[slot].1) ==> after_report(
            slots,
            slot,
            outcome,
        )[slot].1 == outcome,
{
}

proof fn lemma_after_reports_keeps(
    slots: Seq<(Seq<char>, StatusView)>,
    reports: Seq<(int, StatusView)>,
    n: nat,
)
    requires
        n <= reports.len(),
        forall|r: int| 0 <= r < reports.len() ==> is_fetched((#[trigger] reports[r]).1),
    ensures
        after_reports(slots, reports, n).len() == slots.len(),
        forall|i: int|
            0 <= i < slots.len() && is_fetched(slots[i].1) ==> #[trigger] after_reports(
                slots,
                reports,
                n,
            )[i] == slots[i],
        forall|i: int, r: int|
            0 <= i < slots.len() && 0 <= r < n && (#[trigger] reports[r]).0 == i ==> is_fetched(
                (#[trigger] after_reports(slots, reports, n)[i]).1,
            ),
    decreases n,
{
    if n > 0 {
        lemma_after_reports_keeps(slots, reports, (n - 1) as nat);
        let prev = after_reports(slots, reports, (n - 1) as nat);
        lemma_report_is_local(prev, reports[n - 1].0, reports[n - 1].1);
        let next = after_reports(slots, reports, n);
        assert forall|i: int, r: int|
            0 <= i < slots.len() && 0 <= r < n && (#[trigger] reports[r]).0 == i implies is_fetched(
            (#[trigger] next[i]).1,
        ) by {
            if r < n - 1 {
                assert(is_fetched(prev[i].1));
            } else {
                assert(is_fetched(reports[n - 1].1));
            }
        }
    }
}

/// Whether a report for `slot` is among `reports`.
pub open spec fn has_report(reports: Seq<(int, StatusView)>, slot: int) -> bool {
    exists|r: int| 0 <= r < reports.len() && (#[trigger] reports[r]).0 == slot
}

/// Once every source has reported, the set is ready, however the reports were
/// ordered and whichever of them were failures: a failed fetch counts as a
/// report like any other.
pub proof fn lemma_ready_once_all_reported(
    slots: Seq<(Seq<char>, StatusView)>,
    reports: Seq<(int, StatusView)>,
)
    requires
        forall|r: int| 0 <= r < reports.len() ==> is_fetched((#[trigger] reports[r]).1),
        forall|i: int| 0 <= i < slots.len() ==> #[trigger] has_report(reports, i),
    ensures
        all_fetched(after_reports(slots, reports, reports.len())),
{
    lemma_after_reports_keeps(slots, reports, reports.len());
    let end = after_reports(slots, reports, reports.len());
    assert forall|i: int| 0 <= i < end.len() implies is_fetched((#[trigger] end[i]).1) by {
        assert(has_report(reports, i));
        let r = choose|r: int| 0 <= r < reports.len() && (#[trigger] reports[r]).0 == i;
        assert(reports[r].0 == i);
    }
}

/// What a source brought back is collected whatever became of the others: if
/// slot `b` holds games, they are among the collected, under the source's name.
pub proof fn lemma_fetched_games_hold(slots: Seq<(Seq<char>, StatusView)>, n: nat, b: int)
    requires
        0 <= b < n <= slots.len(),
        slots[b].1 is Games,
    ensures
        exists|k: int|
            0 <= k < fetched_games(slots, n).len() && #[trigger] fetched_games(slots, n)[k] == (
                slots[b].0,
                slots[b].1->Games_0,
            ),
    decreases n,
{
    let here = fetched_games(slots, n);
    if b == n - 1 {
        let k = here.len() - 1;
        assert(here[k] == (slots[b].0, slots[b].1->Games_0));
    } else {
        lemma_fetched_games_hold(slots, (n - 1) as nat, b);
        let before = fetched_games(slots, (n - 1) as nat);
        let k = choose|k: int|
            0 <= k < before.len() && #[trigger] before[k] == (slots[b].0, slots[b].1->Games_0);
        assert(here[k] == before[k]);
    }
}

} // verus!
