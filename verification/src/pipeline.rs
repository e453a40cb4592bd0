//! A sync run, step by step.
//!
//! The run itself does nothing outside: it says what is to be done next (save
//! the catalog, look for cached artwork, fetch an image, check the icons), the
//! caller does it and reports the outcome, and the run moves on. Along the way
//! it publishes its phases, always in the same order.

use crate::game_scan::{game_views, ScannedGame, ScannedGameView};
use crate::ident::generate_legacy_id;
use crate::progress::{is_full_run, is_run_prefix, latest_phase, lemma_publish_keeps_order, SyncProgress};
use crate::shortcut::{shortcut_views, Shortcut, ShortcutView};
use crate::sync::{
    all_candidates, candidate_id, collect_candidates, merge_all, merge_games, rename_view,
    source_views,
};
use std::collections::HashMap;
use vstd::prelude::*;

verus! {

/// Where a run stands: what it waits for.
#[derive(Clone, Copy, Debug, PartialEq, Eq)]
pub enum SyncStage {
    /// Nothing has happened yet.
    NotStarted,
    /// The merged catalog is to be saved.
    SavingCatalog,
    /// The caller is to say which games have artwork already.
    FindingImages,
    /// An image is being fetched.
    DownloadingImages,
    /// The caller is to say which icons point at files that are there.
    CheckingIcons,
    /// The catalog with the repaired icons is to be saved.
    SavingIcons,
    /// The run is over.
    Done,
    /// The catalog could not be saved; the run was given up.
    Failed,
}

/// What the caller is to do next.
#[derive(Clone, Copy, Debug, PartialEq, Eq)]
pub enum SyncAction {
    /// Hand in catalog, games and rename map.
    Begin,
    /// Save the run's catalog and report whether that worked.
    SaveCatalog,
    /// Report the identifiers that have cached artwork.
    FindImages,
    /// Fetch and store the artwork of this identifier, and report whether that
    /// worked.
    FetchImage { app_id: u32 },
    /// Report for each shortcut of the catalog whether its icon is there.
    CheckIcons,
    /// Nothing: the run is done.
    Finish,
    /// Nothing: the run has failed.
    Abort,
}

/// What the caller found out about the icon of one shortcut.
#[derive(Clone, Debug, PartialEq, Eq)]
pub struct IconCheck {
    /// Whether the shortcut's icon reference resolves to a file.
    pub exists: bool,
    /// An icon that can stand in: the stored artwork for the shortcut's
    /// identifier, where there is some.
    pub replacement: Option<String>,
}

/// An icon report as contracts see it.
pub struct IconCheckView {
    pub exists: bool,
    pub replacement: Option<Seq<char>>,
}

impl View for IconCheck {
    type V = IconCheckView;

    open spec fn view(&self) -> IconCheckView {
        IconCheckView {
            exists: self.exists,
            replacement: match self.replacement {
                Some(path) => Some(path@),
                None => None,
            },
        }
    }
}

/// The views of a report on the icons.
pub open spec fn check_views(report: Seq<IconCheck>) -> Seq<IconCheckView> {
    Seq::new(report.len(), |i: int| report[i]@)
}

/// A run as contracts see it.
#[verifier::ext_equal]
pub struct SyncRunView {
    pub stage: SyncStage,
    /// The phases published so far, oldest first.
    pub history: Seq<SyncProgress>,
    pub catalog: Seq<ShortcutView>,
    /// The identifiers of the games of this run, in the order of the games.
    pub synced: Seq<u32>,
    /// The identifiers whose artwork is still to be fetched, next one first.
    pub queue: Seq<u32>,
    /// The identifiers whose artwork could not be fetched.
    pub skipped: Seq<u32>,
}

/// What holds of every run: its phases are in order, and its stage fits the
/// phase it published last.
pub open spec fn valid_run(run: SyncRunView) -> bool {
    &&& is_run_prefix(run.history)
    &&& match run.stage {
        SyncStage::NotStarted => run.history.len() == 0,
        SyncStage::SavingCatalog => latest_phase(run.history) is FoundGames,
        SyncStage::FindingImages => latest_phase(run.history) is FindingImages,
        SyncStage::DownloadingImages => run.queue.len() > 0 && latest_phase(run.history)
            == (SyncProgress::DownloadingImages { to_download: run.queue.len() as usize }),
        SyncStage::CheckingIcons | SyncStage::SavingIcons => latest_phase(run.history)
            is FindingImages || latest_phase(run.history) is DownloadingImages,
        SyncStage::Done => latest_phase(run.history) is Done,
        SyncStage::Failed => true,
    }
}

/// The action that a run in this state waits for.
pub open spec fn action_for(run: SyncRunView) -> SyncAction {
    match run.stage {
        SyncStage::NotStarted => SyncAction::Begin,
        SyncStage::SavingCatalog => SyncAction::SaveCatalog,
        SyncStage::FindingImages => SyncAction::FindImages,
        SyncStage::DownloadingImages => SyncAction::FetchImage { app_id: run.queue[0] },
        SyncStage::CheckingIcons => SyncAction::CheckIcons,
        SyncStage::SavingIcons => SyncAction::SaveCatalog,
        SyncStage::Done => SyncAction::Finish,
        SyncStage::Failed => SyncAction::Abort,
    }
}

/// The identifiers of a row of games.
pub open spec fn candidate_ids(games: Seq<ScannedGameView>) -> Seq<u32> {
    Seq::new(games.len(), |i: int| candidate_id(games[i]))
}

/// The run after it was handed catalog, games and rename map. A run that has
/// not started publishes `Starting` and `FoundGames` with the number of games,
/// merges, and waits for the catalog to be saved; any other run is unmoved.
pub open spec fn after_start(
    run: SyncRunView,
    catalog: Seq<ShortcutView>,
    games: Seq<ScannedGameView>,
    renames: Map<u32, Seq<char>>,
) -> SyncRunView {
    if run.stage is NotStarted {
        SyncRunView {
            stage: SyncStage::SavingCatalog,
            history: seq![
                SyncProgress::Starting,
                SyncProgress::FoundGames { games_found: games.len() as usize },
            ],
            catalog: merge_all(catalog, games, renames),
            synced: candidate_ids(games),
            queue: Seq::empty(),
            skipped: Seq::empty(),
        }
    } else {
        run
    }
}

/// The run after the caller reported on a save. A save that failed ends the
/// run. After the first save the run publishes `FindingImages`, after the
/// second `Done`.
pub open spec fn after_saved(run: SyncRunView, ok: bool) -> SyncRunView {
    match run.stage {
        SyncStage::SavingCatalog => if ok {
            SyncRunView {
                stage: SyncStage::FindingImages,
                history: run.history.push(SyncProgress::FindingImages),
                ..run
            }
        } else {
            SyncRunView { stage: SyncStage::Failed, ..run }
        },
        SyncStage::SavingIcons => if ok {
            SyncRunView { stage: SyncStage::Done, history: run.history.push(SyncProgress::Done), ..run }
        } else {
            SyncRunView { stage: SyncStage::Failed, ..run }
        },
        _ => run,
    }
}

/// The identifiers among the first `n` of `ids` whose artwork is to be
/// fetched: those that are not cached, each once, in the order in which they
/// first occur.
pub open spec fn art_queue(ids: Seq<u32>, n: nat, cached: Seq<u32>) -> Seq<u32>
    decreases n,
{
    if n == 0 || n > ids.len() {
        Seq::empty()
    } else {
        let before = art_queue(ids, (n - 1) as nat, cached);
        if cached.contains(ids[n - 1]) || before.contains(ids[n - 1]) {
            before
        } else {
            before.push(ids[n - 1])
        }
    }
}

/// The run after the caller reported which identifiers have cached artwork.
/// Where something is to be fetched the run publishes `DownloadingImages` with
/// the number of images and asks for the first; else it goes on to the icons.
pub open spec fn after_art_found(run: SyncRunView, cached: Seq<u32>) -> SyncRunView {
    if run.stage is FindingImages {
        let queue = art_queue(run.synced, run.synced.len(), cached);
        if queue.len() == 0 {
            SyncRunView { stage: SyncStage::CheckingIcons, queue, ..run }
        } else {
            SyncRunView {
                stage: SyncStage::DownloadingImages,
                history: run.history.push(
                    SyncProgress::DownloadingImages { to_download: queue.len() as usize },
                ),
                queue,
                ..run
            }
        }
    } else {
        run
    }
}

/// The run after the caller reported on the fetch of an image. The image
/// leaves the queue whether it came or not; one that did not come is noted as
/// skipped. Where images are left the run publishes `DownloadingImages` with
/// their number and asks for the next; else it goes on to the icons.
pub open spec fn after_art_fetched(run: SyncRunView, ok: bool) -> SyncRunView {
    if run.stage is DownloadingImages {
        let rest = run.queue.drop_first();
        let skipped = if ok {
            run.skipped
        } else {
            run.skipped.push(run.queue[0])
        };
        if rest.len() == 0 {
            SyncRunView { stage: SyncStage::CheckingIcons, queue: rest, skipped, ..run }
        } else {
            SyncRunView {
                history: run.history.push(
                    SyncProgress::DownloadingImages { to_download: rest.len() as usize },
                ),
                queue: rest,
                skipped,
                ..run
            }
        }
    } else {
        run
    }
}

/// A shortcut after the icon repair: an icon that is there stays; one that is
/// not gives way to the replacement, or to no icon where there is none.
pub open spec fn repaired(shortcut: ShortcutView, check: IconCheckView) -> ShortcutView {
    if check.exists {
        shortcut
    } else {
        ShortcutView {
            icon: match check.replacement {
                Some(path) => path,
                None => Seq::empty(),
            },
            ..shortcut
        }
    }
}

/// A catalog after the icon repair. A shortcut without a report is left as it
/// is.
pub open spec fn repaired_catalog(catalog: Seq<ShortcutView>, report: Seq<IconCheckView>) -> Seq<
    ShortcutView,
> {
    Seq::new(
        catalog.len(),
        |i: int|
            if i < report.len() {
                repaired(catalog[i], report[i])
            } else {
                catalog[i]
            },
    )
}

/// The run after the caller reported on the icons: the catalog is repaired
/// and waits to be saved.
pub open spec fn after_icons_checked(run: SyncRunView, report: Seq<IconCheckView>) -> SyncRunView {
    if run.stage is CheckingIcons {
        SyncRunView {
            stage: SyncStage::SavingIcons,
            catalog: repaired_catalog(run.catalog, report),
            ..run
        }
    } else {
        run
    }
}

/// Whether `id` is among `ids`.
pub fn contains_id(ids: &Vec<u32>, id: u32) -> (found: bool)
    ensures
        found == ids@.contains(id),
{
    let n = ids.len();
    let mut i: usize = 0;
    while i < n
        invariant
            n == ids@.len(),
            i <= n,
            forall|j: int| 0 <= j < i ==> ids@[j] != id,
        decreases n - i,
    {
        if ids[i] == id {
            return true;
        }
        i = i + 1;
    }
    false
}

/// One sync run.
pub struct SyncRun {
    stage: SyncStage,
    history: Vec<SyncProgress>,
    catalog: Vec<Shortcut>,
    synced: Vec<u32>,
    pending: Vec<u32>,
    next: usize,
    skipped: Vec<u32>,
}

impl View for SyncRun {
    type V = SyncRunView;

    closed spec fn view(&self) -> SyncRunView {
        SyncRunView {
            stage: self.stage,
            history: self.history@,
            catalog: shortcut_views(self.catalog@),
            synced: self.synced@,
            queue: if self.next <= self.pending@.len() {
                self.pending@.subrange(self.next as int, self.pending@.len() as int)
            } else {
                Seq::empty()
            },
            skipped: self.skipped@,
        }
    }
}

impl SyncRun {
    /// Whether the run is one that `new` and the steps can have made.
    pub closed spec fn wf(&self) -> bool {
        self.next <= self.pending@.len() && valid_run(self@)
    }

    /// Every run is valid: its phases are in order, and a run that is done has
    /// published a full run, from `Starting` to `Done`.
    pub proof fn lemma_history_in_order(&self)
        requires
            self.wf(),
        ensures
            valid_run(self@),
            is_run_prefix(self@.history),
            self@.stage is Done ==> is_full_run(self@.history),
    {
    }

    /// A run that has not started: nothing published, nothing to do but begin.
    pub fn new() -> (run: SyncRun)
        ensures
            run.wf(),
            run@ == (SyncRunView {
                stage: SyncStage::NotStarted,
                history: Seq::empty(),
                catalog: Seq::empty(),
                synced: Seq::empty(),
                queue: Seq::empty(),
                skipped: Seq::empty(),
            }),
    {
        let run = SyncRun {
            stage: SyncStage::NotStarted,
            history: Vec::new(),
            catalog: Vec::new(),
            synced: Vec::new(),
            pending: Vec::new(),
            next: 0,
            skipped: Vec::new(),
        };
        assert(run@ =~= (SyncRunView {
            stage: SyncStage::NotStarted,
            history: Seq::empty(),
            catalog: Seq::empty(),
            synced: Seq::empty(),
            queue: Seq::empty(),
            skipped: Seq::empty(),
        }));
        run
    }

    /// The stage of the run.
    pub fn stage(&self) -> (stage: SyncStage)
        ensures
            stage == self@.stage,
    {
        self.stage
    }

    /// Every phase that the run has published, oldest first.
    pub fn history(&self) -> (history: &Vec<SyncProgress>)
        ensures
            history@ == self@.history,
    {
        &self.history
    }

    /// The phase that the run published last; `NotStarted` where it has
    /// published none.
    pub fn progress(&self) -> (phase: SyncProgress)
        ensures
            phase == latest_phase(self@.history),
    {
        let n = self.history.len();
        if n == 0 {
            SyncProgress::NotStarted
        } else {
            self.history[n - 1]
        }
    }

    /// The catalog as the run has it now.
    pub fn catalog(&self) -> (catalog: &Vec<Shortcut>)
        ensures
            shortcut_views(catalog@) == self@.catalog,
    {
        &self.catalog
    }

    /// The identifiers whose artwork could not be fetched.
    pub fn skipped(&self) -> (skipped: &Vec<u32>)
        ensures
            skipped@ == self@.skipped,
    {
        &self.skipped
    }

    /// What the caller is to do next.
    pub fn pending_action(&self) -> (action: SyncAction)
        requires
            self.wf(),
        ensures
            action == action_for(self@),
    {
        match self.stage {
            SyncStage::NotStarted => SyncAction::Begin,
            SyncStage::SavingCatalog => SyncAction::SaveCatalog,
            SyncStage::FindingImages => SyncAction::FindImages,
            SyncStage::DownloadingImages => SyncAction::FetchImage {
                app_id: self.pending[self.next],
            },
            SyncStage::CheckingIcons => SyncAction::CheckIcons,
            SyncStage::SavingIcons => SyncAction::SaveCatalog,
            SyncStage::Done => SyncAction::Finish,
            SyncStage::Failed => SyncAction::Abort,
        }
    }

    /// Begins the run: publishes `Starting`, counts the games and publishes
    /// `FoundGames`, and merges the games into the catalog.
    pub fn start(
        &mut self,
        catalog: Vec<Shortcut>,
        platform_shortcuts: &Vec<(String, Vec<ScannedGame>)>,
        renames: &HashMap<u32, String>,
    ) -> (action: SyncAction)
        requires
            old(self).wf(),
        ensures
            final(self).wf(),
            final(self)@ == after_start(
                old(self)@,
                shortcut_views(catalog@),
                all_candidates(source_views(platform_shortcuts@)),
                rename_view(*renames),
            ),
            action == action_for(final(self)@),
            old(self)@.history.is_prefix_of(final(self)@.history),
    {
        if let SyncStage::NotStarted = self.stage {
            let games = collect_candidates(platform_shortcuts);
            let ghost rows = game_views(games@);
            let mut history: Vec<SyncProgress> = Vec::new();
            history.push(SyncProgress::Starting);
            history.push(SyncProgress::FoundGames { games_found: games.len() });
            let mut synced: Vec<u32> = Vec::new();
            let n = games.len();
            let mut i: usize = 0;
            while i < n
                invariant
                    n == games@.len(),
                    i <= n,
                    rows == game_views(games@),
                    synced@ == candidate_ids(rows).subrange(0, i as int),
                decreases n - i,
            {
                synced.push(
                    generate_legacy_id(games[i].name.as_str(), games[i].path.text.as_str()),
                );
                i = i + 1;
                assert(synced@ =~= candidate_ids(rows).subrange(0, i as int));
            }
            assert(synced@ =~= candidate_ids(rows));
            let merged = merge_games(catalog, &games, renames);
            self.stage = SyncStage::SavingCatalog;
            self.history = history;
            self.catalog = merged;
            self.synced = synced;
            self.pending = Vec::new();
            self.next = 0;
            self.skipped = Vec::new();
            proof {
                let want = after_start(
                    old(self)@,
                    shortcut_views(catalog@),
                    rows,
                    rename_view(*renames),
                );
                assert(self@.history =~= want.history);
                assert(self@.queue =~= want.queue);
                assert(self@.skipped =~= want.skipped);
                assert(self@ =~= want);
            }
            SyncAction::SaveCatalog
        } else {
            self.pending_action()
        }
    }

    /// Takes the caller's report on a save of the catalog.
    pub fn saved(&mut self, ok: bool) -> (action: SyncAction)
        requires
            old(self).wf(),
        ensures
            final(self).wf(),
            final(self)@ == after_saved(old(self)@, ok),
            action == action_for(final(self)@),
            old(self)@.history.is_prefix_of(final(self)@.history),
    {
        match self.stage {
            SyncStage::SavingCatalog => {
                if ok {
                    proof {
                        lemma_publish_keeps_order(self@.history, SyncProgress::FindingImages);
                    }
                    self.history.push(SyncProgress::FindingImages);
                    self.stage = SyncStage::FindingImages;
                } else {
                    self.stage = SyncStage::Failed;
                }
            },
            SyncStage::SavingIcons => {
                if ok {
                    proof {
                        lemma_publish_keeps_order(self@.history, SyncProgress::Done);
                    }
                    self.history.push(SyncProgress::Done);
                    self.stage = SyncStage::Done;
                } else {
                    self.stage = SyncStage::Failed;
                }
            },
            _ => {},
        }
        assert(self@ =~= after_saved(old(self)@, ok));
        self.pending_action()
    }

    /// Takes the caller's report on the cached artwork: the identifiers that
    /// need no fetch.
    pub fn art_found(&mut self, cached: &Vec<u32>) -> (action: SyncAction)
        requires
            old(self).wf(),
        ensures
            final(self).wf(),
            final(self)@ == after_art_found(old(self)@, cached@),
            action == action_for(final(self)@),
            old(self)@.history.is_prefix_of(final(self)@.history),
    {
        if let SyncStage::FindingImages = self.stage {
            let mut queue: Vec<u32> = Vec::new();
            let n = self.synced.len();
            let mut i: usize = 0;
            while i < n
                invariant
                    n == self.synced@.len(),
                    i <= n,
                    queue@ == art_queue(self.synced@, i as nat, cached@),
                decreases n - i,
            {
                let id = self.synced[i];
                if !contains_id(cached, id) && !contains_id(&queue, id) {
                    queue.push(id);
                }
                i = i + 1;
            }
            let count = queue.len();
            self.pending = queue;
            self.next = 0;
            assert(self@.queue =~= art_queue(old(self)@.synced, old(self)@.synced.len(), cached@));
            if count == 0 {
                self.stage = SyncStage::CheckingIcons;
            } else {
                proof {
                    lemma_publish_keeps_order(
                        self@.history,
                        SyncProgress::DownloadingImages { to_download: count },
                    );
                }
                self.history.push(SyncProgress::DownloadingImages { to_download: count });
                self.stage = SyncStage::DownloadingImages;
            }
            assert(self@ =~= after_art_found(old(self)@, cached@));
        }
        self.pending_action()
    }

    /// Takes the caller's report on the fetch of the image that was asked
    /// for. A fetch that failed is skipped; the run goes on.
    pub fn art_fetched(&mut self, ok: bool) -> (action: SyncAction)
        requires
            old(self).wf(),
        ensures
            final(self).wf(),
            final(self)@ == after_art_fetched(old(self)@, ok),
            action == action_for(final(self)@),
            old(self)@.history.is_prefix_of(final(self)@.history),
    {
        if let SyncStage::DownloadingImages = self.stage {
            let ghost before = self@;
            let total = self.pending.len();
            assert(before.queue.len() > 0);
            assert(self.next < total);
            let id = self.pending[self.next];
            if !ok {
                self.skipped.push(id);
            }
            self.next = self.next + 1;
            let left = total - self.next;
            assert(self@.queue =~= before.queue.drop_first());
            if left == 0 {
                self.stage = SyncStage::CheckingIcons;
            } else {
                proof {
                    lemma_publish_keeps_order(
                        self@.history,
                        SyncProgress::DownloadingImages { to_download: left },
                    );
                }
                self.history.push(SyncProgress::DownloadingImages { to_download: left });
            }
            assert(self@ =~= after_art_fetched(old(self)@, ok));
        }
        self.pending_action()
    }

    /// Takes the caller's report on the icons, one entry for each shortcut of
    /// the catalog in the catalog's order, and repairs the icons that are not
    /// there.
    pub fn icons_checked(&mut self, report: &Vec<IconCheck>) -> (action: SyncAction)
        requires
            old(self).wf(),
        ensures
            final(self).wf(),
            final(self)@ == after_icons_checked(old(self)@, check_views(report@)),
            action == action_for(final(self)@),
            old(self)@.history.is_prefix_of(final(self)@.history),
    {
        if let SyncStage::CheckingIcons = self.stage {
            let ghost before = self@;
            let n = self.catalog.len();
            let m = report.len();
            let mut i: usize = 0;
            while i < n && i < m
                invariant
                    n == self.catalog@.len(),
                    n == before.catalog.len(),
                    m == report@.len(),
                    i <= n,
                    i <= m,
                    self.stage == old(self).stage,
                    self.history == old(self).history,
                    self.synced == old(self).synced,
                    self.pending == old(self).pending,
                    self.next == old(self).next,
                    self.skipped == old(self).skipped,
                    forall|j: int|
                        0 <= j < i ==> (#[trigger] self.catalog@[j])@ == repaired(
                            before.catalog[j],
                            report@[j]@,
                        ),
                    forall|j: int| i <= j < n ==> (#[trigger] self.catalog@[j])@ == before.catalog[j],
                decreases n - i,
            {
                if !report[i].exists {
                    let icon = match &report[i].replacement {
                        Some(path) => path.clone(),
                        None => String::new(),
                    };
                    let ghost at_entry = self.catalog@;
                    self.catalog[i].icon = icon;
                    assert(forall|j: int| 0 <= j < n && j != i ==> self.catalog@[j] == at_entry[j]);
                }
                i = i + 1;
            }
            self.stage = SyncStage::SavingIcons;
            proof {
                let want = after_icons_checked(old(self)@, check_views(report@));
                assert(self@.catalog =~= want.catalog);
                assert(self@ =~= want);
            }
        }
        self.pending_action()
    }

    /// Ends the run and hands out its catalog.
    pub fn into_catalog(self) -> (catalog: Vec<Shortcut>)
        ensures
            shortcut_views(catalog@) == self@.catalog,
    {
        self.catalog
    }
}

} // verus!
