//! What the front end decides: the state of the folder-scan page, the status
//! line of an import, and when a change of page starts discovery anew.

use crate::game_scan::{clone_games, game_views, ScannedGame, ScannedGameView};
use crate::progress::SyncProgress;
use crate::text::{decimal_text, push_decimal, same_text};
use vstd::prelude::*;
use vstd::string::StringExecFns;

verus! {

/// The state of the folder-scan page.
pub struct ScanFolderState {
    /// The folder that the user chose.
    pub folder: Option<String>,
    /// The games of the last scan that found any.
    pub found_games: Vec<ScannedGame>,
    pub added_shortcuts: usize,
    /// What went wrong with the last scan.
    pub error: Option<String>,
    /// Where an import stands, in words.
    pub import_status: Option<String>,
}

/// The page's state as contracts see it.
pub struct ScanFolderStateView {
    pub folder: Option<Seq<char>>,
    pub found_games: Seq<ScannedGameView>,
    pub added_shortcuts: usize,
    pub error: Option<Seq<char>>,
    pub import_status: Option<Seq<char>>,
}

/// The text of a string that may be absent.
pub open spec fn text_of(value: Option<String>) -> Option<Seq<char>> {
    match value {
        Some(text) => Some(text@),
        None => None,
    }
}

impl View for ScanFolderState {
    type V = ScanFolderStateView;

    open spec fn view(&self) -> ScanFolderStateView {
        ScanFolderStateView {
            folder: text_of(self.folder),
            found_games: game_views(self.found_games@),
            added_shortcuts: self.added_shortcuts,
            error: text_of(self.error),
            import_status: text_of(self.import_status),
        }
    }
}

/// The name under which the games of a scanned folder go into a sync.
pub open spec fn scanned_folder_source() -> Seq<char> {
    "ScannedFolder"@
}

/// What the page says when a scan found nothing.
pub open spec fn no_games_message() -> Seq<char> {
    "No games found in this folder."@
}

/// A step of an import, as the page reports it.
#[derive(Clone, Debug, PartialEq, Eq)]
pub enum ImportStep {
    /// The settings could not be loaded; the import did not begin.
    SettingsFailed(String),
    /// The games are being merged into the catalog.
    Importing,
    /// The merge failed.
    ImportFailed(String),
    /// The merge is done; artwork is being fetched.
    DownloadingArtwork,
    /// The icons could not be repaired.
    IconFixFailed(String),
    /// Everything is done.
    Complete,
}

/// The words for a step of an import.
pub open spec fn step_message(step: ImportStep) -> Seq<char> {
    match step {
        ImportStep::SettingsFailed(error) => "Failed to load settings: "@ + error@,
        ImportStep::Importing => "Importing shortcuts into Steam..."@,
        ImportStep::ImportFailed(error) => "Failed to import shortcuts: "@ + error@,
        ImportStep::DownloadingArtwork => "Downloading artwork from SteamGridDB..."@,
        ImportStep::IconFixFailed(error) => "Could not fix shortcuts: "@ + error@,
        ImportStep::Complete => "Scan/import/artwork complete."@,
    }
}

/// Puts a step of an import into words.
pub fn import_message(step: &ImportStep) -> (message: String)
    ensures
        message@ == step_message(*step),
{
    match step {
        ImportStep::SettingsFailed(error) => {
            let mut message = String::from_str("Failed to load settings: ");
            message.append(error.as_str());
            message
        },
        ImportStep::Importing => String::from_str("Importing shortcuts into Steam..."),
        ImportStep::ImportFailed(error) => {
            let mut message = String::from_str("Failed to import shortcuts: ");
            message.append(error.as_str());
            message
        },
        ImportStep::DownloadingArtwork => String::from_str(
            "Downloading artwork from SteamGridDB...",
        ),
        ImportStep::IconFixFailed(error) => {
            let mut message = String::from_str("Could not fix shortcuts: ");
            message.append(error.as_str());
            message
        },
        ImportStep::Complete => String::from_str("Scan/import/artwork complete."),
    }
}

impl Default for ScanFolderState {
    fn default() -> (state: Self)
        ensures
            state@ == (ScanFolderStateView {
                folder: None,
                found_games: Seq::empty(),
                added_shortcuts: 0,
                error: None,
                import_status: None,
            }),
    {
        let state = ScanFolderState {
            folder: None,
            found_games: Vec::new(),
            added_shortcuts: 0,
            error: None,
            import_status: None,
        };
        assert(state@.found_games =~= Seq::empty());
        state
    }
}

impl ScanFolderState {
    /// The user chose a folder: whatever an earlier folder left behind goes.
    pub fn choose_folder(&mut self, folder: String)
        ensures
            final(self)@ == (ScanFolderStateView {
                folder: Some(folder@),
                found_games: Seq::empty(),
                added_shortcuts: 0,
                error: None,
                import_status: None,
            }),
    {
        self.folder = Some(folder);
        self.found_games = Vec::new();
        self.added_shortcuts = 0;
        self.error = None;
        self.import_status = None;
        assert(self@.found_games =~= Seq::empty());
    }

    /// A scan of the chosen folder has ended. Games that were found take the
    /// place of the earlier ones; a scan that found none leaves them and is
    /// reported as an error. Either way the import status is cleared.
    pub fn record_scan(&mut self, games: Vec<ScannedGame>)
        ensures
            final(self)@ == (if games@.len() == 0 {
                ScanFolderStateView {
                    error: Some(no_games_message()),
                    import_status: None,
                    ..old(self)@
                }
            } else {
                ScanFolderStateView {
                    found_games: game_views(games@),
                    error: None,
                    import_status: None,
                    ..old(self)@
                }
            }),
    {
        if games.len() == 0 {
            self.error = Some(String::from_str("No games found in this folder."));
        } else {
            self.found_games = games;
            self.error = None;
        }
        self.import_status = None;
    }

    /// What goes into a sync when the user imports the games that were found:
    /// one source that holds them all.
    pub fn import_sources(&self) -> (sources: Vec<(String, Vec<ScannedGame>)>)
        ensures
            crate::sync::source_views(sources@) == seq![
                (scanned_folder_source(), self@.found_games),
            ],
    {
        let mut sources: Vec<(String, Vec<ScannedGame>)> = Vec::new();
        sources.push((String::from_str("ScannedFolder"), clone_games(&self.found_games)));
        assert(crate::sync::source_views(sources@) =~= seq![
            (scanned_folder_source(), self@.found_games),
        ]);
        sources
    }

    /// An import has come to a step: the page shows it in words.
    pub fn report_import(&mut self, step: &ImportStep)
        ensures
            final(self)@ == (ScanFolderStateView {
                import_status: Some(step_message(*step)),
                ..old(self)@
            }),
    {
        self.import_status = Some(import_message(step));
    }
}

/// Whether a sync is under way in this phase.
pub open spec fn is_syncing(progress: SyncProgress) -> bool {
    !(progress is NotStarted) && !(progress is Done)
}

/// The status line for a phase.
pub open spec fn status_text(progress: SyncProgress) -> Seq<char> {
    match progress {
        SyncProgress::NotStarted => Seq::empty(),
        SyncProgress::Starting => "Starting Import"@,
        SyncProgress::FoundGames { games_found } => "Found "@ + decimal_text(games_found as nat)
            + " games to  import"@,
        SyncProgress::FindingImages => "Searching for images"@,
        SyncProgress::DownloadingImages { to_download } => "Downloading "@ + decimal_text(
            to_download as nat,
        ) + " images "@,
        SyncProgress::Done => "Done importing games"@,
    }
}

/// The status line for a phase, and whether a sync is under way.
pub fn sync_status(progress: &SyncProgress) -> (status: (String, bool))
    ensures
        status.0@ == status_text(*progress),
        status.1 == is_syncing(*progress),
{
    match progress {
        SyncProgress::NotStarted => (String::new(), false),
        SyncProgress::Starting => (String::from_str("Starting Import"), true),
        SyncProgress::FoundGames { games_found } => {
            let mut text = String::from_str("Found ");
            push_decimal(&mut text, *games_found as u64);
            text.append(" games to  import");
            (text, true)
        },
        SyncProgress::FindingImages => (String::from_str("Searching for images"), true),
        SyncProgress::DownloadingImages { to_download } => {
            let mut text = String::from_str("Downloading ");
            push_decimal(&mut text, *to_download as u64);
            text.append(" images ");
            (text, true)
        },
        SyncProgress::Done => (String::from_str("Done importing games"), false),
    }
}

/// Whether the import can be started: every source has reported and no sync
/// is under way.
pub fn can_import(all_ready: bool, progress: &SyncProgress) -> (yes: bool)
    ensures
        yes == (all_ready && !is_syncing(*progress)),
{
    let syncing = match progress {
        SyncProgress::NotStarted => false,
        SyncProgress::Done => false,
        _ => true,
    };
    all_ready && !syncing
}

/// The pages of the front end.
#[derive(Clone, Copy, Debug, PartialEq, Eq)]
pub enum Menues {
    Import,
    Settings,
    Images,
    Backup,
    Disconnect,
}

impl Default for Menues {
    fn default() -> (menu: Self)
        ensures
            menu == Menues::Import,
    {
        Menues::Import
    }
}

/// Whether a change of page starts discovery anew: when the user comes from
/// the settings to the import page, since the settings may have changed which
/// sources are enabled.
pub fn needs_refetch(changed: bool, menu_before: Menues, menu_after: Menues) -> (refetch: bool)
    ensures
        refetch == (changed && menu_before == Menues::Settings && menu_after == Menues::Import),
{
    let from_settings = match menu_before {
        Menues::Settings => true,
        _ => false,
    };
    let to_import = match menu_after {
        Menues::Import => true,
        _ => false,
    };
    changed && from_settings && to_import
}

/// Whether `flag` is among the arguments.
pub open spec fn has_arg(args: Seq<String>, flag: Seq<char>) -> bool {
    exists|i: int| 0 <= i < args.len() && (#[trigger] args[i])@ == flag
}

/// Whether `flag` is among the arguments.
pub fn has_flag(args: &Vec<String>, flag: &str) -> (found: bool)
    ensures
        found == has_arg(args@, flag@),
{
    let n = args.len();
    let mut i: usize = 0;
    while i < n
        invariant
            n == args@.len(),
            i <= n,
            forall|j: int| 0 <= j < i ==> (#[trigger] args@[j])@ != flag@,
        decreases n - i,
    {
        if same_text(args[i].as_str(), flag) {
            return true;
        }
        i = i + 1;
    }
    false
}

/// Whether the window is to fill the screen: when the host library has
/// started the program (it then names its application in `steam_app_id`), or
/// when `--fullscreen` is among the arguments.
pub fn is_fullscreen(args: &Vec<String>, steam_app_id: Option<&str>) -> (fullscreen: bool)
    ensures
        fullscreen == ((match steam_app_id {
            Some(value) => value@.len() > 0,
            None => false,
        }) || has_arg(args@, "--fullscreen"@)),
{
    let is_steam_mode = match steam_app_id {
        Some(value) => value.unicode_len() > 0,
        None => false,
    };
    is_steam_mode || has_flag(args, "--fullscreen")
}

} // verus!
