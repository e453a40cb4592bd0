//! The folder scanner: from a listing of a folder tree to one candidate game
//! per subfolder, the largest executable found anywhere below it.
//!
//! The scanner reads no disk. Its input is the tree as the caller listed it:
//! for each file its path, extension, leading bytes and size, each absent where
//! it could not be read.

use crate::ident::{generate_app_id, identifier_text};
use crate::text::{
    chars_of, contains_chars, eq_ignoring_ascii_case, equals_ignoring_ascii_case, has_substring,
    lowercase_of, occurs_at, to_lowercase,
};
use vstd::prelude::*;

verus! {

/// A file counts as a game's executable only if it is larger than this many
/// bytes (1 MiB): launchers and updaters are smaller.
pub const MIN_EXECUTABLE_SIZE: u64 = 1_048_576;

/// How executables are told from other files.
#[derive(Clone, Copy, Debug, PartialEq, Eq)]
pub enum ExecutablePolicy {
    /// By the file name's extension: `exe`, in any case.
    Extension,
    /// By the file's first four bytes: those of an ELF binary.
    MagicBytes,
}

/// The path of a file, as text, with the text of the folder it lies in.
#[derive(Clone, Debug, PartialEq, Eq)]
pub struct ExePath {
    /// The whole path.
    pub text: String,
    /// The path without its last component; `None` where there is none.
    pub parent: Option<String>,
}

/// What the scanner reads of a file.
#[derive(Clone, Debug, PartialEq, Eq)]
pub struct FileInfo {
    pub path: ExePath,
    /// The file name's extension, without the dot; `None` where it has none.
    pub extension: Option<String>,
    /// The first four bytes; `None` where the file could not be opened or is
    /// shorter.
    pub magic: Option<[u8; 4]>,
    /// The length in bytes; `None` where it could not be read.
    pub size: Option<u64>,
}

/// A folder with what it holds.
#[derive(Debug, PartialEq, Eq)]
pub struct FolderInfo {
    /// The folder's own name, the last component of its path.
    pub name: String,
    /// The entries in the order in which the folder listed them; `None` where
    /// the folder could not be read.
    pub listing: Option<Vec<Entry>>,
}

/// An entry of a folder.
#[derive(Debug, PartialEq, Eq)]
pub enum Entry {
    File(FileInfo),
    Folder(FolderInfo),
}

/// Represents a game found by scanning a folder.
#[derive(Clone, Debug, PartialEq, Eq)]
pub struct ScannedGame {
    /// The display name of the game (folder name).
    pub name: String,
    /// The path to the main executable (the largest one below the folder).
    pub path: ExePath,
    /// The size of the executable in bytes.
    pub size_bytes: u64,
    /// The identifier generated for the game, in decimal.
    pub app_id: String,
}

/// A path as contracts see it.
pub struct ExePathView {
    pub text: Seq<char>,
    pub parent: Option<Seq<char>>,
}

/// A game as contracts see it.
pub struct ScannedGameView {
    pub name: Seq<char>,
    pub path: ExePathView,
    pub size_bytes: u64,
    pub app_id: Seq<char>,
}

impl View for ExePath {
    type V = ExePathView;

    open spec fn view(&self) -> ExePathView {
        ExePathView {
            text: self.text@,
            parent: match self.parent {
                Some(p) => Some(p@),
                None => None,
            },
        }
    }
}

impl View for ScannedGame {
    type V = ScannedGameView;

    open spec fn view(&self) -> ScannedGameView {
        ScannedGameView {
            name: self.name@,
            path: self.path@,
            size_bytes: self.size_bytes,
            app_id: self.app_id@,
        }
    }
}

/// The views of a list of games.
pub open spec fn game_views(games: Seq<ScannedGame>) -> Seq<ScannedGameView> {
    Seq::new(games.len(), |i: int| games[i]@)
}

/// The first four bytes of an ELF binary.
pub open spec fn elf_magic() -> Seq<u8> {
    seq![0x7fu8, 0x45u8, 0x4cu8, 0x46u8]
}

/// The extension of an executable, in lower case.
pub open spec fn exe_extension() -> Seq<char> {
    seq!['e', 'x', 'e']
}

/// Whether a file is an executable under the given policy. A file whose
/// extension or leading bytes are missing is none.
pub open spec fn is_executable_file(policy: ExecutablePolicy, file: FileInfo) -> bool {
    match policy {
        ExecutablePolicy::Extension => match file.extension {
            Some(ext) => eq_ignoring_ascii_case(ext@, exe_extension()),
            None => false,
        },
        ExecutablePolicy::MagicBytes => match file.magic {
            Some(magic) => magic@ == elf_magic(),
            None => false,
        },
    }
}

/// The executable classifier.
pub fn is_executable(policy: ExecutablePolicy, file: &FileInfo) -> (yes: bool)
    ensures
        yes == is_executable_file(policy, *file),
{
    match policy {
        ExecutablePolicy::Extension => match &file.extension {
            Some(ext) => {
                proof {
                    reveal_strlit("exe");
                    assert("exe"@ =~= exe_extension());
                }
                equals_ignoring_ascii_case(ext.as_str(), "exe")
            },
            None => false,
        },
        ExecutablePolicy::MagicBytes => match &file.magic {
            Some(magic) => {
                let yes = magic[0] == 0x7f && magic[1] == 0x45 && magic[2] == 0x4c && magic[3]
                    == 0x46;
                proof {
                    if yes {
                        assert(magic@ =~= elf_magic());
                    } else {
                        assert(elf_magic()[0] == 0x7f && elf_magic()[1] == 0x45 && elf_magic()[2]
                            == 0x4c && elf_magic()[3] == 0x46);
                    }
                }
                yes
            },
            None => false,
        },
    }
}

/// The size of a file; 0 where it could not be read.
pub open spec fn size_of(file: FileInfo) -> u64 {
    match file.size {
        Some(n) => n,
        None => 0,
    }
}

/// Whether a file can be a game's main executable: an executable whose size is
/// known and exceeds the floor.
pub open spec fn qualifies(policy: ExecutablePolicy, file: FileInfo) -> bool {
    is_executable_file(policy, file) && file.size is Some && size_of(file) > MIN_EXECUTABLE_SIZE
}

/// The qualifying files at or below an entry, in the order of a walk that
/// takes each folder's entries as listed and descends into a subfolder where it
/// meets it.
pub open spec fn entry_candidates(policy: ExecutablePolicy, entry: Entry) -> Seq<FileInfo>
    decreases entry, 0nat,
{
    match entry {
        Entry::File(file) => if qualifies(policy, file) {
            seq![file]
        } else {
            Seq::empty()
        },
        Entry::Folder(folder) => folder_candidates(policy, folder),
    }
}

/// The qualifying files below a folder, in walk order. A folder that could not
/// be read has none.
pub open spec fn folder_candidates(policy: ExecutablePolicy, folder: FolderInfo) -> Seq<FileInfo>
    decreases folder, 0nat,
{
    match folder.listing {
        Some(entries) => listing_candidates(policy, entries@, entries@.len()),
        None => Seq::empty(),
    }
}

/// The qualifying files at or below the first `n` entries of a listing.
pub open spec fn listing_candidates(policy: ExecutablePolicy, entries: Seq<Entry>, n: nat) -> Seq<
    FileInfo,
>
    decreases entries, n,
{
    if n == 0 || n > entries.len() {
        Seq::empty()
    } else {
        listing_candidates(policy, entries, (n - 1) as nat) + entry_candidates(
            policy,
            entries[n - 1],
        )
    }
}

/// Whether the file at position `i` wins among `files`: none is larger, and
/// every file before it is smaller. Of several files of the largest size the
/// first one wins.
pub open spec fn is_winner(files: Seq<FileInfo>, i: int) -> bool {
    &&& 0 <= i < files.len()
    &&& forall|j: int| 0 <= j < files.len() ==> size_of(#[trigger] files[j]) <= size_of(files[i])
    &&& forall|j: int| 0 <= j < i ==> size_of(#[trigger] files[j]) < size_of(files[i])
}

/// Whether `best` is the outcome of the contest among `files`: nothing where
/// there is no file, else the winner.
pub open spec fn is_best_of(files: Seq<FileInfo>, best: Option<FileInfo>) -> bool {
    match best {
        None => files.len() == 0,
        Some(file) => exists|i: int| is_winner(files, i) && files[i] == file,
    }
}

/// At most one position wins.
pub proof fn lemma_winner_unique(files: Seq<FileInfo>, i: int, j: int)
    requires
        is_winner(files, i),
        is_winner(files, j),
    ensures
        i == j,
{
    if i < j {
        assert(size_of(files[i]) < size_of(files[j]));
        assert(size_of(files[j]) <= size_of(files[i]));
    } else if j < i {
        assert(size_of(files[j]) < size_of(files[i]));
        assert(size_of(files[i]) <= size_of(files[j]));
    }
}

/// The contest has exactly one outcome.
pub proof fn lemma_best_unique(files: Seq<FileInfo>, a: Option<FileInfo>, b: Option<FileInfo>)
    requires
        is_best_of(files, a),
        is_best_of(files, b),
    ensures
        a == b,
{
    if a is Some && b is Some {
        let i = choose|i: int| is_winner(files, i) && files[i] == a->0;
        let j = choose|j: int| is_winner(files, j) && files[j] == b->0;
        lemma_winner_unique(files, i, j);
    }
}

/// The outcome of a contest over two runs of files in a row: the second run's
/// best wins only where it is larger than the first run's.
proof fn lemma_best_of_concat(
    first: Seq<FileInfo>,
    second: Seq<FileInfo>,
    a: Option<FileInfo>,
    b: Option<FileInfo>,
)
    requires
        is_best_of(first, a),
        is_best_of(second, b),
    ensures
        is_best_of(
            first + second,
            match (a, b) {
                (None, _) => b,
                (Some(_), None) => a,
                (Some(x), Some(y)) => if size_of(y) > size_of(x) {
                    b
                } else {
                    a
                },
            },
        ),
{
    let all = first + second;
    match (a, b) {
        (None, None) => {},
        (None, Some(y)) => {
            let j = choose|j: int| is_winner(second, j) && second[j] == y;
            assert(all =~= second);
            assert(is_winner(all, j) && all[j] == y);
        },
        (Some(x), None) => {
            let i = choose|i: int| is_winner(first, i) && first[i] == x;
            assert(all =~= first);
            assert(is_winner(all, i) && all[i] == x);
        },
        (Some(x), Some(y)) => {
            let i = choose|i: int| is_winner(first, i) && first[i] == x;
            let j = choose|j: int| is_winner(second, j) && second[j] == y;
            assert forall|k: int| 0 <= k < all.len() implies size_of(#[trigger] all[k]) <= (if size_of(
                y,
            ) > size_of(x) {
                size_of(y)
            } else {
                size_of(x)
            }) by {
                if k < first.len() {
                    assert(all[k] == first[k]);
                } else {
                    assert(all[k] == second[k - first.len()]);
                }
            }
            if size_of(y) > size_of(x) {
                let w = first.len() + j;
                assert(all[w] == second[j]);
                assert forall|k: int| 0 <= k < w implies size_of(#[trigger] all[k]) < size_of(
                    all[w],
                ) by {
                    if k < first.len() {
                        assert(all[k] == first[k]);
                    } else {
                        assert(all[k] == second[k - first.len()]);
                    }
                }
                assert(is_winner(all, w) && all[w] == y);
            } else {
                assert(all[i] == first[i]);
                assert forall|k: int| 0 <= k < i implies size_of(#[trigger] all[k]) < size_of(
                    all[i],
                ) by {
                    assert(all[k] == first[k]);
                }
                assert(is_winner(all, i) && all[i] == x);
            }
        },
    }
}

/// Finds the largest qualifying executable at any depth below a folder. Among
/// files of the largest size the one that the walk meets first is kept.
pub fn find_largest_exe<'a>(policy: ExecutablePolicy, dir: &'a FolderInfo) -> (best: Option<
    &'a FileInfo,
>)
    ensures
        is_best_of(
            folder_candidates(policy, *dir),
            match best {
                Some(file) => Some(*file),
                None => None,
            },
        ),
        best matches Some(file) ==> qualifies(policy, *file),
    decreases dir,
{
    let mut largest_file: Option<&'a FileInfo> = None;
    let mut largest_size: u64 = 0;
    if let Some(entries) = &dir.listing {
        let n = entries.len();
        let mut i: usize = 0;
        while i < n
            invariant
                dir.listing == Some(*entries),
                n == entries@.len(),
                i <= n,
                is_best_of(
                    listing_candidates(policy, entries@, i as nat),
                    match largest_file {
                        Some(file) => Some(*file),
                        None => None,
                    },
                ),
                largest_file matches Some(file) ==> qualifies(policy, *file) && largest_size
                    == size_of(*file),
                largest_file is None ==> largest_size == 0,
            decreases n - i,
        {
            let ghost before = listing_candidates(policy, entries@, i as nat);
            let ghost old_best: Option<FileInfo> = match largest_file {
                Some(file) => Some(*file),
                None => None,
            };
            let mut found: Option<&'a FileInfo> = None;
            match &entries[i] {
                Entry::Folder(sub) => {
                    // Recursively search subdirectories
                    proof {
                        assert(match dir.listing {
                            Some(v) => decreases_to!(dir.listing => v),
                            None => true,
                        });
                        assert(decreases_to!(entries@ => entries@[i as int]));
                    }
                    found = find_largest_exe(policy, sub);
                },
                Entry::File(file) => {
                    if is_executable(policy, file) {
                        if let Some(size) = file.size {
                            // Only consider files larger than 1MB to skip launchers/updaters
                            if size > MIN_EXECUTABLE_SIZE {
                                found = Some(file);
                                proof {
                                    let one = entry_candidates(policy, entries@[i as int]);
                                    assert(one =~= seq![*file]);
                                    assert(is_winner(one, 0) && one[0] == *file);
                                }
                            }
                        }
                    }
                },
            }
            proof {
                let here = entry_candidates(policy, entries@[i as int]);
                let found_file: Option<FileInfo> = match found {
                    Some(file) => Some(*file),
                    None => None,
                };
                assert(is_best_of(here, found_file));
                lemma_best_of_concat(before, here, old_best, found_file);
                assert(listing_candidates(policy, entries@, (i + 1) as nat) == before + here);
            }
            if let Some(file) = found {
                if let Some(size) = file.size {
                    if size > largest_size {
                        largest_size = size;
                        largest_file = Some(file);
                    }
                }
            }
            i = i + 1;
        }
    }
    largest_file
}

/// The fragments that mark a folder as no game: installers of runtimes and
/// redistributables, and folders of the operating system.
pub open spec fn skip_fragments() -> Seq<Seq<char>> {
    seq![
        "redist"@,
        "directx"@,
        "dotnet"@,
        "vcredist"@,
        "_commonredist"@,
        "system32"@,
        "windows"@,
        "program files"@,
        "program files (x86)"@,
    ]
}

/// Whether a folder of this name is left out of a scan: its name, in lower
/// case, holds one of the fragments.
pub open spec fn is_skipped_name(name: Seq<char>) -> bool {
    exists|k: int|
        0 <= k < skip_fragments().len() && has_substring(
            lowercase_of(name),
            #[trigger] skip_fragments()[k],
        )
}

fn skip_fragment(k: usize) -> (fragment: &'static str)
    requires
        k < 9,
    ensures
        fragment@ == skip_fragments()[k as int],
{
    if k == 0 {
        "redist"
    } else if k == 1 {
        "directx"
    } else if k == 2 {
        "dotnet"
    } else if k == 3 {
        "vcredist"
    } else if k == 4 {
        "_commonredist"
    } else if k == 5 {
        "system32"
    } else if k == 6 {
        "windows"
    } else if k == 7 {
        "program files"
    } else {
        "program files (x86)"
    }
}

/// Whether the scan passes over a folder of this name.
pub fn is_skipped_folder(name: &str) -> (skip: bool)
    ensures
        skip == is_skipped_name(name@),
{
    let folder_name = to_lowercase(name);
    let hay = chars_of(folder_name.as_str());
    let mut k: usize = 0;
    while k < 9
        invariant
            k <= 9,
            hay@ == lowercase_of(name@),
            forall|j: int| 0 <= j < k ==> !has_substring(hay@, #[trigger] skip_fragments()[j]),
        decreases 9 - k,
    {
        let needle = chars_of(skip_fragment(k));
        if contains_chars(&hay, &needle) {
            return true;
        }
        k = k + 1;
    }
    false
}

/// The position of the winner among `files`.
pub open spec fn winner_index(files: Seq<FileInfo>) -> int {
    choose|i: int| is_winner(files, i)
}

/// The game that a scan reports for an entry of the scanned folder: none for a
/// file, for a folder with a skipped name and for a folder without a qualifying
/// executable; else the folder's name with its largest executable.
pub open spec fn game_for(policy: ExecutablePolicy, entry: Entry) -> Option<ScannedGameView> {
    match entry {
        Entry::File(_) => None,
        Entry::Folder(folder) => {
            let files = folder_candidates(policy, folder);
            if is_skipped_name(folder.name@) || files.len() == 0 {
                None
            } else {
                let best = files[winner_index(files)];
                Some(
                    ScannedGameView {
                        name: folder.name@,
                        path: best.path@,
                        size_bytes: size_of(best),
                        app_id: identifier_text(best.path.text@, folder.name@),
                    },
                )
            }
        },
    }
}

/// The games of the first `n` entries of a listing, in the listing's order.
pub open spec fn games_of_listing(policy: ExecutablePolicy, entries: Seq<Entry>, n: nat) -> Seq<
    ScannedGameView,
>
    decreases n,
{
    if n == 0 || n > entries.len() {
        Seq::empty()
    } else {
        let before = games_of_listing(policy, entries, (n - 1) as nat);
        match game_for(policy, entries[n - 1]) {
            Some(game) => before.push(game),
            None => before,
        }
    }
}

/// What a scan of `root` reports: one game for each of its subfolders that has
/// one, in the order of the listing; nothing where `root` could not be read.
pub open spec fn scanned_games(policy: ExecutablePolicy, root: FolderInfo) -> Seq<ScannedGameView> {
    match root.listing {
        Some(entries) => games_of_listing(policy, entries@, entries@.len()),
        None => Seq::empty(),
    }
}

fn clone_path(path: &ExePath) -> (copy: ExePath)
    ensures
        copy == *path,
{
    ExePath {
        text: path.text.clone(),
        parent: match &path.parent {
            Some(p) => Some(p.clone()),
            None => None,
        },
    }
}

/// Copies a game.
pub fn clone_game(game: &ScannedGame) -> (copy: ScannedGame)
    ensures
        copy == *game,
{
    ScannedGame {
        name: game.name.clone(),
        path: clone_path(&game.path),
        size_bytes: game.size_bytes,
        app_id: game.app_id.clone(),
    }
}

/// Copies a list of games.
pub fn clone_games(games: &Vec<ScannedGame>) -> (copy: Vec<ScannedGame>)
    ensures
        game_views(copy@) == game_views(games@),
{
    let mut copy: Vec<ScannedGame> = Vec::new();
    let n = games.len();
    let mut i: usize = 0;
    while i < n
        invariant
            n == games@.len(),
            i <= n,
            copy@.len() == i,
            forall|j: int| 0 <= j < i ==> (#[trigger] copy@[j]) == games@[j],
        decreases n - i,
    {
        copy.push(clone_game(&games[i]));
        i = i + 1;
    }
    assert(game_views(copy@) =~= game_views(games@));
    copy
}

/// Scans a folder for game directories and finds the largest executable in
/// each.
pub fn scan_folder(policy: ExecutablePolicy, root: &FolderInfo) -> (games: Vec<ScannedGame>)
    ensures
        game_views(games@) == scanned_games(policy, *root),
{
    let mut games: Vec<ScannedGame> = Vec::new();
    if let Some(entries) = &root.listing {
        let n = entries.len();
        let mut i: usize = 0;
        assert(game_views(games@) =~= games_of_listing(policy, entries@, 0));
        while i < n
            invariant
                n == entries@.len(),
                i <= n,
                game_views(games@) == games_of_listing(policy, entries@, i as nat),
            decreases n - i,
        {
            let ghost before = game_views(games@);
            if let Entry::Folder(folder) = &entries[i] {
                // Skip system folders and redistributables
                if !is_skipped_folder(folder.name.as_str()) {
                    // Find the largest executable in this game folder
                    if let Some(largest_exe) = find_largest_exe(policy, folder) {
                        if let Some(size) = largest_exe.size {
                            let name = folder.name.clone();
                            let app_id = generate_app_id(
                                name.as_str(),
                                largest_exe.path.text.as_str(),
                            );
                            proof {
                                let files = folder_candidates(policy, *folder);
                                let w = choose|w: int|
                                    is_winner(files, w) && files[w] == *largest_exe;
                                lemma_winner_unique(files, w, winner_index(files));
                            }
                            games.push(
                                ScannedGame {
                                    name,
                                    path: clone_path(&largest_exe.path),
                                    size_bytes: size,
                                    app_id,
                                },
                            );
                            assert(game_views(games@) =~= before.push(
                                game_for(policy, entries@[i as int])->0,
                            ));
                        }
                    }
                }
            }
            i = i + 1;
        }
    } else {
        assert(game_views(games@) =~= Seq::<ScannedGameView>::empty());
    }
    games
}

/// Every game of a scan bears the name of a folder that is not skipped, and
/// its executable is larger than the floor.
pub proof fn lemma_scanned_games_qualify(policy: ExecutablePolicy, root: FolderInfo, i: int)
    requires
        0 <= i < scanned_games(policy, root).len(),
    ensures
        !is_skipped_name(scanned_games(policy, root)[i].name),
        scanned_games(policy, root)[i].size_bytes > MIN_EXECUTABLE_SIZE,
{
    let entries = root.listing->0@;
    lemma_games_of_listing_qualify(policy, entries, entries.len(), i);
}

proof fn lemma_games_of_listing_qualify(
    policy: ExecutablePolicy,
    entries: Seq<Entry>,
    n: nat,
    i: int,
)
    requires
        0 <= i < games_of_listing(policy, entries, n).len(),
    ensures
        !is_skipped_name(games_of_listing(policy, entries, n)[i].name),
        games_of_listing(policy, entries, n)[i].size_bytes > MIN_EXECUTABLE_SIZE,
    decreases n,
{
    let before = games_of_listing(policy, entries, (n - 1) as nat);
    if i < before.len() {
        lemma_games_of_listing_qualify(policy, entries, (n - 1) as nat, i);
    } else {
        let folder = entries[n - 1]->Folder_0;
        let files = folder_candidates(policy, folder);
        lemma_winner_exists(files);
        lemma_candidates_qualify(policy, entries[n - 1], winner_index(files));
    }
}

/// Among one or more files there is a winner.
pub proof fn lemma_winner_exists(files: Seq<FileInfo>)
    requires
        files.len() > 0,
    ensures
        is_winner(files, winner_index(files)),
    decreases files.len(),
{
    if files.len() == 1 {
        assert(is_winner(files, 0));
    } else {
        let front = files.drop_last();
        lemma_winner_exists(front);
        let w = winner_index(front);
        let last = files.len() - 1;
        if size_of(files[last]) > size_of(front[w]) {
            assert forall|j: int| 0 <= j < files.len() implies size_of(#[trigger] files[j])
                <= size_of(files[last]) by {
                if j < last {
                    assert(files[j] == front[j]);
                }
            }
            assert forall|j: int| 0 <= j < last implies size_of(#[trigger] files[j]) < size_of(
                files[last],
            ) by {
                assert(files[j] == front[j]);
            }
            assert(is_winner(files, last));
        } else {
            assert(files[w] == front[w]);
            assert forall|j: int| 0 <= j < files.len() implies size_of(#[trigger] files[j])
                <= size_of(files[w]) by {
                if j < last {
                    assert(files[j] == front[j]);
                }
            }
            assert forall|j: int| 0 <= j < w implies size_of(#[trigger] files[j]) < size_of(
                files[w],
            ) by {
                assert(files[j] == front[j]);
            }
            assert(is_winner(files, w));
        }
    }
}

/// Every file among the candidates of an entry qualifies.
pub proof fn lemma_candidates_qualify(policy: ExecutablePolicy, entry: Entry, i: int)
    requires
        0 <= i < entry_candidates(policy, entry).len(),
    ensures
        qualifies(policy, entry_candidates(policy, entry)[i]),
    decreases entry, 0nat,
{
    match entry {
        Entry::File(file) => {},
        Entry::Folder(folder) => {
            let entries = folder.listing->0;
            lemma_listing_candidates_qualify(policy, entries@, entries@.len(), i);
        },
    }
}

proof fn lemma_listing_candidates_qualify(
    policy: ExecutablePolicy,
    entries: Seq<Entry>,
    n: nat,
    i: int,
)
    requires
        0 <= i < listing_candidates(policy, entries, n).len(),
    ensures
        qualifies(policy, listing_candidates(policy, entries, n)[i]),
    decreases entries, n,
{
    let before = listing_candidates(policy, entries, (n - 1) as nat);
    if i < before.len() {
        lemma_listing_candidates_qualify(policy, entries, (n - 1) as nat, i);
    } else {
        lemma_candidates_qualify(policy, entries[n - 1], i - before.len());
    }
}

/// A folder called `DirectX Redist`, in whatever case its name is written, is
/// skipped: the scan reports no game for it, whatever it holds.
pub proof fn lemma_directx_redist_skipped(policy: ExecutablePolicy, folder: FolderInfo)
    requires
        lowercase_of(folder.name@) == "directx redist"@,
    ensures
        is_skipped_name(folder.name@),
        game_for(policy, Entry::Folder(folder)) is None,
{
    reveal_strlit("directx redist");
    reveal_strlit("directx");
    let lower = lowercase_of(folder.name@);
    assert(lower.subrange(0, 7) =~= "directx"@);
    assert(occurs_at(lower, "directx"@, 0));
    assert(skip_fragments()[1] == "directx"@);
}

} // verus!
