use boilr::game_scan::{
    find_largest_exe, is_executable, is_skipped_folder, scan_folder, Entry, ExePath,
    ExecutablePolicy, FileInfo, FolderInfo, MIN_EXECUTABLE_SIZE,
};
use boilr::ident::generate_app_id;

const KIB: u64 = 1024;
const MIB: u64 = 1024 * 1024;

fn exe(dir: &str, name: &str, size: u64) -> Entry {
    Entry::File(FileInfo {
        path: ExePath { text: format!("{dir}/{name}"), parent: Some(dir.to_string()) },
        extension: name.rsplit_once('.').map(|(_, ext)| ext.to_string()),
        magic: None,
        size: Some(size),
    })
}

fn folder(name: &str, entries: Vec<Entry>) -> FolderInfo {
    FolderInfo { name: name.to_string(), listing: Some(entries) }
}

#[test]
fn test_scan_folder_empty() {
    let root = folder("games", vec![]);
    let games = scan_folder(ExecutablePolicy::Extension, &root);
    assert!(games.is_empty());
}

#[test]
fn unreadable_root_yields_nothing() {
    let root = FolderInfo { name: "games".to_string(), listing: None };
    assert!(scan_folder(ExecutablePolicy::Extension, &root).is_empty());
    assert!(find_largest_exe(ExecutablePolicy::Extension, &root).is_none());
}

#[test]
fn files_directly_in_the_root_are_no_games() {
    let root = folder("games", vec![exe("games", "big.exe", 5 * MIB)]);
    assert!(scan_folder(ExecutablePolicy::Extension, &root).is_empty());
}

#[test]
fn one_game_per_subfolder_with_name_path_size_and_id() {
    let root = folder(
        "games",
        vec![Entry::Folder(folder(
            "TestGame",
            vec![
                exe("games/TestGame", "launcher.exe", 9),
                exe("games/TestGame", "game.exe", MIB + 1),
            ],
        ))],
    );
    let games = scan_folder(ExecutablePolicy::Extension, &root);
    assert_eq!(games.len(), 1);
    assert_eq!(games[0].name, "TestGame");
    assert_eq!(games[0].path.text, "games/TestGame/game.exe");
    assert_eq!(games[0].path.parent, Some("games/TestGame".to_string()));
    assert_eq!(games[0].size_bytes, MIB + 1);
    assert_eq!(games[0].app_id, generate_app_id("TestGame", "games/TestGame/game.exe"));
}

#[test]
fn a_file_of_exactly_the_floor_does_not_qualify() {
    assert_eq!(MIN_EXECUTABLE_SIZE, 1_048_576);
    let root = folder(
        "games",
        vec![Entry::Folder(folder(
            "TestGame",
            vec![
                exe("games/TestGame", "launcher.exe", 9),
                exe("games/TestGame", "game.exe", MIB),
            ],
        ))],
    );
    assert!(scan_folder(ExecutablePolicy::Extension, &root).is_empty());
}

#[test]
fn size_floor() {
    let only_small =
        folder("games", vec![Entry::Folder(folder("Game", vec![exe("games/Game", "a.exe", 500 * KIB)]))]);
    assert!(scan_folder(ExecutablePolicy::Extension, &only_small).is_empty());

    let with_large = folder(
        "games",
        vec![Entry::Folder(folder(
            "Game",
            vec![exe("games/Game", "a.exe", 500 * KIB), exe("games/Game", "b.exe", 2 * MIB)],
        ))],
    );
    let games = scan_folder(ExecutablePolicy::Extension, &with_large);
    assert_eq!(games.len(), 1);
    assert_eq!(games[0].path.text, "games/Game/b.exe");
    assert_eq!(games[0].size_bytes, 2 * MIB);
}

#[test]
fn largest_wins_recursive() {
    let root = folder(
        "parent",
        vec![Entry::Folder(folder(
            "Game",
            vec![
                exe("parent/Game", "launcher.exe", 10 * KIB),
                Entry::Folder(folder("bin", vec![exe("parent/Game/bin", "core.exe", 5 * MIB)])),
            ],
        ))],
    );
    let games = scan_folder(ExecutablePolicy::Extension, &root);
    assert_eq!(games.len(), 1);
    assert_eq!(games[0].name, "Game");
    assert_eq!(games[0].path.text, "parent/Game/bin/core.exe");
    assert_eq!(games[0].path.parent, Some("parent/Game/bin".to_string()));
}

#[test]
fn largest_wins_across_depths_and_order() {
    let game = folder(
        "Game",
        vec![
            Entry::Folder(folder("a", vec![exe("Game/a", "x.exe", 3 * MIB)])),
            exe("Game", "top.exe", 7 * MIB),
            Entry::Folder(folder(
                "b",
                vec![Entry::Folder(folder("deep", vec![exe("Game/b/deep", "y.exe", 6 * MIB)]))],
            )),
        ],
    );
    let best = find_largest_exe(ExecutablePolicy::Extension, &game).unwrap();
    assert_eq!(best.path.text, "Game/top.exe");
}

#[test]
fn of_equal_sizes_the_first_found_stays() {
    let game = folder(
        "Game",
        vec![
            exe("Game", "first.exe", 4 * MIB),
            Entry::Folder(folder("sub", vec![exe("Game/sub", "second.exe", 4 * MIB)])),
            exe("Game", "third.exe", 4 * MIB),
        ],
    );
    let best = find_largest_exe(ExecutablePolicy::Extension, &game).unwrap();
    assert_eq!(best.path.text, "Game/first.exe");

    let game = folder(
        "Game",
        vec![
            Entry::Folder(folder("sub", vec![exe("Game/sub", "second.exe", 4 * MIB)])),
            exe("Game", "first.exe", 4 * MIB),
        ],
    );
    let best = find_largest_exe(ExecutablePolicy::Extension, &game).unwrap();
    assert_eq!(best.path.text, "Game/sub/second.exe");
}

#[test]
fn empty_and_unreadable_subfolders_are_passed_over() {
    let root = folder(
        "games",
        vec![
            Entry::Folder(folder("Empty", vec![])),
            Entry::Folder(FolderInfo { name: "Locked".to_string(), listing: None }),
            Entry::Folder(folder(
                "Mixed",
                vec![
                    Entry::Folder(FolderInfo { name: "locked".to_string(), listing: None }),
                    exe("games/Mixed", "game.exe", 2 * MIB),
                ],
            )),
        ],
    );
    let games = scan_folder(ExecutablePolicy::Extension, &root);
    assert_eq!(games.len(), 1);
    assert_eq!(games[0].name, "Mixed");
}

#[test]
fn a_file_without_a_known_size_does_not_qualify() {
    let file = Entry::File(FileInfo {
        path: ExePath { text: "Game/game.exe".to_string(), parent: Some("Game".to_string()) },
        extension: Some("exe".to_string()),
        magic: None,
        size: None,
    });
    let game = folder("Game", vec![file]);
    assert!(find_largest_exe(ExecutablePolicy::Extension, &game).is_none());
}

#[test]
fn games_come_in_the_order_of_the_listing() {
    let root = folder(
        "games",
        vec![
            Entry::Folder(folder("Zeta", vec![exe("games/Zeta", "z.exe", 2 * MIB)])),
            Entry::Folder(folder("Alpha", vec![exe("games/Alpha", "a.exe", 3 * MIB)])),
        ],
    );
    let games = scan_folder(ExecutablePolicy::Extension, &root);
    let names: Vec<&str> = games.iter().map(|g| g.name.as_str()).collect();
    assert_eq!(names, vec!["Zeta", "Alpha"]);
}

#[test]
fn skip_list_directx_redist_in_any_case() {
    for name in ["DirectX Redist", "directx redist", "DIRECTX REDIST", "dIrEcTx ReDiSt"] {
        assert!(is_skipped_folder(name));
        let root = folder(
            "games",
            vec![Entry::Folder(folder(name, vec![exe("games/x", "setup.exe", 50 * MIB)]))],
        );
        assert!(scan_folder(ExecutablePolicy::Extension, &root).is_empty());
    }
}

#[test]
fn skip_list_holds_every_fragment() {
    for name in [
        "Redist",
        "My DirectX",
        "dotNET 4.8",
        "VCRedist 2019",
        "_CommonRedist",
        "System32",
        "Windows",
        "Program Files",
        "Program Files (x86)",
    ] {
        assert!(is_skipped_folder(name), "{name}");
    }
    for name in ["Half-Life", "Doom", "", "Red Dead", "window"] {
        assert!(!is_skipped_folder(name), "{name}");
    }
}

#[test]
fn skipped_folders_do_not_hide_their_neighbours() {
    let root = folder(
        "games",
        vec![
            Entry::Folder(folder("_CommonRedist", vec![exe("games/r", "vc.exe", 20 * MIB)])),
            Entry::Folder(folder("Portal", vec![exe("games/Portal", "portal.exe", 3 * MIB)])),
        ],
    );
    let games = scan_folder(ExecutablePolicy::Extension, &root);
    assert_eq!(games.len(), 1);
    assert_eq!(games[0].name, "Portal");
}

fn file_with(extension: Option<&str>, magic: Option<[u8; 4]>) -> FileInfo {
    FileInfo {
        path: ExePath { text: "f".to_string(), parent: None },
        extension: extension.map(|e| e.to_string()),
        magic,
        size: Some(2 * MIB),
    }
}

#[test]
fn classifier_by_extension() {
    let p = ExecutablePolicy::Extension;
    assert!(is_executable(p, &file_with(Some("exe"), None)));
    assert!(is_executable(p, &file_with(Some("EXE"), None)));
    assert!(is_executable(p, &file_with(Some("eXe"), None)));
    assert!(!is_executable(p, &file_with(Some("ex"), None)));
    assert!(!is_executable(p, &file_with(Some("exes"), None)));
    assert!(!is_executable(p, &file_with(Some("dll"), None)));
    assert!(!is_executable(p, &file_with(Some(""), None)));
    assert!(!is_executable(p, &file_with(None, Some([0x7f, b'E', b'L', b'F']))));
}

#[test]
fn classifier_by_magic_bytes() {
    let p = ExecutablePolicy::MagicBytes;
    assert!(is_executable(p, &file_with(None, Some([0x7f, b'E', b'L', b'F']))));
    assert!(!is_executable(p, &file_with(Some("exe"), None)));
    assert!(!is_executable(p, &file_with(None, Some([0x7f, b'E', b'L', b'G']))));
    assert!(!is_executable(p, &file_with(None, Some([b'M', b'Z', 0x90, 0x00]))));
    assert!(!is_executable(p, &file_with(None, Some([0x7e, b'E', b'L', b'F']))));
}

#[test]
fn scan_with_magic_bytes() {
    let elf = Entry::File(FileInfo {
        path: ExePath { text: "games/Game/run".to_string(), parent: Some("games/Game".to_string()) },
        extension: None,
        magic: Some([0x7f, b'E', b'L', b'F']),
        size: Some(3 * MIB),
    });
    let data = Entry::File(FileInfo {
        path: ExePath {
            text: "games/Game/data.bin".to_string(),
            parent: Some("games/Game".to_string()),
        },
        extension: Some("bin".to_string()),
        magic: Some([0, 1, 2, 3]),
        size: Some(900 * MIB),
    });
    let root = folder("games", vec![Entry::Folder(folder("Game", vec![data, elf]))]);
    let games = scan_folder(ExecutablePolicy::MagicBytes, &root);
    assert_eq!(games.len(), 1);
    assert_eq!(games[0].path.text, "games/Game/run");
    assert!(scan_folder(ExecutablePolicy::Extension, &root).is_empty());
}
