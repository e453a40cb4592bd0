use boilr::game_scan::{ExePath, ScannedGame};
use boilr::ident::generate_app_id;
use boilr::progress::SyncProgress;
use boilr::renames::{get_rename_map, try_get_rename_map, RenameMapError};
use boilr::ui_state::{
    can_import, has_flag, import_message, is_fullscreen, needs_refetch, sync_status, ImportStep,
    Menues, ScanFolderState,
};

fn game(name: &str) -> ScannedGame {
    let path = format!("/games/{name}/{name}.exe");
    ScannedGame {
        name: name.to_string(),
        app_id: generate_app_id(name, &path),
        path: ExePath { text: path, parent: Some(format!("/games/{name}")) },
        size_bytes: 2_000_000,
    }
}

#[test]
fn rename_map_is_read_from_json() {
    let map = try_get_rename_map(Some("{\"2147483653\": \"Portal\", \"7\": \"Seven\"}")).unwrap();
    assert_eq!(map.len(), 2);
    assert_eq!(map[&2147483653], "Portal");
    assert_eq!(map[&7], "Seven");
    assert!(try_get_rename_map(Some("{}")).unwrap().is_empty());
    let map = get_rename_map(Some(" { \"12\" : \"a\\\"b\" } "));
    assert_eq!(map[&12], "a\"b");
    let map = get_rename_map(Some("{\"1\": \"first\", \"1\": \"second\"}"));
    assert_eq!(map.len(), 1);
    assert_eq!(map[&1], "second");
}

#[test]
fn a_rename_file_that_is_missing_or_malformed_stands_for_no_renames() {
    assert_eq!(try_get_rename_map(None).unwrap_err(), RenameMapError::Unreadable);
    for text in [
        "",
        "not json",
        "[1, 2]",
        "{\"a\": \"b\"}",
        "{\"-1\": \"b\"}",
        "{\"4294967296\": \"b\"}",
        "{\"1\": 2}",
        "{\"1\": \"a\"} trailing",
        "{\"1\": \"a\"",
        "{\"{\"1\": \"a\"}\"",
    ] {
        assert_eq!(try_get_rename_map(Some(text)).unwrap_err(), RenameMapError::Malformed);
        assert!(get_rename_map(Some(text)).is_empty());
    }
    assert!(get_rename_map(None).is_empty());
}

#[test]
fn status_line_for_each_phase() {
    assert_eq!(sync_status(&SyncProgress::NotStarted), (String::new(), false));
    assert_eq!(sync_status(&SyncProgress::Starting), ("Starting Import".to_string(), true));
    assert_eq!(
        sync_status(&SyncProgress::FoundGames { games_found: 12 }),
        ("Found 12 games to  import".to_string(), true)
    );
    assert_eq!(
        sync_status(&SyncProgress::FoundGames { games_found: 0 }),
        ("Found 0 games to  import".to_string(), true)
    );
    assert_eq!(
        sync_status(&SyncProgress::FindingImages),
        ("Searching for images".to_string(), true)
    );
    assert_eq!(
        sync_status(&SyncProgress::DownloadingImages { to_download: 305 }),
        ("Downloading 305 images ".to_string(), true)
    );
    assert_eq!(sync_status(&SyncProgress::Done), ("Done importing games".to_string(), false));
}

#[test]
fn import_needs_all_sources_and_no_running_sync() {
    assert!(can_import(true, &SyncProgress::NotStarted));
    assert!(can_import(true, &SyncProgress::Done));
    assert!(!can_import(false, &SyncProgress::NotStarted));
    assert!(!can_import(false, &SyncProgress::Done));
    assert!(!can_import(true, &SyncProgress::Starting));
    assert!(!can_import(true, &SyncProgress::FoundGames { games_found: 1 }));
    assert!(!can_import(true, &SyncProgress::FindingImages));
    assert!(!can_import(true, &SyncProgress::DownloadingImages { to_download: 1 }));
}

#[test]
fn scan_page_state() {
    let mut state = ScanFolderState::default();
    assert!(state.folder.is_none());
    assert!(state.found_games.is_empty());
    assert_eq!(state.added_shortcuts, 0);
    assert!(state.error.is_none());
    assert!(state.import_status.is_none());

    state.choose_folder("/games".to_string());
    assert_eq!(state.folder, Some("/games".to_string()));

    state.record_scan(vec![]);
    assert_eq!(state.error, Some("No games found in this folder.".to_string()));
    assert!(state.found_games.is_empty());

    state.record_scan(vec![game("A"), game("B")]);
    assert!(state.error.is_none());
    assert_eq!(state.found_games, vec![game("A"), game("B")]);

    state.report_import(&ImportStep::Importing);
    assert_eq!(state.import_status, Some("Importing shortcuts into Steam...".to_string()));
    state.record_scan(vec![]);
    assert_eq!(state.found_games, vec![game("A"), game("B")]);
    assert!(state.import_status.is_none());
    assert_eq!(state.error, Some("No games found in this folder.".to_string()));

    assert_eq!(
        state.import_sources(),
        vec![("ScannedFolder".to_string(), vec![game("A"), game("B")])]
    );

    state.added_shortcuts = 2;
    state.report_import(&ImportStep::Complete);
    state.choose_folder("/other".to_string());
    assert_eq!(state.folder, Some("/other".to_string()));
    assert!(state.found_games.is_empty());
    assert_eq!(state.added_shortcuts, 0);
    assert!(state.error.is_none());
    assert!(state.import_status.is_none());
}

#[test]
fn import_steps_in_words() {
    assert_eq!(
        import_message(&ImportStep::SettingsFailed("no file".to_string())),
        "Failed to load settings: no file"
    );
    assert_eq!(import_message(&ImportStep::Importing), "Importing shortcuts into Steam...");
    assert_eq!(
        import_message(&ImportStep::ImportFailed("disk full".to_string())),
        "Failed to import shortcuts: disk full"
    );
    assert_eq!(
        import_message(&ImportStep::DownloadingArtwork),
        "Downloading artwork from SteamGridDB..."
    );
    assert_eq!(
        import_message(&ImportStep::IconFixFailed("x".to_string())),
        "Could not fix shortcuts: x"
    );
    assert_eq!(import_message(&ImportStep::Complete), "Scan/import/artwork complete.");
}

#[test]
fn discovery_starts_anew_when_coming_from_the_settings() {
    assert_eq!(Menues::default(), Menues::Import);
    assert!(needs_refetch(true, Menues::Settings, Menues::Import));
    assert!(!needs_refetch(false, Menues::Settings, Menues::Import));
    assert!(!needs_refetch(true, Menues::Import, Menues::Settings));
    assert!(!needs_refetch(true, Menues::Backup, Menues::Import));
    assert!(!needs_refetch(true, Menues::Settings, Menues::Images));
    assert!(!needs_refetch(true, Menues::Disconnect, Menues::Disconnect));
}

#[test]
fn fullscreen_by_argument_or_by_the_host() {
    let none: Vec<String> = vec![];
    let flag = vec!["boilr".to_string(), "--fullscreen".to_string()];
    let other = vec!["--no-vsync".to_string(), "--fullscreens".to_string()];
    assert!(!is_fullscreen(&none, None));
    assert!(!is_fullscreen(&none, Some("")));
    assert!(is_fullscreen(&none, Some("480")));
    assert!(is_fullscreen(&flag, None));
    assert!(is_fullscreen(&flag, Some("")));
    assert!(!is_fullscreen(&other, None));
    assert!(has_flag(&other, "--no-vsync"));
    assert!(!has_flag(&other, "--fullscreen"));
    assert!(!has_flag(&none, ""));
}
